//! A toolchain: its name, its directory, and the decisions its operations make.

use vstd::prelude::*;
use crate::desc::{ToolchainDesc, parse_desc, parses};
use crate::error::ToolchainError;
use crate::path::{Platform, join, path_join};

verus! {

/// The configuration that toolchains read.
pub struct Cfg {
    /// The directory that holds one directory per toolchain.
    pub toolchains_dir: String,
    /// The directory that holds one update-hash file per distributed toolchain.
    pub update_hash_dir: String,
    /// The root of rustup's own files.
    pub rustup_dir: String,
    /// The platform whose conventions paths and executables follow.
    pub platform: Platform,
}

/// A toolchain, by its (resolved) name and its directory.
pub struct Toolchain<'a> {
    pub(crate) cfg: &'a Cfg,
    pub(crate) name: String,
    pub(crate) path: String,
}

/// What an installation did.
#[derive(Clone, Copy, Debug, PartialEq, Eq, Structural)]
pub enum UpdateStatus {
    Installed,
    Updated,
    Unchanged,
}

/// How a toolchain is installed.
#[derive(Clone, Copy, Debug, PartialEq, Eq, Structural)]
pub enum InstallMethodKind {
    /// A copy of a directory.
    Copy,
    /// A link to a directory.
    Link,
    /// From installer archives.
    Installer,
    /// From the distribution server.
    Dist,
}

/// What a toolchain operation reports as it goes.
#[derive(Debug)]
pub enum Notification {
    UninstallingToolchain(String),
    ToolchainNotInstalled(String),
    UninstalledToolchain(String),
    UpdatingToolchain(String),
    InstallingToolchain(String),
    /// The toolchain's directory and name.
    ToolchainDirectory(String, String),
    UpdateHashMatches,
    InstalledToolchain(String),
    LookingForToolchain(String),
    UsingExistingToolchain(String),
}

/// What removing a toolchain goes on to do.
#[derive(Debug)]
pub enum RemoveAction {
    /// Nothing: the toolchain is not installed.
    Done,
    /// Delete the update-hash file, if there is one, then uninstall the directory.
    Uninstall(Option<String>),
}

/// The status that an installation reports, from whether it changed anything and
/// whether the toolchain existed before.
pub open spec fn spec_update_status(updated: bool, existed: bool) -> UpdateStatus {
    if !updated {
        UpdateStatus::Unchanged
    } else if existed {
        UpdateStatus::Updated
    } else {
        UpdateStatus::Installed
    }
}

/// Whether removing goes on to uninstall: the toolchain is present, or a link stands in
/// its place.
pub open spec fn spec_uninstalls(present: bool, is_symlink: bool) -> bool {
    present || is_symlink
}

impl<'a> Toolchain<'a> {
    /// A toolchain's directory is the toolchains directory joined with its name.
    #[verifier::type_invariant]
    spec fn well_formed(&self) -> bool {
        self.path@ == path_join(self.cfg.platform, self.cfg.toolchains_dir@, self.name@)
    }

    /// The toolchain's name.
    pub closed spec fn spec_name(&self) -> Seq<char> {
        self.name@
    }

    /// The toolchain's directory.
    pub closed spec fn spec_path(&self) -> Seq<char> {
        self.path@
    }

    /// The configuration the toolchain belongs to.
    pub closed spec fn spec_cfg(&self) -> Cfg {
        *self.cfg
    }

    /// The configuration the toolchain belongs to.
    pub fn cfg(&self) -> (r: &Cfg)
        ensures
            *r == self.spec_cfg(),
    {
        self.cfg
    }

    /// A toolchain is custom when its name does not read as a descriptor.
    pub open spec fn spec_is_custom(&self) -> bool {
        !parses(self.spec_name())
    }

    /// A fully resolved reference to a toolchain, which may or may not exist: the name
    /// that the configuration resolved (a partial name completed with the host's target),
    /// in its directory under the toolchains directory. A resolution that failed is
    /// passed on, and no toolchain is made.
    pub fn from<E>(cfg: &'a Cfg, resolved: Result<String, E>) -> (r: Result<Toolchain<'a>, E>)
        ensures
            resolved matches Err(e) ==> r == Err::<Toolchain<'a>, E>(e),
            resolved matches Ok(n) ==> (r matches Ok(t) && t.spec_cfg() == *cfg && t.spec_name() == n@
                && t.spec_path() == path_join(cfg.platform, cfg.toolchains_dir@, n@)),
    {
        let name = resolved?;
        let path = join(cfg.platform, cfg.toolchains_dir.as_str(), name.as_str());
        Ok(Toolchain { cfg, name, path })
    }

    pub fn name(&self) -> (r: &str)
        ensures
            r@ == self.spec_name(),
    {
        self.name.as_str()
    }

    /// The toolchain's directory: always the toolchains directory joined with its name.
    pub fn path(&self) -> (r: &str)
        ensures
            r@ == self.spec_path(),
            r@ == path_join(self.spec_cfg().platform, self.spec_cfg().toolchains_dir@, self.spec_name()),
    {
        proof {
            use_type_invariant(self);
        }
        self.path.as_str()
    }

    /// The descriptor that the name reads as.
    pub fn desc(&self) -> (r: Result<ToolchainDesc, ToolchainError>)
        ensures
            match r {
                Ok(d) => d.read_from(self.spec_name()),
                Err(e) => !parses(self.spec_name()) && (e matches ToolchainError::InvalidToolchainName(n)
                    && n@ == self.spec_name()),
            },
    {
        match parse_desc(self.name.as_str()) {
            Some(d) => Ok(d),
            None => Err(ToolchainError::InvalidToolchainName(self.name.clone())),
        }
    }

    /// Whether the toolchain is installed: its directory exists, or, on Windows, a link
    /// stands in its place.
    pub fn is_present(&self, is_directory: bool, is_symlink: bool, on_windows: bool) -> (r: bool)
        ensures
            r == (is_directory || (on_windows && is_symlink)),
    {
        is_directory || (on_windows && is_symlink)
    }

    /// Succeeds when the toolchain's path is a directory.
    pub fn verify(&self, is_directory: bool) -> (r: Result<(), ToolchainError>)
        ensures
            r is Ok <==> is_directory,
            r matches Err(e) ==> (e matches ToolchainError::NotADirectory(p) && p@ == self.spec_path()),
    {
        if is_directory {
            Ok(())
        } else {
            Err(ToolchainError::NotADirectory(self.path.clone()))
        }
    }

    /// Whether the name does not read as a descriptor.
    pub fn is_custom(&self) -> (r: bool)
        ensures
            r == self.spec_is_custom(),
    {
        parse_desc(self.name.as_str()).is_none()
    }

    /// Whether the name reads as a descriptor that follows a channel.
    pub fn is_tracking(&self) -> (r: bool)
        ensures
            r == exists|d: ToolchainDesc| d.read_from(self.spec_name()) && #[trigger] d.spec_is_tracking(),
    {
        match parse_desc(self.name.as_str()) {
            Some(d) => {
                let t = d.is_tracking();
                proof {
                    assert forall|e: ToolchainDesc| e.read_from(self.spec_name()) implies #[trigger] e.spec_is_tracking()
                        == d.spec_is_tracking() by {
                        crate::desc::lemma_describes_unique(
                            self.spec_name(),
                            d.channel@,
                            d.date_view(),
                            d.target@,
                            e.channel@,
                            e.date_view(),
                            e.target@,
                        );
                    }
                }
                t
            },
            None => false,
        }
    }

    /// Succeeds on a custom toolchain.
    pub fn ensure_custom(&self) -> (r: Result<(), ToolchainError>)
        ensures
            r is Ok <==> self.spec_is_custom(),
            r matches Err(e) ==> (e matches ToolchainError::InvalidCustomToolchainName(n) && n@
                == self.spec_name()),
    {
        if !self.is_custom() {
            Err(ToolchainError::InvalidCustomToolchainName(self.name.clone()))
        } else {
            Ok(())
        }
    }

    /// Custom toolchains are copied, linked or built from installers; the others come
    /// from the distribution server.
    pub open spec fn spec_valid_install_method(&self, method: InstallMethodKind) -> bool {
        match method {
            InstallMethodKind::Dist => !self.spec_is_custom(),
            _ => self.spec_is_custom(),
        }
    }

    pub fn is_valid_install_method(&self, method: InstallMethodKind) -> (r: bool)
        ensures
            r == self.spec_valid_install_method(method),
    {
        match method {
            InstallMethodKind::Dist => !self.is_custom(),
            _ => self.is_custom(),
        }
    }

    /// The file that records the hash of the last update: none for a custom toolchain.
    pub open spec fn spec_update_hash(&self) -> Option<Seq<char>> {
        if self.spec_is_custom() {
            None
        } else {
            Some(path_join(self.spec_cfg().platform, self.spec_cfg().update_hash_dir@, self.spec_name()))
        }
    }

    /// The file that records the hash of the last update, for a distributed toolchain.
    pub fn update_hash(&self) -> (r: Option<String>)
        ensures
            crate::text::opt_text(r) == self.spec_update_hash(),
    {
        if self.is_custom() {
            None
        } else {
            Some(join(self.cfg.platform, self.cfg.update_hash_dir.as_str(), self.name.as_str()))
        }
    }

    /// What installing reports before it runs the method: whether it updates or
    /// installs, then the directory.
    pub fn install(&self, method: InstallMethodKind, present: bool) -> (r: Vec<Notification>)
        requires
            self.spec_valid_install_method(method),
        ensures
            r@.len() == 2,
            present ==> (r@[0] matches Notification::UpdatingToolchain(n) && n@ == self.spec_name()),
            !present ==> (r@[0] matches Notification::InstallingToolchain(n) && n@ == self.spec_name()),
            r@[1] matches Notification::ToolchainDirectory(p, n) && p@ == self.spec_path() && n@
                == self.spec_name(),
    {
        let mut r: Vec<Notification> = Vec::new();
        if present {
            r.push(Notification::UpdatingToolchain(self.name.clone()));
        } else {
            r.push(Notification::InstallingToolchain(self.name.clone()));
        }
        r.push(Notification::ToolchainDirectory(self.path.clone(), self.name.clone()));
        r
    }

    /// What installing reports once the method has run, and its status. A run that
    /// failed ends the installation with its error, and nothing more is reported.
    pub fn install_outcome<E>(&self, present: bool, run: Result<bool, E>) -> (r: Result<
        (Notification, UpdateStatus),
        E,
    >)
        ensures
            run matches Err(e) ==> r == Err::<(Notification, UpdateStatus), E>(e),
            run matches Ok(updated) ==> (r matches Ok(o) && o.1 == spec_update_status(updated, present)
                && (updated ==> (o.0 matches Notification::InstalledToolchain(n) && n@
                == self.spec_name())) && (!updated ==> o.0 is UpdateHashMatches)),
    {
        let updated = run?;
        let n = if !updated {
            Notification::UpdateHashMatches
        } else {
            Notification::InstalledToolchain(self.name.clone())
        };
        let status = match (updated, present) {
            (true, false) => UpdateStatus::Installed,
            (true, true) => UpdateStatus::Updated,
            (false, true) => UpdateStatus::Unchanged,
            (false, false) => UpdateStatus::Unchanged,
        };
        Ok((n, status))
    }

    /// Installs only what is missing: reports the lookup; a present toolchain is then
    /// reported as used, with the status `Unchanged` and nothing installed (`Some`); a
    /// missing one goes on to `install` (`None`).
    pub fn install_if_not_installed(&self, method: InstallMethodKind, present: bool) -> (r: (
        Vec<Notification>,
        Option<UpdateStatus>,
    ))
        requires
            self.spec_valid_install_method(method),
        ensures
            r.1 == (if present { Some(UpdateStatus::Unchanged) } else { None::<UpdateStatus> }),
            r.0@.len() == (if present { 2int } else { 1int }),
            r.0@[0] matches Notification::LookingForToolchain(n) && n@ == self.spec_name(),
            present ==> (r.0@[1] matches Notification::UsingExistingToolchain(n) && n@ == self.spec_name()),
    {
        let mut notes: Vec<Notification> = Vec::new();
        notes.push(Notification::LookingForToolchain(self.name.clone()));
        if !present {
            (notes, None)
        } else {
            notes.push(Notification::UsingExistingToolchain(self.name.clone()));
            (notes, Some(UpdateStatus::Unchanged))
        }
    }

    /// Starts removing the toolchain: reports whether it is uninstalled, and, if so,
    /// which update-hash file goes with it.
    pub fn remove(&self, present: bool, is_symlink: bool) -> (r: (Notification, RemoveAction))
        ensures
            spec_uninstalls(present, is_symlink) ==> (r.0 matches Notification::UninstallingToolchain(n) && n@
                == self.spec_name()) && (r.1 matches RemoveAction::Uninstall(h) && crate::text::opt_text(h)
                == self.spec_update_hash()),
            !spec_uninstalls(present, is_symlink) ==> (r.0 matches Notification::ToolchainNotInstalled(n) && n@
                == self.spec_name()) && r.1 is Done,
    {
        if present || is_symlink {
            (Notification::UninstallingToolchain(self.name.clone()), RemoveAction::Uninstall(self.update_hash()))
        } else {
            (Notification::ToolchainNotInstalled(self.name.clone()), RemoveAction::Done)
        }
    }

    /// Goes on removing once the update-hash file is dealt with (`Ok` when there was
    /// none): a deletion that failed ends the removal with its error, the directory left
    /// in place and nothing more reported; otherwise the directory to uninstall.
    pub fn remove_after_hash<E>(&self, deleted: Result<(), E>) -> (r: Result<String, E>)
        ensures
            deleted matches Err(e) ==> r == Err::<String, E>(e),
            deleted is Ok ==> (r matches Ok(p) && p@ == self.spec_path()),
    {
        deleted?;
        Ok(self.path.clone())
    }

    /// Finishes removing: reports the removal when the directory is gone, and ends with
    /// what uninstalling the directory gave.
    pub fn remove_finished<E>(&self, uninstalled: Result<(), E>, exists_after: bool) -> (r: (
        Option<Notification>,
        Result<(), E>,
    ))
        ensures
            r.1 == uninstalled,
            exists_after ==> r.0 is None,
            !exists_after ==> (r.0 matches Some(Notification::UninstalledToolchain(n)) && n@
                == self.spec_name()),
    {
        if !exists_after {
            (Some(Notification::UninstalledToolchain(self.name.clone())), uninstalled)
        } else {
            (None, uninstalled)
        }
    }
}

} // verus!
