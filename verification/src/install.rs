//! Planning the installation of a toolchain, and where its files are.

use vstd::prelude::*;
use crate::desc::{ToolchainDesc, parses};
use crate::error::ToolchainError;
use crate::installer::{InstallerSource, accepted_installer, classify_installer, installer_outcome, url_parse};
use crate::text::opt_text;
use crate::path::{join, path_join};
pub use crate::path::Platform;
use crate::toolchain::{InstallMethodKind, Notification, RemoveAction, Toolchain, UpdateStatus, spec_uninstalls};

verus! {

/// The suffix of executable files.
pub open spec fn exe_suffix(p: Platform) -> Seq<char> {
    match p {
        Platform::Windows => seq!['.', 'e', 'x', 'e'],
        _ => Seq::empty(),
    }
}

/// The suffix of executable files.
pub fn exe_suffix_str(p: Platform) -> (r: &'static str)
    ensures
        r@ == exe_suffix(p),
{
    match p {
        Platform::Windows => {
            proof {
                reveal_strlit(".exe");
                assert(".exe"@ =~= exe_suffix(p));
            }
            ".exe"
        },
        _ => {
            proof {
                reveal_strlit("");
                assert(""@ =~= exe_suffix(p));
            }
            ""
        },
    }
}

/// The texts of a list of strings.
pub open spec fn texts(v: Seq<String>) -> Seq<Seq<char>> {
    v.map_values(|s: String| s@)
}

/// The texts of a list of string slices.
pub open spec fn str_texts(v: Seq<&str>) -> Seq<Seq<char>> {
    v.map_values(|s: &str| s@)
}

/// Owned copies of `xs`.
pub fn to_strings(xs: &[&str]) -> (r: Vec<String>)
    ensures
        texts(r@) == str_texts(xs@),
{
    let mut r: Vec<String> = Vec::new();
    let n = xs.len();
    let mut i: usize = 0;
    while i < n
        invariant
            n == xs@.len(),
            i <= n,
            r@.len() == i,
            forall|k: int| 0 <= k < i ==> (#[trigger] r@[k])@ == xs@[k]@,
        decreases n - i,
    {
        r.push(String::from_str(xs[i]));
        i = i + 1;
    }
    assert(texts(r@) =~= str_texts(xs@));
    r
}

/// What an installation from the distribution server is given.
#[derive(Debug)]
pub struct DistInstall {
    pub desc: ToolchainDesc,
    pub update_hash: Option<String>,
    pub force_update: bool,
    /// Whether the toolchain existed before.
    pub present: bool,
    /// The date of the manifest installed before, if any.
    pub old_date: Option<String>,
    pub components: Vec<String>,
    pub targets: Vec<String>,
}

/// The installers of a custom toolchain: the removal of what was installed before, the
/// installers installed in order, then the error of the first refused one, if any.
#[derive(Debug)]
pub struct InstallersPlan {
    /// How the toolchain is removed before anything is installed.
    pub removal: (Notification, RemoveAction),
    pub sources: Vec<InstallerSource>,
    pub failure: Option<ToolchainError>,
}

/// Installing from the distribution server only if missing.
#[derive(Debug)]
pub struct DistIfMissing {
    /// What the installation is given, if it runs.
    pub plan: DistInstall,
    /// What is reported before anything is installed.
    pub notes: Vec<Notification>,
    /// `Some(Unchanged)` when the toolchain is present and nothing is installed.
    pub done: Option<UpdateStatus>,
}

/// How a custom toolchain is installed from a directory.
#[derive(Debug)]
pub struct DirInstall {
    /// `Link` or `Copy`.
    pub method: InstallMethodKind,
    /// The directory installed from (made absolute before it is linked).
    pub source: String,
}

/// The paths checked before a directory is installed: `lib` and `bin` must be
/// directories, and `bin` must hold the `rustc` executable.
pub open spec fn spec_dir_checks(src: Seq<char>, platform: Platform) -> (Seq<char>, Seq<char>, Seq<char>) {
    (
        path_join(platform, src, "lib"@),
        path_join(platform, src, "bin"@),
        path_join(platform, path_join(platform, src, "bin"@), "rustc"@ + exe_suffix(platform)),
    )
}

/// The paths checked before the directory `src` is installed: its `lib`, its `bin`, and
/// the `rustc` executable in `bin`.
pub fn dir_install_checks(src: &str, platform: Platform) -> (r: (String, String, String))
    ensures
        (r.0@, r.1@, r.2@) == spec_dir_checks(src@, platform),
{
    let lib = join(platform, src, "lib");
    let bin = join(platform, src, "bin");
    let rustc = String::from_str("rustc").concat(exe_suffix_str(platform));
    let rustc_path = join(platform, bin.as_str(), rustc.as_str());
    (lib, bin, rustc_path)
}

/// Where the toolchain's documentation lives under its directory.
pub open spec fn spec_doc_path(p: Platform, base: Seq<char>, relative: Seq<char>) -> Seq<char> {
    path_join(
        p,
        path_join(p, path_join(p, path_join(p, path_join(p, base, "share"@), "doc"@), "rust"@), "html"@),
        relative,
    )
}

impl<'a> Toolchain<'a> {
    /// What an installation from the distribution server is given: the descriptor, the
    /// update-hash file and the caller's choices.
    pub fn install_from_dist(
        &self,
        force_update: bool,
        components: &[&str],
        targets: &[&str],
        present: bool,
        old_date: Option<String>,
    ) -> (r: Result<DistInstall, ToolchainError>)
        ensures
            r is Err <==> !parses(self.spec_name()),
            r matches Err(e) ==> (e matches ToolchainError::InvalidToolchainName(n) && n@
                == self.spec_name()),
            r matches Ok(p) ==> {
                &&& p.desc.read_from(self.spec_name())
                &&& opt_text(p.update_hash) == self.spec_update_hash()
                &&& p.force_update == force_update
                &&& p.present == present
                &&& p.old_date == old_date
                &&& texts(p.components@) == str_texts(components@)
                &&& texts(p.targets@) == str_texts(targets@)
            },
    {
        let update_hash = self.update_hash();
        let desc = self.desc()?;
        Ok(
            DistInstall {
                desc,
                update_hash,
                force_update,
                present,
                old_date,
                components: to_strings(components),
                targets: to_strings(targets),
            },
        )
    }

    /// Installing from the distribution server only if the toolchain is missing: what
    /// the installation would be given, what is reported first, and, for a present
    /// toolchain, the status `Unchanged` with nothing installed.
    pub fn install_from_dist_if_not_installed(&self, present: bool) -> (r: Result<
        DistIfMissing,
        ToolchainError,
    >)
        ensures
            r is Err <==> !parses(self.spec_name()),
            r matches Err(e) ==> (e matches ToolchainError::InvalidToolchainName(n) && n@
                == self.spec_name()),
            r matches Ok(p) ==> {
                &&& p.plan.desc.read_from(self.spec_name())
                &&& opt_text(p.plan.update_hash) == self.spec_update_hash()
                &&& !p.plan.force_update
                &&& !p.plan.present
                &&& p.plan.old_date is None
                &&& p.plan.components@.len() == 0
                &&& p.plan.targets@.len() == 0
                &&& p.done == (if present { Some(UpdateStatus::Unchanged) } else { None::<UpdateStatus> })
                &&& p.notes@.len() == (if present { 2int } else { 1int })
                &&& p.notes@[0] matches Notification::LookingForToolchain(n) && n@ == self.spec_name()
                &&& present ==> (p.notes@[1] matches Notification::UsingExistingToolchain(n) && n@
                    == self.spec_name())
            },
    {
        let update_hash = self.update_hash();
        let desc = self.desc()?;
        let (notes, done) = self.install_if_not_installed(InstallMethodKind::Dist, present);
        let plan = DistInstall {
            desc,
            update_hash,
            force_update: false,
            present: false,
            old_date: None,
            components: Vec::new(),
            targets: Vec::new(),
        };
        Ok(DistIfMissing { plan, notes, done })
    }

    /// Installing a custom toolchain from installers: the toolchain is first removed (as
    /// `remove` decides, given whether it is present or linked), then each installer is
    /// read from where it is, in order, up to the first installer that is refused, whose
    /// error then ends the call; those before the refused one stay installed.
    pub fn install_from_installers(&self, installers: &[&str], present: bool, is_symlink: bool) -> (r: Result<
        InstallersPlan,
        ToolchainError,
    >)
        ensures
            r is Err <==> !self.spec_is_custom(),
            r matches Err(e) ==> (e matches ToolchainError::InvalidCustomToolchainName(n) && n@
                == self.spec_name()),
            r matches Ok(p) ==> {
                let k = p.sources@.len();
                &&& spec_uninstalls(present, is_symlink) ==> (p.removal.0 matches Notification::UninstallingToolchain(n)
                    && n@ == self.spec_name() && p.removal.1 matches RemoveAction::Uninstall(None))
                &&& !spec_uninstalls(present, is_symlink) ==> (p.removal.0 matches Notification::ToolchainNotInstalled(n)
                    && n@ == self.spec_name() && p.removal.1 is Done)
                &&& k <= installers@.len()
                &&& forall|i: int|
                    0 <= i < k ==> installer_outcome(
                        installers@[i]@,
                        url_parse(installers@[i]@),
                        Ok::<InstallerSource, ToolchainError>(#[trigger] p.sources@[i]),
                    )
                &&& k < installers@.len() ==> !accepted_installer(installers@[k as int]@) && (
                p.failure matches Some(e) && installer_outcome(
                    installers@[k as int]@,
                    url_parse(installers@[k as int]@),
                    Err::<InstallerSource, ToolchainError>(e),
                ))
                &&& k == installers@.len() ==> p.failure is None
            },
    {
        self.ensure_custom()?;
        let removal = self.remove(present, is_symlink);
        let mut sources: Vec<InstallerSource> = Vec::new();
        let n = installers.len();
        let mut i: usize = 0;
        while i < n
            invariant
                n == installers@.len(),
                i <= n,
                self.spec_is_custom(),
                spec_uninstalls(present, is_symlink) ==> (removal.0 matches Notification::UninstallingToolchain(n)
                    && n@ == self.spec_name() && removal.1 matches RemoveAction::Uninstall(None)),
                !spec_uninstalls(present, is_symlink) ==> (removal.0 matches Notification::ToolchainNotInstalled(n)
                    && n@ == self.spec_name() && removal.1 is Done),
                sources@.len() == i,
                forall|k: int|
                    0 <= k < i ==> installer_outcome(
                        installers@[k]@,
                        url_parse(installers@[k]@),
                        Ok::<InstallerSource, ToolchainError>(#[trigger] sources@[k]),
                    ),
            decreases n - i,
        {
            let r = classify_installer(installers[i]);
            let ghost s = installers@[i as int]@;
            match r {
                Ok(src) => {
                    let ghost g = src;
                    proof {
                        assert(installer_outcome(s, url_parse(s), Ok::<InstallerSource, ToolchainError>(g)));
                        assert(accepted_installer(s));
                    }
                    let ghost before = sources@;
                    sources.push(src);
                    proof {
                        assert(sources@[i as int] == g);
                        assert forall|k: int| 0 <= k < i + 1 implies installer_outcome(
                            installers@[k]@,
                            url_parse(installers@[k]@),
                            Ok::<InstallerSource, ToolchainError>(#[trigger] sources@[k]),
                        ) by {
                            if k < i {
                                assert(sources@[k] == before[k]);
                            }
                        }
                    }
                },
                Err(e) => {
                    proof {
                        assert(installer_outcome(s, url_parse(s), Err::<InstallerSource, ToolchainError>(e)));
                        assert(!accepted_installer(s));
                    }
                    return Ok(InstallersPlan { removal, sources, failure: Some(e) });
                },
            }
            i = i + 1;
        }
        Ok(InstallersPlan { removal, sources, failure: None })
    }

    /// Installing a custom toolchain from the directory `src`, given what the paths of
    /// `dir_install_checks` are: the first of `lib` (a directory), `bin` (a directory)
    /// and `bin/rustc` (a file) that is not what it must be ends the call with its error,
    /// and nothing is installed; otherwise the directory is linked or copied.
    pub fn install_from_dir(
        &self,
        src: &str,
        link: bool,
        lib_is_dir: bool,
        bin_is_dir: bool,
        rustc_is_file: bool,
    ) -> (r: Result<DirInstall, ToolchainError>)
        ensures
            ({
                let (lib, bin, rustc) = spec_dir_checks(src@, self.spec_cfg().platform);
                if !self.spec_is_custom() {
                    r matches Err(ToolchainError::InvalidCustomToolchainName(n)) && n@ == self.spec_name()
                } else if !lib_is_dir {
                    r matches Err(ToolchainError::NotADirectory(p)) && p@ == lib
                } else if !bin_is_dir {
                    r matches Err(ToolchainError::NotADirectory(p)) && p@ == bin
                } else if !rustc_is_file {
                    r matches Err(ToolchainError::NotAFile(p)) && p@ == rustc
                } else {
                    r matches Ok(p) && p.method == (if link {
                        InstallMethodKind::Link
                    } else {
                        InstallMethodKind::Copy
                    }) && p.source@ == src@
                }
            }),
    {
        self.ensure_custom()?;
        let (lib, bin, rustc) = dir_install_checks(src, self.cfg().platform);
        if !lib_is_dir {
            return Err(ToolchainError::NotADirectory(lib));
        }
        if !bin_is_dir {
            return Err(ToolchainError::NotADirectory(bin));
        }
        if !rustc_is_file {
            return Err(ToolchainError::NotAFile(rustc));
        }
        let method = if link {
            InstallMethodKind::Link
        } else {
            InstallMethodKind::Copy
        };
        Ok(DirInstall { method, source: String::from_str(src) })
    }

    /// The path of the documentation page `relative`, once the directory is verified.
    pub fn doc_path(&self, relative: &str, is_directory: bool) -> (r: Result<String, ToolchainError>)
        ensures
            r is Ok <==> is_directory,
            r matches Ok(p) ==> p@ == spec_doc_path(self.spec_cfg().platform, self.spec_path(), relative@),
            r matches Err(e) ==> (e matches ToolchainError::NotADirectory(p) && p@ == self.spec_path()),
    {
        self.verify(is_directory)?;
        let p = self.cfg().platform;
        let mut d = join(p, self.path(), "share");
        d = join(p, d.as_str(), "doc");
        d = join(p, d.as_str(), "rust");
        d = join(p, d.as_str(), "html");
        Ok(join(p, d.as_str(), relative))
    }

    /// The documentation page to open in a browser, once the directory is verified.
    pub fn open_docs(&self, relative: &str, is_directory: bool) -> (r: Result<String, ToolchainError>)
        ensures
            r is Ok <==> is_directory,
            r matches Ok(p) ==> p@ == spec_doc_path(self.spec_cfg().platform, self.spec_path(), relative@),
            r matches Err(e) ==> (e matches ToolchainError::NotADirectory(p) && p@ == self.spec_path()),
    {
        self.verify(is_directory)?;
        self.doc_path(relative, is_directory)
    }

    /// The path of the executable `name` in the toolchain's `bin` directory.
    pub fn binary_file(&self, name: &str) -> (r: String)
        ensures
            ({
                let p = self.spec_cfg().platform;
                r@ == path_join(p, path_join(p, self.spec_path(), "bin"@), name@ + exe_suffix(p))
            }),
    {
        let platform = self.cfg().platform;
        let bin = join(platform, self.path(), "bin");
        let file = String::from_str(name).concat(exe_suffix_str(platform));
        join(platform, bin.as_str(), file.as_str())
    }
}

} // verus!
