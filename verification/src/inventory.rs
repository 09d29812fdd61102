//! What a toolchain holds: its manifest, its version and its components.

use vstd::prelude::*;
use crate::component::{Component, ComponentStatus, Config, Manifest, TargetedPackage, any_true, closest_suggestion, component_statuses, component_suggestion, contains, lemma_sort_len, listed_components, listed_eligible, reports, resolvable, sort_components, spec_contains, spec_installed, spec_renamed, spec_wildcard, targets_get};
use crate::desc::{ToolchainDesc, parses, desc_target, lemma_desc_target};
use crate::error::ToolchainError;
use crate::text::opt_text;
use crate::toolchain::Toolchain;

verus! {

/// Where a toolchain's installed manifest is read from.
#[derive(Debug)]
pub struct ManifestSource {
    /// The toolchain's directory.
    pub prefix: String,
    /// The target the toolchain was installed for.
    pub target: String,
}

/// The components to add and to remove in one update.
#[derive(Debug)]
pub struct Changes {
    pub add: Vec<Component>,
    pub remove: Vec<Component>,
}

/// A change of the settings file.
#[derive(Debug)]
pub enum SettingsChange {
    /// Make the toolchain the default one.
    Default(String),
    /// Use the toolchain (second) for the directory (first).
    Override(String, String),
}

pub open spec fn rust_pkg() -> Seq<char> {
    seq!['r', 'u', 's', 't']
}

/// The `rust` package of the manifest, for `target`.
pub open spec fn rust_package_for(m: Manifest, target: Seq<char>) -> Option<TargetedPackage> {
    match m.spec_package(rust_pkg()) {
        Some(p) => targets_get(p.targets, target),
        None => None,
    }
}

/// The manifest describes the `rust` package for `target` and every component of it.
pub open spec fn listable(m: Manifest, target: Seq<char>) -> bool {
    &&& rust_package_for(m, target) is Some
    &&& forall|i: int|
        0 <= i < rust_package_for(m, target).unwrap().components@.len() ==> resolvable(
            m,
            #[trigger] rust_package_for(m, target).unwrap().components@[i],
        )
}

/// The component as the manifest names it.
pub open spec fn renamed_or_same(m: Manifest, c: Component) -> Component {
    match spec_renamed(m, c) {
        Some(rc) => rc,
        None => c,
    }
}

/// The component that an update uses for `c` given the components it may use: `c`
/// itself, or its all-targets form, or neither.
pub open spec fn chosen_component(cs: Seq<Component>, c: Component) -> Option<Component> {
    if spec_contains(cs, c) {
        Some(c)
    } else if spec_contains(cs, spec_wildcard(c)) {
        Some(spec_wildcard(c))
    } else {
        None
    }
}

/// The components that listing a toolchain's components reports on, in order: those
/// of the `rust` package for the target that the name `name` reads as.
pub open spec fn listing_components(m: Manifest, name: Seq<char>) -> Seq<Component> {
    sort_components(rust_package_for(m, desc_target(name)).unwrap().components@)
}

/// Which of `comps` the search for a suggestion considers: all of them, or only those
/// that the installed configuration has.
pub open spec fn listing_eligible(comps: Seq<Component>, config: Option<Config>, only_installed: bool) -> Seq<
    bool,
> {
    Seq::new(comps.len(), |i: int| !only_installed || spec_installed(config, comps[i]))
}

/// The suggestion for `c` among the components that the toolchain `name` lists: none
/// when they cannot be listed (the toolchain is missing or its name is no descriptor).
pub open spec fn spec_component_suggestion(
    m: Manifest,
    config: Option<Config>,
    name: Seq<char>,
    present: bool,
    c: Component,
    only_installed: bool,
) -> Option<Seq<char>> {
    if present && parses(name) {
        let comps = listing_components(m, name);
        closest_suggestion(m, c, comps, listing_eligible(comps, config, only_installed))
    } else {
        None
    }
}

/// Where the components can be listed, the manifest describes them all and some of them
/// take part in the search for a suggestion.
pub open spec fn suggestable(
    m: Manifest,
    config: Option<Config>,
    name: Seq<char>,
    present: bool,
    only_installed: bool,
) -> bool {
    present && parses(name) ==> {
        &&& listable(m, desc_target(name))
        &&& any_true(listing_eligible(listing_components(m, name), config, only_installed))
    }
}

/// The checks that reading a toolchain's components starts with, as a result.
pub open spec fn components_gate(
    name: Seq<char>,
    present: bool,
    manifest: Option<&Manifest>,
    r: Result<(), ToolchainError>,
) -> bool {
    if !present {
        r matches Err(ToolchainError::ToolchainNotInstalled(n)) && n@ == name
    } else if !parses(name) || manifest is None {
        r matches Err(ToolchainError::ComponentsUnsupported(n)) && n@ == name
    } else {
        r is Ok
    }
}

impl<'a> Toolchain<'a> {
    /// Where the installed manifest is read from, once the toolchain exists and its name
    /// reads as a descriptor.
    pub fn get_manifest(&self, present: bool) -> (r: Result<ManifestSource, ToolchainError>)
        ensures
            !present ==> (r matches Err(ToolchainError::ToolchainNotInstalled(n)) && n@
                == self.spec_name()),
            present && !parses(self.spec_name()) ==> (r matches Err(ToolchainError::InvalidToolchainName(n))
                && n@ == self.spec_name()),
            present && parses(self.spec_name()) ==> (r matches Ok(s) && s.prefix@ == self.spec_path()
                && s.target@ == desc_target(self.spec_name())),
    {
        if !present {
            return Err(ToolchainError::ToolchainNotInstalled(String::from_str(self.name())));
        }
        let d = self.desc()?;
        proof {
            lemma_desc_target(self.spec_name(), d);
        }
        Ok(ManifestSource { prefix: String::from_str(self.path()), target: d.target })
    }

    /// The version of the installed toolchain, from the manifest read where
    /// `get_manifest` says (`None` when there is none).
    pub fn show_version(&self, present: bool, manifest: Option<&Manifest>) -> (r: Result<
        Option<String>,
        ToolchainError,
    >)
        requires
            manifest matches Some(m) ==> m.well_formed(),
        ensures
            !present ==> (r matches Err(ToolchainError::ToolchainNotInstalled(n)) && n@
                == self.spec_name()),
            present && !parses(self.spec_name()) ==> (r matches Err(ToolchainError::InvalidToolchainName(n))
                && n@ == self.spec_name()),
            present && parses(self.spec_name()) ==> rust_version_outcome(manifest, r),
    {
        self.get_manifest(present)?;
        rust_version(manifest)
    }

    /// The version of the toolchain that the distribution server offers, from the
    /// manifest downloaded for its descriptor (`None` when there is no newer one).
    pub fn show_dist_version(&self, downloaded: Option<&Manifest>) -> (r: Result<
        Option<String>,
        ToolchainError,
    >)
        requires
            downloaded matches Some(m) ==> m.well_formed(),
        ensures
            !parses(self.spec_name()) ==> (r matches Err(ToolchainError::InvalidToolchainName(n)) && n@
                == self.spec_name()),
            parses(self.spec_name()) ==> rust_version_outcome(downloaded, r),
    {
        self.desc()?;
        rust_version(downloaded)
    }

    /// The components of the toolchain's `rust` package, with whether each is installed
    /// and available, ordered by component.
    pub fn list_components(
        &self,
        present: bool,
        manifest: Option<&Manifest>,
        config: &Option<Config>,
    ) -> (r: Result<Vec<ComponentStatus>, ToolchainError>)
        requires
            manifest matches Some(m) ==> m.well_formed(),
            present && parses(self.spec_name()) && manifest is Some ==> listable(
                *manifest.unwrap(),
                desc_target(self.spec_name()),
            ),
        ensures
            components_gate(self.spec_name(), present, manifest, match r {
                Ok(_) => Ok(()),
                Err(e) => Err(e),
            }),
            r matches Ok(v) ==> {
                let m = *manifest.unwrap();
                let cs = rust_package_for(m, desc_target(self.spec_name())).unwrap().components@;
                &&& v@.len() == cs.len()
                &&& forall|i: int|
                    0 <= i < v@.len() ==> reports(#[trigger] v@[i], m, *config, sort_components(cs)[i])
            },
    {
        let d = self.components_desc(present, manifest)?;
        let m = manifest.unwrap();
        proof {
            reveal_strlit("rust");
            assert("rust"@ =~= rust_pkg());
        }
        let rust = m.get_package("rust").unwrap();
        let tp = rust.targets.get(d.target.as_str()).unwrap();
        Ok(component_statuses(m, &tp.components, config))
    }

    /// The checks that reading the toolchain's components starts with.
    fn components_desc(&self, present: bool, manifest: Option<&Manifest>) -> (r: Result<
        ToolchainDesc,
        ToolchainError,
    >)
        ensures
            components_gate(self.spec_name(), present, manifest, match r {
                Ok(_) => Ok(()),
                Err(e) => Err(e),
            }),
            r matches Ok(d) ==> d.target@ == desc_target(self.spec_name()) && manifest is Some,
    {
        if !present {
            return Err(ToolchainError::ToolchainNotInstalled(String::from_str(self.name())));
        }
        let d = match self.desc() {
            Ok(d) => d,
            Err(_) => {
                return Err(ToolchainError::ComponentsUnsupported(String::from_str(self.name())));
            },
        };
        proof {
            lemma_desc_target(self.spec_name(), d);
        }
        if manifest.is_none() {
            return Err(ToolchainError::ComponentsUnsupported(String::from_str(self.name())));
        }
        Ok(d)
    }

    /// The closest of the toolchain's listed components to `component`, as a
    /// suggestion: by the name users know it by, or by its name in the manifest where that
    /// is strictly closer; `None` when the components cannot be listed or none is close
    /// enough.
    pub fn get_component_suggestion(
        &self,
        component: &Component,
        manifest: &Manifest,
        only_installed: bool,
        present: bool,
        config: &Option<Config>,
    ) -> (r: Option<String>)
        requires
            manifest.well_formed(),
            suggestable(*manifest, *config, self.spec_name(), present, only_installed),
        ensures
            opt_text(r) == spec_component_suggestion(
                *manifest,
                *config,
                self.spec_name(),
                present,
                *component,
                only_installed,
            ),
    {
        match self.list_components(present, Some(manifest), config) {
            Ok(l) => {
                proof {
                    let cs = rust_package_for(*manifest, desc_target(self.spec_name())).unwrap().components@;
                    let comps = listing_components(*manifest, self.spec_name());
                    lemma_sort_len(cs);
                    assert(listed_components(l@) =~= comps);
                    assert(listed_eligible(l@, only_installed) =~= listing_eligible(
                        comps,
                        *config,
                        only_installed,
                    ));
                }
                component_suggestion(manifest, component, &l, only_installed)
            },
            Err(_) => None,
        }
    }

    /// The update that adds `component`: the component under the manifest's name, or its
    /// all-targets form, when the `rust` package offers it; otherwise the error that names
    /// it, with the closest of the listed components as a suggestion.
    pub fn add_component(
        &self,
        component: Component,
        present: bool,
        manifest: Option<&Manifest>,
        config: &Option<Config>,
    ) -> (r: Result<Changes, ToolchainError>)
        requires
            manifest matches Some(m) ==> m.well_formed(),
            present && parses(self.spec_name()) && manifest is Some ==> {
                let m = *manifest.unwrap();
                let t = desc_target(self.spec_name());
                &&& rust_package_for(m, t) is Some
                &&& chosen_component(
                    rust_package_for(m, t).unwrap().components@,
                    renamed_or_same(m, component),
                ) is None ==> suggestable(m, *config, self.spec_name(), present, false)
            },
        ensures
            components_gate(self.spec_name(), present, manifest, match r {
                Ok(_) => Ok(()),
                Err(ToolchainError::UnknownComponent(_, _, _)) => Ok(()),
                Err(e) => Err(e),
            }),
            present && parses(self.spec_name()) && manifest is Some ==> {
                let m = *manifest.unwrap();
                let c = renamed_or_same(m, component);
                let cs = rust_package_for(m, desc_target(self.spec_name())).unwrap().components@;
                match chosen_component(cs, c) {
                    Some(x) => r matches Ok(ch) && ch.add@ == seq![x] && ch.remove@.len() == 0,
                    None => r matches Err(ToolchainError::UnknownComponent(n, d, s)) && n@
                        == self.spec_name() && d@ == m.spec_description(c) && opt_text(s)
                        == spec_component_suggestion(m, *config, self.spec_name(), present, c, false),
                }
            },
    {
        let d = self.components_desc(present, manifest)?;
        let m = manifest.unwrap();
        let c = match m.rename_component(&component) {
            Some(rc) => rc,
            None => component,
        };
        proof {
            reveal_strlit("rust");
            assert("rust"@ =~= rust_pkg());
        }
        let rust = m.get_package("rust").unwrap();
        let tp = rust.targets.get(d.target.as_str()).unwrap();
        let chosen = self.choose_component(&tp.components, c, m, false, present, config)?;
        let mut add: Vec<Component> = Vec::new();
        add.push(chosen);
        proof {
            assert(add@ =~= seq![add@[0]]);
        }
        Ok(Changes { add, remove: Vec::new() })
    }

    /// The update that removes `component`: the component under the manifest's name, or
    /// its all-targets form, when the toolchain has it installed; otherwise the error that
    /// names it, with the closest of the installed components as a suggestion.
    pub fn remove_component(
        &self,
        component: Component,
        present: bool,
        manifest: Option<&Manifest>,
        config: &Option<Config>,
    ) -> (r: Result<Changes, ToolchainError>)
        requires
            manifest matches Some(m) ==> m.well_formed(),
            present && parses(self.spec_name()) && manifest is Some ==> {
                let m = *manifest.unwrap();
                &&& config is Some
                &&& chosen_component(config.unwrap().components@, renamed_or_same(m, component))
                    is None ==> suggestable(m, *config, self.spec_name(), present, true)
            },
        ensures
            components_gate(self.spec_name(), present, manifest, match r {
                Ok(_) => Ok(()),
                Err(ToolchainError::UnknownComponent(_, _, _)) => Ok(()),
                Err(e) => Err(e),
            }),
            present && parses(self.spec_name()) && manifest is Some ==> {
                let m = *manifest.unwrap();
                let c = renamed_or_same(m, component);
                let cs = config.unwrap().components@;
                match chosen_component(cs, c) {
                    Some(x) => r matches Ok(ch) && ch.remove@ == seq![x] && ch.add@.len() == 0,
                    None => r matches Err(ToolchainError::UnknownComponent(n, d, s)) && n@
                        == self.spec_name() && d@ == m.spec_description(c) && opt_text(s)
                        == spec_component_suggestion(m, *config, self.spec_name(), present, c, true),
                }
            },
    {
        self.components_desc(present, manifest)?;
        let m = manifest.unwrap();
        let c = match m.rename_component(&component) {
            Some(rc) => rc,
            None => component,
        };
        let cf = config.as_ref().unwrap();
        let chosen = self.choose_component(&cf.components, c, m, true, present, config)?;
        let mut remove: Vec<Component> = Vec::new();
        remove.push(chosen);
        proof {
            assert(remove@ =~= seq![remove@[0]]);
        }
        Ok(Changes { add: Vec::new(), remove })
    }

    /// `c`, or its all-targets form, when `cs` holds it; otherwise the error that names
    /// it, with a suggestion.
    fn choose_component(
        &self,
        cs: &Vec<Component>,
        c: Component,
        m: &Manifest,
        only_installed: bool,
        present: bool,
        config: &Option<Config>,
    ) -> (r: Result<Component, ToolchainError>)
        requires
            m.well_formed(),
            chosen_component(cs@, c) is None ==> suggestable(
                *m,
                *config,
                self.spec_name(),
                present,
                only_installed,
            ),
        ensures
            match chosen_component(cs@, c) {
                Some(x) => r == Ok::<Component, ToolchainError>(x),
                None => r matches Err(ToolchainError::UnknownComponent(n, d, s)) && n@ == self.spec_name()
                    && d@ == m.spec_description(c) && opt_text(s) == spec_component_suggestion(
                    *m,
                    *config,
                    self.spec_name(),
                    present,
                    c,
                    only_installed,
                ),
            },
    {
        if contains(cs, &c) {
            return Ok(c);
        }
        let w = c.wildcard();
        if contains(cs, &w) {
            return Ok(w);
        }
        let description = m.description(&c);
        let suggestion = self.get_component_suggestion(&c, m, only_installed, present, config);
        Err(ToolchainError::UnknownComponent(String::from_str(self.name()), description, suggestion))
    }

    /// Makes this toolchain the default one.
    pub fn make_default(&self) -> (r: SettingsChange)
        ensures
            r matches SettingsChange::Default(n) && n@ == self.spec_name(),
    {
        SettingsChange::Default(String::from_str(self.name()))
    }

    /// Uses this toolchain for the directory `path`.
    pub fn make_override(&self, path: &str) -> (r: SettingsChange)
        ensures
            r matches SettingsChange::Override(p, n) && p@ == path@ && n@ == self.spec_name(),
    {
        SettingsChange::Override(String::from_str(path), String::from_str(self.name()))
    }
}

/// The `rust` package of the manifest, for `target`.
pub fn rust_package<'m>(m: &'m Manifest, target: &str) -> (r: Option<&'m TargetedPackage>)
    requires
        m.well_formed(),
    ensures
        match rust_package_for(*m, target@) {
            Some(p) => r matches Some(q) && *q == p,
            None => r is None,
        },
{
    proof {
        reveal_strlit("rust");
        assert("rust"@ =~= rust_pkg());
    }
    match m.get_package("rust") {
        Some(p) => p.targets.get(target),
        None => None,
    }
}

/// Whether the manifest has the component's package for the component's target.
pub fn is_resolvable(m: &Manifest, c: &Component) -> (r: bool)
    requires
        m.well_formed(),
    ensures
        r == resolvable(*m, *c),
{
    match m.get_package(c.short_name_in_manifest()) {
        Some(p) => {
            let t = c.target();
            p.targets.get(t.as_str()).is_some()
        },
        None => false,
    }
}

/// Whether the manifest describes the `rust` package for `target` and every component
/// of it: what listing the components relies on.
pub fn is_listable(m: &Manifest, target: &str) -> (r: bool)
    requires
        m.well_formed(),
    ensures
        r == listable(*m, target@),
{
    match rust_package(m, target) {
        None => false,
        Some(tp) => {
            let n = tp.components.len();
            let mut i: usize = 0;
            while i < n
                invariant
                    m.well_formed(),
                    n == tp.components@.len(),
                    i <= n,
                    rust_package_for(*m, target@) == Some(*tp),
                    forall|k: int| 0 <= k < i ==> resolvable(*m, #[trigger] tp.components@[k]),
                decreases n - i,
            {
                if !is_resolvable(m, &tp.components[i]) {
                    proof {
                        let cs = rust_package_for(*m, target@).unwrap().components@;
                        assert(cs[i as int] == tp.components@[i as int]);
                        assert(!resolvable(*m, cs[i as int]));
                    }
                    return false;
                }
                i = i + 1;
            }
            true
        },
    }
}

/// The version of the `rust` package of the manifest, if there is a manifest.
pub open spec fn rust_version_outcome(manifest: Option<&Manifest>, r: Result<Option<String>, ToolchainError>) -> bool {
    match manifest {
        None => r matches Ok(None),
        Some(m) => match m.spec_package(rust_pkg()) {
            Some(p) => r matches Ok(Some(v)) && v@ == p.version@,
            None => r matches Err(ToolchainError::MissingPackage(n)) && n@ == rust_pkg(),
        },
    }
}

/// The version of the `rust` package of the manifest, if there is a manifest.
pub fn rust_version(manifest: Option<&Manifest>) -> (r: Result<Option<String>, ToolchainError>)
    requires
        manifest matches Some(m) ==> m.well_formed(),
    ensures
        rust_version_outcome(manifest, r),
{
    proof {
        reveal_strlit("rust");
        assert("rust"@ =~= rust_pkg());
    }
    match manifest {
        None => Ok(None),
        Some(m) => match m.get_package("rust") {
            Some(p) => Ok(Some(p.version.clone())),
            None => Err(ToolchainError::MissingPackage(String::from_str("rust"))),
        },
    }
}

} // verus!
