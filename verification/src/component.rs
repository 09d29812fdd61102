//! Components and the parts of a distribution manifest that describe them.

use vstd::prelude::*;
use crate::text::{opt_text, text_eq, text_lt, text_lt_exec};

verus! {

/// The first index at or after `i` whose element satisfies `p`.
pub open spec fn first_index_from<T>(s: Seq<T>, p: spec_fn(T) -> bool, i: int) -> Option<int>
    decreases s.len() - i,
{
    if i < 0 || i >= s.len() {
        None
    } else if p(s[i]) {
        Some(i)
    } else {
        first_index_from(s, p, i + 1)
    }
}

/// The first index whose element satisfies `p`: how a map held as a list of entries is read.
pub open spec fn first_index<T>(s: Seq<T>, p: spec_fn(T) -> bool) -> Option<int> {
    first_index_from(s, p, 0)
}

pub proof fn lemma_first_index_from<T>(s: Seq<T>, p: spec_fn(T) -> bool, i: int)
    requires
        0 <= i <= s.len(),
    ensures
        match first_index_from(s, p, i) {
            Some(k) => i <= k < s.len() && p(s[k]) && forall|j: int| i <= j < k ==> !p(#[trigger] s[j]),
            None => forall|j: int| i <= j < s.len() ==> !p(#[trigger] s[j]),
        },
    decreases s.len() - i,
{
    if i < s.len() {
        lemma_first_index_from(s, p, i + 1);
    }
}

/// A component of a toolchain: a package, perhaps for one target.
#[derive(Debug)]
pub struct Component {
    /// The package's name as the manifest spells it.
    pub pkg: String,
    /// The target, or `None` for a component that is the same for every target.
    pub target: Option<String>,
    /// Whether the component is an optional extension rather than part of a profile.
    pub is_extension: bool,
}

/// A renamed package: users say `from`, the manifest says `to`.
#[derive(Debug)]
pub struct Rename {
    pub from: String,
    pub to: String,
}

/// What a manifest says of a package for one target.
#[derive(Debug)]
pub struct TargetedPackage {
    /// Whether the package has binaries for the target.
    pub available: bool,
    /// The components that make up the package.
    pub components: Vec<Component>,
}

/// A target triple and its package.
#[derive(Debug)]
pub struct TargetEntry {
    pub target: String,
    pub package: TargetedPackage,
}

/// The targets a package is built for: one build for every target, or one per target.
#[derive(Debug)]
pub enum PackageTargets {
    Wildcard(TargetedPackage),
    Targeted(Vec<TargetEntry>),
}

/// A package of a manifest.
#[derive(Debug)]
pub struct Package {
    pub name: String,
    pub version: String,
    pub targets: PackageTargets,
}

/// The parts of a distribution manifest that toolchains read.
#[derive(Debug)]
pub struct Manifest {
    /// The date of the release that the manifest describes.
    pub date: String,
    pub packages: Vec<Package>,
    pub renames: Vec<Rename>,
}

/// The components installed in a toolchain's directory.
#[derive(Debug)]
pub struct Config {
    pub components: Vec<Component>,
}

/// `base`, followed by `-target` when there is a target.
pub open spec fn with_target(base: Seq<char>, target: Option<Seq<char>>) -> Seq<char> {
    match target {
        Some(t) => base + seq!['-'] + t,
        None => base,
    }
}

impl Component {
    pub open spec fn target_view(&self) -> Option<Seq<char>> {
        opt_text(self.target)
    }

    /// Components are equal when their packages and targets are.
    pub open spec fn same(&self, other: &Component) -> bool {
        self.pkg@ == other.pkg@ && self.target_view() == other.target_view()
    }

    /// The package and target, as the manifest names them.
    pub open spec fn spec_name_in_manifest(&self) -> Seq<char> {
        with_target(self.pkg@, self.target_view())
    }

    /// The target as text, empty when there is none.
    pub open spec fn spec_target(&self) -> Seq<char> {
        match self.target {
            Some(t) => t@,
            None => Seq::empty(),
        }
    }

    /// A copy of this component.
    pub fn duplicate(&self) -> (r: Component)
        ensures
            r == *self,
    {
        let target = match &self.target {
            Some(t) => Some(t.clone()),
            None => None,
        };
        Component { pkg: self.pkg.clone(), target, is_extension: self.is_extension }
    }

    /// The package's name as the manifest spells it.
    pub fn short_name_in_manifest(&self) -> (r: &str)
        ensures
            r@ == self.pkg@,
    {
        self.pkg.as_str()
    }

    /// The package and target, as the manifest names them.
    pub fn name_in_manifest(&self) -> (r: String)
        ensures
            r@ == self.spec_name_in_manifest(),
    {
        with_target_exec(self.pkg.as_str(), &self.target)
    }

    /// The target as text, empty when there is none.
    pub fn target(&self) -> (r: String)
        ensures
            r@ == self.spec_target(),
    {
        match &self.target {
            Some(t) => t.clone(),
            None => String::new(),
        }
    }

    /// The same package for every target.
    pub fn wildcard(&self) -> (r: Component)
        ensures
            r == spec_wildcard(*self),
    {
        Component { pkg: self.pkg.clone(), target: None, is_extension: false }
    }

    /// Whether the two components have the same package and target.
    pub fn same_exec(&self, other: &Component) -> (r: bool)
        ensures
            r == self.same(other),
    {
        if !text_eq(self.pkg.as_str(), other.pkg.as_str()) {
            return false;
        }
        match (&self.target, &other.target) {
            (Some(a), Some(b)) => text_eq(a.as_str(), b.as_str()),
            (None, None) => true,
            _ => false,
        }
    }
}

/// `base`, followed by `-target` when there is a target.
pub fn with_target_exec(base: &str, target: &Option<String>) -> (r: String)
    ensures
        r@ == with_target(base@, opt_text(*target)),
{
    match target {
        Some(t) => {
            proof {
                reveal_strlit("-");
            }
            String::from_str(base).concat("-").concat(t.as_str())
        },
        None => String::from_str(base),
    }
}

/// A rename whose manifest name is `pkg`.
pub open spec fn renamed_to(pkg: Seq<char>) -> spec_fn(Rename) -> bool {
    |r: Rename| r.to@ == pkg
}

/// A rename of what users call `pkg`.
pub open spec fn renamed_from(pkg: Seq<char>) -> spec_fn(Rename) -> bool {
    |r: Rename| r.from@ == pkg
}

/// A package named `name`.
pub open spec fn package_named(name: Seq<char>) -> spec_fn(Package) -> bool {
    |p: Package| p.name@ == name
}

/// An entry for `target`.
pub open spec fn entry_for(target: Seq<char>) -> spec_fn(TargetEntry) -> bool {
    |e: TargetEntry| e.target@ == target
}

/// The name users know a manifest package by.
pub open spec fn user_name(renames: Seq<Rename>, pkg: Seq<char>) -> Seq<char> {
    match first_index(renames, renamed_to(pkg)) {
        Some(i) => renames[i].from@,
        None => pkg,
    }
}

/// The manifest's name for what users call `pkg`, if it was renamed.
pub open spec fn manifest_rename(renames: Seq<Rename>, pkg: Seq<char>) -> Option<String> {
    match first_index(renames, renamed_from(pkg)) {
        Some(i) => Some(renames[i].to),
        None => None,
    }
}

/// The component under the manifest's name for its package, if that was renamed.
pub open spec fn spec_renamed(m: Manifest, c: Component) -> Option<Component> {
    match manifest_rename(m.renames@, c.pkg@) {
        Some(to) => Some(Component { pkg: to, target: c.target, is_extension: c.is_extension }),
        None => None,
    }
}

/// The same package for every target.
pub open spec fn spec_wildcard(c: Component) -> Component {
    Component { pkg: c.pkg, target: None, is_extension: false }
}

/// The package named `name`.
pub open spec fn find_package(packages: Seq<Package>, name: Seq<char>) -> Option<Package> {
    match first_index(packages, package_named(name)) {
        Some(i) => Some(packages[i]),
        None => None,
    }
}

/// What a package offers for `target`: its one build, or the build for that target.
pub open spec fn targets_get(t: PackageTargets, target: Seq<char>) -> Option<TargetedPackage> {
    match t {
        PackageTargets::Wildcard(p) => Some(p),
        PackageTargets::Targeted(v) => match first_index(v@, entry_for(target)) {
            Some(i) => Some(v@[i].package),
            None => None,
        },
    }
}

/// No two of the texts are equal.
pub open spec fn texts_distinct(s: Seq<Seq<char>>) -> bool {
    forall|i: int, j: int| #![trigger s[i], s[j]] 0 <= i < j < s.len() ==> s[i] != s[j]
}

/// The targets that the entries are for.
pub open spec fn entry_targets(v: Seq<TargetEntry>) -> Seq<Seq<char>> {
    v.map_values(|e: TargetEntry| e.target@)
}

/// The names of the packages.
pub open spec fn package_names(v: Seq<Package>) -> Seq<Seq<char>> {
    v.map_values(|p: Package| p.name@)
}

/// The names that users say, of each rename.
pub open spec fn rename_froms(v: Seq<Rename>) -> Seq<Seq<char>> {
    v.map_values(|r: Rename| r.from@)
}

/// The names that the manifest says, of each rename.
pub open spec fn rename_tos(v: Seq<Rename>) -> Seq<Seq<char>> {
    v.map_values(|r: Rename| r.to@)
}

impl PackageTargets {
    /// The builds per target are a map: no target has two entries.
    pub open spec fn well_formed(&self) -> bool {
        match *self {
            PackageTargets::Wildcard(_) => true,
            PackageTargets::Targeted(v) => texts_distinct(entry_targets(v@)),
        }
    }

    /// Whether no target has two entries.
    pub fn is_well_formed(&self) -> (r: bool)
        ensures
            r == self.well_formed(),
    {
        match self {
            PackageTargets::Wildcard(_) => true,
            PackageTargets::Targeted(v) => {
                let mut keys: Vec<String> = Vec::new();
                let n = v.len();
                let mut i: usize = 0;
                while i < n
                    invariant
                        n == v@.len(),
                        i <= n,
                        keys@.len() == i,
                        forall|k: int| 0 <= k < i ==> (#[trigger] keys@[k])@ == v@[k].target@,
                    decreases n - i,
                {
                    keys.push(v[i].target.clone());
                    i = i + 1;
                }
                proof {
                    assert(string_texts(keys@) =~= entry_targets(v@));
                }
                distinct_texts(&keys)
            },
        }
    }
}

/// The texts of a list of strings.
pub open spec fn string_texts(s: Seq<String>) -> Seq<Seq<char>> {
    s.map_values(|x: String| x@)
}

/// Whether no two of the strings are equal.
fn distinct_texts(keys: &Vec<String>) -> (r: bool)
    ensures
        r == texts_distinct(string_texts(keys@)),
{
    let ghost t = string_texts(keys@);
    let n = keys.len();
    let mut i: usize = 0;
    while i < n
        invariant
            n == keys@.len(),
            t == string_texts(keys@),
            i <= n,
            forall|a: int, b: int| #![trigger t[a], t[b]] 0 <= a < b < n && a < i ==> t[a] != t[b],
        decreases n - i,
    {
        let mut j: usize = i + 1;
        while j < n
            invariant
                n == keys@.len(),
                t == string_texts(keys@),
                i < n,
                i + 1 <= j <= n,
                forall|a: int, b: int| #![trigger t[a], t[b]] 0 <= a < b < n && a < i ==> t[a] != t[b],
                forall|b: int| i < b < j ==> t[i as int] != #[trigger] t[b],
            decreases n - j,
        {
            if text_eq(keys[i].as_str(), keys[j].as_str()) {
                proof {
                    assert(t[i as int] == t[j as int]);
                }
                return false;
            }
            j = j + 1;
        }
        proof {
            assert forall|a: int, b: int| #![trigger t[a], t[b]] 0 <= a < b < n && a < i + 1 implies t[a]
                != t[b] by {
                if a == i {
                    assert(t[i as int] != t[b]);
                }
            }
        }
        i = i + 1;
    }
    true
}

impl Manifest {
    /// The name users know the component's package by.
    pub open spec fn spec_short_name(&self, c: Component) -> Seq<char> {
        user_name(self.renames@, c.pkg@)
    }

    /// The component's name as users know it, with its target.
    pub open spec fn spec_component_name(&self, c: Component) -> Seq<char> {
        with_target(self.spec_short_name(c), c.target_view())
    }

    /// The quoted name and target used in messages.
    pub open spec fn spec_description(&self, c: Component) -> Seq<char> {
        match c.target_view() {
            Some(t) => seq!['\''] + self.spec_short_name(c) + seq![
                '\'',
                ' ',
                'f',
                'o',
                'r',
                ' ',
                't',
                'a',
                'r',
                'g',
                'e',
                't',
                ' ',
                '\'',
            ] + t + seq!['\''],
            None => seq!['\''] + self.spec_short_name(c) + seq!['\''],
        }
    }

    pub open spec fn spec_package(&self, name: Seq<char>) -> Option<Package> {
        find_package(self.packages@, name)
    }

    /// The manifest's tables are maps, as in the manifest file: no two packages share a
    /// name, no package has two builds for one target, no name is renamed twice, and no
    /// two names are renamed to the same package.
    pub open spec fn well_formed(&self) -> bool {
        &&& texts_distinct(package_names(self.packages@))
        &&& forall|i: int| 0 <= i < self.packages@.len() ==> (#[trigger] self.packages@[i]).targets.well_formed()
        &&& texts_distinct(rename_froms(self.renames@))
        &&& texts_distinct(rename_tos(self.renames@))
    }

    /// Whether the manifest's tables are maps.
    pub fn is_well_formed(&self) -> (r: bool)
        ensures
            r == self.well_formed(),
    {
        let n = self.packages.len();
        let mut names: Vec<String> = Vec::new();
        let mut i: usize = 0;
        while i < n
            invariant
                n == self.packages@.len(),
                i <= n,
                names@.len() == i,
                forall|k: int| 0 <= k < i ==> (#[trigger] names@[k])@ == self.packages@[k].name@,
                forall|k: int| 0 <= k < i ==> (#[trigger] self.packages@[k]).targets.well_formed(),
            decreases n - i,
        {
            if !self.packages[i].targets.is_well_formed() {
                return false;
            }
            names.push(self.packages[i].name.clone());
            i = i + 1;
        }
        let m = self.renames.len();
        let mut froms: Vec<String> = Vec::new();
        let mut tos: Vec<String> = Vec::new();
        let mut j: usize = 0;
        while j < m
            invariant
                m == self.renames@.len(),
                j <= m,
                froms@.len() == j,
                tos@.len() == j,
                forall|k: int| 0 <= k < j ==> (#[trigger] froms@[k])@ == self.renames@[k].from@,
                forall|k: int| 0 <= k < j ==> (#[trigger] tos@[k])@ == self.renames@[k].to@,
            decreases m - j,
        {
            froms.push(self.renames[j].from.clone());
            tos.push(self.renames[j].to.clone());
            j = j + 1;
        }
        proof {
            assert(string_texts(names@) =~= package_names(self.packages@));
            assert(string_texts(froms@) =~= rename_froms(self.renames@));
            assert(string_texts(tos@) =~= rename_tos(self.renames@));
        }
        distinct_texts(&names) && distinct_texts(&froms) && distinct_texts(&tos)
    }

    /// The name users know the component's package by.
    pub fn short_name(&self, c: &Component) -> (r: String)
        requires
            self.well_formed(),
        ensures
            r@ == self.spec_short_name(*c),
    {
        let n = self.renames.len();
        let mut i: usize = 0;
        let ghost p = renamed_to(c.pkg@);
        while i < n
            invariant
                p == renamed_to(c.pkg@),
                n == self.renames@.len(),
                i <= n,
                first_index_from(self.renames@, p, 0) == first_index_from(self.renames@, p, i as int),
            decreases n - i,
        {
            if text_eq(self.renames[i].to.as_str(), c.pkg.as_str()) {
                return self.renames[i].from.clone();
            }
            i = i + 1;
        }
        c.pkg.clone()
    }

    /// The component's name as users know it, with its target.
    pub fn component_name(&self, c: &Component) -> (r: String)
        requires
            self.well_formed(),
        ensures
            r@ == self.spec_component_name(*c),
    {
        let short = self.short_name(c);
        with_target_exec(short.as_str(), &c.target)
    }

    /// The quoted name and target used in messages.
    pub fn description(&self, c: &Component) -> (r: String)
        requires
            self.well_formed(),
        ensures
            r@ == self.spec_description(*c),
    {
        let short = self.short_name(c);
        proof {
            reveal_strlit("'");
            reveal_strlit("' for target '");
        }
        match &c.target {
            Some(t) => {
                let r = String::from_str("'").concat(short.as_str()).concat("' for target '").concat(
                    t.as_str(),
                ).concat("'");
                proof {
                    assert(r@ =~= self.spec_description(*c));
                }
                r
            },
            None => {
                let r = String::from_str("'").concat(short.as_str()).concat("'");
                proof {
                    assert(r@ =~= self.spec_description(*c));
                }
                r
            },
        }
    }

    /// The component under the manifest's name for its package, if the package was renamed.
    pub fn rename_component(&self, c: &Component) -> (r: Option<Component>)
        requires
            self.well_formed(),
        ensures
            r == spec_renamed(*self, *c),
    {
        let n = self.renames.len();
        let mut i: usize = 0;
        let ghost p = renamed_from(c.pkg@);
        while i < n
            invariant
                p == renamed_from(c.pkg@),
                n == self.renames@.len(),
                i <= n,
                first_index_from(self.renames@, p, 0) == first_index_from(self.renames@, p, i as int),
            decreases n - i,
        {
            if text_eq(self.renames[i].from.as_str(), c.pkg.as_str()) {
                let mut rc = c.duplicate();
                rc.pkg = self.renames[i].to.clone();
                return Some(rc);
            }
            i = i + 1;
        }
        None
    }

    /// The package named `name`.
    pub fn get_package(&self, name: &str) -> (r: Option<&Package>)
        requires
            self.well_formed(),
        ensures
            match self.spec_package(name@) {
                Some(p) => r matches Some(q) && *q == p,
                None => r is None,
            },
            r matches Some(q) ==> q.targets.well_formed(),
    {
        let n = self.packages.len();
        let mut i: usize = 0;
        let ghost p = package_named(name@);
        while i < n
            invariant
                p == package_named(name@),
                self.well_formed(),
                n == self.packages@.len(),
                i <= n,
                first_index_from(self.packages@, p, 0) == first_index_from(self.packages@, p, i as int),
            decreases n - i,
        {
            if text_eq(self.packages[i].name.as_str(), name) {
                return Some(&self.packages[i]);
            }
            i = i + 1;
        }
        None
    }
}

impl PackageTargets {
    /// What the package offers for `target`.
    pub fn get(&self, target: &str) -> (r: Option<&TargetedPackage>)
        requires
            self.well_formed(),
        ensures
            match targets_get(*self, target@) {
                Some(p) => r matches Some(q) && *q == p,
                None => r is None,
            },
    {
        match self {
            PackageTargets::Wildcard(p) => Some(p),
            PackageTargets::Targeted(v) => {
                let n = v.len();
                let mut i: usize = 0;
                let ghost p = entry_for(target@);
                while i < n
                    invariant
                        p == entry_for(target@),
                        *self == PackageTargets::Targeted(*v),
                        n == v@.len(),
                        i <= n,
                        first_index_from(v@, p, 0) == first_index_from(v@, p, i as int),
                    decreases n - i,
                {
                    if text_eq(v[i].target.as_str(), target) {
                        proof {
                            assert(p(v@[i as int]));
                            assert(first_index_from(v@, p, i as int) == Some(i as int));

                        }
                        return Some(&v[i].package);
                    }
                    i = i + 1;
                }
                None
            },
        }
    }
}


/// `cs` holds a component equal to `c`.
pub open spec fn spec_contains(cs: Seq<Component>, c: Component) -> bool {
    exists|i: int| 0 <= i < cs.len() && #[trigger] cs[i].same(&c)
}

/// `c` is among `cs`, or `c` is for every target and `cs` holds its package for some target.
pub open spec fn spec_contained_within(c: Component, cs: Seq<Component>) -> bool {
    spec_contains(cs, c) || (c.target is None && exists|i: int|
        0 <= i < cs.len() && (#[trigger] cs[i]).target is Some && cs[i].pkg@ == c.pkg@)
}

/// Whether `cs` holds a component equal to `c`.
pub fn contains(cs: &Vec<Component>, c: &Component) -> (r: bool)
    ensures
        r == spec_contains(cs@, *c),
{
    let n = cs.len();
    let mut i: usize = 0;
    while i < n
        invariant
            n == cs@.len(),
            i <= n,
            forall|j: int| 0 <= j < i ==> !(#[trigger] cs@[j]).same(c),
        decreases n - i,
    {
        if cs[i].same_exec(c) {
            return true;
        }
        i = i + 1;
    }
    false
}

impl Component {
    /// Whether this component is among `cs`, directly or as the all-targets form of one.
    pub fn contained_within(&self, cs: &Vec<Component>) -> (r: bool)
        ensures
            r == spec_contained_within(*self, cs@),
    {
        if contains(cs, self) {
            return true;
        }
        if self.target.is_some() {
            return false;
        }
        let n = cs.len();
        let mut i: usize = 0;
        while i < n
            invariant
                n == cs@.len(),
                i <= n,
                self.target is None,
                !spec_contains(cs@, *self),
                forall|j: int|
                    0 <= j < i ==> !((#[trigger] cs@[j]).target is Some && cs@[j].pkg@ == self.pkg@),
            decreases n - i,
        {
            if cs[i].target.is_some() && text_eq(cs[i].pkg.as_str(), self.pkg.as_str()) {
                proof {
                    assert(cs@[i as int].target is Some && cs@[i as int].pkg@ == self.pkg@);
                }
                return true;
            }
            i = i + 1;
        }
        false
    }
}

/// The order of optional targets: none first, then by text.
pub open spec fn opt_text_lt(a: Option<Seq<char>>, b: Option<Seq<char>>) -> bool {
    match (a, b) {
        (None, Some(_)) => true,
        (Some(x), Some(y)) => text_lt(x, y),
        _ => false,
    }
}

/// The order of components: by package, then target, then extensions last.
pub open spec fn component_lt(a: Component, b: Component) -> bool {
    ||| text_lt(a.pkg@, b.pkg@)
    ||| a.pkg@ == b.pkg@ && opt_text_lt(a.target_view(), b.target_view())
    ||| a.pkg@ == b.pkg@ && a.target_view() == b.target_view() && !a.is_extension && b.is_extension
}

/// Whether `a` comes strictly before `b` in the order of components.
pub fn component_lt_exec(a: &Component, b: &Component) -> (r: bool)
    ensures
        r == component_lt(*a, *b),
{
    if text_lt_exec(a.pkg.as_str(), b.pkg.as_str()) {
        return true;
    }
    if !text_eq(a.pkg.as_str(), b.pkg.as_str()) {
        return false;
    }
    match (&a.target, &b.target) {
        (None, Some(_)) => true,
        (Some(_), None) => false,
        (Some(x), Some(y)) => {
            if text_lt_exec(x.as_str(), y.as_str()) {
                true
            } else if !text_eq(x.as_str(), y.as_str()) {
                false
            } else {
                !a.is_extension && b.is_extension
            }
        },
        (None, None) => !a.is_extension && b.is_extension,
    }
}

/// An element that `x` comes strictly before.
pub open spec fn comes_after(x: Component) -> spec_fn(Component) -> bool {
    |y: Component| component_lt(x, y)
}

/// Where a stable insertion puts `x` into `s`: before the first element that `x` precedes.
pub open spec fn insert_position(s: Seq<Component>, x: Component) -> int {
    match first_index(s, comes_after(x)) {
        Some(i) => i,
        None => s.len() as int,
    }
}

/// `s` sorted by the order of components, equal ones kept in their order: what a stable
/// sort gives.
pub open spec fn sort_components(s: Seq<Component>) -> Seq<Component>
    decreases s.len(),
{
    if s.len() == 0 {
        s
    } else {
        let t = sort_components(s.drop_last());
        t.insert(insert_position(t, s.last()), s.last())
    }
}

/// Sorting keeps the number of components.
pub proof fn lemma_sort_len(s: Seq<Component>)
    ensures
        sort_components(s).len() == s.len(),
    decreases s.len(),
{
    if s.len() > 0 {
        lemma_sort_len(s.drop_last());
        lemma_first_index_from(sort_components(s.drop_last()), comes_after(s.last()), 0);
    }
}

proof fn lemma_sort_permutes(s: Seq<Component>)
    ensures
        sort_components(s).len() == s.len(),
        forall|k: int| 0 <= k < s.len() ==> s.contains(#[trigger] sort_components(s)[k]),
    decreases s.len(),
{
    lemma_sort_len(s);
    if s.len() > 0 {
        let d = s.drop_last();
        let t = sort_components(d);
        lemma_sort_permutes(d);
        lemma_first_index_from(t, comes_after(s.last()), 0);
        let pos = insert_position(t, s.last());
        assert forall|k: int| 0 <= k < s.len() implies s.contains(#[trigger] sort_components(s)[k]) by {
            let u = sort_components(s);
            assert(u == t.insert(pos, s.last()));
            if k < pos {
                assert(u[k] == t[k]);
                assert(d.contains(t[k]));
                let j = choose|j: int| 0 <= j < d.len() && d[j] == t[k];
                assert(s[j] == d[j]);
            } else if k == pos {
                assert(u[k] == s[s.len() - 1]);
            } else {
                assert(u[k] == t[k - 1]);
                assert(d.contains(t[k - 1]));
                let j = choose|j: int| 0 <= j < d.len() && d[j] == t[k - 1];
                assert(s[j] == d[j]);
            }
        }
    }
}

/// Where a stable insertion puts `x` into `s`.
fn find_insert_position(s: &Vec<Component>, x: &Component) -> (r: usize)
    ensures
        r as int == insert_position(s@, *x),
        r <= s.len(),
{
    let n = s.len();
    let mut i: usize = 0;
    let ghost p = comes_after(*x);
    while i < n
        invariant
            n == s@.len(),
            i <= n,
            p == comes_after(*x),
            first_index_from(s@, p, 0) == first_index_from(s@, p, i as int),
        decreases n - i,
    {
        if component_lt_exec(x, &s[i]) {
            return i;
        }
        i = i + 1;
    }
    n
}

/// Copies of the components of `cs`, sorted stably by the order of components.
pub fn sorted_components(cs: &Vec<Component>) -> (r: Vec<Component>)
    ensures
        r@ == sort_components(cs@),
{
    let mut out: Vec<Component> = Vec::new();
    let n = cs.len();
    let mut i: usize = 0;
    assert(cs@.take(0) =~= Seq::<Component>::empty());
    while i < n
        invariant
            n == cs@.len(),
            i <= n,
            out@ == sort_components(cs@.take(i as int)),
        decreases n - i,
    {
        let x = cs[i].duplicate();
        let pos = find_insert_position(&out, &x);
        proof {
            let t = cs@.take(i as int + 1);
            assert(t.drop_last() =~= cs@.take(i as int));
            assert(t.last() == cs@[i as int]);
        }
        out.insert(pos, x);
        i = i + 1;
    }
    assert(cs@.take(n as int) =~= cs@);
    out
}

/// What a toolchain reports of one component.
#[derive(Debug)]
pub struct ComponentStatus {
    pub component: Component,
    /// The component's name as users know it.
    pub name: String,
    /// Whether the toolchain has the component.
    pub installed: bool,
    /// Whether the distribution has the component for its target.
    pub available: bool,
}

/// The manifest has the component's package, for the component's target.
pub open spec fn resolvable(m: Manifest, c: Component) -> bool {
    &&& m.spec_package(c.pkg@) is Some
    &&& targets_get(m.spec_package(c.pkg@).unwrap().targets, c.spec_target()) is Some
}

/// Whether the distribution has the component for its target.
pub open spec fn spec_available(m: Manifest, c: Component) -> bool {
    targets_get(m.spec_package(c.pkg@).unwrap().targets, c.spec_target()).unwrap().available
}

/// Whether the installed configuration has the component.
pub open spec fn spec_installed(config: Option<Config>, c: Component) -> bool {
    match config {
        Some(cf) => spec_contained_within(c, cf.components@),
        None => false,
    }
}

/// `s` is the report on `c`.
pub open spec fn reports(s: ComponentStatus, m: Manifest, config: Option<Config>, c: Component) -> bool {
    &&& s.component == c
    &&& s.name@ == m.spec_component_name(c)
    &&& s.installed == spec_installed(config, c)
    &&& s.available == spec_available(m, c)
}

/// The report on each of `cs`, ordered by component.
pub fn component_statuses(m: &Manifest, cs: &Vec<Component>, config: &Option<Config>) -> (r: Vec<
    ComponentStatus,
>)
    requires
        m.well_formed(),
        forall|i: int| 0 <= i < cs@.len() ==> resolvable(*m, #[trigger] cs@[i]),
    ensures
        r@.len() == cs@.len(),
        forall|i: int|
            0 <= i < r@.len() ==> reports(#[trigger] r@[i], *m, *config, sort_components(cs@)[i]),
{
    let sorted = sorted_components(cs);
    proof {
        lemma_sort_len(cs@);
        lemma_sort_permutes(cs@);
    }
    let n = sorted.len();
    let mut out: Vec<ComponentStatus> = Vec::new();
    let mut i: usize = 0;
    while i < n
        invariant
            m.well_formed(),
            n == sorted@.len(),
            sorted@ == sort_components(cs@),
            n == cs@.len(),
            i <= n,
            out@.len() == i,
            forall|k: int| 0 <= k < n ==> resolvable(*m, #[trigger] sorted@[k]),
            forall|k: int| 0 <= k < i ==> reports(#[trigger] out@[k], *m, *config, sorted@[k]),
        decreases n - i,
    {
        let c = sorted[i].duplicate();
        let installed = match config {
            Some(cf) => c.contained_within(&cf.components),
            None => false,
        };
        let name = m.component_name(&c);
        let target = c.target();
        let pkg = m.get_package(c.short_name_in_manifest()).unwrap();
        let tp = pkg.targets.get(target.as_str()).unwrap();
        let available = tp.available;
        out.push(ComponentStatus { component: c, name, installed, available });
        i = i + 1;
    }
    out
}


/// The Damerau–Levenshtein distance that `strsim::damerau_levenshtein` computes
/// between two texts.
pub uninterp spec fn damerau_levenshtein_distance(a: Seq<char>, b: Seq<char>) -> usize;

/// Calls `strsim::damerau_levenshtein`. Its result is a function of the two texts
/// alone, named `damerau_levenshtein_distance`; nothing more is claimed of it.
#[verifier::external_body]
fn damerau_levenshtein(a: &str, b: &str) -> (r: usize)
    ensures
        r == damerau_levenshtein_distance(a@, b@),
{
    strsim::damerau_levenshtein(a, b)
}

/// Suggestions are made only within this distance.
pub const MAX_SUGGESTION_DISTANCE: usize = 3;

/// The components of a listing, in order.
pub open spec fn listed_components(listed: Seq<ComponentStatus>) -> Seq<Component> {
    listed.map_values(|s: ComponentStatus| s.component)
}

/// Which entries of a listing take part in the search for a suggestion: every entry,
/// or only the installed ones.
pub open spec fn listed_eligible(listed: Seq<ComponentStatus>, only_installed: bool) -> Seq<bool> {
    listed.map_values(|s: ComponentStatus| !only_installed || s.installed)
}

/// `i` is the first eligible position whose key is smallest among the eligible ones.
pub open spec fn is_first_min(elig: Seq<bool>, keys: Seq<usize>, i: int) -> bool {
    &&& 0 <= i < elig.len()
    &&& elig[i]
    &&& forall|j: int| 0 <= j < elig.len() && #[trigger] elig[j] ==> keys[i] <= keys[j]
    &&& forall|j: int| 0 <= j < i && #[trigger] elig[j] ==> keys[i] < keys[j]
}

/// Some position is eligible.
pub open spec fn any_true(elig: Seq<bool>) -> bool {
    exists|j: int| 0 <= j < elig.len() && #[trigger] elig[j]
}

/// Whether some listed component takes part in the search for a suggestion.
pub fn any_eligible(listed: &Vec<ComponentStatus>, only_installed: bool) -> (r: bool)
    ensures
        r == any_true(listed_eligible(listed@, only_installed)),
{
    let ghost e = listed_eligible(listed@, only_installed);
    let n = listed.len();
    let mut i: usize = 0;
    while i < n
        invariant
            n == listed@.len(),
            e == listed_eligible(listed@, only_installed),
            i <= n,
            forall|j: int| 0 <= j < i ==> !(#[trigger] e[j]),
        decreases n - i,
    {
        if !only_installed || listed[i].installed {
            proof {
                assert(e[i as int]);
            }
            return true;
        }
        assert(!e[i as int]);
        i = i + 1;
    }
    false
}

/// The first eligible position with the smallest key.
pub open spec fn first_min(elig: Seq<bool>, keys: Seq<usize>) -> int {
    choose|i: int| is_first_min(elig, keys, i)
}

proof fn lemma_first_min_unique(elig: Seq<bool>, keys: Seq<usize>, i: int, j: int)
    requires
        is_first_min(elig, keys, i),
        is_first_min(elig, keys, j),
    ensures
        i == j,
{
    if i < j {
        assert(elig[i]);
    } else if j < i {
        assert(elig[j]);
    }
}

/// The suggestion for `c` among the components `comps`, of which those marked in `elig`
/// take part, given the distances from each one's user name (`short_d`) and manifest
/// name (`long_d`) to `c`'s user name.
pub open spec fn spec_suggestion(
    m: Manifest,
    c: Component,
    comps: Seq<Component>,
    elig: Seq<bool>,
    short_d: Seq<usize>,
    long_d: Seq<usize>,
) -> Option<Seq<char>> {
    let s = first_min(elig, short_d);
    let l = first_min(elig, long_d);
    let sc = comps[s];
    let lc = comps[l];
    if short_d[s] > long_d[l] {
        if long_d[l] > MAX_SUGGESTION_DISTANCE {
            None
        } else if lc.pkg@ == c.pkg@ {
            Some(lc.spec_target())
        } else {
            Some(lc.pkg@)
        }
    } else {
        if short_d[s] > MAX_SUGGESTION_DISTANCE {
            None
        } else if m.spec_short_name(sc) == m.spec_short_name(c) {
            Some(sc.spec_target())
        } else {
            Some(m.spec_short_name(sc))
        }
    }
}

/// Finds the first eligible entry with the smallest key.
fn find_first_min(listed: &Vec<ComponentStatus>, only_installed: bool, keys: &Vec<usize>) -> (r: usize)
    requires
        keys@.len() == listed@.len(),
        any_true(listed_eligible(listed@, only_installed)),
    ensures
        is_first_min(listed_eligible(listed@, only_installed), keys@, r as int),
        r as int == first_min(listed_eligible(listed@, only_installed), keys@),
{
    let ghost e = listed_eligible(listed@, only_installed);
    let n = listed.len();
    let mut best: Option<usize> = None;
    let mut i: usize = 0;
    while i < n
        invariant
            n == listed@.len(),
            e == listed_eligible(listed@, only_installed),
            keys@.len() == n,
            i <= n,
            match best {
                Some(b) => b < i && e[b as int] && (forall|j: int|
                    0 <= j < i && #[trigger] e[j] ==> keys@[b as int] <= keys@[j]) && (forall|j: int|
                    0 <= j < b && #[trigger] e[j] ==> keys@[b as int] < keys@[j]),
                None => forall|j: int| 0 <= j < i ==> !(#[trigger] e[j]),
            },
        decreases n - i,
    {
        assert(e[i as int] == (!only_installed || listed@[i as int].installed));
        if !only_installed || listed[i].installed {
            match best {
                Some(b) => {
                    if keys[i] < keys[b] {
                        best = Some(i);
                    }
                },
                None => {
                    best = Some(i);
                },
            }
        }
        i = i + 1;
    }
    match best {
        Some(b) => {
            proof {
                let c = first_min(e, keys@);
                assert(is_first_min(e, keys@, b as int));
                lemma_first_min_unique(e, keys@, c, b as int);
            }
            b
        },
        None => {
            proof {
                let j = choose|j: int| 0 <= j < e.len() && #[trigger] e[j];
                assert(!e[j]);
            }
            0
        },
    }
}

/// The suggestion for `c` from the distances already computed: the closest listed
/// component by user name, or by manifest name where that is strictly closer, and
/// nothing when the closest is farther than `MAX_SUGGESTION_DISTANCE`.
pub fn suggestion_from_distances(
    m: &Manifest,
    c: &Component,
    listed: &Vec<ComponentStatus>,
    only_installed: bool,
    short_d: &Vec<usize>,
    long_d: &Vec<usize>,
) -> (r: Option<String>)
    requires
        m.well_formed(),
        short_d@.len() == listed@.len(),
        long_d@.len() == listed@.len(),
        any_true(listed_eligible(listed@, only_installed)),
    ensures
        opt_text(r) == spec_suggestion(
            *m,
            *c,
            listed_components(listed@),
            listed_eligible(listed@, only_installed),
            short_d@,
            long_d@,
        ),
{
    let s = find_first_min(listed, only_installed, short_d);
    let l = find_first_min(listed, only_installed, long_d);
    let sc = &listed[s].component;
    let lc = &listed[l].component;
    proof {
        assert(listed_components(listed@)[s as int] == *sc);
        assert(listed_components(listed@)[l as int] == *lc);
    }
    if short_d[s] > long_d[l] {
        if long_d[l] > MAX_SUGGESTION_DISTANCE {
            None
        } else if text_eq(lc.pkg.as_str(), c.pkg.as_str()) {
            Some(lc.target())
        } else {
            Some(lc.pkg.clone())
        }
    } else {
        if short_d[s] > MAX_SUGGESTION_DISTANCE {
            None
        } else {
            let sn = m.short_name(sc);
            let cn = m.short_name(c);
            if text_eq(sn.as_str(), cn.as_str()) {
                Some(sc.target())
            } else {
                Some(sn)
            }
        }
    }
}

/// Distances from each component's user name to `c`'s user name.
pub open spec fn short_distances(m: Manifest, c: Component, comps: Seq<Component>) -> Seq<usize> {
    Seq::new(
        comps.len(),
        |i: int| damerau_levenshtein_distance(m.spec_component_name(comps[i]), m.spec_component_name(c)),
    )
}

/// Distances from each component's manifest name to `c`'s user name.
pub open spec fn long_distances(m: Manifest, c: Component, comps: Seq<Component>) -> Seq<usize> {
    Seq::new(
        comps.len(),
        |i: int| damerau_levenshtein_distance(comps[i].spec_name_in_manifest(), m.spec_component_name(c)),
    )
}

/// The suggestion for `c` among `comps`, of which those marked in `elig` take part.
pub open spec fn closest_suggestion(m: Manifest, c: Component, comps: Seq<Component>, elig: Seq<bool>) -> Option<
    Seq<char>,
> {
    spec_suggestion(m, c, comps, elig, short_distances(m, c, comps), long_distances(m, c, comps))
}

/// The suggestion for a component that no listed component matches exactly.
pub fn component_suggestion(
    m: &Manifest,
    c: &Component,
    listed: &Vec<ComponentStatus>,
    only_installed: bool,
) -> (r: Option<String>)
    requires
        m.well_formed(),
        any_true(listed_eligible(listed@, only_installed)),
    ensures
        opt_text(r) == closest_suggestion(
            *m,
            *c,
            listed_components(listed@),
            listed_eligible(listed@, only_installed),
        ),
{
    let ghost comps = listed_components(listed@);
    let target_name = m.component_name(c);
    let n = listed.len();
    let mut short_d: Vec<usize> = Vec::new();
    let mut long_d: Vec<usize> = Vec::new();
    let mut i: usize = 0;
    while i < n
        invariant
            m.well_formed(),
            n == listed@.len(),
            comps == listed_components(listed@),
            i <= n,
            target_name@ == m.spec_component_name(*c),
            short_d@.len() == i,
            long_d@.len() == i,
            forall|k: int| 0 <= k < i ==> #[trigger] short_d@[k] == short_distances(*m, *c, comps)[k],
            forall|k: int| 0 <= k < i ==> #[trigger] long_d@[k] == long_distances(*m, *c, comps)[k],
        decreases n - i,
    {
        assert(comps[i as int] == listed@[i as int].component);
        let own = m.component_name(&listed[i].component);
        let in_manifest = listed[i].component.name_in_manifest();
        short_d.push(damerau_levenshtein(own.as_str(), target_name.as_str()));
        long_d.push(damerau_levenshtein(in_manifest.as_str(), target_name.as_str()));
        i = i + 1;
    }
    proof {
        assert(short_d@ =~= short_distances(*m, *c, comps));
        assert(long_d@ =~= long_distances(*m, *c, comps));
    }
    suggestion_from_distances(m, c, listed, only_installed, &short_d, &long_d)
}

} // verus!
