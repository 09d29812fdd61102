//! Properties that hold across the library's operations.

use vstd::prelude::*;
use crate::component::{
    Component, MAX_SUGGESTION_DISTANCE, comes_after, component_lt, first_min, insert_position, lemma_first_index_from, opt_text_lt,
    sort_components, spec_contains, spec_suggestion, spec_wildcard, Manifest, Config, spec_installed,
};
use crate::command::{Environment, RUST_RECURSION_COUNT_MAX, spec_binary_name, spec_env_vars, spec_loader_entries, spec_loader_var, spec_path_entries};
use crate::install::exe_suffix;
use crate::path::{Platform, path_join};
use crate::desc::{ToolchainDesc, desc_text, parses};
use crate::installer::{extension, gz, installer_outcome, InstallerSource};
use crate::inventory::{chosen_component, listing_eligible};
use crate::error::ToolchainError;
use crate::text::text_lt;
use crate::toolchain::{InstallMethodKind, Toolchain, UpdateStatus, spec_uninstalls, spec_update_status};

verus! {

proof fn lemma_text_lt_irreflexive(a: Seq<char>)
    ensures
        !text_lt(a, a),
    decreases a.len(),
{
    if a.len() > 0 {
        lemma_text_lt_irreflexive(a.drop_first());
    }
}

proof fn lemma_text_lt_transitive(a: Seq<char>, b: Seq<char>, c: Seq<char>)
    requires
        text_lt(a, b),
        text_lt(b, c),
    ensures
        text_lt(a, c),
    decreases a.len(),
{
    if a.len() > 0 && b.len() > 0 && c.len() > 0 {
        if a[0] == b[0] && b[0] == c[0] {
            lemma_text_lt_transitive(a.drop_first(), b.drop_first(), c.drop_first());
        }
    }
}

proof fn lemma_opt_text_lt(a: Option<Seq<char>>, b: Option<Seq<char>>, c: Option<Seq<char>>)
    ensures
        !opt_text_lt(a, a),
        opt_text_lt(a, b) && opt_text_lt(b, c) ==> opt_text_lt(a, c),
{
    if let Some(x) = a {
        lemma_text_lt_irreflexive(x);
        if let (Some(y), Some(z)) = (b, c) {
            if text_lt(x, y) && text_lt(y, z) {
                lemma_text_lt_transitive(x, y, z);
            }
        }
    }
}

/// The order in which components are listed is a strict order: no component comes
/// before itself, and the order is transitive.
pub proof fn law_component_order_strict(a: Component, b: Component, c: Component)
    ensures
        !component_lt(a, a),
        component_lt(a, b) && component_lt(b, c) ==> component_lt(a, c),
{
    lemma_text_lt_irreflexive(a.pkg@);
    lemma_opt_text_lt(a.target_view(), b.target_view(), c.target_view());
    if component_lt(a, b) && component_lt(b, c) {
        if text_lt(a.pkg@, b.pkg@) && text_lt(b.pkg@, c.pkg@) {
            lemma_text_lt_transitive(a.pkg@, b.pkg@, c.pkg@);
        }
    }
}

proof fn lemma_sorted_insert(t: Seq<Component>, x: Component)
    requires
        forall|i: int, j: int| 0 <= i < j < t.len() ==> !component_lt(#[trigger] t[j], #[trigger] t[i]),
    ensures
        ({
            let u = t.insert(insert_position(t, x), x);
            forall|i: int, j: int| 0 <= i < j < u.len() ==> !component_lt(#[trigger] u[j], #[trigger] u[i])
        }),
{
    lemma_first_index_from(t, comes_after(x), 0);
    let p = insert_position(t, x);
    let u = t.insert(p, x);
    assert forall|i: int, j: int| 0 <= i < j < u.len() implies !component_lt(#[trigger] u[j], #[trigger] u[i]) by {
        if j < p {
            assert(u[i] == t[i] && u[j] == t[j]);
        } else if j == p {
            assert(u[i] == t[i]);
            assert(!comes_after(x)(t[i]));
        } else if i < p {
            assert(u[i] == t[i] && u[j] == t[j - 1]);
        } else if i == p {
            assert(u[j] == t[j - 1]);
            assert(comes_after(x)(t[p]));
            law_component_order_strict(t[j - 1], x, t[p]);
            law_component_order_strict(t[p], t[p], t[p]);
        } else {
            assert(u[i] == t[i - 1] && u[j] == t[j - 1]);
        }
    }
}

/// Components are listed in order, and the listing holds exactly the components it
/// was given, each as often as given.
pub proof fn law_listing_is_sorted_permutation(s: Seq<Component>)
    ensures
        forall|i: int, j: int|
            0 <= i < j < s.len() ==> !component_lt(
                #[trigger] sort_components(s)[j],
                #[trigger] sort_components(s)[i],
            ),
        sort_components(s).to_multiset() == s.to_multiset(),
        sort_components(s).len() == s.len(),
    decreases s.len(),
{
    broadcast use vstd::seq_lib::to_multiset_build, vstd::seq_lib::to_multiset_insert, vstd::seq_lib::to_multiset_len;

    if s.len() > 0 {
        let d = s.drop_last();
        law_listing_is_sorted_permutation(d);
        let t = sort_components(d);
        lemma_first_index_from(t, comes_after(s.last()), 0);
        lemma_sorted_insert(t, s.last());
        assert(s =~= d.push(s.last()));
        assert(sort_components(s).to_multiset() == t.to_multiset().insert(s.last()));
    } else {
        assert(sort_components(s) == s);
    }
}

/// The status of an installation says what it did: `Installed` when it changed a
/// toolchain that did not exist, `Updated` when it changed one that did, and
/// `Unchanged` when it changed nothing.
pub proof fn law_update_status(updated: bool, existed: bool)
    ensures
        (spec_update_status(updated, existed) == UpdateStatus::Installed) == (updated && !existed),
        (spec_update_status(updated, existed) == UpdateStatus::Updated) == (updated && existed),
        (spec_update_status(updated, existed) == UpdateStatus::Unchanged) == !updated,
{
}

/// A toolchain is either custom or distributed: only a custom one may be copied,
/// linked or built from installers, only a distributed one comes from the server, and
/// only a distributed one has an update-hash file.
pub proof fn law_custom_or_distributed(t: Toolchain, method: InstallMethodKind)
    ensures
        t.spec_valid_install_method(InstallMethodKind::Dist) == !t.spec_is_custom(),
        method != InstallMethodKind::Dist ==> t.spec_valid_install_method(method) == t.spec_is_custom(),
        t.spec_update_hash() is None == t.spec_is_custom(),
        t.spec_is_custom() == !parses(t.spec_name()),
{
}

/// A name that reads as a descriptor is that descriptor written out:
/// `channel[-date]-target`.
pub proof fn law_descriptor_spells_name(name: Seq<char>, d: ToolchainDesc)
    requires
        d.read_from(name),
    ensures
        name == desc_text(d.channel@, d.date_view(), d.target@),
        crate::desc::is_channel(d.channel@),
{
}

/// A toolchain that follows a channel is not custom.
pub proof fn law_tracking_is_distributed(t: Toolchain, d: ToolchainDesc)
    requires
        d.read_from(t.spec_name()),
        d.spec_is_tracking(),
    ensures
        !t.spec_is_custom(),
{
}

/// A component chosen for an update is one of those it may use, of the same package.
pub proof fn law_chosen_component_is_offered(cs: Seq<Component>, c: Component)
    ensures
        chosen_component(cs, c) matches Some(x) ==> spec_contains(cs, x) && x.pkg == c.pkg,
        chosen_component(cs, c) matches Some(x) ==> x == c || x == spec_wildcard(c),
{
}

/// An installer that is accepted has a name that ends in `.gz`.
pub proof fn law_accepted_installer_is_gz(
    s: Seq<char>,
    parsed: Option<Seq<char>>,
    r: Result<InstallerSource, ToolchainError>,
)
    requires
        installer_outcome(s, parsed, r),
        r is Ok,
    ensures
        extension(s) == Some(gz()),
{
}

/// A suggestion is made only for a component within the suggestion distance.
pub proof fn law_suggestion_is_close(
    m: Manifest,
    c: Component,
    comps: Seq<Component>,
    elig: Seq<bool>,
    short_d: Seq<usize>,
    long_d: Seq<usize>,
)
    requires
        spec_suggestion(m, c, comps, elig, short_d, long_d) is Some,
    ensures
        short_d[first_min(elig, short_d)] <= MAX_SUGGESTION_DISTANCE || long_d[first_min(elig, long_d)]
            <= MAX_SUGGESTION_DISTANCE,
{
}

/// A toolchain that was missing is never reported `Updated`: it is installed, or left
/// unchanged.
pub proof fn law_missing_is_never_updated(updated: bool)
    ensures
        spec_update_status(updated, false) != UpdateStatus::Updated,
{
}

/// Removing twice: a removal that left neither the directory nor a link behind (so that
/// it reported the toolchain uninstalled) is followed by one that finds nothing to
/// uninstall, while a toolchain still present or linked is uninstalled again.
pub proof fn law_remove_twice(exists_after: bool, link_after: bool)
    ensures
        !exists_after && !link_after ==> !spec_uninstalls(exists_after, link_after),
        exists_after || link_after ==> spec_uninstalls(exists_after, link_after),
{
}

/// A component for one target counts as installed exactly when the installed
/// configuration holds the same package for that same target; a copy of the package for
/// another target does not count.
pub proof fn law_targeted_component_installed(cf: Config, c: Component)
    requires
        c.target is Some,
    ensures
        spec_installed(Some(cf), c) <==> exists|i: int|
            0 <= i < cf.components@.len() && (#[trigger] cf.components@[i]).pkg@ == c.pkg@
                && cf.components@[i].target_view() == c.target_view(),
{
    let cs = cf.components@;
    if spec_installed(Some(cf), c) {
        let i = choose|i: int| 0 <= i < cs.len() && #[trigger] cs[i].same(&c);
        assert(cs[i].pkg@ == c.pkg@ && cs[i].target_view() == c.target_view());
    }
    if exists|i: int| 0 <= i < cs.len() && (#[trigger] cs[i]).pkg@ == c.pkg@ && cs[i].target_view() == c.target_view() {
        let i = choose|i: int| 0 <= i < cs.len() && (#[trigger] cs[i]).pkg@ == c.pkg@ && cs[i].target_view() == c.target_view();
        assert(cs[i].same(&c));
    }
}

/// A component for every target counts as installed exactly when the installed
/// configuration holds its package, for any target or for all of them; and without an
/// installed configuration nothing counts as installed.
pub proof fn law_wildcard_component_installed(cf: Config, c: Component)
    requires
        c.target is None,
    ensures
        spec_installed(Some(cf), c) <==> exists|i: int|
            0 <= i < cf.components@.len() && (#[trigger] cf.components@[i]).pkg@ == c.pkg@,
        !spec_installed(None, c),
{
    let cs = cf.components@;
    if spec_installed(Some(cf), c) {
        if spec_contains(cs, c) {
            let i = choose|i: int| 0 <= i < cs.len() && #[trigger] cs[i].same(&c);
            assert(cs[i].pkg@ == c.pkg@);
        }
    }
    if exists|i: int| 0 <= i < cs.len() && (#[trigger] cs[i]).pkg@ == c.pkg@ {
        let i = choose|i: int| 0 <= i < cs.len() && (#[trigger] cs[i]).pkg@ == c.pkg@;
        if cs[i].target is Some {
            assert(cs[i].target is Some && cs[i].pkg@ == c.pkg@);
        } else {
            assert(cs[i].same(&c));
        }
    }
}

/// A descriptor follows a channel exactly when its channel is `nightly`, `beta` or
/// `stable` and it carries no date; a version number or a date pins it.
pub proof fn law_tracking_channels(d: ToolchainDesc)
    ensures
        d.spec_is_tracking() <==> ((d.channel@ == seq!['n', 'i', 'g', 'h', 't', 'l', 'y'] || d.channel@
            == seq!['b', 'e', 't', 'a'] || d.channel@ == seq!['s', 't', 'a', 'b', 'l', 'e']) && d.date is None),
{
}

/// Executables end in `.exe` on Windows and have no suffix elsewhere, so elsewhere a
/// binary's file name is the name as given.
pub proof fn law_exe_suffix(p: Platform, binary: Seq<char>)
    ensures
        p == Platform::Windows ==> exe_suffix(p) == seq!['.', 'e', 'x', 'e'],
        p != Platform::Windows ==> exe_suffix(p).len() == 0,
        p != Platform::Windows ==> spec_binary_name(binary, p) == binary,
{
    if p != Platform::Windows {
        let l = crate::command::lowercase(binary);
        assert(l.skip(l.len() as int) =~= exe_suffix(p));
    }
}

/// Commands get `CARGO_HOME/bin` (when it is known) in front of `PATH`, and on Windows
/// only, the toolchain's own `bin` after it; the loader's variable gets the toolchain's
/// `lib`, and on macOS only, with the loader variable unset, the fallback directories.
pub proof fn law_search_paths(p: Platform, path: Seq<char>, env: Environment)
    ensures
        ({
            let cargo_bin = match env.cargo_home {
                Some(c) => seq![path_join(p, c@, "bin"@)],
                None => Seq::<Seq<char>>::empty(),
            };
            &&& p != Platform::Windows ==> spec_path_entries(p, path, env) == cargo_bin
            &&& p == Platform::Windows ==> spec_path_entries(p, path, env) == cargo_bin.push(
                path_join(p, path, "bin"@),
            )
        }),
        p != Platform::MacOs ==> spec_loader_entries(p, path, env) == seq![path_join(p, path, "lib"@)],
        spec_loader_entries(p, path, env)[0] == path_join(p, path, "lib"@),
{
    let cargo_bin = match env.cargo_home {
        Some(c) => seq![path_join(p, c@, "bin"@)],
        None => Seq::<Seq<char>>::empty(),
    };
    assert(cargo_bin + Seq::<Seq<char>>::empty() =~= cargo_bin);
    assert(cargo_bin + seq![path_join(p, path, "bin"@)] =~= cargo_bin.push(path_join(p, path, "bin"@)));
    assert(seq![path_join(p, path, "lib"@)] + Seq::<Seq<char>>::empty() =~= seq![path_join(p, path, "lib"@)]);
}

/// Whether a suggestion is made depends on the closest eligible component: by the name
/// users know it by, unless one is strictly closer by its name in the manifest. A
/// suggestion is made exactly when that closest distance is at most 3.
pub proof fn law_suggestion_threshold(
    m: Manifest,
    c: Component,
    comps: Seq<Component>,
    elig: Seq<bool>,
    short_d: Seq<usize>,
    long_d: Seq<usize>,
)
    ensures
        ({
            let s = first_min(elig, short_d);
            let l = first_min(elig, long_d);
            &&& short_d[s] <= long_d[l] ==> (spec_suggestion(m, c, comps, elig, short_d, long_d) is Some
                <==> short_d[s] <= 3)
            &&& short_d[s] > long_d[l] ==> (spec_suggestion(m, c, comps, elig, short_d, long_d) is Some
                <==> long_d[l] <= 3)
        }),
{
}

proof fn lemma_first_min_upto(elig: Seq<bool>, keys: Seq<usize>, n: int) -> (i: int)
    requires
        0 < n <= elig.len(),
        keys.len() == elig.len(),
        exists|j: int| 0 <= j < n && #[trigger] elig[j],
    ensures
        0 <= i < n,
        elig[i],
        forall|j: int| 0 <= j < n && #[trigger] elig[j] ==> keys[i] <= keys[j],
        forall|j: int| 0 <= j < i && #[trigger] elig[j] ==> keys[i] < keys[j],
    decreases n,
{
    if !(exists|j: int| 0 <= j < n - 1 && #[trigger] elig[j]) {
        let j = choose|j: int| 0 <= j < n && #[trigger] elig[j];
        assert(j == n - 1);
        n - 1
    } else {
        let k = lemma_first_min_upto(elig, keys, n - 1);
        if elig[n - 1] && keys[n - 1] < keys[k] {
            n - 1
        } else {
            k
        }
    }
}

/// The search for a suggestion picks, among the eligible positions, one whose distance
/// is smallest, and the first of those: every eligible position is at least as far, and
/// every eligible position before it is farther.
pub proof fn law_first_min_is_closest(elig: Seq<bool>, keys: Seq<usize>)
    requires
        keys.len() == elig.len(),
        exists|j: int| 0 <= j < elig.len() && #[trigger] elig[j],
    ensures
        ({
            let i = first_min(elig, keys);
            &&& 0 <= i < elig.len()
            &&& elig[i]
            &&& forall|j: int| 0 <= j < elig.len() && #[trigger] elig[j] ==> keys[i] <= keys[j]
            &&& forall|j: int| 0 <= j < i && #[trigger] elig[j] ==> keys[i] < keys[j]
        }),
{
    let w = lemma_first_min_upto(elig, keys, elig.len() as int);
    assert(crate::component::is_first_min(elig, keys, w));
}

/// The dynamic loader searched is `DYLD_FALLBACK_LIBRARY_PATH` on macOS and
/// `LD_LIBRARY_PATH` elsewhere; commands get `RUSTUP_TOOLCHAIN` set to the toolchain's
/// name and `RUSTUP_HOME` to rustup's directory, after `CARGO_HOME` when it is known.
pub proof fn law_command_variables(p: Platform, name: Seq<char>, rustup_dir: Seq<char>, env: Environment)
    ensures
        p == Platform::MacOs ==> spec_loader_var(p) == "DYLD_FALLBACK_LIBRARY_PATH"@,
        p != Platform::MacOs ==> spec_loader_var(p) == "LD_LIBRARY_PATH"@,
        ({
            let v = spec_env_vars(name, rustup_dir, env);
            let k = if env.cargo_home is Some { 1int } else { 0int };
            &&& v.len() == k + 2
            &&& env.cargo_home matches Some(c) ==> v[0] == ("CARGO_HOME"@, c@)
            &&& v[k] == ("RUSTUP_TOOLCHAIN"@, name)
            &&& v[k + 1] == ("RUSTUP_HOME"@, rustup_dir)
        }),
        RUST_RECURSION_COUNT_MAX == 20,
{
}

/// Joining a relative part that has no prefix onto a base that does not end in a
/// separator puts exactly one separator between them: `/` elsewhere, `\` on Windows
/// (where the base has no verbatim prefix and is not a bare drive); and on every
/// platform a part that starts with `/` drops the base's path after its prefix.
pub proof fn law_join_relative(p: Platform, base: Seq<char>, part: Seq<char>)
    ensures
        p != Platform::Windows && base.len() > 0 && base.last() != '/' && !(part.len() > 0 && part[0]
            == '/') ==> path_join(p, base, part) == base + seq!['/'] + part,
        p != Platform::Windows && part.len() > 0 && part[0] == '/' ==> path_join(p, base, part) == part,
        p == Platform::Windows && base.len() > 0 && base.last() != '/' && base.last() != '\\'
            && !crate::path::is_verbatim(base) && !(base.len() == 2 && crate::path::has_drive(base))
            && crate::path::prefix_len(part) == 0 && !(part.len() > 0 && (part[0] == '/' || part[0]
            == '\\')) ==> path_join(p, base, part) == base + seq!['\\'] + part,
{
}

/// Adding a component searches every listed component for a suggestion; removing one
/// searches only the installed ones.
pub proof fn law_suggestion_candidates(comps: Seq<Component>, config: Option<Config>)
    ensures
        listing_eligible(comps, config, false).len() == comps.len(),
        listing_eligible(comps, config, true).len() == comps.len(),
        forall|i: int| 0 <= i < comps.len() ==> #[trigger] listing_eligible(comps, config, false)[i],
        forall|i: int|
            0 <= i < comps.len() ==> #[trigger] listing_eligible(comps, config, true)[i] == spec_installed(
                config,
                comps[i],
            ),
{
}

} // verus!
