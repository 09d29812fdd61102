//! Joining paths held as text, by the conventions of the platform.

use vstd::prelude::*;

verus! {

/// The platform whose conventions the toolchain follows.
#[derive(Clone, Copy, Debug, PartialEq, Eq, Structural)]
pub enum Platform {
    Windows,
    MacOs,
    Other,
}

/// Whether `c` separates the parts of a path: `/` everywhere, and `\` on Windows too.
pub open spec fn is_sep(p: Platform, c: char) -> bool {
    c == '/' || (p == Platform::Windows && c == '\\')
}

/// The separator written between two parts.
pub open spec fn main_sep(p: Platform) -> char {
    if p == Platform::Windows {
        '\\'
    } else {
        '/'
    }
}

pub open spec fn is_drive_letter(c: char) -> bool {
    ('a' <= c && c <= 'z') || ('A' <= c && c <= 'Z')
}

/// On Windows, a path that starts with a letter and `:` starts with a drive.
pub open spec fn has_drive(s: Seq<char>) -> bool {
    s.len() >= 2 && is_drive_letter(s[0]) && s[1] == ':'
}

/// Whether `c` separates the parts of a Windows path: only `\` after a verbatim prefix.
pub open spec fn win_sep(c: char, verbatim: bool) -> bool {
    c == '\\' || (!verbatim && c == '/')
}

/// The first position at or after `i` that holds a Windows separator, or the length.
pub open spec fn next_sep(s: Seq<char>, i: int, verbatim: bool) -> int
    decreases s.len() - i,
{
    if i < 0 || i >= s.len() {
        s.len() as int
    } else if win_sep(s[i], verbatim) {
        i
    } else {
        next_sep(s, i + 1, verbatim)
    }
}

/// Whether the path starts with the verbatim marker `\\?\`.
pub open spec fn is_verbatim(s: Seq<char>) -> bool {
    s.len() >= 4 && s[0] == '\\' && s[1] == '\\' && s[2] == '?' && s[3] == '\\'
}

/// The end of the `server\share` pair that starts at `i`: the share is left out when it
/// is empty.
pub open spec fn pair_end(s: Seq<char>, i: int, verbatim: bool) -> int {
    let a = next_sep(s, i, verbatim);
    if a >= s.len() || next_sep(s, a + 1, verbatim) == a + 1 {
        a
    } else {
        next_sep(s, a + 1, verbatim)
    }
}

/// The length of the Windows prefix that the path starts with, 0 when it has none:
/// - `\\?\UNC\server\share`, `\\?\C:` and `\\?\name` (verbatim: only `\` separates);
/// - `\\.\name` (a device);
/// - `\\server\share`, with both parts not empty;
/// - `C:` (a drive).
/// Outside the verbatim forms, the leading separators may be `/` as well as `\`.
pub open spec fn prefix_len(s: Seq<char>) -> int {
    if s.len() >= 2 && win_sep(s[0], false) && win_sep(s[1], false) {
        if is_verbatim(s) {
            if s.len() >= 8 && s[4] == 'U' && s[5] == 'N' && s[6] == 'C' && s[7] == '\\' {
                pair_end(s, 8, true)
            } else if s.len() >= 6 && is_drive_letter(s[4]) && s[5] == ':' && (s.len() == 6 || s[6] == '\\') {
                6
            } else {
                next_sep(s, 4, true)
            }
        } else if s.len() >= 4 && s[2] == '.' && win_sep(s[3], false) {
            next_sep(s, 4, false)
        } else {
            let a = next_sep(s, 2, false);
            if a == 2 || a >= s.len() || next_sep(s, a + 1, false) == a + 1 {
                0
            } else {
                next_sep(s, a + 1, false)
            }
        }
    } else if has_drive(s) {
        2
    } else {
        0
    }
}

/// The pieces of `s` between separators, empty ones included.
pub open spec fn pieces(s: Seq<char>, verbatim: bool) -> Seq<Seq<char>>
    decreases s.len(),
{
    if s.len() == 0 {
        seq![Seq::empty()]
    } else {
        let ps = pieces(s.drop_last(), verbatim);
        if win_sep(s.last(), verbatim) {
            ps.push(Seq::empty())
        } else {
            ps.update(ps.len() - 1, ps.last().push(s.last()))
        }
    }
}

pub open spec fn dot() -> Seq<char> {
    seq!['.']
}

pub open spec fn dot_dot() -> Seq<char> {
    seq!['.', '.']
}

/// The components that the pieces name: an empty piece names none, and neither does `.`
/// unless `keep_dot`.
pub open spec fn names_of(ps: Seq<Seq<char>>, keep_dot: bool) -> Seq<Seq<char>>
    decreases ps.len(),
{
    if ps.len() == 0 {
        Seq::empty()
    } else {
        let r = names_of(ps.drop_last(), keep_dot);
        let x = ps.last();
        if x.len() == 0 || (!keep_dot && x == dot()) {
            r
        } else {
            r.push(x)
        }
    }
}

/// The components `stack` followed by `items`, where `..` takes off a last plain name (and
/// nothing else) and is itself dropped.
pub open spec fn apply_names(stack: Seq<Seq<char>>, items: Seq<Seq<char>>) -> Seq<Seq<char>>
    decreases items.len(),
{
    if items.len() == 0 {
        stack
    } else {
        let st = apply_names(stack, items.drop_last());
        let x = items.last();
        if x == dot_dot() {
            if st.len() > 0 && st.last() != dot() && st.last() != dot_dot() {
                st.drop_last()
            } else {
                st
            }
        } else {
            st.push(x)
        }
    }
}

/// Each component preceded by `\`.
pub open spec fn backslashed(items: Seq<Seq<char>>) -> Seq<char>
    decreases items.len(),
{
    if items.len() == 0 {
        Seq::empty()
    } else {
        backslashed(items.drop_last()) + seq!['\\'] + items.last()
    }
}

/// Pushing a `part` without prefix onto a `base` with a verbatim prefix: the path is
/// written anew from the prefix, the base's components (where only `\` separates), and
/// the part's components, where `.` is dropped and `..` takes off a last plain name; a
/// `part` that starts with a separator first drops the base's components.
pub open spec fn verbatim_join(base: Seq<char>, part: Seq<char>) -> Seq<char> {
    let l = prefix_len(base);
    let root_b = l < base.len() && base[l] == '\\';
    let root_p = part.len() > 0 && win_sep(part[0], false);
    let start = if root_p {
        Seq::empty()
    } else {
        names_of(pieces(base.skip(l), true), true)
    };
    let items = apply_names(start, names_of(pieces(part, false), false));
    base.take(l) + if (root_b || root_p) && items.len() == 0 {
        seq!['\\']
    } else {
        backslashed(items)
    }
}

/// The texts of a list of strings.
pub open spec fn part_texts(v: Seq<String>) -> Seq<Seq<char>> {
    v.map_values(|x: String| x@)
}

/// The path that results from pushing `part` onto `base`, in this order:
/// - on Windows, a `part` with a prefix replaces `base`;
/// - on Windows, a `part` that is not empty, pushed onto a `base` with a verbatim prefix
///   (`\\?\`), gives `verbatim_join`;
/// - a `part` that starts with a separator replaces `base` (on Windows, all of `base`
///   but its prefix);
/// - otherwise `part` follows `base`, with the platform's separator between the two
///   unless `base` is empty, already ends in a separator, or is a bare Windows drive.
pub open spec fn path_join(p: Platform, base: Seq<char>, part: Seq<char>) -> Seq<char> {
    if p == Platform::Windows && prefix_len(part) > 0 {
        part
    } else if p == Platform::Windows && is_verbatim(base) && part.len() > 0 {
        verbatim_join(base, part)
    } else if part.len() > 0 && is_sep(p, part[0]) {
        if p == Platform::Windows {
            base.take(prefix_len(base)) + part
        } else {
            part
        }
    } else if base.len() == 0 || is_sep(p, base.last()) || (p == Platform::Windows && has_drive(base)
        && base.len() == 2) {
        base + part
    } else {
        base + seq![main_sep(p)] + part
    }
}

/// The first position at or after `i` that holds a Windows separator, or the length.
fn find_sep(s: &str, i: usize, verbatim: bool) -> (r: usize)
    requires
        i <= s@.len(),
    ensures
        r as int == next_sep(s@, i as int, verbatim),
        i <= r <= s@.len(),
{
    let n = s.unicode_len();
    let mut k = i;
    while k < n
        invariant
            n == s@.len(),
            i <= k <= n,
            next_sep(s@, i as int, verbatim) == next_sep(s@, k as int, verbatim),
        decreases n - k,
    {
        let c = s.get_char(k);
        if c == '\\' || (!verbatim && c == '/') {
            return k;
        }
        k = k + 1;
    }
    k
}

fn is_letter(c: char) -> (r: bool)
    ensures
        r == is_drive_letter(c),
{
    ('a' <= c && c <= 'z') || ('A' <= c && c <= 'Z')
}

/// The end of the `server\share` pair that starts at `i`.
fn pair_end_at(s: &str, i: usize, verbatim: bool) -> (r: usize)
    requires
        i <= s@.len(),
    ensures
        r as int == pair_end(s@, i as int, verbatim),
        r <= s@.len(),
{
    let n = s.unicode_len();
    let a = find_sep(s, i, verbatim);
    if a >= n {
        return a;
    }
    let b = find_sep(s, a + 1, verbatim);
    if b == a + 1 {
        a
    } else {
        b
    }
}

/// On Windows, the length of the prefix that the path starts with, 0 when it has none.
fn prefix_length(s: &str) -> (r: usize)
    ensures
        r as int == prefix_len(s@),
        r <= s@.len(),
{
    let n = s.unicode_len();
    if n < 2 {
        return 0;
    }
    let c0 = s.get_char(0);
    let c1 = s.get_char(1);
    if (c0 == '\\' || c0 == '/') && (c1 == '\\' || c1 == '/') {
        if n >= 4 && c0 == '\\' && c1 == '\\' && s.get_char(2) == '?' && s.get_char(3) == '\\' {
            if n >= 8 && s.get_char(4) == 'U' && s.get_char(5) == 'N' && s.get_char(6) == 'C' && s.get_char(7)
                == '\\' {
                pair_end_at(s, 8, true)
            } else if n >= 6 && is_letter(s.get_char(4)) && s.get_char(5) == ':' && (n == 6 || s.get_char(6)
                == '\\') {
                6
            } else {
                find_sep(s, 4, true)
            }
        } else if n >= 4 && s.get_char(2) == '.' && (s.get_char(3) == '\\' || s.get_char(3) == '/') {
            find_sep(s, 4, false)
        } else {
            let a = find_sep(s, 2, false);
            if a == 2 || a >= n {
                return 0;
            }
            let b = find_sep(s, a + 1, false);
            if b == a + 1 {
                0
            } else {
                b
            }
        }
    } else if is_letter(c0) && c1 == ':' {
        2
    } else {
        0
    }
}

proof fn lemma_pieces_nonempty(s: Seq<char>, verbatim: bool)
    ensures
        pieces(s, verbatim).len() >= 1,
    decreases s.len(),
{
    if s.len() > 0 {
        lemma_pieces_nonempty(s.drop_last(), verbatim);
    }
}

/// Whether the text is `.`, and whether it is `..`.
fn dots(s: &str) -> (r: (bool, bool))
    ensures
        r.0 == (s@ == dot()),
        r.1 == (s@ == dot_dot()),
{
    let n = s.unicode_len();
    if n == 1 {
        let c = s.get_char(0);
        proof {
            if c == '.' {
                assert(s@ =~= dot());
            } else {
                assert(s@[0] != dot()[0]);
            }
        }
        (c == '.', false)
    } else if n == 2 {
        let a = s.get_char(0);
        let b = s.get_char(1);
        proof {
            if a == '.' && b == '.' {
                assert(s@ =~= dot_dot());
            } else if a != '.' {
                assert(s@[0] != dot_dot()[0]);
            } else {
                assert(s@[1] != dot_dot()[1]);
            }
        }
        (false, a == '.' && b == '.')
    } else {
        proof {
            assert(s@.len() != dot().len());
            assert(s@.len() != dot_dot().len());
        }
        (false, false)
    }
}

/// Adds `piece` to `out` when it names a component.
fn add_name(out: &mut Vec<String>, piece: &str, keep_dot: bool)
    ensures
        part_texts(final(out)@) == (if piece@.len() == 0 || (!keep_dot && piece@ == dot()) {
            part_texts(old(out)@)
        } else {
            part_texts(old(out)@).push(piece@)
        }),
{
    let (d, _) = dots(piece);
    if piece.unicode_len() > 0 && (keep_dot || !d) {
        let ghost before = out@;
        out.push(String::from_str(piece));
        proof {
            assert(part_texts(out@) =~= part_texts(before).push(piece@));
        }
    }
}

/// The components that the pieces of `s`, from `start` on, name.
fn names_from(s: &str, start: usize, verbatim: bool, keep_dot: bool) -> (r: Vec<String>)
    requires
        start <= s@.len(),
    ensures
        part_texts(r@) == names_of(pieces(s@.skip(start as int), verbatim), keep_dot),
{
    let n = s.unicode_len();
    let mut out: Vec<String> = Vec::new();
    let mut from: usize = start;
    let mut k: usize = start;
    let ghost mut done: Seq<Seq<char>> = Seq::empty();
    proof {
        assert(s@.subrange(start as int, start as int) =~= Seq::<char>::empty());
        assert(done.push(s@.subrange(start as int, start as int)) =~= seq![Seq::<char>::empty()]);
        assert(part_texts(out@) =~= Seq::<Seq<char>>::empty());
    }
    while k < n
        invariant
            n == s@.len(),
            start <= from <= k <= n,
            pieces(s@.subrange(start as int, k as int), verbatim) == done.push(
                s@.subrange(from as int, k as int),
            ),
            part_texts(out@) == names_of(done, keep_dot),
        decreases n - k,
    {
        let c = s.get_char(k);
        let ghost t = s@.subrange(start as int, k as int + 1);
        proof {
            assert(t.drop_last() =~= s@.subrange(start as int, k as int));
            assert(t.last() == c);
        }
        if c == '\\' || (!verbatim && c == '/') {
            let piece = s.substring_char(from, k);
            add_name(&mut out, piece, keep_dot);
            proof {
                let nd = done.push(s@.subrange(from as int, k as int));
                assert(nd.drop_last() =~= done);
                assert(s@.subrange(k as int + 1, k as int + 1) =~= Seq::<char>::empty());
                assert(pieces(t, verbatim) =~= nd.push(s@.subrange(k as int + 1, k as int + 1)));
                done = nd;
            }
            from = k + 1;
        } else {
            proof {
                lemma_pieces_nonempty(s@.subrange(start as int, k as int), verbatim);
                assert(s@.subrange(from as int, k as int + 1) =~= s@.subrange(from as int, k as int).push(c));
                assert(pieces(t, verbatim) =~= done.push(s@.subrange(from as int, k as int + 1)));
            }
        }
        k = k + 1;
    }
    let piece = s.substring_char(from, n);
    add_name(&mut out, piece, keep_dot);
    proof {
        let nd = done.push(s@.subrange(from as int, n as int));
        assert(nd.drop_last() =~= done);
        assert(s@.subrange(start as int, n as int) =~= s@.skip(start as int));
    }
    out
}

/// The components `stack` followed by `items`, as `apply_names` says.
fn apply_items(stack: Vec<String>, items: &Vec<String>) -> (r: Vec<String>)
    ensures
        part_texts(r@) == apply_names(part_texts(stack@), part_texts(items@)),
{
    let ghost st0 = part_texts(stack@);
    let ghost its = part_texts(items@);
    let mut st = stack;
    let n = items.len();
    let mut k: usize = 0;
    proof {
        assert(its.take(0) =~= Seq::<Seq<char>>::empty());
    }
    while k < n
        invariant
            n == items@.len(),
            k <= n,
            its == part_texts(items@),
            part_texts(st@) == apply_names(st0, its.take(k as int)),
        decreases n - k,
    {
        proof {
            assert(its.take(k as int + 1).drop_last() =~= its.take(k as int));
            assert(its.take(k as int + 1).last() == items@[k as int]@);
        }
        let (_, dd) = dots(items[k].as_str());
        if dd {
            let m = st.len();
            if m > 0 {
                let (d1, d2) = dots(st[m - 1].as_str());
                if !d1 && !d2 {
                    let ghost before = st@;
                    st.pop();
                    proof {
                        assert(part_texts(st@) =~= part_texts(before).drop_last());
                    }
                }
            }
        } else {
            let ghost before = st@;
            st.push(items[k].clone());
            proof {
                assert(part_texts(st@) =~= part_texts(before).push(items@[k as int]@));
            }
        }
        k = k + 1;
    }
    proof {
        assert(its.take(n as int) =~= its);
    }
    st
}

/// `head` followed by each of `items`, each preceded by `\`.
fn write_backslashed(head: String, items: &Vec<String>) -> (r: String)
    ensures
        r@ == head@ + backslashed(part_texts(items@)),
{
    let ghost its = part_texts(items@);
    let ghost h = head@;
    let mut r = head;
    let n = items.len();
    let mut k: usize = 0;
    proof {
        assert(its.take(0) =~= Seq::<Seq<char>>::empty());
        assert(r@ =~= h + backslashed(its.take(0)));
    }
    while k < n
        invariant
            n == items@.len(),
            k <= n,
            its == part_texts(items@),
            r@ == h + backslashed(its.take(k as int)),
        decreases n - k,
    {
        proof {
            reveal_strlit("\\");
            assert(its.take(k as int + 1).drop_last() =~= its.take(k as int));
            assert(its.take(k as int + 1).last() == items@[k as int]@);
        }
        r = r.concat("\\").concat(items[k].as_str());
        proof {
            assert(r@ =~= h + backslashed(its.take(k as int + 1)));
        }
        k = k + 1;
    }
    proof {
        assert(its.take(n as int) =~= its);
    }
    r
}

/// Pushing a `part` without prefix onto a `base` with a verbatim prefix.
fn verbatim_join_exec(base: &str, part: &str) -> (r: String)
    ensures
        r@ == verbatim_join(base@, part@),
{
    let l = prefix_length(base);
    let bn = base.unicode_len();
    let root_b = l < bn && base.get_char(l) == '\\';
    let pn = part.unicode_len();
    let root_p = pn > 0 && (part.get_char(0) == '\\' || part.get_char(0) == '/');
    let start: Vec<String> = if root_p {
        Vec::new()
    } else {
        names_from(base, l, true, true)
    };
    proof {
        if root_p {
            assert(part_texts(start@) =~= Seq::<Seq<char>>::empty());
        }
        assert(part@.skip(0) =~= part@);
    }
    let part_names = names_from(part, 0, false, false);
    let items = apply_items(start, &part_names);
    let head = String::from_str(base.substring_char(0, l));
    proof {
        assert(head@ =~= base@.take(l as int));
    }
    if (root_b || root_p) && items.len() == 0 {
        proof {
            reveal_strlit("\\");
        }
        head.concat("\\")
    } else {
        write_backslashed(head, &items)
    }
}

/// `base` joined with `part`, as `PathBuf::push` does on the platform.
pub fn join(p: Platform, base: &str, part: &str) -> (r: String)
    ensures
        r@ == path_join(p, base@, part@),
{
    let windows = p == Platform::Windows;
    let pn = part.unicode_len();
    if windows && prefix_length(part) > 0 {
        return String::from_str(part);
    }
    if windows && pn > 0 && base.unicode_len() >= 4 && base.get_char(0) == '\\' && base.get_char(1) == '\\'
        && base.get_char(2) == '?' && base.get_char(3) == '\\' {
        return verbatim_join_exec(base, part);
    }
    if pn > 0 {
        let c0 = part.get_char(0);
        if c0 == '/' || (windows && c0 == '\\') {
            if windows {
                let k = prefix_length(base);
                let head = base.substring_char(0, k);
                proof {
                    assert(head@ =~= base@.take(k as int));
                }
                return String::from_str(head).concat(part);
            } else {
                return String::from_str(part);
            }
        }
    }
    let bn = base.unicode_len();
    let mut bare = bn == 0;
    if bn > 0 {
        let last = base.get_char(bn - 1);
        if last == '/' || (windows && last == '\\') {
            bare = true;
        }
    }
    if windows && bn == 2 {
        let c0 = base.get_char(0);
        if (('a' <= c0 && c0 <= 'z') || ('A' <= c0 && c0 <= 'Z')) && base.get_char(1) == ':' {
            bare = true;
        }
    }
    if bare {
        String::from_str(base).concat(part)
    } else if windows {
        proof {
            reveal_strlit("\\");
        }
        String::from_str(base).concat("\\").concat(part)
    } else {
        proof {
            reveal_strlit("/");
        }
        String::from_str(base).concat("/").concat(part)
    }
}

} // verus!
