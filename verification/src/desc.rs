//! Toolchain descriptors: `<channel>[-<YYYY-MM-DD>]-<target>`.

use vstd::prelude::*;
use crate::text::text_eq;

verus! {

/// An ASCII decimal digit.
pub open spec fn is_digit(c: char) -> bool {
    '0' <= c && c <= '9'
}

/// Every character of `s` in `[lo, hi)` is an ASCII digit.
pub open spec fn digits_in(s: Seq<char>, lo: int, hi: int) -> bool {
    forall|i: int| lo <= i < hi ==> #[trigger] is_digit(s[i])
}

/// A version channel with two parts: `D.D`, `D.DD` or `D.DDD`.
pub open spec fn is_short_version(c: Seq<char>) -> bool {
    &&& 3 <= c.len() <= 5
    &&& is_digit(c[0])
    &&& c[1] == '.'
    &&& digits_in(c, 2, c.len() as int)
}

/// A version channel with three parts: `D.X.Y` where `X` and `Y` have one or two digits.
pub open spec fn is_long_version(c: Seq<char>) -> bool {
    exists|j: int|
        #![trigger c[j]]
        3 <= j <= 4 && j + 2 <= c.len() <= j + 3 && is_digit(c[0]) && c[1] == '.' && digits_in(
            c,
            2,
            j,
        ) && c[j] == '.' && digits_in(c, j + 1, c.len() as int)
}

pub open spec fn nightly() -> Seq<char> {
    seq!['n', 'i', 'g', 'h', 't', 'l', 'y']
}

pub open spec fn beta() -> Seq<char> {
    seq!['b', 'e', 't', 'a']
}

pub open spec fn stable() -> Seq<char> {
    seq!['s', 't', 'a', 'b', 'l', 'e']
}

/// A release channel named by a word.
pub open spec fn is_named_channel(c: Seq<char>) -> bool {
    c == nightly() || c == beta() || c == stable()
}

/// A channel: `nightly`, `beta`, `stable` or a version number.
pub open spec fn is_channel(c: Seq<char>) -> bool {
    is_named_channel(c) || is_short_version(c) || is_long_version(c)
}

/// A date `YYYY-MM-DD` made of ASCII digits (the digits are not checked for range).
pub open spec fn is_date(d: Seq<char>) -> bool {
    &&& d.len() == 10
    &&& digits_in(d, 0, 4)
    &&& d[4] == '-'
    &&& digits_in(d, 5, 7)
    &&& d[7] == '-'
    &&& digits_in(d, 8, 10)
}

/// No character of `s` is a line feed.
pub open spec fn no_newline(s: Seq<char>) -> bool {
    forall|i: int| 0 <= i < s.len() ==> s[i] != '\n'
}

/// `t` begins with a date followed by a dash: such a name is read with that date.
pub open spec fn starts_with_dated(t: Seq<char>) -> bool {
    t.len() >= 11 && is_date(t.take(10)) && t[10] == '-'
}

/// The text of a descriptor: `channel`, the date if any, then `-target`.
pub open spec fn desc_text(channel: Seq<char>, date: Option<Seq<char>>, target: Seq<char>) -> Seq<char> {
    match date {
        Some(d) => channel + seq!['-'] + d + seq!['-'] + target,
        None => channel + seq!['-'] + target,
    }
}

/// `name` reads as the descriptor (`channel`, `date`, `target`): a dated reading is
/// preferred, so an undated reading requires that the target not begin with `date-`.
pub open spec fn describes(
    name: Seq<char>,
    channel: Seq<char>,
    date: Option<Seq<char>>,
    target: Seq<char>,
) -> bool {
    &&& is_channel(channel)
    &&& no_newline(target)
    &&& name == desc_text(channel, date, target)
    &&& match date {
        Some(d) => is_date(d),
        None => !starts_with_dated(target),
    }
}

/// `name` is the name of a distributable toolchain.
pub open spec fn parses(name: Seq<char>) -> bool {
    exists|c: Seq<char>, d: Option<Seq<char>>, t: Seq<char>| describes(name, c, d, t)
}

/// A fully resolved toolchain descriptor.
#[derive(Debug)]
pub struct ToolchainDesc {
    /// `nightly`, `beta`, `stable` or a version number.
    pub channel: String,
    /// The archive date, when the name carries one.
    pub date: Option<String>,
    /// The target triple (any text without a line feed).
    pub target: String,
}

impl ToolchainDesc {
    pub open spec fn date_view(&self) -> Option<Seq<char>> {
        match self.date {
            Some(d) => Some(d@),
            None => None,
        }
    }

    /// The descriptor that `name` reads as.
    pub open spec fn read_from(self, name: Seq<char>) -> bool {
        describes(name, self.channel@, self.date_view(), self.target@)
    }

    /// A named channel without a date follows the channel's newest release.
    pub open spec fn spec_is_tracking(self) -> bool {
        is_named_channel(self.channel@) && self.date is None
    }

    /// Whether this descriptor follows a channel rather than one fixed release.
    pub fn is_tracking(&self) -> (r: bool)
        ensures
            r == self.spec_is_tracking(),
    {
        let named = is_named_channel_exec(self.channel.as_str());
        named && self.date.is_none()
    }
}

/// The target of the descriptor that `name` reads as.
pub open spec fn desc_target(name: Seq<char>) -> Seq<char> {
    (choose|c: Seq<char>, d: Option<Seq<char>>, t: Seq<char>| describes(name, c, d, t)).2
}

/// A descriptor read from `name` has the target `desc_target(name)`.
pub proof fn lemma_desc_target(name: Seq<char>, d: ToolchainDesc)
    requires
        d.read_from(name),
    ensures
        d.target@ == desc_target(name),
{
    assert(describes(name, d.channel@, d.date_view(), d.target@));
    let (c2, d2, t2) = choose|c: Seq<char>, dd: Option<Seq<char>>, t: Seq<char>| describes(name, c, dd, t);
    lemma_describes_unique(name, d.channel@, d.date_view(), d.target@, c2, d2, t2);
}

/// No channel contains a dash.
proof fn lemma_channel_has_no_dash(c: Seq<char>, i: int)
    requires
        is_channel(c),
        0 <= i < c.len(),
    ensures
        c[i] != '-',
{
    if is_long_version(c) {
        let j = choose|j: int|
            #![trigger c[j]]
            3 <= j <= 4 && j + 2 <= c.len() <= j + 3 && is_digit(c[0]) && c[1] == '.' && digits_in(
                c,
                2,
                j,
            ) && c[j] == '.' && digits_in(c, j + 1, c.len() as int);
        if i >= 2 && i < j {
            assert(is_digit(c[i]));
        } else if i > j {
            assert(is_digit(c[i]));
        }
    } else if is_short_version(c) {
        if i >= 2 {
            assert(is_digit(c[i]));
        }
    }
}

/// A name reads as at most one descriptor.
pub proof fn lemma_describes_unique(
    name: Seq<char>,
    c1: Seq<char>,
    d1: Option<Seq<char>>,
    t1: Seq<char>,
    c2: Seq<char>,
    d2: Option<Seq<char>>,
    t2: Seq<char>,
)
    requires
        describes(name, c1, d1, t1),
        describes(name, c2, d2, t2),
    ensures
        c1 == c2,
        d1 == d2,
        t1 == t2,
{
    assert(name[c1.len() as int] == '-');
    assert(name[c2.len() as int] == '-');
    if c1.len() < c2.len() {
        assert(c2[c1.len() as int] == name[c1.len() as int]);
        lemma_channel_has_no_dash(c2, c1.len() as int);
    } else if c2.len() < c1.len() {
        assert(c1[c2.len() as int] == name[c2.len() as int]);
        lemma_channel_has_no_dash(c1, c2.len() as int);
    }
    assert(c1 =~= name.take(c1.len() as int));
    assert(c2 =~= name.take(c2.len() as int));
    let k = c1.len() as int;
    let rest = name.skip(k + 1);
    match d1 {
        Some(x) => {
            assert(rest =~= x + seq!['-'] + t1);
            assert(rest.take(10) =~= x);
            match d2 {
                Some(y) => {
                    assert(rest =~= y + seq!['-'] + t2);
                    assert(rest.take(10) =~= y);
                    assert(t1 =~= rest.skip(11));
                    assert(t2 =~= rest.skip(11));
                },
                None => {
                    assert(rest =~= t2);
                    assert(t2.take(10) =~= x);
                    assert(t2[10] == '-');
                },
            }
        },
        None => {
            assert(rest =~= t1);
            match d2 {
                Some(y) => {
                    assert(rest =~= y + seq!['-'] + t2);
                    assert(t1.take(10) =~= y);
                    assert(t1[10] == '-');
                },
                None => {
                    assert(rest =~= t2);
                },
            }
        },
    }
}

fn is_digit_exec(c: char) -> (r: bool)
    ensures
        r == is_digit(c),
{
    '0' <= c && c <= '9'
}

fn is_named_channel_exec(c: &str) -> (r: bool)
    ensures
        r == is_named_channel(c@),
{
    let a = text_eq(c, "nightly");
    let b = text_eq(c, "beta");
    let s = text_eq(c, "stable");
    proof {
        reveal_strlit("nightly");
        reveal_strlit("beta");
        reveal_strlit("stable");
        assert("nightly"@ =~= nightly());
        assert("beta"@ =~= beta());
        assert("stable"@ =~= stable());
    }
    a || b || s
}

/// Whether all characters of `s` in `[lo, hi)` are digits.
fn digits_in_exec(s: &str, lo: usize, hi: usize) -> (r: bool)
    requires
        lo <= hi <= s@.len(),
    ensures
        r == digits_in(s@, lo as int, hi as int),
{
    let mut i = lo;
    while i < hi
        invariant
            lo <= i <= hi <= s@.len(),
            digits_in(s@, lo as int, i as int),
        decreases hi - i,
    {
        if !is_digit_exec(s.get_char(i)) {
            return false;
        }
        i = i + 1;
    }
    true
}

fn is_short_version_exec(c: &str) -> (r: bool)
    ensures
        r == is_short_version(c@),
{
    let n = c.unicode_len();
    if n < 3 || n > 5 {
        return false;
    }
    is_digit_exec(c.get_char(0)) && c.get_char(1) == '.' && digits_in_exec(c, 2, n)
}

fn is_long_version_exec(c: &str) -> (r: bool)
    ensures
        r == is_long_version(c@),
{
    let n = c.unicode_len();
    if n < 5 || !is_digit_exec(c.get_char(0)) || c.get_char(1) != '.' {
        proof {
            if is_long_version(c@) {
                let j = choose|j: int|
                    #![trigger c@[j]]
                    3 <= j <= 4 && j + 2 <= c@.len() <= j + 3 && is_digit(c@[0]) && c@[1] == '.'
                        && digits_in(c@, 2, j) && c@[j] == '.' && digits_in(
                        c@,
                        j + 1,
                        c@.len() as int,
                    );
            }
        }
        return false;
    }
    let mut j: usize = 3;
    while j <= 4
        invariant
            3 <= j <= 5,
            n == c@.len(),
            n >= 5,
            is_digit(c@[0]),
            c@[1] == '.',
            forall|k: int|
                #![trigger c@[k]]
                3 <= k < j ==> !(k + 2 <= c@.len() <= k + 3 && is_digit(c@[0]) && c@[1] == '.'
                    && digits_in(c@, 2, k) && c@[k] == '.' && digits_in(c@, k + 1, c@.len() as int)),
        decreases 5 - j,
    {
        if j + 2 <= n && n <= j + 3 && c.get_char(j) == '.' && digits_in_exec(c, 2, j)
            && digits_in_exec(c, j + 1, n) {
            proof {
                let jj = j as int;
                assert(3 <= jj <= 4 && jj + 2 <= c@.len() <= jj + 3 && is_digit(c@[0]) && c@[1] == '.'
                    && digits_in(c@, 2, jj) && c@[jj] == '.' && digits_in(c@, jj + 1, c@.len() as int));
            }
            return true;
        }
        j = j + 1;
    }
    false
}

fn is_channel_exec(c: &str) -> (r: bool)
    ensures
        r == is_channel(c@),
{
    is_named_channel_exec(c) || is_short_version_exec(c) || is_long_version_exec(c)
}


/// Every channel has between three and seven characters.
proof fn lemma_channel_len(c: Seq<char>)
    requires
        is_channel(c),
    ensures
        3 <= c.len() <= 7,
{
    if is_long_version(c) {
        let j = choose|j: int|
            #![trigger c[j]]
            3 <= j <= 4 && j + 2 <= c.len() <= j + 3 && is_digit(c[0]) && c[1] == '.' && digits_in(
                c,
                2,
                j,
            ) && c[j] == '.' && digits_in(c, j + 1, c.len() as int);
    }
}

/// The date and target that follow a channel ending at `k`.
pub open spec fn reading_after(name: Seq<char>, k: int) -> (Option<Seq<char>>, Seq<char>) {
    let rest = name.skip(k + 1);
    if starts_with_dated(rest) {
        (Some(rest.take(10)), rest.skip(11))
    } else {
        (None, rest)
    }
}

/// Once a channel followed by a dash is found at `k`, the rest of the reading is fixed.
proof fn lemma_reading_at(name: Seq<char>, k: int)
    requires
        0 <= k < name.len(),
        name[k] == '-',
        is_channel(name.take(k)),
    ensures
        forall|c: Seq<char>, d: Option<Seq<char>>, t: Seq<char>|
            #![trigger describes(name, c, d, t)]
            describes(name, c, d, t) ==> c == name.take(k) && d == reading_after(name, k).0 && t
                == reading_after(name, k).1,
        no_newline(reading_after(name, k).1) ==> describes(
            name,
            name.take(k),
            reading_after(name, k).0,
            reading_after(name, k).1,
        ),
{
    let rest = name.skip(k + 1);
    assert forall|c: Seq<char>, d: Option<Seq<char>>, t: Seq<char>|
        #![trigger describes(name, c, d, t)]
        describes(name, c, d, t) implies c == name.take(k) && d == reading_after(name, k).0 && t
            == reading_after(name, k).1 by {
        assert(name[c.len() as int] == '-');
        if c.len() < k {
            assert(name.take(k)[c.len() as int] == name[c.len() as int]);
            lemma_channel_has_no_dash(name.take(k), c.len() as int);
        } else if k < c.len() {
            assert(c[k] == name[k]);
            lemma_channel_has_no_dash(c, k);
        }
        assert(c =~= name.take(k));
        match d {
            Some(x) => {
                assert(rest =~= x + seq!['-'] + t);
                assert(rest.take(10) =~= x);
                assert(rest[10] == '-');
                assert(rest.skip(11) =~= t);
            },
            None => {
                assert(rest =~= t);
            },
        }
    }
    if no_newline(reading_after(name, k).1) {
        assert(name =~= name.take(k) + seq!['-'] + rest);
        if starts_with_dated(rest) {
            assert(rest =~= rest.take(10) + seq!['-'] + rest.skip(11));
            assert(name =~= name.take(k) + seq!['-'] + rest.take(10) + seq!['-'] + rest.skip(11));
            assert(name == desc_text(name.take(k), reading_after(name, k).0, reading_after(name, k).1));
        } else {
            assert(name == desc_text(name.take(k), reading_after(name, k).0, reading_after(name, k).1));
        }
    }
}

/// Whether `s` contains no line feed.
fn no_newline_exec(s: &str) -> (r: bool)
    ensures
        r == no_newline(s@),
{
    let n = s.unicode_len();
    let mut i: usize = 0;
    while i < n
        invariant
            n == s@.len(),
            i <= n,
            forall|j: int| 0 <= j < i ==> s@[j] != '\n',
        decreases n - i,
    {
        if s.get_char(i) == '\n' {
            return false;
        }
        i = i + 1;
    }
    true
}

fn is_date_exec(s: &str) -> (r: bool)
    ensures
        r == is_date(s@),
{
    let n = s.unicode_len();
    if n != 10 {
        return false;
    }
    digits_in_exec(s, 0, 4) && s.get_char(4) == '-' && digits_in_exec(s, 5, 7) && s.get_char(7)
        == '-' && digits_in_exec(s, 8, 10)
}

/// Reads a toolchain name as a descriptor; `None` when the name names a custom toolchain.
pub fn parse_desc(name: &str) -> (r: Option<ToolchainDesc>)
    ensures
        match r {
            Some(d) => d.read_from(name@),
            None => !parses(name@),
        },
{
    let n = name.unicode_len();
    let mut k: usize = 3;
    let mut found = false;
    while !found && k <= 7 && k < n
        invariant
            n == name@.len(),
            3 <= k <= 8,
            found ==> k < n && name@[k as int] == '-' && is_channel(name@.take(k as int)),
            forall|kk: int|
                3 <= kk < k ==> !(kk < n && name@[kk] == '-' && is_channel(
                    #[trigger] name@.take(kk),
                )),
        decreases 8 - k + (if found { 0int } else { 1int }),
    {
        let mut hit = false;
        if name.get_char(k) == '-' {
            let prefix = name.substring_char(0, k);
            proof {
                assert(prefix@ =~= name@.take(k as int));
            }
            hit = is_channel_exec(prefix);
        }
        if hit {
            found = true;
        } else {
            k = k + 1;
        }
    }
    if !found {
        proof {
            assert forall|c: Seq<char>, d: Option<Seq<char>>, t: Seq<char>|
                !describes(name@, c, d, t) by {
                if describes(name@, c, d, t) {
                    lemma_channel_len(c);
                    let kk = c.len() as int;
                    assert(name@[kk] == '-');
                    assert(name@.take(kk) =~= c);
                }
            }
        }
        return None;
    }
    proof {
        lemma_reading_at(name@, k as int);
    }
    let channel = name.substring_char(0, k);
    let mut date: Option<String> = None;
    let mut target_start = k + 1;
    if n >= k + 12 {
        let d = name.substring_char(k + 1, k + 11);
        if is_date_exec(d) && name.get_char(k + 11) == '-' {
            proof {
                let rest = name@.skip(k + 1);
                assert(d@ =~= rest.take(10));
                assert(rest[10] == name@[k + 11]);
            }
            date = Some(String::from_str(d));
            target_start = k + 12;
        } else {
            proof {
                let rest = name@.skip(k + 1);
                assert(d@ =~= rest.take(10));
                assert(rest[10] == name@[k + 11]);
            }
        }
    }
    let target = name.substring_char(target_start, n);
    proof {
        let rest = name@.skip(k + 1);
        if date.is_some() {
            assert(target@ =~= rest.skip(11));
        } else {
            assert(target@ =~= rest);
        }
    }
    if !no_newline_exec(target) {
        return None;
    }
    let r = ToolchainDesc {
        channel: String::from_str(channel),
        date,
        target: String::from_str(target),
    };
    proof {
        assert(channel@ =~= name@.take(k as int));
    }
    Some(r)
}

} // verus!
