//! Where a custom toolchain's installers come from.

use vstd::prelude::*;
use crate::error::ToolchainError;
use crate::text::{opt_text, text_eq};

verus! {

/// The serialization of the URL that `url::Url::parse` makes of `input`, or `None`
/// where it returns an error.
pub uninterp spec fn url_parse(input: Seq<char>) -> Option<Seq<char>>;

/// Calls `url::Url::parse` and takes the serialization of the URL it returns. The
/// result is a function of the input alone, named `url_parse`; nothing more is claimed.
#[verifier::external_body]
fn parse_url(input: &str) -> (r: Option<String>)
    ensures
        match r {
            Some(u) => url_parse(input@) == Some(u@),
            None => url_parse(input@) is None,
        },
{
    url::Url::parse(input).ok().map(|u| u.as_str().to_string())
}

/// Where one installer is read from.
#[derive(Debug)]
pub enum InstallerSource {
    /// Downloaded from this URL.
    Download(String),
    /// A local file.
    Local(String),
}

/// The index of the last `.` among the first `n` characters of `s`.
pub open spec fn last_dot_within(s: Seq<char>, n: int) -> Option<int>
    decreases n,
{
    if n <= 0 {
        None
    } else if s[n - 1] == '.' {
        Some(n - 1)
    } else {
        last_dot_within(s, n - 1)
    }
}

/// The index of the last `.` in `s`.
pub open spec fn last_dot(s: Seq<char>) -> Option<int> {
    last_dot_within(s, s.len() as int)
}

pub proof fn lemma_last_dot_within(s: Seq<char>, n: int)
    requires
        0 <= n <= s.len(),
    ensures
        match last_dot_within(s, n) {
            Some(i) => 0 <= i < n && s[i] == '.' && forall|j: int| i < j < n ==> s[j] != '.',
            None => forall|j: int| 0 <= j < n ==> s[j] != '.',
        },
    decreases n,
{
    if n > 0 {
        lemma_last_dot_within(s, n - 1);
    }
}

/// The text after the last `.`, if there is one.
pub open spec fn extension(s: Seq<char>) -> Option<Seq<char>> {
    match last_dot(s) {
        Some(i) => Some(s.skip(i + 1)),
        None => None,
    }
}

pub open spec fn gz() -> Seq<char> {
    seq!['g', 'z']
}

/// The extension reported when there is none.
pub open spec fn no_extension() -> Seq<char> {
    seq!['(', 'n', 'o', 'n', 'e', ')']
}

pub open spec fn file_scheme() -> Seq<char> {
    seq!['f', 'i', 'l', 'e', ':', '/', '/']
}

pub open spec fn http_scheme() -> Seq<char> {
    seq!['h', 't', 't', 'p', ':', '/', '/']
}

pub open spec fn https_scheme() -> Seq<char> {
    seq!['h', 't', 't', 'p', 's', ':', '/', '/']
}

pub open spec fn starts_with(s: Seq<char>, p: Seq<char>) -> bool {
    p.len() <= s.len() && s.take(p.len() as int) == p
}

/// An installer named by a `file://`, `http://` or `https://` URL.
pub open spec fn looks_like_url(s: Seq<char>) -> bool {
    starts_with(s, file_scheme()) || starts_with(s, http_scheme()) || starts_with(s, https_scheme())
}

/// What becomes of installer `s`, given what the URL parser makes of it: an installer
/// must end in `.gz`; one that looks like a URL and parses as one is downloaded from the
/// parsed URL, any other is read from the file of that name.
pub open spec fn installer_outcome(
    s: Seq<char>,
    parsed: Option<Seq<char>>,
    r: Result<InstallerSource, ToolchainError>,
) -> bool {
    match extension(s) {
        None => r matches Err(ToolchainError::BadInstallerType(e)) && e@ == no_extension(),
        Some(ext) => if ext != gz() {
            r matches Err(ToolchainError::BadInstallerType(e)) && e@ == ext
        } else if looks_like_url(s) && parsed is Some {
            r matches Ok(InstallerSource::Download(u)) && u@ == parsed.unwrap()
        } else {
            r matches Ok(InstallerSource::Local(p)) && p@ == s
        },
    }
}

/// An installer is accepted when its name ends in `.gz`.
pub open spec fn accepted_installer(s: Seq<char>) -> bool {
    extension(s) == Some(gz())
}

/// Whether `s` begins with `p`.
pub fn starts_with_exec(s: &str, p: &str) -> (r: bool)
    ensures
        r == starts_with(s@, p@),
{
    let n = s.unicode_len();
    let m = p.unicode_len();
    if m > n {
        return false;
    }
    let head = s.substring_char(0, m);
    text_eq(head, p)
}

/// The index of the last `.` in `s`.
fn find_last_dot(s: &str) -> (r: Option<usize>)
    ensures
        match r {
            Some(i) => last_dot(s@) == Some(i as int),
            None => last_dot(s@) is None,
        },
{
    let n = s.unicode_len();
    let mut i: usize = n;
    while i > 0
        invariant
            n == s@.len(),
            i <= n,
            last_dot(s@) == last_dot_within(s@, i as int),
        decreases i,
    {
        if s.get_char(i - 1) == '.' {
            return Some(i - 1);
        }
        i = i - 1;
    }
    None
}

/// What becomes of the installer `s`, given what the URL parser made of it.
pub fn installer_source(s: &str, parsed: Option<String>) -> (r: Result<InstallerSource, ToolchainError>)
    ensures
        installer_outcome(s@, opt_text(parsed), r),
        r is Ok <==> accepted_installer(s@),
{
    proof {
        reveal_strlit("gz");
        reveal_strlit("(none)");
        reveal_strlit("file://");
        reveal_strlit("http://");
        reveal_strlit("https://");
        assert("gz"@ =~= gz());
        assert("(none)"@ =~= no_extension());
        assert("file://"@ =~= file_scheme());
        assert("http://"@ =~= http_scheme());
        assert("https://"@ =~= https_scheme());
    }
    let found = find_last_dot(s);
    proof {
        lemma_last_dot_within(s@, s@.len() as int);
    }
    match found {
        None => Err(ToolchainError::BadInstallerType(String::from_str("(none)"))),
        Some(i) => {
            let n = s.unicode_len();
            let ext = s.substring_char(i + 1, n);
            proof {
                assert(ext@ =~= s@.skip(i + 1));
            }
            if !text_eq(ext, "gz") {
                return Err(ToolchainError::BadInstallerType(String::from_str(ext)));
            }
            let is_url = starts_with_exec(s, "file://") || starts_with_exec(s, "http://")
                || starts_with_exec(s, "https://");
            match parsed {
                Some(u) => {
                    if is_url {
                        Ok(InstallerSource::Download(u))
                    } else {
                        Ok(InstallerSource::Local(String::from_str(s)))
                    }
                },
                None => Ok(InstallerSource::Local(String::from_str(s))),
            }
        },
    }
}

/// What becomes of the installer `s`: its name is parsed as a URL, then judged.
pub fn classify_installer(s: &str) -> (r: Result<InstallerSource, ToolchainError>)
    ensures
        installer_outcome(s@, url_parse(s@), r),
        r is Ok <==> accepted_installer(s@),
{
    let parsed = parse_url(s);
    installer_source(s, parsed)
}

} // verus!
