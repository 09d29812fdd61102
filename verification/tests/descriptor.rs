use rustup_toolchain::desc::parse_desc;
use rustup_toolchain::number::parse_u32;
use rustup_toolchain::path::{join, Platform};

#[test]
fn parses_dated_nightly() {
    let d = parse_desc("nightly-2019-01-01-x86_64-unknown-linux-gnu").unwrap();
    assert_eq!(d.channel, "nightly");
    assert_eq!(d.date.as_deref(), Some("2019-01-01"));
    assert_eq!(d.target, "x86_64-unknown-linux-gnu");
    assert!(!d.is_tracking());
}

#[test]
fn parses_stable_and_tracks() {
    let d = parse_desc("stable-x86_64-pc-windows-msvc").unwrap();
    assert_eq!(d.channel, "stable");
    assert_eq!(d.date, None);
    assert_eq!(d.target, "x86_64-pc-windows-msvc");
    assert!(d.is_tracking());
}

#[test]
fn parses_versions() {
    let d = parse_desc("1.36.0-x86_64-apple-darwin").unwrap();
    assert_eq!(d.channel, "1.36.0");
    assert_eq!(d.target, "x86_64-apple-darwin");
    assert!(!d.is_tracking());
    let d = parse_desc("1.36-i686-unknown-linux-gnu").unwrap();
    assert_eq!(d.channel, "1.36");
    assert_eq!(d.target, "i686-unknown-linux-gnu");
    let d = parse_desc("1.9.12-x").unwrap();
    assert_eq!(d.channel, "1.9.12");
}

#[test]
fn a_date_without_target_is_the_target() {
    let d = parse_desc("nightly-2019-01-01").unwrap();
    assert_eq!(d.channel, "nightly");
    assert_eq!(d.date, None);
    assert_eq!(d.target, "2019-01-01");
}

#[test]
fn empty_target_is_accepted() {
    let d = parse_desc("beta-").unwrap();
    assert_eq!(d.channel, "beta");
    assert_eq!(d.target, "");
}

#[test]
fn custom_names_do_not_parse() {
    assert!(parse_desc("stable").is_none());
    assert!(parse_desc("my-toolchain").is_none());
    assert!(parse_desc("nightlyx-x86_64").is_none());
    assert!(parse_desc("1.3456-x86_64").is_none());
    assert!(parse_desc("12.0-x86_64").is_none());
    assert!(parse_desc("stable-x86\n64").is_none());
    assert!(parse_desc("").is_none());
}

#[test]
fn parses_counts() {
    assert_eq!(parse_u32("0"), Some(0));
    assert_eq!(parse_u32("+12"), Some(12));
    assert_eq!(parse_u32("4294967295"), Some(4294967295));
    assert_eq!(parse_u32("4294967296"), None);
    assert_eq!(parse_u32("-1"), None);
    assert_eq!(parse_u32(""), None);
    assert_eq!(parse_u32("+"), None);
    assert_eq!(parse_u32("12a"), None);
    assert_eq!(parse_u32("007"), Some(7));
}

#[test]
fn counts_agree_with_std() {
    for s in ["0", "+5", "99999999999", "-0", " 1", "18446744073709551616", "+-1", "4294967295"] {
        assert_eq!(parse_u32(s), s.parse::<u32>().ok(), "{}", s);
    }
}

#[test]
fn joins_paths() {
    assert_eq!(join(Platform::Other, "/home/u/.rustup/toolchains", "stable"), "/home/u/.rustup/toolchains/stable");
    assert_eq!(join(Platform::Other, "dir/", "x"), "dir/x");
    assert_eq!(join(Platform::Other, "", "x"), "x");
    assert_eq!(join(Platform::Other, "dir", "/abs"), "/abs");
}

#[test]
fn joins_like_pathbuf() {
    for (b, p) in [("a", "b"), ("a/", "b"), ("", "b"), ("a", "/b"), ("/", "b"), ("a", "")] {
        let mut pb = std::path::PathBuf::from(b);
        pb.push(p);
        assert_eq!(join(Platform::Other, b, p), pb.to_str().unwrap());
    }
}
