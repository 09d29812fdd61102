use rustup_toolchain::command::{binary_name, binary_name_from_lower, recursion_count, Environment};
use rustup_toolchain::error::ToolchainError;
use rustup_toolchain::install::{dir_install_checks, Platform};
use rustup_toolchain::path::join;
use rustup_toolchain::installer::{classify_installer, installer_source, InstallerSource};
use rustup_toolchain::toolchain::{
    Cfg, InstallMethodKind, Notification, RemoveAction, Toolchain, UpdateStatus,
};

fn cfg_on(platform: Platform) -> Cfg {
    Cfg {
        toolchains_dir: "/r/toolchains".to_string(),
        update_hash_dir: "/r/update-hashes".to_string(),
        rustup_dir: "/r".to_string(),
        platform,
    }
}

fn cfg() -> Cfg {
    cfg_on(Platform::Other)
}

fn cfg_win() -> Cfg {
    Cfg {
        toolchains_dir: "C:\\r\\toolchains".to_string(),
        update_hash_dir: "C:\\r\\update-hashes".to_string(),
        rustup_dir: "C:\\r".to_string(),
        platform: Platform::Windows,
    }
}

fn env() -> Environment {
    Environment {
        cargo_home: Some("/c".to_string()),
        loader_path_empty: true,
        home: Some("/h".to_string()),
        recursion_count: None,
    }
}

fn tc<'a>(c: &'a Cfg, name: &str) -> Toolchain<'a> {
    Toolchain::from(c, Ok::<String, ()>(name.to_string())).unwrap()
}

#[test]
fn from_places_toolchain_under_toolchains_dir() {
    let c = cfg();
    let t = tc(&c, "stable-x86_64-unknown-linux-gnu");
    assert_eq!(t.name(), "stable-x86_64-unknown-linux-gnu");
    assert_eq!(t.path(), "/r/toolchains/stable-x86_64-unknown-linux-gnu");
    assert_eq!(t.cfg().rustup_dir, "/r");
}

#[test]
fn from_passes_on_a_failed_resolution() {
    let c = cfg();
    let r = Toolchain::from(&c, Err::<String, &str>("no toolchain named 'nope'"));
    assert!(matches!(r, Err(e) if e == "no toolchain named 'nope'"));
}

#[test]
fn custom_and_tracking() {
    let c = cfg();
    let custom = tc(&c, "my-build");
    assert!(custom.is_custom());
    assert!(!custom.is_tracking());
    assert!(custom.ensure_custom().is_ok());
    assert!(matches!(custom.desc(), Err(ToolchainError::InvalidToolchainName(n)) if n == "my-build"));
    let dist = tc(&c, "nightly-x86_64-unknown-linux-gnu");
    assert!(!dist.is_custom());
    assert!(dist.is_tracking());
    assert!(matches!(dist.ensure_custom(), Err(ToolchainError::InvalidCustomToolchainName(n)) if n == "nightly-x86_64-unknown-linux-gnu"));
    let pinned = tc(&c, "nightly-2020-02-02-x86_64-unknown-linux-gnu");
    assert!(!pinned.is_tracking());
}

#[test]
fn install_methods_follow_customness() {
    let c = cfg();
    let custom = tc(&c, "my-build");
    let dist = tc(&c, "beta-aarch64-linux-android");
    for m in [InstallMethodKind::Copy, InstallMethodKind::Link, InstallMethodKind::Installer] {
        assert!(custom.is_valid_install_method(m));
        assert!(!dist.is_valid_install_method(m));
    }
    assert!(!custom.is_valid_install_method(InstallMethodKind::Dist));
    assert!(dist.is_valid_install_method(InstallMethodKind::Dist));
}

#[test]
fn update_hash_only_for_distributed() {
    let c = cfg();
    assert_eq!(tc(&c, "my-build").update_hash(), None);
    assert_eq!(tc(&c, "stable-x").update_hash().as_deref(), Some("/r/update-hashes/stable-x"));
}

#[test]
fn presence_and_verify() {
    let c = cfg();
    let t = tc(&c, "stable-x");
    assert!(t.is_present(true, false, false));
    assert!(!t.is_present(false, true, false));
    assert!(t.is_present(false, true, true));
    assert!(t.verify(true).is_ok());
    assert!(matches!(t.verify(false), Err(ToolchainError::NotADirectory(p)) if p == "/r/toolchains/stable-x"));
}

#[test]
fn install_notifications_and_status() {
    let c = cfg();
    let t = tc(&c, "stable-x");
    let notes = t.install(InstallMethodKind::Dist, false);
    assert_eq!(notes.len(), 2);
    assert!(matches!(&notes[0], Notification::InstallingToolchain(n) if n == "stable-x"));
    assert!(matches!(&notes[1], Notification::ToolchainDirectory(p, n) if p == "/r/toolchains/stable-x" && n == "stable-x"));
    let notes = t.install(InstallMethodKind::Dist, true);
    assert!(matches!(&notes[0], Notification::UpdatingToolchain(n) if n == "stable-x"));

    let (n, s) = t.install_outcome(false, Ok::<bool, ()>(true)).unwrap();
    assert_eq!(s, UpdateStatus::Installed);
    assert!(matches!(n, Notification::InstalledToolchain(x) if x == "stable-x"));
    assert_eq!(t.install_outcome(true, Ok::<bool, ()>(true)).unwrap().1, UpdateStatus::Updated);
    let (n, s) = t.install_outcome(true, Ok::<bool, ()>(false)).unwrap();
    assert_eq!(s, UpdateStatus::Unchanged);
    assert!(matches!(n, Notification::UpdateHashMatches));
    assert_eq!(t.install_outcome(false, Ok::<bool, ()>(false)).unwrap().1, UpdateStatus::Unchanged);
}

#[test]
fn failed_install_run_ends_with_its_error() {
    let c = cfg();
    let t = tc(&c, "stable-x");
    let r = t.install_outcome(true, Err::<bool, &str>("download failed"));
    assert!(matches!(r, Err(e) if e == "download failed"));
}

#[test]
fn install_if_not_installed_skips_present_toolchain() {
    let c = cfg();
    let t = tc(&c, "stable-x");
    let (notes, done) = t.install_if_not_installed(InstallMethodKind::Dist, true);
    assert_eq!(done, Some(UpdateStatus::Unchanged));
    assert_eq!(notes.len(), 2);
    assert!(matches!(&notes[0], Notification::LookingForToolchain(n) if n == "stable-x"));
    assert!(matches!(&notes[1], Notification::UsingExistingToolchain(n) if n == "stable-x"));
    let (notes, done) = t.install_if_not_installed(InstallMethodKind::Dist, false);
    assert_eq!(done, None);
    assert_eq!(notes.len(), 1);
}

#[test]
fn missing_toolchain_is_never_updated() {
    let c = cfg();
    let t = tc(&c, "stable-x");
    for updated in [true, false] {
        let (_, s) = t.install_outcome(false, Ok::<bool, ()>(updated)).unwrap();
        assert_ne!(s, UpdateStatus::Updated);
    }
}

#[test]
fn remove_steps() {
    let c = cfg();
    let t = tc(&c, "stable-x");
    let (n, a) = t.remove(false, false);
    assert!(matches!(n, Notification::ToolchainNotInstalled(x) if x == "stable-x"));
    assert!(matches!(a, RemoveAction::Done));
    let (n, a) = t.remove(true, false);
    assert!(matches!(n, Notification::UninstallingToolchain(_)));
    assert!(matches!(a, RemoveAction::Uninstall(Some(h)) if h == "/r/update-hashes/stable-x"));
    let custom = tc(&c, "mine");
    assert!(matches!(custom.remove(false, true).1, RemoveAction::Uninstall(None)));
    assert_eq!(t.remove_after_hash(Ok::<(), ()>(())).unwrap(), "/r/toolchains/stable-x");
    let (n, r) = t.remove_finished(Ok::<(), ()>(()), true);
    assert!(n.is_none() && r.is_ok());
    let (n, r) = t.remove_finished(Err::<(), &str>("busy"), false);
    assert!(matches!(n, Some(Notification::UninstalledToolchain(x)) if x == "stable-x"));
    assert!(matches!(r, Err(e) if e == "busy"));
}

#[test]
fn failed_hash_deletion_stops_removal() {
    let c = cfg();
    let t = tc(&c, "stable-x");
    assert!(matches!(t.remove_after_hash(Err::<(), &str>("permission denied")), Err(e) if e == "permission denied"));
}

#[test]
fn removing_twice_finds_nothing_the_second_time() {
    let c = cfg();
    let t = tc(&c, "stable-x");
    let (_, a) = t.remove(true, false);
    assert!(matches!(a, RemoveAction::Uninstall(_)));
    let (n, _) = t.remove_finished(Ok::<(), ()>(()), false);
    assert!(n.is_some());
    let (n, a) = t.remove(false, false);
    assert!(matches!(n, Notification::ToolchainNotInstalled(_)));
    assert!(matches!(a, RemoveAction::Done));
}

#[test]
fn dist_install_plan() {
    let c = cfg();
    let t = tc(&c, "nightly-2020-01-01-x86_64-unknown-linux-gnu");
    let p = t.install_from_dist(true, &["rls"], &["wasm32-unknown-unknown"], true, Some("2019-12-31".to_string())).unwrap();
    assert_eq!(p.desc.channel, "nightly");
    assert_eq!(p.desc.date.as_deref(), Some("2020-01-01"));
    assert_eq!(p.update_hash.as_deref(), Some("/r/update-hashes/nightly-2020-01-01-x86_64-unknown-linux-gnu"));
    assert!(p.force_update && p.present);
    assert_eq!(p.components, vec!["rls".to_string()]);
    assert_eq!(p.targets, vec!["wasm32-unknown-unknown".to_string()]);
    let q = t.install_from_dist_if_not_installed(false).unwrap();
    assert!(!q.plan.force_update && !q.plan.present && q.plan.old_date.is_none() && q.plan.components.is_empty());
    assert_eq!(q.done, None);
    assert_eq!(q.notes.len(), 1);
    let q = t.install_from_dist_if_not_installed(true).unwrap();
    assert_eq!(q.done, Some(UpdateStatus::Unchanged));
    assert!(matches!(&q.notes[1], Notification::UsingExistingToolchain(n) if n == "nightly-2020-01-01-x86_64-unknown-linux-gnu"));
    let custom = tc(&c, "mine");
    assert!(matches!(custom.install_from_dist(false, &[], &[], false, None), Err(ToolchainError::InvalidToolchainName(n)) if n == "mine"));
    assert!(matches!(custom.install_from_dist_if_not_installed(true), Err(ToolchainError::InvalidToolchainName(_))));
}

#[test]
fn installers_stop_at_the_first_refused() {
    let c = cfg();
    let t = tc(&c, "mine");
    let r = t
        .install_from_installers(&["/tmp/rust.tar.gz", "https://example.com/rust.tar.gz", "rust.zip", "rust.gz"], true, false)
        .unwrap();
    assert!(matches!(&r.removal.0, Notification::UninstallingToolchain(n) if n == "mine"));
    assert!(matches!(&r.removal.1, RemoveAction::Uninstall(None)));
    assert_eq!(r.sources.len(), 2);
    assert!(matches!(&r.sources[0], InstallerSource::Local(p) if p == "/tmp/rust.tar.gz"));
    assert!(matches!(&r.sources[1], InstallerSource::Download(u) if u == "https://example.com/rust.tar.gz"));
    assert!(matches!(&r.failure, Some(ToolchainError::BadInstallerType(e)) if e == "zip"));
    let r = t.install_from_installers(&["a.tar.gz", "rust"], false, false).unwrap();
    assert!(matches!(&r.removal.0, Notification::ToolchainNotInstalled(n) if n == "mine"));
    assert!(matches!(&r.removal.1, RemoveAction::Done));
    assert_eq!(r.sources.len(), 1);
    assert!(matches!(&r.failure, Some(ToolchainError::BadInstallerType(e)) if e == "(none)"));
    let r = t.install_from_installers(&["http://[bad/rust.gz"], false, true).unwrap();
    assert!(matches!(&r.sources[0], InstallerSource::Local(p) if p == "http://[bad/rust.gz"));
    assert!(r.failure.is_none());
    let dist = tc(&c, "stable-x");
    assert!(matches!(dist.install_from_installers(&["a.gz"], true, false), Err(ToolchainError::InvalidCustomToolchainName(_))));
}

#[test]
fn installer_source_uses_parsed_url() {
    assert!(matches!(installer_source("file:///x/y.gz", Some("file:///x/y.gz".to_string())), Ok(InstallerSource::Download(u)) if u == "file:///x/y.gz"));
    assert!(matches!(installer_source("ftp://x/y.gz", Some("ftp://x/y.gz".to_string())), Ok(InstallerSource::Local(_))));
    assert!(matches!(installer_source("http://x/y.gz", None), Ok(InstallerSource::Local(p)) if p == "http://x/y.gz"));
    assert!(matches!(classify_installer("HTTP://EXAMPLE.COM/A/../b.gz"), Ok(InstallerSource::Local(_))));
    assert!(matches!(classify_installer("http://EXAMPLE.COM/a/../b.gz"), Ok(InstallerSource::Download(u)) if u == "http://example.com/b.gz"));
}

#[test]
fn dir_install_checks_in_order() {
    let (lib, bin, rustc) = dir_install_checks("C:\\src\\build", Platform::Windows);
    assert_eq!(lib, "C:\\src\\build\\lib");
    assert_eq!(bin, "C:\\src\\build\\bin");
    assert_eq!(rustc, "C:\\src\\build\\bin\\rustc.exe");
    assert_eq!(dir_install_checks("/src/build", Platform::Other).2, "/src/build/bin/rustc");
    let c = cfg();
    let t = tc(&c, "mine");
    let p = t.install_from_dir("/src/build", true, true, true, true).unwrap();
    assert_eq!(p.method, InstallMethodKind::Link);
    assert_eq!(p.source, "/src/build");
    let q = t.install_from_dir("/src/build", false, true, true, true).unwrap();
    assert_eq!(q.method, InstallMethodKind::Copy);
    assert!(matches!(t.install_from_dir("/s", true, false, false, false), Err(ToolchainError::NotADirectory(p)) if p == "/s/lib"));
    assert!(matches!(t.install_from_dir("/s", true, true, false, false), Err(ToolchainError::NotADirectory(p)) if p == "/s/bin"));
    assert!(matches!(t.install_from_dir("/s", true, true, true, false), Err(ToolchainError::NotAFile(p)) if p == "/s/bin/rustc"));
    let w = cfg_win();
    let tw = tc(&w, "mine");
    assert!(matches!(tw.install_from_dir("C:\\s", true, true, true, false), Err(ToolchainError::NotAFile(p)) if p == "C:\\s\\bin\\rustc.exe"));
    assert!(matches!(tc(&c, "stable-x").install_from_dir("/s", false, true, true, true), Err(ToolchainError::InvalidCustomToolchainName(n)) if n == "stable-x"));
}

#[test]
fn docs_and_binaries() {
    let c = cfg();
    let t = tc(&c, "stable-x");
    assert_eq!(t.doc_path("std/index.html", true).unwrap(), "/r/toolchains/stable-x/share/doc/rust/html/std/index.html");
    assert!(t.doc_path("index.html", false).is_err());
    assert_eq!(t.open_docs("book/index.html", true).unwrap(), "/r/toolchains/stable-x/share/doc/rust/html/book/index.html");
    assert_eq!(t.binary_file("rustc"), "/r/toolchains/stable-x/bin/rustc");
    let w = cfg_win();
    let tw = tc(&w, "stable-x");
    assert_eq!(tw.path(), "C:\\r\\toolchains\\stable-x");
    assert_eq!(tw.binary_file("rustc"), "C:\\r\\toolchains\\stable-x\\bin\\rustc.exe");
    assert_eq!(tw.binary_path("rustc"), "C:\\r\\toolchains\\stable-x\\bin\\rustc.exe");
    assert_eq!(tw.binary_path("RUSTC.EXE"), "C:\\r\\toolchains\\stable-x\\bin\\RUSTC.EXE");
    assert_eq!(tw.update_hash().as_deref(), Some("C:\\r\\update-hashes\\stable-x"));
    assert_eq!(tw.doc_path("std/index.html", true).unwrap(), "C:\\r\\toolchains\\stable-x\\share\\doc\\rust\\html\\std/index.html");
}

#[test]
fn joins_follow_the_platform() {
    assert_eq!(join(Platform::Other, "/a", "b"), "/a/b");
    assert_eq!(join(Platform::Other, "/a/", "b"), "/a/b");
    assert_eq!(join(Platform::Other, "/a", "/b"), "/b");
    assert_eq!(join(Platform::Other, "", "b"), "b");
    assert_eq!(join(Platform::Other, "a", "\\b"), "a/\\b");
    assert_eq!(join(Platform::Other, "a", "C:b"), "a/C:b");
    assert_eq!(join(Platform::Windows, "C:\\a", "b"), "C:\\a\\b");
    assert_eq!(join(Platform::Windows, "C:\\a/", "b"), "C:\\a/b");
    assert_eq!(join(Platform::Windows, "C:", "b"), "C:b");
    assert_eq!(join(Platform::Windows, "C:\\a", "\\b"), "C:\\b");
    assert_eq!(join(Platform::Windows, "C:\\a", "/b"), "C:/b");
    assert_eq!(join(Platform::Windows, "C:\\a", "D:\\b"), "D:\\b");
    assert_eq!(join(Platform::Windows, "C:\\a", "D:b"), "D:b");
    assert_eq!(join(Platform::Windows, "C:\\a", "\\\\srv\\share"), "\\\\srv\\share");
    assert_eq!(join(Platform::Windows, "\\\\srv\\share\\dir", "\\x"), "\\\\srv\\share\\x");
    assert_eq!(join(Platform::Windows, "rel", "\\x"), "\\x");
    assert_eq!(join(Platform::Windows, "C:\\a", "//srv/share/x"), "//srv/share/x");
    assert_eq!(join(Platform::Windows, "C:\\a", "\\\\srv"), "C:\\\\srv");
    assert_eq!(join(Platform::Windows, "C:\\a", "\\\\?\\D:\\b"), "\\\\?\\D:\\b");
    assert_eq!(join(Platform::Windows, "\\\\.\\COM1\\a", "\\x"), "\\\\.\\COM1\\x");
    assert_eq!(join(Platform::Windows, "//srv/share/a", "/x"), "//srv/share/x");
}

#[test]
fn verbatim_bases_are_normalized() {
    assert_eq!(join(Platform::Windows, r"\\?\C:\a\b", r"..\c"), r"\\?\C:\a\c");
    assert_eq!(join(Platform::Windows, r"\\?\C:\a", "./b/."), r"\\?\C:\a\b");
    assert_eq!(join(Platform::Windows, r"\\?\C:\a\", r"\x"), r"\\?\C:\x");
    assert_eq!(join(Platform::Windows, r"\\?\C:", "x"), r"\\?\C:\x");
    assert_eq!(join(Platform::Windows, r"\\?\C:\", ".."), r"\\?\C:\");
    assert_eq!(join(Platform::Windows, r"\\?\C:\a/b", ".."), r"\\?\C:\");
    assert_eq!(join(Platform::Windows, r"\\?\UNC\srv\share\d", "e"), r"\\?\UNC\srv\share\d\e");
    assert_eq!(join(Platform::Windows, r"\\?\C:\a", ""), r"\\?\C:\a\");
}

#[test]
fn binary_names() {
    assert_eq!(binary_name("cargo", Platform::Windows), "cargo.exe");
    assert_eq!(binary_name("CARGO.EXE", Platform::Windows), "CARGO.EXE");
    assert_eq!(binary_name("cargo", Platform::Other), "cargo");
    assert_eq!(binary_name("cargo.exe", Platform::MacOs), "cargo.exe");
    assert_eq!(binary_name_from_lower("Rustc.Exe", "rustc.exe", Platform::Windows), "Rustc.Exe");
    assert_eq!(binary_name_from_lower("rustc", "rustc", Platform::Windows), "rustc.exe");
    assert_eq!(binary_name_from_lower("rustc", "rustc", Platform::Other), "rustc");
}

#[test]
fn commands() {
    let c = cfg();
    let t = tc(&c, "stable-x");
    let e = env();
    assert!(matches!(t.create_command("rustc", false, true, &e, None), Err(ToolchainError::ToolchainNotInstalled(_))));
    let p = t.create_command("rustc", true, true, &e, None).unwrap();
    assert_eq!(p.program, "/r/toolchains/stable-x/bin/rustc");
    assert_eq!(p.env.ld.loader_var, "LD_LIBRARY_PATH");
    assert_eq!(p.env.ld.loader_entries, vec!["/r/toolchains/stable-x/lib".to_string()]);
    assert_eq!(p.env.ld.path_entries, vec!["/c/bin".to_string()]);
    let vars: Vec<(String, String)> = p.env.vars.iter().map(|v| (v.key.clone(), v.value.clone())).collect();
    assert_eq!(vars, vec![
        ("CARGO_HOME".to_string(), "/c".to_string()),
        ("RUSTUP_TOOLCHAIN".to_string(), "stable-x".to_string()),
        ("RUSTUP_HOME".to_string(), "/r".to_string()),
    ]);
    assert_eq!(p.env.recursion_count, 1);
    let p = t.create_command("rls", true, false, &e, None).unwrap();
    assert_eq!(p.program, "rls");
    let mut deep = env();
    deep.recursion_count = Some("20".to_string());
    assert!(matches!(t.create_command("rls", true, false, &deep, Some("stable-x")), Err(ToolchainError::BinaryNotFound(b, n, true)) if b == "rls" && n == "stable-x"));
    assert!(matches!(t.create_command("rls", true, false, &deep, Some("beta-x")), Err(ToolchainError::BinaryNotFound(_, _, false))));
    assert!(t.create_command("rls", true, true, &deep, None).is_ok());
    assert_eq!(recursion_count(&deep), 20);
    deep.recursion_count = Some("19".to_string());
    let p = t.create_command("rls", true, false, &deep, None).unwrap();
    assert_eq!(p.env.recursion_count, 20);
    deep.recursion_count = Some("lots".to_string());
    assert_eq!(recursion_count(&deep), 0);
    assert_eq!(t.create_command("rls", true, false, &deep, None).unwrap().env.recursion_count, 1);
}

#[test]
fn mac_loader_path() {
    let c = cfg_on(Platform::MacOs);
    let t = tc(&c, "stable-x");
    let ld = t.set_ldpath(&env());
    assert_eq!(ld.loader_var, "DYLD_FALLBACK_LIBRARY_PATH");
    assert_eq!(ld.loader_entries, vec![
        "/r/toolchains/stable-x/lib".to_string(),
        "/h/lib".to_string(),
        "/usr/local/lib".to_string(),
        "/usr/lib".to_string(),
    ]);
    let mut e = env();
    e.loader_path_empty = false;
    assert_eq!(t.set_ldpath(&e).loader_entries.len(), 1);
    let w = cfg_win();
    let tw = tc(&w, "stable-x");
    let ld = tw.set_ldpath(&env());
    assert_eq!(ld.loader_var, "LD_LIBRARY_PATH");
    assert_eq!(ld.loader_entries, vec!["C:\\r\\toolchains\\stable-x\\lib".to_string()]);
    assert_eq!(ld.path_entries, vec!["/c\\bin".to_string(), "C:\\r\\toolchains\\stable-x\\bin".to_string()]);
}

#[test]
fn fallback_command() {
    let c = cfg();
    let custom = tc(&c, "mine");
    let primary = tc(&c, "stable-x");
    let e = env();
    assert!(matches!(custom.create_fallback_command("cargo", &primary, false, true, &e), Err(ToolchainError::ToolchainNotInstalled(n)) if n == "mine"));
    assert!(matches!(custom.create_fallback_command("cargo", &primary, true, false, &e), Err(ToolchainError::ToolchainNotInstalled(n)) if n == "stable-x"));
    let p = custom.create_fallback_command("cargo", &primary, true, true, &e).unwrap();
    assert_eq!(p.program, "/r/toolchains/mine/bin/cargo");
    assert!(p.fallback.is_none());
    assert_eq!(p.env.ld.loader_entries, vec!["/r/toolchains/stable-x/lib".to_string()]);
    assert_eq!(p.env.vars.last().unwrap().value, "stable-x");
    let w = cfg_win();
    let custom = tc(&w, "mine");
    let primary = tc(&w, "stable-x");
    let p = custom.create_fallback_command("cargo.exe", &primary, true, true, &e).unwrap();
    assert_eq!(p.program, "C:\\r\\fallback\\cargo.exe");
    let f = p.fallback.unwrap();
    assert_eq!(f.dir, "C:\\r\\fallback");
    assert_eq!(f.file, "C:\\r\\fallback\\cargo.exe");
    assert_eq!(f.source, "C:\\r\\toolchains\\mine\\bin\\cargo.exe");
}
