use rustup_toolchain::component::{
    component_lt_exec, sorted_components,
    Component, ComponentStatus, Config, Manifest, Package, PackageTargets, Rename, TargetEntry,
    TargetedPackage,
};
use rustup_toolchain::error::ToolchainError;
use rustup_toolchain::inventory::{rust_version, SettingsChange};
use rustup_toolchain::install::Platform;
use rustup_toolchain::toolchain::{Cfg, Toolchain};

fn tc<'a>(c: &'a Cfg, name: &str) -> Toolchain<'a> {
    Toolchain::from(c, Ok::<String, ()>(name.to_string())).unwrap()
}

const T: &str = "x86_64-unknown-linux-gnu";

fn comp(pkg: &str, target: Option<&str>, ext: bool) -> Component {
    Component { pkg: pkg.to_string(), target: target.map(|t| t.to_string()), is_extension: ext }
}

fn tp(available: bool, components: Vec<Component>) -> TargetedPackage {
    TargetedPackage { available, components }
}

fn targeted(target: &str, p: TargetedPackage) -> PackageTargets {
    PackageTargets::Targeted(vec![TargetEntry { target: target.to_string(), package: p }])
}

fn manifest() -> Manifest {
    let rust_components = vec![
        comp("rustc", Some(T), false),
        comp("rust-std", Some(T), false),
        comp("rls-preview", Some(T), true),
        comp("rust-src", None, true),
        comp("cargo", Some(T), false),
        comp("rust-std", Some("wasm32-unknown-unknown"), true),
    ];
    Manifest {
        date: "2019-09-26".to_string(),
        packages: vec![
            Package { name: "rust".to_string(), version: "1.38.0 (625451e37 2019-09-23)".to_string(), targets: targeted(T, tp(true, rust_components)) },
            Package { name: "rustc".to_string(), version: "1.38.0".to_string(), targets: targeted(T, tp(true, vec![])) },
            Package { name: "cargo".to_string(), version: "0.39.0".to_string(), targets: targeted(T, tp(true, vec![])) },
            Package { name: "rls-preview".to_string(), version: "1.38.0".to_string(), targets: targeted(T, tp(false, vec![])) },
            Package { name: "rust-src".to_string(), version: "1.38.0".to_string(), targets: PackageTargets::Wildcard(tp(true, vec![])) },
            Package {
                name: "rust-std".to_string(),
                version: "1.38.0".to_string(),
                targets: PackageTargets::Targeted(vec![
                    TargetEntry { target: T.to_string(), package: tp(true, vec![]) },
                    TargetEntry { target: "wasm32-unknown-unknown".to_string(), package: tp(true, vec![]) },
                ]),
            },
        ],
        renames: vec![Rename { from: "rls".to_string(), to: "rls-preview".to_string() }],
    }
}

fn config() -> Option<Config> {
    Some(Config { components: vec![comp("rustc", Some(T), false), comp("cargo", Some(T), false), comp("rust-src", Some(T), false)] })
}

fn cfg() -> Cfg {
    Cfg {
        toolchains_dir: "/r/toolchains".to_string(),
        update_hash_dir: "/r/h".to_string(),
        rustup_dir: "/r".to_string(),
        platform: Platform::Other,
    }
}

fn names(v: &[ComponentStatus]) -> Vec<String> {
    v.iter().map(|s| s.name.clone()).collect()
}

#[test]
fn lists_components_in_order() {
    let c = cfg();
    let t = tc(&c, "stable-x86_64-unknown-linux-gnu");
    let m = manifest();
    let l = t.list_components(true, Some(&m), &config()).unwrap();
    assert_eq!(names(&l), vec![
        "cargo-x86_64-unknown-linux-gnu",
        "rls-x86_64-unknown-linux-gnu",
        "rust-src",
        "rust-std-wasm32-unknown-unknown",
        "rust-std-x86_64-unknown-linux-gnu",
        "rustc-x86_64-unknown-linux-gnu",
    ]);
    let installed: Vec<bool> = l.iter().map(|s| s.installed).collect();
    assert_eq!(installed, vec![true, false, true, false, false, true]);
    let available: Vec<bool> = l.iter().map(|s| s.available).collect();
    assert_eq!(available, vec![true, false, true, true, true, true]);
    let none = t.list_components(true, Some(&m), &None).unwrap();
    assert!(none.iter().all(|s| !s.installed));
}

#[test]
fn listing_needs_an_installed_distributed_toolchain() {
    let c = cfg();
    let m = manifest();
    let t = tc(&c, "stable-x86_64-unknown-linux-gnu");
    assert!(matches!(t.list_components(false, Some(&m), &None), Err(ToolchainError::ToolchainNotInstalled(_))));
    assert!(matches!(t.list_components(true, None, &None), Err(ToolchainError::ComponentsUnsupported(_))));
    let custom = tc(&c, "mine");
    assert!(matches!(custom.list_components(true, Some(&m), &None), Err(ToolchainError::ComponentsUnsupported(n)) if n == "mine"));
}

#[test]
fn adds_components() {
    let c = cfg();
    let t = tc(&c, "stable-x86_64-unknown-linux-gnu");
    let m = manifest();
    let cf = config();
    let ch = t.add_component(comp("rls", Some(T), true), true, Some(&m), &cf).unwrap();
    assert_eq!(ch.add.len(), 1);
    assert_eq!(ch.add[0].pkg, "rls-preview");
    assert!(ch.remove.is_empty());
    let ch = t.add_component(comp("rust-src", Some(T), false), true, Some(&m), &cf).unwrap();
    assert_eq!(ch.add[0].target, None);
    match t.add_component(comp("rustcc", Some(T), false), true, Some(&m), &cf) {
        Err(ToolchainError::UnknownComponent(n, d, s)) => {
            assert_eq!(n, "stable-x86_64-unknown-linux-gnu");
            assert_eq!(d, "'rustcc' for target 'x86_64-unknown-linux-gnu'");
            assert_eq!(s.as_deref(), Some("rustc"));
        }
        other => panic!("{:?}", other),
    }
    match t.add_component(comp("miri", None, false), true, Some(&m), &cf) {
        Err(ToolchainError::UnknownComponent(_, d, s)) => {
            assert_eq!(d, "'miri'");
            assert_eq!(s, None);
        }
        other => panic!("{:?}", other),
    }
    assert!(matches!(t.add_component(comp("rls", Some(T), true), false, Some(&m), &cf), Err(ToolchainError::ToolchainNotInstalled(_))));
    assert!(matches!(t.add_component(comp("rls", Some(T), true), true, None, &cf), Err(ToolchainError::ComponentsUnsupported(_))));
}

#[test]
fn adding_a_known_component_does_not_need_every_package() {
    let c = cfg();
    let t = tc(&c, "stable-x86_64-unknown-linux-gnu");
    let mut m = manifest();
    m.packages.retain(|p| p.name == "rust");
    let ch = t.add_component(comp("cargo", Some(T), false), true, Some(&m), &config()).unwrap();
    assert_eq!(ch.add[0].pkg, "cargo");
}

#[test]
fn suggests_target_when_only_target_differs() {
    let c = cfg();
    let t = tc(&c, "stable-x86_64-unknown-linux-gnu");
    let m = manifest();
    let s = t.get_component_suggestion(&comp("rust-std", Some("wasm32-unknown-unknowm"), false), &m, false, true, &config());
    assert_eq!(s.as_deref(), Some("wasm32-unknown-unknown"));
    assert_eq!(t.get_component_suggestion(&comp("cargo", None, false), &m, false, false, &config()), None);
    assert_eq!(tc(&c, "mine").get_component_suggestion(&comp("cargo", None, false), &m, false, true, &config()), None);
}

#[test]
fn suggests_by_manifest_name_when_closer() {
    let c = cfg();
    let t = tc(&c, "stable-x86_64-unknown-linux-gnu");
    let m = manifest();
    let s = t.get_component_suggestion(&comp("rls-previe", Some(T), false), &m, false, true, &config());
    assert_eq!(s.as_deref(), Some("rls-preview"));
}

#[test]
fn suggestion_among_installed_only() {
    let c = cfg();
    let t = tc(&c, "stable-x86_64-unknown-linux-gnu");
    let m = manifest();
    let s = t.get_component_suggestion(&comp("rls", Some(T), false), &m, true, true, &config());
    assert_eq!(s.as_deref(), Some("rustc"));
    let s = t.get_component_suggestion(&comp("rls", Some(T), false), &m, false, true, &config());
    assert_eq!(s.as_deref(), Some("x86_64-unknown-linux-gnu"));
}

#[test]
fn removes_components() {
    let c = cfg();
    let t = tc(&c, "stable-x86_64-unknown-linux-gnu");
    let m = manifest();
    let cf = config();
    let ch = t.remove_component(comp("cargo", Some(T), false), true, Some(&m), &cf).unwrap();
    assert_eq!(ch.remove.len(), 1);
    assert_eq!(ch.remove[0].pkg, "cargo");
    assert!(ch.add.is_empty());
    match t.remove_component(comp("cargp", Some(T), false), true, Some(&m), &cf) {
        Err(ToolchainError::UnknownComponent(_, _, s)) => assert_eq!(s.as_deref(), Some("cargo")),
        other => panic!("{:?}", other),
    }
    assert!(matches!(t.remove_component(comp("cargo", Some(T), false), false, Some(&m), &cf), Err(ToolchainError::ToolchainNotInstalled(_))));
}

#[test]
fn versions() {
    let c = cfg();
    let m = manifest();
    let t = tc(&c, "stable-x86_64-unknown-linux-gnu");
    assert_eq!(t.show_version(true, Some(&m)).unwrap().as_deref(), Some("1.38.0 (625451e37 2019-09-23)"));
    assert_eq!(t.show_version(true, None).unwrap(), None);
    assert!(matches!(t.show_version(false, Some(&m)), Err(ToolchainError::ToolchainNotInstalled(_))));
    assert!(matches!(tc(&c, "mine").show_version(true, Some(&m)), Err(ToolchainError::InvalidToolchainName(_))));
    assert!(t.show_dist_version(Some(&m)).unwrap().is_some());
    let empty = Manifest { date: String::new(), packages: vec![], renames: vec![] };
    assert!(matches!(rust_version(Some(&empty)), Err(ToolchainError::MissingPackage(p)) if p == "rust"));
    let src = t.get_manifest(true).unwrap();
    assert_eq!(src.prefix, "/r/toolchains/stable-x86_64-unknown-linux-gnu");
    assert_eq!(src.target, T);
}

#[test]
fn settings_changes() {
    let c = cfg();
    let t = tc(&c, "beta-x");
    assert!(matches!(t.make_default(), SettingsChange::Default(n) if n == "beta-x"));
    assert!(matches!(t.make_override("/proj"), SettingsChange::Override(p, n) if p == "/proj" && n == "beta-x"));
}

#[test]
fn component_names() {
    let m = manifest();
    let rls = comp("rls-preview", Some(T), true);
    assert_eq!(m.short_name(&rls), "rls");
    assert_eq!(m.component_name(&rls), "rls-x86_64-unknown-linux-gnu");
    assert_eq!(rls.name_in_manifest(), "rls-preview-x86_64-unknown-linux-gnu");
    assert_eq!(m.description(&rls), "'rls' for target 'x86_64-unknown-linux-gnu'");
    assert_eq!(comp("rust-src", None, true).target(), "");
    let src = comp("rust-src", None, false);
    assert!(src.contained_within(&vec![comp("rust-src", Some(T), false)]));
    assert!(!comp("rust-src", Some(T), false).contained_within(&vec![src.duplicate()]));
}

#[test]
fn sorts_by_package_target_then_extension() {
    let cs = vec![
        comp("b", None, true),
        comp("a", Some("z"), false),
        comp("b", None, false),
        comp("a", None, false),
        comp("a", Some("y"), true),
    ];
    let s = sorted_components(&cs);
    let keys: Vec<(String, Option<String>, bool)> =
        s.iter().map(|c| (c.pkg.clone(), c.target.clone(), c.is_extension)).collect();
    let mut expected: Vec<(String, Option<String>, bool)> =
        cs.iter().map(|c| (c.pkg.clone(), c.target.clone(), c.is_extension)).collect();
    expected.sort();
    assert_eq!(keys, expected);
    assert!(component_lt_exec(&comp("a", None, false), &comp("a", Some(""), false)));
    assert!(!component_lt_exec(&comp("a", None, true), &comp("a", None, true)));
    assert!(component_lt_exec(&comp("ab", None, true), &comp("b", None, false)));
}

#[test]
fn manifest_tables_must_be_maps() {
    let m = manifest();
    assert!(m.is_well_formed());
    let mut dup = manifest();
    dup.packages.push(Package { name: "cargo".to_string(), version: "0.40.0".to_string(), targets: PackageTargets::Wildcard(tp(true, vec![])) });
    assert!(!dup.is_well_formed());
    let mut dup = manifest();
    dup.renames.push(Rename { from: "rls".to_string(), to: "rls-next".to_string() });
    assert!(!dup.is_well_formed());
    let mut dup = manifest();
    dup.renames.push(Rename { from: "rls2".to_string(), to: "rls-preview".to_string() });
    assert!(!dup.is_well_formed());
    let twice = PackageTargets::Targeted(vec![
        TargetEntry { target: T.to_string(), package: tp(true, vec![]) },
        TargetEntry { target: T.to_string(), package: tp(false, vec![]) },
    ]);
    assert!(!twice.is_well_formed());
    let mut dup = manifest();
    dup.packages[1].targets = twice;
    assert!(!dup.is_well_formed());
}
