//! Planning the commands that run a toolchain's binaries, and their environment.

use vstd::prelude::*;
use crate::error::ToolchainError;
use crate::install::{exe_suffix, exe_suffix_str, texts};
use crate::path::Platform;
use crate::number::{parse_u32, spec_parse_u32};
use crate::path::{join, path_join};
use crate::text::text_eq;
use crate::toolchain::Toolchain;

verus! {

/// How deep toolchain proxies may call one another before a missing binary is an error.
pub const RUST_RECURSION_COUNT_MAX: u32 = 20;

/// What `str::to_lowercase` returns for a text.
pub uninterp spec fn lowercase(s: Seq<char>) -> Seq<char>;

/// Calls `str::to_lowercase`. Its result is a function of the text alone, named
/// `lowercase`; nothing more is claimed of it.
#[verifier::external_body]
fn to_lowercase(s: &str) -> (r: String)
    ensures
        r@ == lowercase(s@),
{
    s.to_lowercase()
}

/// What the caller observed of the process environment.
pub struct Environment {
    /// Cargo's home directory, when it could be determined.
    pub cargo_home: Option<String>,
    /// Whether the dynamic loader's fallback variable is unset or empty.
    pub loader_path_empty: bool,
    /// The user's home directory, when set.
    pub home: Option<String>,
    /// The value of `RUST_RECURSION_COUNT`, when set.
    pub recursion_count: Option<String>,
}

/// A variable set for a command.
#[derive(Debug)]
pub struct EnvVar {
    pub key: String,
    pub value: String,
}

/// The search paths a command gets: directories put in front of the loader's variable
/// and in front of `PATH`.
#[derive(Debug)]
pub struct LdPath {
    pub loader_var: String,
    pub loader_entries: Vec<String>,
    pub path_entries: Vec<String>,
}

/// The environment a command gets.
#[derive(Debug)]
pub struct EnvPlan {
    pub ld: LdPath,
    pub vars: Vec<EnvVar>,
    /// The value `RUST_RECURSION_COUNT` gets: one more than the count read.
    pub recursion_count: u64,
}

/// Where the fallback `cargo.exe` is linked on Windows: the directory to create, the
/// link to replace, and the file linked to.
#[derive(Debug)]
pub struct FallbackLink {
    pub dir: String,
    pub file: String,
    pub source: String,
}

/// A command to run.
#[derive(Debug)]
pub struct CommandPlan {
    pub program: String,
    pub env: EnvPlan,
    pub fallback: Option<FallbackLink>,
}

pub open spec fn var_view(v: EnvVar) -> (Seq<char>, Seq<char>) {
    (v.key@, v.value@)
}

pub open spec fn vars_view(s: Seq<EnvVar>) -> Seq<(Seq<char>, Seq<char>)> {
    s.map_values(|v: EnvVar| var_view(v))
}

pub open spec fn ends_with(s: Seq<char>, p: Seq<char>) -> bool {
    p.len() <= s.len() && s.skip(s.len() - p.len()) == p
}

/// The binary's file name: the name as given when its lowercase form already ends in the
/// executable suffix, else the name with the suffix.
pub open spec fn spec_binary_name(binary: Seq<char>, p: Platform) -> Seq<char> {
    if ends_with(lowercase(binary), exe_suffix(p)) {
        binary
    } else {
        binary + exe_suffix(p)
    }
}

/// The variable that the dynamic loader searches.
pub open spec fn spec_loader_var(p: Platform) -> Seq<char> {
    match p {
        Platform::MacOs => "DYLD_FALLBACK_LIBRARY_PATH"@,
        _ => "LD_LIBRARY_PATH"@,
    }
}

/// The directories put in front of the loader's variable.
pub open spec fn spec_loader_entries(p: Platform, path: Seq<char>, env: Environment) -> Seq<Seq<char>> {
    seq![path_join(p, path, "lib"@)] + if p == Platform::MacOs && env.loader_path_empty {
        (match env.home {
            Some(h) => seq![path_join(p, h@, "lib"@)],
            None => Seq::empty(),
        }) + seq!["/usr/local/lib"@, "/usr/lib"@]
    } else {
        Seq::empty()
    }
}

/// The directories put in front of `PATH`.
pub open spec fn spec_path_entries(p: Platform, path: Seq<char>, env: Environment) -> Seq<Seq<char>> {
    (match env.cargo_home {
        Some(c) => seq![path_join(p, c@, "bin"@)],
        None => Seq::empty(),
    }) + if p == Platform::Windows {
        seq![path_join(p, path, "bin"@)]
    } else {
        Seq::empty()
    }
}

/// The variables set for a command of the toolchain `name`.
pub open spec fn spec_env_vars(name: Seq<char>, rustup_dir: Seq<char>, env: Environment) -> Seq<
    (Seq<char>, Seq<char>),
> {
    (match env.cargo_home {
        Some(c) => seq![("CARGO_HOME"@, c@)],
        None => Seq::empty(),
    }) + seq![("RUSTUP_TOOLCHAIN"@, name), ("RUSTUP_HOME"@, rustup_dir)]
}

/// The number of nested proxy calls so far: `RUST_RECURSION_COUNT` read as a count, or 0.
pub open spec fn spec_recursion_count(env: Environment) -> u32 {
    match env.recursion_count {
        Some(s) => match spec_parse_u32(s@) {
            Some(n) => n,
            None => 0,
        },
        None => 0,
    }
}

/// The number of nested proxy calls so far: `RUST_RECURSION_COUNT` read as a count, or 0.
pub fn recursion_count(env: &Environment) -> (r: u32)
    ensures
        r == spec_recursion_count(*env),
{
    match &env.recursion_count {
        Some(s) => match parse_u32(s.as_str()) {
            Some(n) => n,
            None => 0,
        },
        None => 0,
    }
}

/// Whether `s` ends with `p`.
fn ends_with_exec(s: &str, p: &str) -> (r: bool)
    ensures
        r == ends_with(s@, p@),
{
    let n = s.unicode_len();
    let m = p.unicode_len();
    if m > n {
        return false;
    }
    let tail = s.substring_char(n - m, n);
    proof {
        assert(tail@ =~= s@.skip(n - m));
    }
    text_eq(tail, p)
}

/// The binary's file name given its lowercase form `lower`: the name as given when
/// `lower` already ends in the executable suffix, else the name with the suffix.
pub fn binary_name_from_lower(binary: &str, lower: &str, platform: Platform) -> (r: String)
    ensures
        r@ == (if ends_with(lower@, exe_suffix(platform)) {
            binary@
        } else {
            binary@ + exe_suffix(platform)
        }),
{
    let suffix = exe_suffix_str(platform);
    if ends_with_exec(lower, suffix) {
        String::from_str(binary)
    } else {
        String::from_str(binary).concat(suffix)
    }
}

/// The binary's file name, with the executable suffix where it lacks one.
pub fn binary_name(binary: &str, platform: Platform) -> (r: String)
    ensures
        r@ == spec_binary_name(binary@, platform),
{
    let lower = to_lowercase(binary);
    binary_name_from_lower(binary, lower.as_str(), platform)
}

impl<'a> Toolchain<'a> {
    /// The search paths for a command of this toolchain.
    pub fn set_ldpath(&self, env: &Environment) -> (r: LdPath)
        ensures
            r.loader_var@ == spec_loader_var(self.spec_cfg().platform),
            texts(r.loader_entries@) == spec_loader_entries(self.spec_cfg().platform, self.spec_path(), *env),
            texts(r.path_entries@) == spec_path_entries(self.spec_cfg().platform, self.spec_path(), *env),
    {
        let p = self.cfg().platform;
        proof {
            reveal_strlit("DYLD_FALLBACK_LIBRARY_PATH");
            reveal_strlit("LD_LIBRARY_PATH");
        }
        let mut loader_entries: Vec<String> = Vec::new();
        loader_entries.push(join(p, self.path(), "lib"));
        let on_mac = match p {
            Platform::MacOs => true,
            _ => false,
        };
        if on_mac && env.loader_path_empty {
            match &env.home {
                Some(h) => {
                    loader_entries.push(join(p, h.as_str(), "lib"));
                },
                None => {},
            }
            loader_entries.push(String::from_str("/usr/local/lib"));
            loader_entries.push(String::from_str("/usr/lib"));
        }
        let loader_var = if on_mac {
            String::from_str("DYLD_FALLBACK_LIBRARY_PATH")
        } else {
            String::from_str("LD_LIBRARY_PATH")
        };
        let mut path_entries: Vec<String> = Vec::new();
        match &env.cargo_home {
            Some(c) => {
                path_entries.push(join(p, c.as_str(), "bin"));
            },
            None => {},
        }
        match p {
            Platform::Windows => {
                path_entries.push(join(p, self.path(), "bin"));
            },
            _ => {},
        }
        proof {
            assert(texts(loader_entries@) =~= spec_loader_entries(p, self.spec_path(), *env));
            assert(texts(path_entries@) =~= spec_path_entries(p, self.spec_path(), *env));
        }
        LdPath { loader_var, loader_entries, path_entries }
    }

    /// The environment for a command of this toolchain.
    pub fn set_env(&self, env: &Environment) -> (r: EnvPlan)
        ensures
            r.ld.loader_var@ == spec_loader_var(self.spec_cfg().platform),
            texts(r.ld.loader_entries@) == spec_loader_entries(self.spec_cfg().platform, self.spec_path(), *env),
            texts(r.ld.path_entries@) == spec_path_entries(self.spec_cfg().platform, self.spec_path(), *env),
            vars_view(r.vars@) == spec_env_vars(self.spec_name(), self.spec_cfg().rustup_dir@, *env),
            r.recursion_count == spec_recursion_count(*env) + 1,
    {
        proof {
            reveal_strlit("CARGO_HOME");
            reveal_strlit("RUSTUP_TOOLCHAIN");
            reveal_strlit("RUSTUP_HOME");
        }
        let ld = self.set_ldpath(env);
        let mut vars: Vec<EnvVar> = Vec::new();
        match &env.cargo_home {
            Some(c) => {
                vars.push(EnvVar { key: String::from_str("CARGO_HOME"), value: c.clone() });
            },
            None => {},
        }
        vars.push(EnvVar { key: String::from_str("RUSTUP_TOOLCHAIN"), value: String::from_str(self.name()) });
        vars.push(EnvVar { key: String::from_str("RUSTUP_HOME"), value: self.cfg().rustup_dir.clone() });
        proof {
            assert(vars_view(vars@) =~= spec_env_vars(self.spec_name(), self.spec_cfg().rustup_dir@, *env));
        }
        let count: u32 = recursion_count(env);
        EnvPlan { ld, vars, recursion_count: count as u64 + 1 }
    }

    /// Where the binary would be in the toolchain's `bin` directory.
    pub fn binary_path(&self, binary: &str) -> (r: String)
        ensures
            ({
                let p = self.spec_cfg().platform;
                r@ == path_join(p, path_join(p, self.spec_path(), "bin"@), spec_binary_name(binary@, p))
            }),
    {
        let p = self.cfg().platform;
        let name = binary_name(binary, p);
        let bin = join(p, self.path(), "bin");
        join(p, bin.as_str(), name.as_str())
    }

    /// The command that runs `binary` with this toolchain: the toolchain's own binary
    /// when `bin_is_file` (whether `binary_path` is a file), else the binary found on the
    /// search path; a missing binary is an error once proxies have nested too deep.
    /// `default_toolchain` is the default toolchain's name, consulted for that error only.
    pub fn create_command(
        &self,
        binary: &str,
        present: bool,
        bin_is_file: bool,
        env: &Environment,
        default_toolchain: Option<&str>,
    ) -> (r: Result<CommandPlan, ToolchainError>)
        ensures
            !present ==> (r matches Err(ToolchainError::ToolchainNotInstalled(n)) && n@
                == self.spec_name()),
            present && !bin_is_file && spec_recursion_count(*env) > RUST_RECURSION_COUNT_MAX - 1
                ==> (r matches Err(ToolchainError::BinaryNotFound(b, n, d)) && b@ == spec_binary_name(
                binary@,
                self.spec_cfg().platform,
            ) && n@ == self.spec_name() && d == (default_toolchain matches Some(t) && t@ == self.spec_name())),
            present && (bin_is_file || spec_recursion_count(*env) <= RUST_RECURSION_COUNT_MAX - 1)
                ==> (r matches Ok(p) && p.program@ == (if bin_is_file {
                path_join(
                    self.spec_cfg().platform,
                    path_join(self.spec_cfg().platform, self.spec_path(), "bin"@),
                    spec_binary_name(binary@, self.spec_cfg().platform),
                )
            } else {
                spec_binary_name(binary@, self.spec_cfg().platform)
            }) && p.fallback is None && p.env.ld.loader_var@ == spec_loader_var(self.spec_cfg().platform)
                && texts(p.env.ld.loader_entries@) == spec_loader_entries(
                self.spec_cfg().platform,
                self.spec_path(),
                *env,
            ) && texts(p.env.ld.path_entries@) == spec_path_entries(
                self.spec_cfg().platform,
                self.spec_path(),
                *env,
            ) && vars_view(
                p.env.vars@,
            ) == spec_env_vars(self.spec_name(), self.spec_cfg().rustup_dir@, *env)
                && p.env.recursion_count == spec_recursion_count(*env) + 1),
    {
        if !present {
            return Err(ToolchainError::ToolchainNotInstalled(String::from_str(self.name())));
        }
        let name = binary_name(binary, self.cfg().platform);
        let program = if bin_is_file {
            self.binary_path(binary)
        } else {
            let count: u32 = recursion_count(env);
            if count > RUST_RECURSION_COUNT_MAX - 1 {
                let is_default = match default_toolchain {
                    Some(t) => text_eq(t, self.name()),
                    None => false,
                };
                return Err(ToolchainError::BinaryNotFound(name, String::from_str(self.name()), is_default));
            }
            name
        };
        let plan_env = self.set_env(env);
        Ok(CommandPlan { program, env: plan_env, fallback: None })
    }

    /// The command that runs this toolchain's `cargo` with the environment of `primary`:
    /// how custom toolchains reach cargo. On Windows the binary is first linked into its
    /// own directory under rustup's root.
    pub fn create_fallback_command(
        &self,
        binary: &str,
        primary: &Toolchain,
        present: bool,
        primary_present: bool,
        env: &Environment,
    ) -> (r: Result<CommandPlan, ToolchainError>)
        requires
            binary@ == "cargo"@ || binary@ == "cargo.exe"@,
        ensures
            !present ==> (r matches Err(ToolchainError::ToolchainNotInstalled(n)) && n@
                == self.spec_name()),
            present && !primary_present ==> (r matches Err(ToolchainError::ToolchainNotInstalled(n))
                && n@ == primary.spec_name()),
            present && primary_present ==> (r matches Ok(p) && {
                let q = self.spec_cfg().platform;
                let pp = primary.spec_cfg().platform;
                let src = path_join(q, path_join(q, self.spec_path(), "bin"@), "cargo"@ + exe_suffix(q));
                let dir = path_join(q, self.spec_cfg().rustup_dir@, "fallback"@);
                let file = path_join(q, dir, "cargo.exe"@);
                &&& q == Platform::Windows ==> (p.fallback matches Some(f) && f.dir@ == dir && f.file@
                    == file && f.source@ == src && p.program@ == file)
                &&& q != Platform::Windows ==> (p.fallback is None && p.program@ == src)
                &&& p.env.ld.loader_var@ == spec_loader_var(pp)
                &&& texts(p.env.ld.loader_entries@) == spec_loader_entries(pp, primary.spec_path(), *env)
                &&& texts(p.env.ld.path_entries@) == spec_path_entries(pp, primary.spec_path(), *env)
                &&& vars_view(p.env.vars@) == spec_env_vars(primary.spec_name(), primary.spec_cfg().rustup_dir@, *env)
                    + seq![("RUSTUP_TOOLCHAIN"@, primary.spec_name())]
                &&& p.env.recursion_count == spec_recursion_count(*env) + 1
            }),
    {
        if !present {
            return Err(ToolchainError::ToolchainNotInstalled(String::from_str(self.name())));
        }
        if !primary_present {
            return Err(ToolchainError::ToolchainNotInstalled(String::from_str(primary.name())));
        }
        let q = self.cfg().platform;
        let bin = join(q, self.path(), "bin");
        let cargo = String::from_str("cargo").concat(exe_suffix_str(q));
        let src_file = join(q, bin.as_str(), cargo.as_str());
        let (program, fallback) = match q {
            Platform::Windows => {
                let dir = join(q, self.cfg().rustup_dir.as_str(), "fallback");
                let file = join(q, dir.as_str(), "cargo.exe");
                let program = file.clone();
                (program, Some(FallbackLink { dir, file, source: src_file }))
            },
            _ => (src_file, None),
        };
        let mut plan_env = primary.set_env(env);
        proof {
            reveal_strlit("RUSTUP_TOOLCHAIN");
        }
        let ghost before = plan_env.vars@;
        plan_env.vars.push(
            EnvVar { key: String::from_str("RUSTUP_TOOLCHAIN"), value: String::from_str(primary.name()) },
        );
        proof {
            assert(vars_view(plan_env.vars@) =~= vars_view(before) + seq![("RUSTUP_TOOLCHAIN"@, primary.spec_name())]);
        }
        Ok(CommandPlan { program, env: plan_env, fallback })
    }
}

} // verus!
