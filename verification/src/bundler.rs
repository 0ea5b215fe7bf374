//! Build settings for the asset bundler, and what a build script derives from
//! them: the arguments that run the bundler, the paths it watches, and the
//! directives it prints for Cargo.
use vstd::prelude::*;

use crate::paths::{components_of, glob_base, glob_base_of, join, pushed, same_path};

verus! {

/// Build settings. Paths are relative to the crate's manifest directory.
pub struct Config {
    /// URL prefix the app is served under, e.g. `/app`. Empty by default.
    pub base_path: String,
    /// Bun executable (`bun` by default).
    pub bun_cmd: String,
    /// Base path stripped from entry paths (`src` by default).
    pub root: String,
    /// Output directory (`assets` by default).
    pub assets_prefix: String,
    /// Entry glob (`src/pages/**/{page,index}.ts` by default).
    pub entry_glob: String,
    /// Static asset glob for `asset!`.
    pub static_glob: String,
    /// Bun config merged into `Bun.build` (`build.ts` by default).
    pub config: Option<String>,
}

/// The values of the `VIXEN_<FIELD>` environment variables, where set.
pub struct ConfigEnv {
    pub base_path: Option<String>,
    pub bun_cmd: Option<String>,
    pub root: Option<String>,
    pub assets_prefix: Option<String>,
    pub entry_glob: Option<String>,
    pub static_glob: Option<String>,
    pub config: Option<String>,
}

/// A variable's value if it is set and nonempty, else the default.
pub open spec fn env_or_spec(value: Option<String>, default: Seq<char>) -> Seq<char> {
    match value {
        Some(v) => if v@.len() > 0 {
            v@
        } else {
            default
        },
        None => default,
    }
}

/// Uses `value` if it is set and nonempty, else `default`.
pub fn env_or(value: Option<String>, default: &str) -> (r: String)
    ensures
        r@ == env_or_spec(value, default@),
{
    match value {
        Some(v) => {
            if v.unicode_len() > 0 {
                v
            } else {
                default.to_owned()
            }
        },
        None => default.to_owned(),
    }
}

impl Config {
    /// The default settings, each overridden by its nonempty `VIXEN_<FIELD>`
    /// variable.
    pub fn from_env(env: ConfigEnv) -> (c: Config)
        ensures
            c.base_path@ == env_or_spec(env.base_path, ""@),
            c.bun_cmd@ == env_or_spec(env.bun_cmd, "bun"@),
            c.root@ == env_or_spec(env.root, "src"@),
            c.assets_prefix@ == env_or_spec(env.assets_prefix, "assets"@),
            c.entry_glob@ == env_or_spec(env.entry_glob, "src/pages/**/{page,index}.ts"@),
            c.static_glob@ == env_or_spec(
                env.static_glob,
                "src/**/assets/**/*.{svg,png,jpg,jpeg,gif,webp,avif,ico}"@,
            ),
            c.config matches Some(p) && p@ == env_or_spec(env.config, "build.ts"@),
    {
        Config {
            base_path: env_or(env.base_path, ""),
            bun_cmd: env_or(env.bun_cmd, "bun"),
            root: env_or(env.root, "src"),
            assets_prefix: env_or(env.assets_prefix, "assets"),
            entry_glob: env_or(env.entry_glob, "src/pages/**/{page,index}.ts"),
            static_glob: env_or(env.static_glob, "src/**/assets/**/*.{svg,png,jpg,jpeg,gif,webp,avif,ico}"),
            config: Some(env_or(env.config, "build.ts")),
        }
    }
}

/// The environment variables that affect the build configuration.
pub const CONFIG_ENV_VARS: [&'static str; 7] = [
    "VIXEN_BASE_PATH",
    "VIXEN_BUN_CMD",
    "VIXEN_ROOT",
    "VIXEN_ASSETS_PREFIX",
    "VIXEN_ENTRY_GLOB",
    "VIXEN_STATIC_GLOB",
    "VIXEN_CONFIG",
];

/// The arguments that run the bundler script with `cfg`, then, when the
/// user's Bun config exists, `--userConfig` and its path.
pub open spec fn bun_args_of(cfg: Config, script: Seq<char>, user_config: Option<Seq<char>>) -> Seq<
    Seq<char>,
> {
    seq![
        "run"@,
        script,
        "--root"@,
        cfg.root@,
        "--assetsPrefix"@,
        cfg.assets_prefix@,
        "--entryGlob"@,
        cfg.entry_glob@,
        "--staticGlob"@,
        cfg.static_glob@,
    ] + match user_config {
        Some(p) => seq!["--userConfig"@, p],
        None => Seq::empty(),
    }
}

/// The views of a list of strings.
pub open spec fn string_views(v: Seq<String>) -> Seq<Seq<char>> {
    v.map_values(|s: String| s@)
}

/// The arguments that run the bundler script at `script` with `cfg`;
/// `user_config` is the path of the user's Bun config when that file exists.
pub fn bun_args(cfg: &Config, script: &str, user_config: Option<&str>) -> (r: Vec<String>)
    ensures
        string_views(r@) == bun_args_of(
            *cfg,
            script@,
            match user_config {
                Some(p) => Some(p@),
                None => None,
            },
        ),
{
    let mut r: Vec<String> = Vec::new();
    r.push("run".to_owned());
    r.push(script.to_owned());
    r.push("--root".to_owned());
    r.push(cfg.root.clone());
    r.push("--assetsPrefix".to_owned());
    r.push(cfg.assets_prefix.clone());
    r.push("--entryGlob".to_owned());
    r.push(cfg.entry_glob.clone());
    r.push("--staticGlob".to_owned());
    r.push(cfg.static_glob.clone());
    match user_config {
        Some(p) => {
            r.push("--userConfig".to_owned());
            r.push(p.to_owned());
        },
        None => {},
    }
    proof {
        assert(string_views(r@) =~= bun_args_of(
            *cfg,
            script@,
            match user_config {
                Some(p) => Some(p@),
                None => None,
            },
        ));
    }
    r
}

/// Where the build looks for the user's Bun config: `cfg.config` joined to
/// the manifest directory `dir`, if it is set.
pub fn user_config_path(cfg: &Config, dir: &str) -> (r: Option<String>)
    ensures
        match cfg.config {
            Some(c) => r matches Some(p) && p@ == pushed(dir@, c@),
            None => r is None,
        },
{
    match &cfg.config {
        Some(c) => Some(join(dir, c.as_str())),
        None => None,
    }
}

/// The directive that reruns the build when the variable `name` changes.
pub fn rerun_env_directive(name: &str) -> (r: String)
    ensures
        r@ == "cargo::rerun-if-env-changed="@ + name@,
{
    let mut r = "cargo::rerun-if-env-changed=".to_owned();
    r.append(name);
    r
}

/// The directive that reruns the build when the file or directory at `path`
/// changes.
pub fn rerun_file_directive(path: &str) -> (r: String)
    ensures
        r@ == "cargo::rerun-if-changed="@ + path@,
{
    let mut r = "cargo::rerun-if-changed=".to_owned();
    r.append(path);
    r
}

/// The paths a build watches, relative to the manifest directory: the entry
/// root, the literal base of the static glob (which may lie outside the
/// root), `package.json` and `tsconfig.json`.
pub open spec fn watched_of(cfg: Config) -> Seq<Seq<char>> {
    seq![cfg.root@, glob_base_of(cfg.static_glob@), "package.json"@, "tsconfig.json"@]
}

/// A watched path joined to `dir`.
pub open spec fn joined_to(dir: Seq<char>) -> spec_fn(Seq<char>) -> Seq<char> {
    |w: Seq<char>| pushed(dir, w)
}

/// Whether a path is other than `dir`, compared by components.
pub open spec fn other_than(dir: Seq<char>) -> spec_fn(Seq<char>) -> bool {
    |p: Seq<char>| components_of(p) != components_of(dir)
}

/// The watched paths joined to `dir`, in order, without those that are `dir`
/// itself.
pub open spec fn watch_list(cfg: Config, dir: Seq<char>) -> Seq<Seq<char>> {
    watched_of(cfg).map_values(joined_to(dir)).filter(other_than(dir))
}

/// What a build watches: each watched path joined to `dir`, except one with
/// the same components as `dir` (as `Path`'s `==` compares them, so `dir`
/// with a trailing `/` or `.` is left out too), and nothing else.
pub proof fn law_watch_list_skips_the_dir(cfg: Config, dir: Seq<char>)
    ensures
        forall|i: int|
            0 <= i < watch_list(cfg, dir).len() ==> components_of(#[trigger] watch_list(cfg, dir)[i])
                != components_of(dir),
        forall|i: int|
            0 <= i < watch_list(cfg, dir).len() ==> exists|k: int|
                0 <= k < 4 && #[trigger] watch_list(cfg, dir)[i] == pushed(dir, watched_of(cfg)[k]),
        forall|k: int|
            0 <= k < 4 && components_of(pushed(dir, #[trigger] watched_of(cfg)[k])) != components_of(dir)
                ==> watch_list(cfg, dir).contains(pushed(dir, watched_of(cfg)[k])),
{
    let w = watched_of(cfg);
    let m = w.map_values(joined_to(dir));
    let pred = other_than(dir);
    let f = m.filter(pred);
    assert(f == watch_list(cfg, dir));
    assert forall|i: int| 0 <= i < f.len() implies components_of(#[trigger] f[i]) != components_of(dir) by {
        m.lemma_filter_pred(pred, i);
    }
    assert forall|i: int| 0 <= i < f.len() implies exists|k: int|
        0 <= k < 4 && #[trigger] f[i] == pushed(dir, w[k]) by {
        assert(f.contains(f[i]));
        m.lemma_filter_contains_rev(pred, f[i]);
        let k = choose|k: int| 0 <= k < m.len() && m[k] == f[i];
        assert(m[k] == pushed(dir, w[k]));
    }
    assert forall|k: int|
        0 <= k < 4 && components_of(pushed(dir, #[trigger] w[k])) != components_of(dir) implies f.contains(
        pushed(dir, w[k]),
    ) by {
        assert(m[k] == pushed(dir, w[k]));
        m.lemma_filter_contains(pred, k);
    }
}

/// The watched paths joined to `dir`, leaving out any that is `dir` itself
/// (as an empty glob base is). The build watches those that exist.
pub fn watch_candidates(cfg: &Config, dir: &str) -> (r: Vec<String>)
    ensures
        string_views(r@) == watch_list(*cfg, dir@),
{
    let base = glob_base(cfg.static_glob.as_str());
    let mut names: Vec<String> = Vec::new();
    names.push(cfg.root.clone());
    names.push(base);
    names.push("package.json".to_owned());
    names.push("tsconfig.json".to_owned());
    let ghost w = watched_of(*cfg);
    proof {
        assert(string_views(names@) =~= w);
        assert(w.take(0).map_values(joined_to(dir@)) =~= Seq::<Seq<char>>::empty());
        reveal(Seq::filter);
        assert(string_views(Seq::<String>::empty()) =~= Seq::<Seq<char>>::empty());
    }
    let mut r: Vec<String> = Vec::new();
    let mut k: usize = 0;
    while k < 4
        invariant
            names.len() == 4,
            string_views(names@) == w,
            w == watched_of(*cfg),
            k <= 4,
            string_views(r@) == w.take(k as int).map_values(joined_to(dir@)).filter(other_than(dir@)),
        decreases 4 - k,
    {
        let path = join(dir, names[k].as_str());
        proof {
            assert(w[k as int] == names@[k as int]@);
        }
        let ghost before = r@;
        let ghost m = w.take(k as int + 1).map_values(joined_to(dir@));
        proof {
            assert(m.drop_last() =~= w.take(k as int).map_values(joined_to(dir@)));
            assert(m.last() == path@);
            reveal(Seq::filter);
        }
        if !same_path(path.as_str(), dir) {
            r.push(path);
            proof {
                assert(string_views(r@) =~= string_views(before).push(m.last()));
            }
        }
        k = k + 1;
    }
    proof {
        assert(w.take(4) =~= w);
    }
    r
}

/// The directive that passes the base path to rustc.
pub fn base_path_directive(cfg: &Config) -> (r: String)
    ensures
        r@ == "cargo::rustc-env=VIXEN_BASE_PATH="@ + cfg.base_path@,
{
    let mut r = "cargo::rustc-env=VIXEN_BASE_PATH=".to_owned();
    r.append(cfg.base_path.as_str());
    r
}

} // verus!
