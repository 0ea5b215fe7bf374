use std::path::Path;

use vixen::assets::{asset_path, resolve_asset, Entry, Manifest};
use vixen::paths::{glob_base, join, normalize, parent_is, same_path};

#[test]
fn glob_base_stops_at_the_first_pattern() {
    let cases = [
        ("src/**/assets/**/*.png", "src"),
        ("src/pages/*/assets/*.svg", "src/pages"),
        ("static/logo.svg", "static/logo.svg"),
        ("**/assets/*.png", ""),
        ("{src,static}/**/*.png", ""),
    ];
    for (glob, want) in cases {
        assert_eq!(Path::new(&glob_base(glob)), Path::new(want), "{glob}");
    }
}

#[test]
fn glob_base_keeps_the_text_of_the_collected_path() {
    assert_eq!(glob_base("a//b/*.png"), "a/b");
    assert_eq!(glob_base("src/[ab]/x"), "src");
    assert_eq!(glob_base("/abs/x/?.png"), "abs/x");
    assert_eq!(glob_base(""), "");
}

#[test]
fn normalizes_dot_segments() {
    assert_eq!(
        Path::new(&normalize("/app/src/pages/a/./../b/assets/x.png")),
        Path::new("/app/src/pages/b/assets/x.png")
    );
}

#[test]
fn normalize_writes_the_collapsed_path() {
    assert_eq!(normalize("/app/src/pages/a/./../b/assets/x.png"), "/app/src/pages/b/assets/x.png");
    assert_eq!(normalize("/../a"), "/a");
    assert_eq!(normalize("../a/b/.."), "a");
    assert_eq!(normalize("./a//b/"), "a/b");
    assert_eq!(normalize("/"), "/");
    assert_eq!(normalize(""), "");
    assert_eq!(normalize("a/../.."), "");
}

#[test]
fn normalize_is_idempotent_on_examples() {
    for p in ["/x/./y/../z", "a/b/../../c", "//a///b", "./.", "../.."] {
        let once = normalize(p);
        assert_eq!(normalize(&once), once);
    }
}

#[test]
fn join_follows_path_join() {
    assert_eq!(join("/app/src", "../Cargo.toml"), "/app/src/../Cargo.toml");
    assert_eq!(join("/app/src/", "x"), "/app/src/x");
    assert_eq!(join("/app", "/etc/x"), "/etc/x");
    assert_eq!(join("", "x"), "x");
    for (a, b) in [("/app/src", "../x"), ("/a/", "b"), ("/a", "/b"), ("", "c")] {
        assert_eq!(Path::new(&join(a, b)), Path::new(a).join(b));
    }
}

#[test]
fn parent_and_equality_compare_components() {
    assert!(parent_is("/app/src/pages/todos/index.ts", "/app/src/pages/todos"));
    assert!(parent_is("/app/src/pages/todos/index.ts", "/app/src//pages/todos/"));
    assert!(!parent_is("/app/src/pages/todos/index.ts", "/app/src/pages"));
    assert!(!parent_is("/", ""));
    assert!(same_path("/a/./b/", "/a/b"));
    assert!(!same_path("/a/b", "a/b"));
}

fn manifest(statics: &[(&str, &str)]) -> Manifest {
    Manifest {
        entry_glob: "src/pages/**/{page,index}.ts".to_string(),
        static_glob: "src/**/assets/**/*.png".to_string(),
        dir: "/out/assets".to_string(),
        prefix: "assets".to_string(),
        files: vec![],
        entries: vec![(
            "/app/src/pages/todos/index.ts".to_string(),
            Entry { js: "/assets/todos-1.js".to_string(), css: None },
        )],
        statics: statics.iter().map(|(p, u)| (p.to_string(), u.to_string())).collect(),
    }
}

#[test]
fn resolves_relative_to_the_calling_dir() {
    let manifest = manifest(&[("/app/Cargo.toml", "/assets/Cargo-1a2b3c4d.toml")]);
    assert_eq!(asset_path("/app/src", "../Cargo.toml"), "/app/Cargo.toml");
    let url = resolve_asset("/app/src", "../Cargo.toml", true, &manifest);
    assert_eq!(url.as_deref(), Ok("/assets/Cargo-1a2b3c4d.toml"));
}

#[test]
fn rejects_missing_and_unmatched_files() {
    let manifest = manifest(&[]);

    let err = resolve_asset("/app/src", "./nope.png", false, &manifest).unwrap_err();
    assert_eq!(err, "cannot find `./nope.png` at /app/src/nope.png");

    let err = resolve_asset("/app/src", "./lib.rs", true, &manifest).unwrap_err();
    assert_eq!(
        err,
        "`./lib.rs` is not matched by `Config::static_glob` (`src/**/assets/**/*.png`)"
    );
}

#[test]
fn a_normalized_path_keeps_no_dots_and_keeps_its_root() {
    for p in ["/a/./b/../..", "/..", "./x/../..", "a/./.", "/./"] {
        let n = normalize(p);
        assert!(Path::new(&n).components().all(|c| {
            !matches!(c, std::path::Component::CurDir | std::path::Component::ParentDir)
        }));
        assert_eq!(n.starts_with('/'), p.starts_with('/'), "{p}");
    }
}
