use vixen::assets::{
    asset_file, asset_route, asset_table, find_asset, head, lookup_static, page_assets,
    page_entry, Entry, Manifest, CACHE_CONTROL,
};
use vixen::base_path::{base_path, is_valid_base_path, nest_path, redirect_location};
use vixen::bundler::{
    base_path_directive, bun_args, env_or, rerun_env_directive, rerun_file_directive,
    user_config_path, watch_candidates, Config, ConfigEnv, CONFIG_ENV_VARS,
};
use vixen::macros::{
    action_route_doc, builder_doc, check_id, derived_name, doc_lines, fragment_doc,
    fragment_names, html_id, html_id_doc, id_selector, id_value, route_doc, setter_kind,
    strip_id_suffix, SetterKind, TypeShape,
};

fn no_env() -> ConfigEnv {
    ConfigEnv {
        base_path: None,
        bun_cmd: None,
        root: None,
        assets_prefix: None,
        entry_glob: None,
        static_glob: None,
        config: None,
    }
}

fn manifest(files: &[&str]) -> Manifest {
    Manifest {
        entry_glob: "src/pages/**/{page,index}.ts".to_string(),
        static_glob: "src/**/assets/**/*.png".to_string(),
        dir: "/out/assets".to_string(),
        prefix: "assets".to_string(),
        files: files.iter().map(|f| f.to_string()).collect(),
        entries: Vec::new(),
        statics: Vec::new(),
    }
}

#[test]
fn base_paths_are_normalized() {
    assert_eq!(base_path(None), "");
    assert_eq!(base_path(Some("")), "");
    assert_eq!(base_path(Some("/")), "");
    assert_eq!(base_path(Some("///")), "");
    assert_eq!(base_path(Some("/app")), "/app");
    assert_eq!(base_path(Some("/app/")), "/app");
    assert_eq!(base_path(Some("/a/b//")), "/a/b");
}

#[test]
fn a_base_path_must_start_with_a_slash() {
    assert!(is_valid_base_path(None));
    assert!(is_valid_base_path(Some("")));
    assert!(is_valid_base_path(Some("//")));
    assert!(is_valid_base_path(Some("/app")));
    assert!(!is_valid_base_path(Some("app")));
    assert!(!is_valid_base_path(Some("app/")));
}

#[test]
fn normalizing_twice_changes_nothing() {
    for raw in ["/app//", "/", "", "/x/y/"] {
        let once = base_path(Some(raw));
        assert!(is_valid_base_path(Some(once.as_str())));
        assert_eq!(base_path(Some(once.as_str())), once);
    }
}

#[test]
fn mounting_nests_under_the_base_and_redirects_the_bare_base() {
    assert_eq!(nest_path("/app"), "/app/");
    assert_eq!(redirect_location("/app", None), "/app/");
    assert_eq!(redirect_location("/app", Some("a=1&b=2")), "/app/?a=1&b=2");
}

#[test]
fn the_config_defaults_yield_to_nonempty_variables() {
    let cfg = Config::from_env(no_env());
    assert_eq!(cfg.base_path, "");
    assert_eq!(cfg.bun_cmd, "bun");
    assert_eq!(cfg.root, "src");
    assert_eq!(cfg.assets_prefix, "assets");
    assert_eq!(cfg.entry_glob, "src/pages/**/{page,index}.ts");
    assert_eq!(cfg.static_glob, "src/**/assets/**/*.{svg,png,jpg,jpeg,gif,webp,avif,ico}");
    assert_eq!(cfg.config.as_deref(), Some("build.ts"));

    let mut env = no_env();
    env.base_path = Some("/app".to_string());
    env.bun_cmd = Some(String::new());
    env.config = Some("bun.config.ts".to_string());
    let cfg = Config::from_env(env);
    assert_eq!(cfg.base_path, "/app");
    assert_eq!(cfg.bun_cmd, "bun");
    assert_eq!(cfg.config.as_deref(), Some("bun.config.ts"));

    assert_eq!(env_or(Some("x".to_string()), "d"), "x");
    assert_eq!(env_or(Some(String::new()), "d"), "d");
    assert_eq!(env_or(None, "d"), "d");
    assert_eq!(CONFIG_ENV_VARS.len(), 7);
    assert_eq!(CONFIG_ENV_VARS[0], "VIXEN_BASE_PATH");
    assert_eq!(CONFIG_ENV_VARS[6], "VIXEN_CONFIG");
}

#[test]
fn the_bundler_runs_with_the_configured_globs() {
    let cfg = Config::from_env(no_env());
    assert_eq!(
        bun_args(&cfg, "/out/vixen-bundler.ts", None),
        vec![
            "run",
            "/out/vixen-bundler.ts",
            "--root",
            "src",
            "--assetsPrefix",
            "assets",
            "--entryGlob",
            "src/pages/**/{page,index}.ts",
            "--staticGlob",
            "src/**/assets/**/*.{svg,png,jpg,jpeg,gif,webp,avif,ico}",
        ]
    );
    assert_eq!(base_path_directive(&cfg), "cargo::rustc-env=VIXEN_BASE_PATH=");
    let with_user = bun_args(&cfg, "s.ts", Some("/app/build.ts"));
    assert_eq!(with_user.len(), 12);
    assert_eq!(with_user[10], "--userConfig");
    assert_eq!(with_user[11], "/app/build.ts");
    assert_eq!(user_config_path(&cfg, "/app"), Some("/app/build.ts".to_string()));
    let mut none = Config::from_env(no_env());
    none.config = None;
    assert_eq!(user_config_path(&none, "/app"), None);
    assert_eq!(rerun_env_directive("VIXEN_ROOT"), "cargo::rerun-if-env-changed=VIXEN_ROOT");
    assert_eq!(rerun_file_directive("/app/src"), "cargo::rerun-if-changed=/app/src");
}

#[test]
fn the_build_watches_the_root_the_static_base_and_the_package_files() {
    let cfg = Config::from_env(no_env());
    assert_eq!(
        watch_candidates(&cfg, "/app"),
        vec!["/app/src", "/app/src", "/app/package.json", "/app/tsconfig.json"]
    );

    let mut env = no_env();
    env.static_glob = Some("**/*.png".to_string());
    env.root = Some("/abs/root".to_string());
    let cfg = Config::from_env(env);
    assert_eq!(
        watch_candidates(&cfg, "/app/"),
        vec!["/abs/root", "/app/package.json", "/app/tsconfig.json"]
    );
}

#[test]
fn ids_are_bare() {
    assert_eq!(check_id("todo-list"), Ok(()));
    let err = "expected a bare id: not empty, no whitespace, no `#`".to_string();
    assert_eq!(check_id(""), Err(err.clone()));
    assert_eq!(check_id("a b"), Err(err.clone()));
    assert_eq!(check_id("a\u{00a0}b"), Err(err.clone()));
    assert_eq!(check_id("#a"), Err(err));
}

#[test]
fn default_ids_are_kebab_case_without_the_id_suffix() {
    assert_eq!(html_id("TodoListId"), "todo-list");
    assert_eq!(html_id("CartBadge"), "cart-badge");
    assert_eq!(html_id("Id"), "id");
    assert_eq!(strip_id_suffix("cart-id"), "cart");
    assert_eq!(strip_id_suffix("id"), "id");
    assert_eq!(strip_id_suffix("grid"), "grid");
    assert_eq!(id_value("NotesId", None), Ok("notes".to_string()));
    assert_eq!(id_value("NotesId", Some("my-notes")), Ok("my-notes".to_string()));
    assert!(id_value("NotesId", Some("my notes")).is_err());
    assert_eq!(id_selector("notes"), "#notes");
}

#[test]
fn generated_docs_and_names() {
    assert_eq!(doc_lines(false, "Route: `/`"), vec!["Route: `/`"]);
    assert_eq!(doc_lines(true, "Route: `/`"), vec!["", "Route: `/`"]);
    assert_eq!(route_doc("/items/{id}"), "Route: `/items/{id}`");
    assert_eq!(action_route_doc("/save"), "Route: `POST /save`");
    assert_eq!(html_id_doc("notes"), "HTML id: `notes`");
    assert_eq!(
        builder_doc("Save"),
        "`hx-action` attribute for [`Save`]. Setters fill `hx-vals`; `.hx()` continues with htmx options."
    );
    assert_eq!(derived_name("Save", "Action"), "SaveAction");
    assert_eq!(
        fragment_doc("CounterId", "counter"),
        "Fragment with id [`CounterId`]: a page call renders the element, a `partial!` call replaces it (`outerHTML`). [`counter::slot()`] renders a hidden `<div>` with the same id for a later `partial!` to replace."
    );
}

#[test]
fn fragment_names_come_from_the_function() {
    assert_eq!(
        fragment_names("todo_list", None, 1),
        Ok(("TodoListId".to_string(), "todo-list".to_string()))
    );
    assert_eq!(
        fragment_names("counter", Some("count"), 2),
        Ok(("CounterId".to_string(), "count".to_string()))
    );
    assert_eq!(
        fragment_names("counter", None, 0),
        Err("`#[fragment]` expects `id=(Self)` on the root element, e.g. `ul id=(Self) { .. }`".to_string())
    );
    assert_eq!(
        fragment_names("counter", Some("a#b"), 1),
        Err("expected a bare id: not empty, no whitespace, no `#`".to_string())
    );
}

fn path(last: &str, arg: Option<TypeShape>) -> TypeShape {
    TypeShape::Path {
        last: last.to_string(),
        has_args: arg.is_some(),
        first_type_arg: arg.map(Box::new),
    }
}

#[test]
fn setters_follow_the_field_type() {
    assert_eq!(setter_kind(&path("String", None)), SetterKind::IntoString);
    assert_eq!(
        setter_kind(&path("Option", Some(path("String", None)))),
        SetterKind::IntoString
    );
    assert_eq!(setter_kind(&path("Option", Some(path("i64", None)))), SetterKind::OptionArg);
    assert_eq!(setter_kind(&path("Option", None)), SetterKind::Declared);
    assert_eq!(setter_kind(&path("u32", None)), SetterKind::Declared);
    assert_eq!(setter_kind(&TypeShape::Other), SetterKind::Declared);
}

#[test]
fn the_page_head_links_its_entry() {
    assert_eq!(
        head("/app", "/assets/page-1a.js", Some("/assets/page-2b.css")).into_string(),
        r#"<script type="module" defer src="/app/assets/page-1a.js"></script><link rel="stylesheet" type="text/css" href="/app/assets/page-2b.css">"#
    );
    assert_eq!(
        head("", "/a&b.js", None).into_string(),
        r#"<script type="module" defer src="/a&amp;b.js"></script>"#
    );
}

#[test]
fn a_page_finds_the_first_entry_in_its_directory() {
    let entry = |js: &str| Entry { js: js.to_string(), css: None };
    let entries = vec![
        ("/app/src/pages/about/page.ts".to_string(), entry("a.js")),
        ("/app/src/pages/index.ts".to_string(), entry("i.js")),
        ("/app/src/pages/./page.ts".to_string(), entry("p.js")),
    ];
    assert_eq!(page_entry(&entries, "/app/src/pages"), Some(1));
    assert_eq!(page_entry(&entries, "/app/src/pages/about/"), Some(0));
    assert_eq!(page_entry(&entries, "/app/src"), None);
    assert_eq!(
        page_assets("/base", &entries, "/app/src/pages").into_string(),
        r#"<script type="module" defer src="/basei.js"></script>"#
    );
    assert_eq!(page_assets("/base", &entries, "/app/src").into_string(), "");
}

#[test]
fn statics_are_looked_up_by_path() {
    let statics = vec![
        ("/a/x.png".to_string(), "/assets/x-1.png".to_string()),
        ("/a/y.png".to_string(), "/assets/y-2.png".to_string()),
    ];
    assert_eq!(lookup_static(&statics, &"/a/y.png".to_string()), Some("/assets/y-2.png".to_string()));
    assert_eq!(lookup_static(&statics, &"/a/z.png".to_string()), None);
}

#[test]
fn the_asset_table_is_sorted_and_searchable() {
    let table = asset_table(&manifest(&["page-b.js", "page-a.css", "logo-c.svg", "z.unknownext"]));
    let names: Vec<&str> = table.iter().map(|f| f.name.as_str()).collect();
    assert_eq!(names, vec!["logo-c.svg", "page-a.css", "page-b.js", "z.unknownext"]);
    assert_eq!(table[0].content_type, "image/svg+xml");
    assert_eq!(table[1].content_type, "text/css");
    assert_eq!(table[2].content_type, "text/javascript");
    assert_eq!(table[3].content_type, "application/octet-stream");
    assert_eq!(table[1].path, "/out/assets/page-a.css");
    assert_eq!(find_asset(&table, "page-b.js"), Some(2));
    assert_eq!(find_asset(&table, "logo-c.svg"), Some(0));
    assert_eq!(find_asset(&table, "missing.js"), None);
    assert_eq!(find_asset(&Vec::new(), "a"), None);
    assert_eq!(asset_route("assets"), "/assets/{*path}");
    assert_eq!(CACHE_CONTROL, "public, max-age=31536000, immutable");
    let f = asset_file("/out/", "a.js", "text/javascript".to_string());
    assert_eq!(f.path, "/out/a.js");
}
