use workbench::import_path::{compute_import_path, is_js_ts_extension, package_import_path, relative_import_path};

fn path(from: &str, target: &str) -> Option<String> {
    compute_import_path(from, target, "/p")
}

fn strings(parts: &[&str]) -> Vec<String> {
    parts.iter().map(|s| s.to_string()).collect()
}

#[test]
fn js_ts_extensions_are_recognised_exactly() {
    for ext in ["js", "jsx", "mjs", "ts", "tsx", "mts"] {
        assert!(is_js_ts_extension(ext), "{ext}");
    }
    for ext in ["TS", "json", "", "cjs", "d.ts", "tsx "] {
        assert!(!is_js_ts_extension(ext), "{ext}");
    }
}

#[test]
fn node_modules_target_gives_package_name() {
    assert_eq!(path("/p/src/a.ts", "/p/node_modules/react/index.js"), Some("react".to_string()));
    assert_eq!(path("/p/src/a.ts", "/p/node_modules/lodash/fp/map.js"), Some("lodash".to_string()));
}

#[test]
fn scoped_package_keeps_scope_and_name() {
    assert_eq!(
        path("/p/src/a.ts", "/p/node_modules/@scope/pkg/dist/x.js"),
        Some("@scope/pkg".to_string())
    );
    assert_eq!(path("/p/src/a.ts", "/p/node_modules/@scope"), Some("@scope".to_string()));
}

#[test]
fn last_node_modules_segment_wins() {
    assert_eq!(
        path("/p/src/a.ts", "/p/node_modules/a/node_modules/b/x.js"),
        Some("b".to_string())
    );
}

#[test]
fn package_name_from_rest_of_path() {
    assert_eq!(package_import_path("react/index.js"), "react");
    assert_eq!(package_import_path("@a/b/c/d.js"), "@a/b");
    assert_eq!(package_import_path("@a"), "@a");
    assert_eq!(package_import_path("/x"), "");
}

#[test]
fn sibling_file_is_dot_slash_without_extension() {
    assert_eq!(path("/p/src/a.ts", "/p/src/b.ts"), Some("./b".to_string()));
    assert_eq!(path("/p/src/a.ts", "/p/src/lib/util.tsx"), Some("./lib/util".to_string()));
}

#[test]
fn file_in_other_directory_climbs_with_dot_dot() {
    assert_eq!(path("/p/src/a.ts", "/p/lib/util.js"), Some("../lib/util".to_string()));
    assert_eq!(path("/p/src/x/a.ts", "/p/lib/u.mts"), Some("../../lib/u".to_string()));
}

#[test]
fn index_file_is_imported_by_its_directory() {
    assert_eq!(path("/p/src/a.ts", "/p/src/comp/index.ts"), Some("./comp".to_string()));
    assert_eq!(path("/p/src/a.ts", "/p/src/index.ts"), Some("./".to_string()));
    assert_eq!(path("/p/src/x/a.ts", "/p/src/index.jsx"), Some("..".to_string()));
}

#[test]
fn other_extensions_are_kept() {
    assert_eq!(path("/p/src/a.ts", "/p/src/data.json"), Some("./data.json".to_string()));
    assert_eq!(path("/p/src/a.ts", "/p/src/types.d.ts"), Some("./types.d".to_string()));
}

#[test]
fn relative_and_rootless_paths() {
    assert_eq!(path("a.ts", "b.ts"), Some("./b".to_string()));
    assert_eq!(path("/a.ts", "/index.ts"), Some("./".to_string()));
}

#[test]
fn no_parent_directory_gives_none() {
    assert_eq!(path("", "/p/src/b.ts"), None);
    assert_eq!(path("/", "/p/src/b.ts"), None);
}

#[test]
fn relative_path_from_components() {
    let from = strings(&["/", "p", "src"]);
    assert_eq!(relative_import_path(&from, &strings(&["/", "p", "src", "x"])), "./x");
    assert_eq!(relative_import_path(&from, &strings(&["/", "q", "y"])), "../../q/y");
    assert_eq!(relative_import_path(&from, &strings(&["/"])), "../..");
    assert_eq!(relative_import_path(&from, &from), "./");
    assert_eq!(relative_import_path(&strings(&[]), &strings(&["a", "b"])), "./a/b");
}

/// Follows a specifier from a directory the way a module resolver does.
fn follow(dir: &str, specifier: &str) -> Vec<String> {
    let mut parts: Vec<String> = std::path::Path::new(dir)
        .components()
        .map(|c| c.as_os_str().to_string_lossy().into_owned())
        .collect();
    for seg in specifier.split('/') {
        match seg {
            "" | "." => {}
            ".." => {
                parts.pop();
            }
            name => parts.push(name.to_string()),
        }
    }
    parts
}

fn components_of(p: &str) -> Vec<String> {
    std::path::Path::new(p).components().map(|c| c.as_os_str().to_string_lossy().into_owned()).collect()
}

#[test]
fn specifier_leads_back_to_target() {
    let cases = [
        ("/p/src/a.ts", "/p/src/b.ts", "/p/src/b"),
        ("/p/src/a.ts", "/p/lib/util.js", "/p/lib/util"),
        ("/p/src/x/a.ts", "/p/lib/u.mts", "/p/lib/u"),
        ("/p/src/a.ts", "/p/src/comp/index.ts", "/p/src/comp"),
        ("/p/src/a.ts", "/p/src/index.ts", "/p/src"),
        ("/p/src/x/y/a.ts", "/p/src/index.tsx", "/p/src"),
        ("/p/a.ts", "/q/r/s.json", "/q/r/s.json"),
    ];
    for (from, target, named) in cases {
        let s = path(from, target).unwrap();
        let dir = std::path::Path::new(from).parent().unwrap().to_str().unwrap().to_string();
        assert_eq!(follow(&dir, &s), components_of(named), "{from} -> {target}");
    }
}
