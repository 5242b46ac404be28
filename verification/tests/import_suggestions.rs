use workbench::buffer::{BufferSnapshot, Point};
use workbench::import_suggestions::{
    collect_import_suggestions, wants_import_suggestions, ImportSuggestion, ImportSuggestionError,
    ImportSuggestionsProvider, Symbol, SymbolLocation,
};

fn snapshot(lines: &[&str]) -> BufferSnapshot {
    BufferSnapshot { lines: lines.iter().map(|s| s.to_string()).collect() }
}

fn in_project(name: &str, path: &str) -> Symbol {
    Symbol { name: name.to_string(), path: SymbolLocation::InProject(path.to_string()) }
}

fn outside(name: &str, path: &str) -> Symbol {
    Symbol { name: name.to_string(), path: SymbolLocation::OutsideProject(path.to_string()) }
}

#[test]
fn suggestions_only_in_js_ts_files_for_a_word() {
    assert!(wants_import_suggestions("/p/a.ts", "Foo"));
    assert!(wants_import_suggestions("/p/A.TSX", "Foo"));
    assert!(!wants_import_suggestions("/p/a.rs", "Foo"));
    assert!(!wants_import_suggestions("/p/Makefile", "Foo"));
    assert!(!wants_import_suggestions("/p/a.ts", ""));
}

#[test]
fn suggestion_for_project_symbol() {
    let s = snapshot(&["import { Bar } from './bar';", "", "Foo();"]);
    let symbols = vec![in_project("Foo", "src/foo.ts")];
    let out = collect_import_suggestions("Foo", "/root/src/app.ts", "/root", &symbols, &s);
    assert_eq!(out.len(), 1);
    assert_eq!(out[0].0, "Import 'Foo' from './foo'");
    assert_eq!(out[0].1.edit_text, "import { Foo } from './foo';\n");
    let p = Point { row: 1, column: 0 };
    assert_eq!(out[0].1.edit_range, (p, p));
}

#[test]
fn suggestions_keep_symbol_order_and_skip_unfit_symbols() {
    let s = snapshot(&["let x = 1;"]);
    let symbols = vec![
        in_project("Other", "src/other.ts"),
        outside("Foo", "/lib/node_modules/foo-lib/index.js"),
        in_project("Foo", "src/foo.rs"),
        in_project("Foo", "src/app.ts"),
        in_project("Foo", "src/FOO.TS"),
    ];
    let out = collect_import_suggestions("Foo", "/root/src/app.ts", "/root", &symbols, &s);
    let titles: Vec<&str> = out.iter().map(|(t, _)| t.as_str()).collect();
    assert_eq!(titles, vec!["Import 'Foo' from 'foo-lib'", "Import 'Foo' from './FOO.TS'"]);
    assert_eq!(out[0].1.edit_range, (Point { row: 0, column: 0 }, Point { row: 0, column: 0 }));
}

#[test]
fn already_imported_symbol_is_not_suggested() {
    let s = snapshot(&["import { Foo } from './foo';"]);
    let symbols = vec![in_project("Foo", "src/foo.ts")];
    let out = collect_import_suggestions("Foo", "/root/src/app.ts", "/root", &symbols, &s);
    assert!(out.is_empty());
}

fn suggestion(text: &str, row: u32) -> ImportSuggestion {
    let p = Point { row, column: 0 };
    ImportSuggestion { edit_range: (p, p), edit_text: text.to_string() }
}

#[test]
fn provider_applies_first_suggestion_with_title() {
    let provider = ImportSuggestionsProvider::new(vec![
        ("A".to_string(), suggestion("one", 1)),
        ("B".to_string(), suggestion("two", 2)),
        ("B".to_string(), suggestion("three", 3)),
    ]);
    assert_eq!(provider.id(), "import_suggestions");
    let (range, text) = provider.apply_code_action("B").unwrap();
    assert_eq!(text, "two");
    assert_eq!(range.0, Point { row: 2, column: 0 });
    assert_eq!(provider.apply_code_action("C").unwrap_err(), ImportSuggestionError::NotFound);
}
