use workbench::buffer::{find_import_insert_position, is_already_imported, BufferSnapshot, Point};

fn snapshot(lines: &[&str]) -> BufferSnapshot {
    BufferSnapshot { lines: lines.iter().map(|s| s.to_string()).collect() }
}

fn at(row: u32) -> Point {
    Point { row, column: 0 }
}

#[test]
fn no_imports_inserts_at_start() {
    assert_eq!(find_import_insert_position(&snapshot(&["const a = 1;"])), (at(0), false));
    assert_eq!(find_import_insert_position(&snapshot(&[])), (at(0), false));
    assert_eq!(find_import_insert_position(&snapshot(&["importance = 1;"])), (at(0), false));
}

#[test]
fn single_import_inserts_after_it() {
    let s = snapshot(&["import { a } from 'a';", "", "code();"]);
    assert_eq!(find_import_insert_position(&s), (at(1), true));
}

#[test]
fn multi_line_import_inserts_after_its_end() {
    let s = snapshot(&["import {", "  a,", "  b,", "} from 'a';", "x();"]);
    assert_eq!(find_import_insert_position(&s), (at(4), true));
}

#[test]
fn indented_and_unspaced_imports_count() {
    assert_eq!(find_import_insert_position(&snapshot(&["   import x from \"y\"  "])), (at(1), true));
    assert_eq!(find_import_insert_position(&snapshot(&["import\"./side\"", "x"])), (at(1), true));
    assert_eq!(find_import_insert_position(&snapshot(&["\timport{a}from'a'", "x"])), (at(1), true));
}

#[test]
fn last_import_wins() {
    let s = snapshot(&["import a from 'a';", "const x = 1;", "import b from 'b';", "y();"]);
    assert_eq!(find_import_insert_position(&s), (at(3), true));
}

#[test]
fn unterminated_import_counts_as_one_row() {
    let s = snapshot(&["import {", "a", "b"]);
    assert_eq!(find_import_insert_position(&s), (at(1), true));
}

#[test]
fn imports_after_row_99_are_ignored() {
    let mut lines: Vec<&str> = vec!["x();"; 100];
    lines.push("import a from 'a';");
    assert_eq!(find_import_insert_position(&snapshot(&lines)), (at(0), false));
    lines[99] = "import a from 'a';";
    assert_eq!(find_import_insert_position(&snapshot(&lines)), (at(100), true));
}

#[test]
fn import_ending_past_the_scanned_rows() {
    let mut lines: Vec<&str> = vec!["x();"; 99];
    lines.push("import {");
    for _ in 0..5 {
        lines.push("  a,");
    }
    lines.push("} from 'a';");
    assert_eq!(find_import_insert_position(&snapshot(&lines)), (at(106), true));
}

#[test]
fn already_imported_needs_name_and_path_on_one_row() {
    let s = snapshot(&["import { Foo } from './foo';", "import { Bar } from './bar';"]);
    assert!(is_already_imported(&s, "Foo", "./foo"));
    assert!(!is_already_imported(&s, "Foo", "./bar"));
    assert!(!is_already_imported(&s, "Baz", "./foo"));
}

#[test]
fn already_imported_only_looks_at_first_hundred_rows() {
    let mut lines: Vec<&str> = vec![""; 100];
    lines.push("import { Foo } from './foo';");
    assert!(!is_already_imported(&snapshot(&lines), "Foo", "./foo"));
    lines[99] = "import { Foo } from './foo';";
    assert!(is_already_imported(&snapshot(&lines), "Foo", "./foo"));
}
