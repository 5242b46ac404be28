# workbench

Verified logic behind three parts of a code editor's UI, written in Verus:

* **Import suggestions** for JavaScript/TypeScript files: which symbols to
  offer for the word under the cursor, the module specifier an import uses
  (`src/import_path.rs`), where the new `import` line goes and whether the
  file already imports the symbol (`src/buffer.rs`), and the suggestions
  themselves (`src/import_suggestions.rs`).
* **Run configurations** of the title bar: the active script, the pinned
  scripts, the scripts the worktrees define, starting and stopping them, and
  what is persisted (`src/task_template.rs`, `src/run_configurations.rs`).
* **Activity bar**: which docks' buttons are shown (`src/activity_bar.rs`).

`src/text.rs` holds character-level string operations; `src/paths.rs` holds
the calls into `std::path`, whose results are named rather than written out.
`src/import_laws.rs` and `src/run_configuration_laws.rs` state and prove what
holds across calls.

`app/` holds the unverified plumbing: reading and writing `.zed/*.json` with
serde, the stop-polling timer, and turning a file's text into the library's
buffer snapshot.
