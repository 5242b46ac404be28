//! Import suggestions for the word under the cursor in a JavaScript or
//! TypeScript file: which project symbols to offer, and the edit each one makes.
use crate::buffer::{
    already_imported, find_import_insert_position, insert_position, is_already_imported, BufferSnapshot,
    Point,
};
use crate::import_path::{compute_import_path, import_path, is_js_ts_extension, js_ts_extension};
use crate::paths::{extension, join, path_eq, path_extension, path_join, same_path};
use crate::text::{chars_equal, lowercase, to_chars, to_lowercase};
use vstd::prelude::*;

verus! {

/// Where a symbol is defined: a path relative to the worktree root, or an
/// absolute path outside the project.
pub enum SymbolLocation {
    InProject(String),
    OutsideProject(String),
}

/// A symbol that a project-wide search found.
pub struct Symbol {
    pub name: String,
    pub path: SymbolLocation,
}

/// An edit that inserts an import statement: the range it replaces (empty,
/// at the insertion point) and the text it inserts.
pub struct ImportSuggestion {
    pub edit_range: (Point, Point),
    pub edit_text: String,
}

/// The suggestions offered for one word, each under its title.
pub struct ImportSuggestionsProvider {
    pub suggestions: Vec<(String, ImportSuggestion)>,
}

/// Why an import suggestion could not be applied.
#[derive(Debug, PartialEq, Eq, Structural)]
pub enum ImportSuggestionError {
    /// No suggestion has the requested title.
    NotFound,
}

/// What a suggestion amounts to: its title, its edit range and its text.
pub type SuggestionView = (Seq<char>, (Point, Point), Seq<char>);

/// The view of a titled suggestion.
pub open spec fn suggestion_view(s: (String, ImportSuggestion)) -> SuggestionView {
    (s.0@, s.1.edit_range, s.1.edit_text@)
}

/// The file a symbol lives in.
pub open spec fn symbol_target(worktree_root: Seq<char>, location: SymbolLocation) -> Seq<char> {
    match location {
        SymbolLocation::InProject(p) => path_join(worktree_root, p@),
        SymbolLocation::OutsideProject(p) => p@,
    }
}

/// The lower-cased extension of a path, empty when it has none.
pub open spec fn lowercase_extension(path: Seq<char>) -> Seq<char> {
    match path_extension(path) {
        Some(e) => lowercase(e),
        None => Seq::empty(),
    }
}

/// The statement that imports `word` from `path`.
pub open spec fn import_statement(word: Seq<char>, path: Seq<char>) -> Seq<char> {
    "import { "@ + word + " } from '"@ + path + "';\n"@
}

/// The title under which that import is offered.
pub open spec fn import_title(word: Seq<char>, path: Seq<char>) -> Seq<char> {
    "Import '"@ + word + "' from '"@ + path + "'"@
}

/// The suggestion that one symbol yields: only a symbol named `word`, in
/// another JavaScript/TypeScript file, with an import specifier that no early
/// row of the buffer mentions together with `word`.
pub open spec fn suggestion_for(
    word: Seq<char>,
    from_file: Seq<char>,
    worktree_root: Seq<char>,
    symbol: Symbol,
    rows: Seq<Seq<char>>,
) -> Option<SuggestionView> {
    let target = symbol_target(worktree_root, symbol.path);
    if symbol.name@ != word || !js_ts_extension(lowercase_extension(target)) || path_eq(
        target,
        from_file,
    ) {
        None
    } else {
        match import_path(from_file, target) {
            None => None,
            Some(p) => if already_imported(rows, word, p) {
                None
            } else {
                let at = insert_position(rows).0;
                Some((import_title(word, p), (at, at), import_statement(word, p)))
            },
        }
    }
}

/// The suggestions that the symbols yield, in their order.
pub open spec fn suggestions_for(
    word: Seq<char>,
    from_file: Seq<char>,
    worktree_root: Seq<char>,
    symbols: Seq<Symbol>,
    rows: Seq<Seq<char>>,
) -> Seq<SuggestionView>
    decreases symbols.len(),
{
    if symbols.len() == 0 {
        Seq::empty()
    } else {
        let init = suggestions_for(word, from_file, worktree_root, symbols.drop_last(), rows);
        match suggestion_for(word, from_file, worktree_root, symbols.last(), rows) {
            Some(s) => init.push(s),
            None => init,
        }
    }
}

/// Suggestions are offered in a file with a JavaScript/TypeScript extension
/// (in any case) and for a non-empty word.
pub open spec fn offers_suggestions(full_path: Seq<char>, word: Seq<char>) -> bool {
    js_ts_extension(lowercase_extension(full_path)) && word.len() > 0
}

/// Whether import suggestions are offered for `word` in the file at `full_path`.
pub fn wants_import_suggestions(full_path: &str, word: &str) -> (r: bool)
    ensures
        r == offers_suggestions(full_path@, word@),
{
    let ext = match extension(full_path) {
        Some(e) => to_lowercase(e.as_str()),
        None => String::new(),
    };
    is_js_ts_extension(ext.as_str()) && word.unicode_len() > 0
}

/// The import statement for `word` from `path`.
fn statement_text(word: &str, path: &str) -> (r: String)
    ensures
        r@ == import_statement(word@, path@),
{
    let mut s = String::new();
    s.append("import { ");
    s.append(word);
    s.append(" } from '");
    s.append(path);
    s.append("';\n");
    s
}

/// The title of the suggestion to import `word` from `path`.
fn title_text(word: &str, path: &str) -> (r: String)
    ensures
        r@ == import_title(word@, path@),
{
    let mut s = String::new();
    s.append("Import '");
    s.append(word);
    s.append("' from '");
    s.append(path);
    s.append("'");
    s
}

/// The suggestion for one symbol, if it yields one.
pub fn suggestion_for_symbol(
    word: &str,
    from_file: &str,
    worktree_root: &str,
    symbol: &Symbol,
    snapshot: &BufferSnapshot,
) -> (r: Option<(String, ImportSuggestion)>)
    ensures
        match r {
            Some(s) => suggestion_for(word@, from_file@, worktree_root@, *symbol, snapshot.rows())
                == Some(suggestion_view(s)),
            None => suggestion_for(word@, from_file@, worktree_root@, *symbol, snapshot.rows())
                is None,
        },
{
    if !chars_equal(&to_chars(symbol.name.as_str()), word) {
        return None;
    }
    let target = match &symbol.path {
        SymbolLocation::InProject(p) => join(worktree_root, p.as_str()),
        SymbolLocation::OutsideProject(p) => String::from_str(p.as_str()),
    };
    let ext = match extension(target.as_str()) {
        Some(e) => to_lowercase(e.as_str()),
        None => String::new(),
    };
    if !is_js_ts_extension(ext.as_str()) {
        return None;
    }
    if same_path(target.as_str(), from_file) {
        return None;
    }
    let path = match compute_import_path(from_file, target.as_str(), worktree_root) {
        Some(p) => p,
        None => return None,
    };
    if is_already_imported(snapshot, word, path.as_str()) {
        return None;
    }
    let (at, _) = find_import_insert_position(snapshot);
    let title = title_text(word, path.as_str());
    let text = statement_text(word, path.as_str());
    Some((title, ImportSuggestion { edit_range: (at, at), edit_text: text }))
}

/// The suggestions that the found symbols yield for `word` in `from_file`, in
/// the symbols' order.
pub fn collect_import_suggestions(
    word: &str,
    from_file: &str,
    worktree_root: &str,
    symbols: &Vec<Symbol>,
    snapshot: &BufferSnapshot,
) -> (r: Vec<(String, ImportSuggestion)>)
    ensures
        r@.map_values(|s: (String, ImportSuggestion)| suggestion_view(s)) == suggestions_for(
            word@,
            from_file@,
            worktree_root@,
            symbols@,
            snapshot.rows(),
        ),
{
    let mut out: Vec<(String, ImportSuggestion)> = Vec::new();
    let mut i: usize = 0;
    while i < symbols.len()
        invariant
            i <= symbols@.len(),
            out@.map_values(|s: (String, ImportSuggestion)| suggestion_view(s)) == suggestions_for(
                word@,
                from_file@,
                worktree_root@,
                symbols@.take(i as int),
                snapshot.rows(),
            ),
        decreases symbols@.len() - i,
    {
        assert(symbols@.take(i + 1).drop_last() =~= symbols@.take(i as int));
        let ghost before = out@;
        match suggestion_for_symbol(word, from_file, worktree_root, &symbols[i], snapshot) {
            Some(s) => {
                out.push(s);
                assert(out@.map_values(|s: (String, ImportSuggestion)| suggestion_view(s))
                    =~= before.map_values(|s: (String, ImportSuggestion)| suggestion_view(s)).push(
                    suggestion_view(out@.last()),
                ));
            },
            None => {},
        }
        i = i + 1;
    }
    assert(symbols@.take(symbols@.len() as int) =~= symbols@);
    out
}

/// The index of the first suggestion titled `title`, searching from `i`.
pub open spec fn first_titled(s: Seq<(String, ImportSuggestion)>, title: Seq<char>, i: int) -> Option<
    int,
>
    decreases s.len() - i,
{
    if i < 0 || i >= s.len() {
        None
    } else if s[i].0@ == title {
        Some(i)
    } else {
        first_titled(s, title, i + 1)
    }
}

impl ImportSuggestionsProvider {
    /// A provider offering these suggestions.
    pub fn new(suggestions: Vec<(String, ImportSuggestion)>) -> (r: Self)
        ensures
            r.suggestions == suggestions,
    {
        ImportSuggestionsProvider { suggestions }
    }

    /// The provider's identifier.
    pub fn id(&self) -> (r: String)
        ensures
            r@ == "import_suggestions"@,
    {
        String::from_str("import_suggestions")
    }

    /// The edit that the code action titled `title` makes: that of the first
    /// suggestion with that title.
    pub fn apply_code_action(&self, title: &str) -> (r: Result<
        ((Point, Point), String),
        ImportSuggestionError,
    >)
        ensures
            match first_titled(self.suggestions@, title@, 0) {
                Some(i) => r matches Ok((range, text)) && range == self.suggestions@[i].1.edit_range
                    && text@ == self.suggestions@[i].1.edit_text@,
                None => r == Err::<((Point, Point), String), _>(ImportSuggestionError::NotFound),
            },
    {
        let mut i: usize = 0;
        while i < self.suggestions.len()
            invariant
                i <= self.suggestions@.len(),
                first_titled(self.suggestions@, title@, 0) == first_titled(
                    self.suggestions@,
                    title@,
                    i as int,
                ),
            decreases self.suggestions@.len() - i,
        {
            let entry = &self.suggestions[i];
            if chars_equal(&to_chars(entry.0.as_str()), title) {
                let text = entry.1.edit_text.clone();
                return Ok((entry.1.edit_range, text));
            }
            i = i + 1;
        }
        Err(ImportSuggestionError::NotFound)
    }
}

} // verus!
