//! What holds of import specifiers and of where imports are inserted, for all inputs.
use crate::buffer::{
    Point, already_imported, ends_statement, import_scan, insert_position, row_text, scan_limit,
    starts_import,
};
use crate::import_suggestions::{suggestion_for, suggestions_for, Symbol};
use crate::text::{contains, occurs_at, trim_end, trim_start};
use crate::import_path::{
    common_prefix_from, common_prefix_len, join, package_name, parent_steps, relative_import,
    resolve,
};
use crate::paths::{is_name, split_slash};
use crate::text::{find_char_from, starts_with};
use vstd::prelude::*;

verus! {

/// `common_prefix_from` counts on from `i` while the components agree.
proof fn lemma_common_prefix_from(a: Seq<Seq<char>>, b: Seq<Seq<char>>, i: int)
    requires
        0 <= i <= a.len(),
        i <= b.len(),
        forall|k: int| 0 <= k < i ==> a[k] == b[k],
    ensures
        i <= common_prefix_from(a, b, i) <= a.len(),
        common_prefix_from(a, b, i) <= b.len(),
        forall|k: int| 0 <= k < common_prefix_from(a, b, i) ==> a[k] == b[k],
        common_prefix_from(a, b, i) == a.len() <==> a.is_prefix_of(b),
    decreases a.len() - i,
{
    if i < a.len() && i < b.len() && a[i] == b[i] {
        lemma_common_prefix_from(a, b, i + 1);
    } else if i < a.len() {
        if a.is_prefix_of(b) {
            assert(a[i] == b[i]);
        }
    } else {
        assert(a.is_prefix_of(b));
    }
}

/// A join of parts starts with its first part.
proof fn lemma_join_starts_with_first(parts: Seq<Seq<char>>, sep: Seq<char>)
    requires
        parts.len() > 0,
    ensures
        starts_with(join(parts, sep), parts[0]),
    decreases parts.len(),
{
    if parts.len() == 1 {
        assert(parts[0].subrange(0, parts[0].len() as int) =~= parts[0]);
    } else {
        assert(parts.drop_last()[0] == parts[0]);
        lemma_join_starts_with_first(parts.drop_last(), sep);
        let j = join(parts.drop_last(), sep);
        assert((j + sep + parts.last()).subrange(0, parts[0].len() as int) =~= j.subrange(
            0,
            parts[0].len() as int,
        ));
    }
}

/// A sequence that starts with `p` still does with more appended.
proof fn lemma_starts_with_append(s: Seq<char>, t: Seq<char>, p: Seq<char>)
    requires
        starts_with(s, p),
    ensures
        starts_with(s + t, p),
{
    assert((s + t).subrange(0, p.len() as int) =~= s.subrange(0, p.len() as int));
}

/// The specifier from a directory to a target starts with `./` when the
/// directory's components begin the target's, and with `..` otherwise.
pub proof fn law_relative_import_prefix(from_dir: Seq<Seq<char>>, target: Seq<Seq<char>>)
    ensures
        from_dir.is_prefix_of(target) ==> starts_with(relative_import(from_dir, target), "./"@),
        !from_dir.is_prefix_of(target) ==> starts_with(relative_import(from_dir, target), ".."@),
{
    lemma_common_prefix_from(from_dir, target, 0);
    let common = common_prefix_len(from_dir, target);
    let up = from_dir.len() - common;
    let down = target.skip(common);
    if from_dir.is_prefix_of(target) {
        assert(starts_with("./"@, "./"@)) by {
            assert("./"@.subrange(0, "./"@.len() as int) =~= "./"@);
        }
        lemma_starts_with_append("./"@, join(down, "/"@), "./"@);
    } else {
        let steps = parent_steps(up as nat);
        assert(steps[0] == ".."@);
        lemma_join_starts_with_first(steps, "/"@);
        if down.len() > 0 {
            lemma_starts_with_append(join(steps, "/"@), "/"@, ".."@);
            lemma_starts_with_append(join(steps, "/"@) + "/"@, join(down, "/"@), ".."@);
        }
    }
}

/// The package specifier for a path under `node_modules/` is a leading part
/// of what follows the last `node_modules/`.
pub proof fn law_package_name_is_prefix(after: Seq<char>)
    ensures
        package_name(after).is_prefix_of(after),
{
    lemma_find_char_in_range(after, '/', 0);
    match find_char_from(after, '/', 0) {
        Some(i) => {
            lemma_find_char_in_range(after, '/', i + 1);
        },
        None => {},
    }
}

/// What `find_char_from` finds lies in range.
proof fn lemma_find_char_in_range(s: Seq<char>, c: char, i: int)
    ensures
        find_char_from(s, c, i) matches Some(j) ==> 0 <= i <= j < s.len() && s[j] == c,
    decreases s.len() - i,
{
    if 0 <= i < s.len() && s[i] != c {
        lemma_find_char_in_range(s, c, i + 1);
    }
}

/// Scanning from `row` finds an import statement exactly when one was found
/// before, one is open, or some row from `row` up to `limit` begins one; what
/// it finds is a row no later than `limit + 10`.
proof fn lemma_import_scan(
    rows: Seq<Seq<char>>,
    limit: int,
    row: int,
    open: Option<int>,
    last: Option<int>,
)
    requires
        0 <= limit,
        0 <= row <= limit + 11,
        open matches Some(s) ==> 0 <= s <= limit && s <= row <= limit + 10,
        last matches Some(l) ==> 0 <= l <= limit + 10,
    ensures
        (import_scan(rows, limit, row, open, last) is Some) == (last is Some || open is Some || (
        exists|r: int| row <= r <= limit && starts_import(#[trigger] row_text(rows, r)))),
        import_scan(rows, limit, row, open, last) matches Some(x) ==> 0 <= x <= limit + 10,
    decreases limit + 12 - row, if open is None {
        1int
    } else {
        0int
    },
{
    match open {
        None => {
            if row > limit {
            } else if starts_import(row_text(rows, row)) {
                lemma_import_scan(rows, limit, row, Some(row), last);
            } else {
                lemma_import_scan(rows, limit, row + 1, None, last);
                if exists|r: int| row <= r <= limit && starts_import(#[trigger] row_text(rows, r)) {
                    let r = choose|r: int| row <= r <= limit && starts_import(#[trigger] row_text(rows, r));
                    assert(r != row);
                    assert(row + 1 <= r <= limit && starts_import(row_text(rows, r)));
                }
            }
        },
        Some(start) => {
            if crate::buffer::ends_statement(row_text(rows, row)) {
                lemma_import_scan(rows, limit, row + 1, None, Some(row));
            } else if row + 1 > limit + 10 {
            } else {
                lemma_import_scan(rows, limit, row + 1, Some(start), last);
            }
        },
    }
}

/// An import is placed after an existing one exactly when some row up to the
/// scan limit (row 99 at most) begins an import statement, and then it goes
/// at the start of one of rows 1 to `limit + 11`.
pub proof fn law_insert_after_import(rows: Seq<Seq<char>>)
    ensures
        insert_position(rows).1 == (exists|r: int|
            0 <= r <= scan_limit(rows) && starts_import(#[trigger] row_text(rows, r))),
        insert_position(rows).1 ==> 1 <= insert_position(rows).0.row <= scan_limit(rows) + 11,
        insert_position(rows).0.column == 0,
        !insert_position(rows).1 ==> insert_position(rows).0.row == 0,
{
    lemma_import_scan(rows, scan_limit(rows), 0, None, None);
}

/// `split_slash` never gives an empty list.
proof fn lemma_split_nonempty(s: Seq<char>)
    ensures
        split_slash(s).len() > 0,
    decreases s.len(),
{
    if s.len() > 0 {
        lemma_split_nonempty(s.drop_first());
    }
}

/// A piece without `/`, then `/`, then more: the piece comes first.
proof fn lemma_split_piece(a: Seq<char>, b: Seq<char>)
    requires
        !a.contains('/'),
    ensures
        split_slash(a + seq!['/'] + b) == seq![a] + split_slash(b),
    decreases a.len(),
{
    let s = a + seq!['/'] + b;
    if a.len() == 0 {
        assert(s.drop_first() =~= b);
        assert(a =~= Seq::<char>::empty());
    } else {
        let a2 = a.drop_first();
        assert(!a2.contains('/')) by {
            if a2.contains('/') {
                let k = choose|k: int| 0 <= k < a2.len() && a2[k] == '/';
                assert(a[k + 1] == '/');
            }
        }
        assert(s.drop_first() =~= a2 + seq!['/'] + b);
        lemma_split_piece(a2, b);
        assert(a[0] != '/');
        assert(seq![a[0]] + a2 =~= a);
        assert(split_slash(s) =~= seq![a] + split_slash(b));
    }
}

/// A piece without `/` splits into itself.
proof fn lemma_split_single(a: Seq<char>)
    requires
        !a.contains('/'),
    ensures
        split_slash(a) == seq![a],
    decreases a.len(),
{
    if a.len() == 0 {
        assert(a =~= Seq::<char>::empty());
    } else {
        let a2 = a.drop_first();
        assert(!a2.contains('/')) by {
            if a2.contains('/') {
                let k = choose|k: int| 0 <= k < a2.len() && a2[k] == '/';
                assert(a[k + 1] == '/');
            }
        }
        lemma_split_single(a2);
        assert(a[0] != '/');
        assert(seq![a[0]] + a2 =~= a);
        assert(split_slash(a) =~= seq![a]);
    }
}

/// A join begins with its first part, then `/`, then the join of the rest.
proof fn lemma_join_front(parts: Seq<Seq<char>>)
    requires
        parts.len() >= 2,
    ensures
        join(parts, "/"@) == parts[0] + "/"@ + join(parts.drop_first(), "/"@),
    decreases parts.len(),
{
    let p = parts.drop_last();
    let q = parts.drop_first();
    if parts.len() == 2 {
        assert(join(p, "/"@) == parts[0]);
        assert(join(q, "/"@) == parts[1]);
    } else {
        lemma_join_front(p);
        assert(p.drop_first() =~= q.drop_last());
        assert(q.last() == parts.last());
        assert(p[0] == parts[0]);
        assert(join(q, "/"@) == join(q.drop_last(), "/"@) + "/"@ + q.last());
        assert(join(parts, "/"@) =~= parts[0] + "/"@ + join(q, "/"@));
    }
}

/// Joining pieces without `/` with `/` and splitting again gives them back.
proof fn lemma_split_join(parts: Seq<Seq<char>>)
    requires
        parts.len() > 0,
        forall|i: int| 0 <= i < parts.len() ==> !(#[trigger] parts[i]).contains('/'),
    ensures
        split_slash(join(parts, "/"@)) == parts,
    decreases parts.len(),
{
    reveal_strlit("/");
    assert("/"@ =~= seq!['/']);
    if parts.len() == 1 {
        assert(join(parts, "/"@) == parts[0]);
        lemma_split_single(parts[0]);
        assert(seq![parts[0]] =~= parts);
    } else {
        lemma_join_front(parts);
        let rest = parts.drop_first();
        assert forall|i: int| 0 <= i < rest.len() implies !(#[trigger] rest[i]).contains('/') by {
            assert(rest[i] == parts[i + 1]);
        }
        lemma_split_join(rest);
        lemma_split_piece(parts[0], join(rest, "/"@));
        assert(parts[0] + "/"@ + join(rest, "/"@) =~= parts[0] + seq!['/'] + join(rest, "/"@));
        assert(seq![parts[0]] + rest =~= parts);
    }
}

/// Joins of two non-empty lists, put together with `/`, are the join of both.
proof fn lemma_join_concat(a: Seq<Seq<char>>, b: Seq<Seq<char>>)
    requires
        a.len() > 0,
        b.len() > 0,
    ensures
        join(a, "/"@) + "/"@ + join(b, "/"@) == join(a + b, "/"@),
    decreases b.len(),
{
    let ab = a + b;
    if b.len() == 1 {
        assert(ab.drop_last() =~= a);
    } else {
        lemma_join_concat(a, b.drop_last());
        assert(ab.drop_last() =~= a + b.drop_last());
        assert(join(a, "/"@) + "/"@ + join(b, "/"@) =~= join(ab, "/"@));
    }
}

/// Following names appends them.
proof fn lemma_resolve_names(base: Seq<Seq<char>>, segs: Seq<Seq<char>>)
    requires
        forall|i: int| 0 <= i < segs.len() ==> is_name(#[trigger] segs[i]),
    ensures
        resolve(base, segs) == base + segs,
    decreases segs.len(),
{
    if segs.len() > 0 {
        let rest = segs.drop_first();
        assert(is_name(segs[0]));
        assert forall|i: int| 0 <= i < rest.len() implies is_name(#[trigger] rest[i]) by {
            assert(rest[i] == segs[i + 1]);
        }
        lemma_resolve_names(base.push(segs[0]), rest);
        assert(base.push(segs[0]) + rest =~= base + segs);
    }
}

/// Following two lists of pieces is following the first, then the second.
proof fn lemma_resolve_concat(base: Seq<Seq<char>>, a: Seq<Seq<char>>, b: Seq<Seq<char>>)
    ensures
        resolve(base, a + b) == resolve(resolve(base, a), b),
    decreases a.len(),
{
    if a.len() == 0 {
        assert(a + b =~= b);
    } else {
        assert((a + b).drop_first() =~= a.drop_first() + b);
        assert((a + b)[0] == a[0]);
        let s = a[0];
        let next = if s.len() == 0 || s == "."@ {
            base
        } else if s == ".."@ {
            if base.len() > 0 {
                base.drop_last()
            } else {
                base
            }
        } else {
            base.push(s)
        };
        lemma_resolve_concat(next, a.drop_first(), b);
    }
}

/// Following `k` times `..` drops the last `k` components.
proof fn lemma_resolve_parent_steps(base: Seq<Seq<char>>, k: nat)
    requires
        k <= base.len(),
    ensures
        resolve(base, parent_steps(k)) == base.take(base.len() - k),
    decreases k,
{
    reveal_strlit("..");
    reveal_strlit(".");
    if k == 0 {
        assert(parent_steps(0) =~= Seq::<Seq<char>>::empty());
        assert(base.take(base.len() as int) =~= base);
    } else {
        assert(parent_steps(k)[0] == ".."@);
        assert(parent_steps(k).drop_first() =~= parent_steps((k - 1) as nat));
        lemma_resolve_parent_steps(base.drop_last(), (k - 1) as nat);
        assert(base.drop_last().take(base.drop_last().len() - (k - 1)) =~= base.take(
            base.len() - k,
        ));
    }
}

/// Following the specifier from the importing file's directory leads back to
/// the target: from the directory's components, taking the specifier's
/// `/`-separated pieces in turn (`.` and empty pieces stay, `..` goes up one
/// directory, a name goes down into it) reaches exactly the target's
/// components. Both paths share their first component (the root of two
/// absolute paths) and otherwise consist of names only.
pub proof fn law_relative_import_leads_back(from_dir: Seq<Seq<char>>, target: Seq<Seq<char>>)
    requires
        from_dir.len() > 0,
        target.len() > 0,
        from_dir[0] == target[0],
        forall|i: int| 1 <= i < from_dir.len() ==> is_name(#[trigger] from_dir[i]),
        forall|i: int| 1 <= i < target.len() ==> is_name(#[trigger] target[i]),
    ensures
        resolve(from_dir, split_slash(relative_import(from_dir, target))) == target,
{
    reveal_strlit("./");
    reveal_strlit(".");
    reveal_strlit("/");
    reveal_strlit("..");
    lemma_common_prefix_from(from_dir, target, 1);
    assert(common_prefix_from(from_dir, target, 0) == common_prefix_from(from_dir, target, 1));
    let c = common_prefix_len(from_dir, target);
    let up = from_dir.len() - c;
    let down = target.skip(c);
    assert(1 <= c);
    assert forall|i: int| 0 <= i < down.len() implies is_name(#[trigger] down[i]) by {
        assert(down[i] == target[c + i]);
    }
    assert forall|i: int| 0 <= i < down.len() implies !(#[trigger] down[i]).contains('/') by {
        assert(is_name(down[i]));
    }
    assert(from_dir.take(c) =~= target.take(c));
    assert(target.take(c) + down =~= target);
    lemma_resolve_names(from_dir.take(c), down);
    if up == 0 {
        assert(from_dir.take(c) =~= from_dir);
        assert("./"@ =~= seq!['.'] + seq!['/']);
        let s = "./"@ + join(down, "/"@);
        assert(s =~= seq!['.'] + seq!['/'] + join(down, "/"@));
        lemma_split_piece(seq!['.'], join(down, "/"@));
        assert(seq!['.'] =~= "."@);
        if down.len() == 0 {
            assert(join(down, "/"@) =~= Seq::<char>::empty());
            lemma_split_single(Seq::<char>::empty());
            let segs = seq!["."@, Seq::<char>::empty()];
            assert(split_slash(s) =~= segs);
            assert(segs.drop_first() =~= seq![Seq::<char>::empty()]);
            assert(seq![Seq::<char>::empty()].drop_first() =~= Seq::<Seq<char>>::empty());
            assert(resolve(from_dir, Seq::<Seq<char>>::empty()) == from_dir);
            assert(seq![Seq::<char>::empty()][0].len() == 0);
            assert(resolve(from_dir, seq![Seq::<char>::empty()]) == from_dir);
            assert(resolve(from_dir, segs) == from_dir);
            assert(target =~= from_dir);
        } else {
            lemma_split_join(down);
            assert(split_slash(s) =~= seq!["."@] + down);
            assert((seq!["."@] + down).drop_first() =~= down);
            assert((seq!["."@] + down)[0] == "."@);
            assert(resolve(from_dir, seq!["."@] + down) == resolve(from_dir, down));
        }
    } else {
        let steps = parent_steps(up as nat);
        assert forall|i: int| 0 <= i < steps.len() implies !(#[trigger] steps[i]).contains('/') by {
            assert(steps[i] == ".."@);
        }
        lemma_resolve_parent_steps(from_dir, up as nat);
        if down.len() == 0 {
            lemma_split_join(steps);
            assert(target.take(c) =~= target);
        } else {
            lemma_join_concat(steps, down);
            let both = steps + down;
            assert forall|i: int| 0 <= i < both.len() implies !(#[trigger] both[i]).contains('/') by {
                if i < steps.len() {
                    assert(both[i] == steps[i]);
                } else {
                    assert(both[i] == down[i - steps.len()]);
                }
            }
            lemma_split_join(both);
            lemma_resolve_concat(from_dir, steps, down);
        }
    }
}

/// A row, once its trailing whitespace is dropped, ends in `;`, `"` or `'`.
pub open spec fn ends_in_terminator(rows: Seq<Seq<char>>, r: int) -> bool {
    let t = trim_end(row_text(rows, r));
    t.len() > 0 && (t.last() == ';' || t.last() == '"' || t.last() == '\'')
}

/// A symbol yields a suggestion only when its name is exactly the word.
pub proof fn law_suggestion_needs_exact_name(
    word: Seq<char>,
    from_file: Seq<char>,
    worktree_root: Seq<char>,
    symbol: Symbol,
    rows: Seq<Seq<char>>,
)
    ensures
        suggestion_for(word, from_file, worktree_root, symbol, rows) is Some ==> symbol.name@
            == word,
{
}

/// Every suggestion offered for a word comes from a found symbol named
/// exactly that word; with no such symbol, nothing is offered.
pub proof fn law_suggestions_come_from_exact_names(
    word: Seq<char>,
    from_file: Seq<char>,
    worktree_root: Seq<char>,
    symbols: Seq<Symbol>,
    rows: Seq<Seq<char>>,
)
    ensures
        forall|k: int|
            #![trigger suggestions_for(word, from_file, worktree_root, symbols, rows)[k]]
            0 <= k < suggestions_for(word, from_file, worktree_root, symbols, rows).len() ==> exists|
                i: int,
            |
                0 <= i < symbols.len() && (#[trigger] symbols[i]).name@ == word && suggestion_for(
                    word,
                    from_file,
                    worktree_root,
                    symbols[i],
                    rows,
                ) == Some(suggestions_for(word, from_file, worktree_root, symbols, rows)[k]),
        (forall|i: int| 0 <= i < symbols.len() ==> (#[trigger] symbols[i]).name@ != word)
            ==> suggestions_for(word, from_file, worktree_root, symbols, rows).len() == 0,
    decreases symbols.len(),
{
    if symbols.len() > 0 {
        let init = symbols.drop_last();
        law_suggestions_come_from_exact_names(word, from_file, worktree_root, init, rows);
        let r = suggestions_for(word, from_file, worktree_root, symbols, rows);
        let r0 = suggestions_for(word, from_file, worktree_root, init, rows);
        assert forall|k: int| #![trigger r[k]] 0 <= k < r.len() implies exists|i: int|
            0 <= i < symbols.len() && (#[trigger] symbols[i]).name@ == word && suggestion_for(
                word,
                from_file,
                worktree_root,
                symbols[i],
                rows,
            ) == Some(r[k]) by {
            if k < r0.len() {
                let i = choose|i: int|
                    0 <= i < init.len() && (#[trigger] init[i]).name@ == word && suggestion_for(
                        word,
                        from_file,
                        worktree_root,
                        init[i],
                        rows,
                    ) == Some(r0[k]);
                assert(symbols[i] == init[i]);
                assert(r[k] == r0[k]);
            } else {
                let i = symbols.len() - 1;
                assert(symbols[i] == symbols.last());
                law_suggestion_needs_exact_name(word, from_file, worktree_root, symbols.last(), rows);
            }
        }
        if forall|i: int| 0 <= i < symbols.len() ==> (#[trigger] symbols[i]).name@ != word {
            assert forall|i: int| 0 <= i < init.len() implies (#[trigger] init[i]).name@ != word by {
                assert(init[i] == symbols[i]);
            }
            assert(symbols[symbols.len() - 1] == symbols.last());
            law_suggestion_needs_exact_name(word, from_file, worktree_root, symbols.last(), rows);
        }
    }
}

/// A file already imports a symbol from a specifier exactly when one of its
/// first hundred rows holds the specifier and the name, each as a run of
/// characters anywhere in the row, whatever quotes or braces surround them.
pub proof fn law_already_imported_when_row_mentions_both(
    rows: Seq<Seq<char>>,
    name: Seq<char>,
    import_path: Seq<char>,
)
    requires
        rows.len() > 0,
    ensures
        already_imported(rows, name, import_path) <==> exists|r: int, i: int, j: int|
            0 <= r < rows.len() && r <= 99 && 0 <= i && i + import_path.len() <= rows[r].len()
                && #[trigger] rows[r].subrange(i, i + import_path.len()) == import_path && 0 <= j
                && j + name.len() <= rows[r].len() && #[trigger] rows[r].subrange(j, j + name.len())
                == name,
{
    if already_imported(rows, name, import_path) {
        let r = choose|r: int|
            0 <= r <= scan_limit(rows) && contains(#[trigger] row_text(rows, r), import_path)
                && contains(row_text(rows, r), name);
        let i = choose|i: int| occurs_at(row_text(rows, r), import_path, i);
        let j = choose|j: int| occurs_at(row_text(rows, r), name, j);
        assert(row_text(rows, r) == rows[r]);
        assert(rows[r].subrange(i, i + import_path.len()) == import_path);
        assert(rows[r].subrange(j, j + name.len()) == name);
    }
    if exists|r: int, i: int, j: int|
        0 <= r < rows.len() && r <= 99 && 0 <= i && i + import_path.len() <= rows[r].len()
            && #[trigger] rows[r].subrange(i, i + import_path.len()) == import_path && 0 <= j && j
            + name.len() <= rows[r].len() && #[trigger] rows[r].subrange(j, j + name.len()) == name {
        let (r, i, j) = choose|r: int, i: int, j: int|
            0 <= r < rows.len() && r <= 99 && 0 <= i && i + import_path.len() <= rows[r].len()
                && #[trigger] rows[r].subrange(i, i + import_path.len()) == import_path && 0 <= j
                && j + name.len() <= rows[r].len() && #[trigger] rows[r].subrange(j, j + name.len())
                == name;
        assert(row_text(rows, r) == rows[r]);
        assert(occurs_at(row_text(rows, r), import_path, i));
        assert(occurs_at(row_text(rows, r), name, j));
        assert(contains(row_text(rows, r), import_path));
        assert(contains(row_text(rows, r), name));
    }
}

/// The scan outside statements skips rows that begin no import.
proof fn lemma_scan_skips(rows: Seq<Seq<char>>, limit: int, from: int, to: int, last: Option<int>)
    requires
        0 <= limit,
        0 <= from <= to <= limit + 1,
        forall|r: int| from <= r < to ==> !starts_import(#[trigger] row_text(rows, r)),
    ensures
        import_scan(rows, limit, from, None, last) == import_scan(rows, limit, to, None, last),
    decreases to - from,
{
    if from < to {
        lemma_scan_skips(rows, limit, from + 1, to, last);
    }
}

/// Inside a statement opened at `start`, the scan passes rows that end none.
proof fn lemma_scan_inside(
    rows: Seq<Seq<char>>,
    limit: int,
    start: int,
    from: int,
    to: int,
    last: Option<int>,
)
    requires
        0 <= limit,
        0 <= start <= from <= to <= limit + 10,
        forall|r: int| from <= r < to ==> !ends_statement(#[trigger] row_text(rows, r)),
    ensures
        import_scan(rows, limit, from, Some(start), last) == import_scan(
            rows,
            limit,
            to,
            Some(start),
            last,
        ),
    decreases to - from,
{
    if from < to {
        lemma_scan_inside(rows, limit, start, from + 1, to, last);
    }
}

/// `ends_in_terminator` is what ends a statement.
proof fn lemma_ends(rows: Seq<Seq<char>>, r: int)
    ensures
        ends_in_terminator(rows, r) == ends_statement(row_text(rows, r)),
{
}

/// After the only import statement of the scanned rows, which begins at row
/// `s` and whose first row ending in `;`, `"` or `'` (trailing whitespace
/// dropped) is row `e`, a new import goes at the start of row `e + 1`.
pub proof fn law_insert_after_statement_end(rows: Seq<Seq<char>>, s: int, e: int)
    requires
        0 <= s <= scan_limit(rows),
        s <= e <= scan_limit(rows) + 10,
        starts_import(row_text(rows, s)),
        forall|r: int| 0 <= r < s ==> !starts_import(#[trigger] row_text(rows, r)),
        forall|r: int| s <= r < e ==> !ends_in_terminator(rows, r),
        ends_in_terminator(rows, e),
        forall|r: int| e < r <= scan_limit(rows) ==> !starts_import(#[trigger] row_text(rows, r)),
    ensures
        insert_position(rows) == (Point { row: (e + 1) as u32, column: 0 }, true),
{
    let limit = scan_limit(rows);
    assert(0 <= limit <= 99);
    lemma_scan_skips(rows, limit, 0, s, None);
    assert forall|r: int| s <= r < e implies !ends_statement(#[trigger] row_text(rows, r)) by {
        lemma_ends(rows, r);
    }
    lemma_scan_inside(rows, limit, s, s, e, None);
    lemma_ends(rows, e);
    assert(import_scan(rows, limit, e, Some(s), None) == import_scan(
        rows,
        limit,
        e + 1,
        None,
        Some(e),
    ));
    if e + 1 <= limit {
        assert forall|r: int| e + 1 <= r < limit + 1 implies !starts_import(
            #[trigger] row_text(rows, r),
        ) by {}
        lemma_scan_skips(rows, limit, e + 1, limit + 1, Some(e));
    }
}

/// Where a new import is placed after an existing one, the row before it
/// either ends in `;`, `"` or `'` (trailing whitespace dropped), or begins an
/// import that no row up to ten past the scanned ones ends.
pub proof fn law_insert_row_follows_statement_end(rows: Seq<Seq<char>>)
    ensures
        insert_position(rows).1 ==> {
            let e = insert_position(rows).0.row - 1;
            ||| ends_in_terminator(rows, e)
            ||| starts_import(row_text(rows, e)) && forall|r: int|
                e <= r <= scan_limit(rows) + 10 ==> !ends_in_terminator(rows, r)
        },
{
    let limit = scan_limit(rows);
    lemma_scan_result(rows, limit, 0, None, None);
    lemma_import_scan(rows, limit, 0, None, None);
    if insert_position(rows).1 {
        let x = import_scan(rows, limit, 0, None, None)->0;
        assert(insert_position(rows).0.row - 1 == x);
        assert forall|r: int| x <= r <= limit + 10 && ends_in_terminator(rows, r) implies ends_in_terminator(rows, x) by {
            lemma_ends(rows, r);
            lemma_ends(rows, x);
        }
        lemma_ends(rows, x);
    }
}

/// What the scan finds either ends a statement, or begins an import that no
/// row up to `limit + 10` ends.
proof fn lemma_scan_result(
    rows: Seq<Seq<char>>,
    limit: int,
    row: int,
    open: Option<int>,
    last: Option<int>,
)
    requires
        0 <= limit,
        0 <= row <= limit + 11,
        open matches Some(s) ==> 0 <= s <= limit && s <= row <= limit + 10 && starts_import(
            row_text(rows, s),
        ) && forall|r: int| s <= r < row ==> !ends_statement(#[trigger] row_text(rows, r)),
        last matches Some(l) ==> ends_statement(row_text(rows, l)) || (starts_import(
            row_text(rows, l),
        ) && forall|r: int| l <= r <= limit + 10 ==> !ends_statement(#[trigger] row_text(rows, r))),
    ensures
        import_scan(rows, limit, row, open, last) matches Some(x) ==> ends_statement(
            row_text(rows, x),
        ) || (starts_import(row_text(rows, x)) && forall|r: int|
            x <= r <= limit + 10 ==> !ends_statement(#[trigger] row_text(rows, r))),
    decreases limit + 12 - row, if open is None {
        1int
    } else {
        0int
    },
{
    match open {
        None => {
            if row > limit {
            } else if starts_import(row_text(rows, row)) {
                lemma_scan_result(rows, limit, row, Some(row), last);
            } else {
                lemma_scan_result(rows, limit, row + 1, None, last);
            }
        },
        Some(start) => {
            if ends_statement(row_text(rows, row)) {
                lemma_scan_result(rows, limit, row + 1, None, Some(row));
            } else if row + 1 > limit + 10 {
                assert forall|r: int| start <= r <= limit + 10 implies !ends_statement(
                    #[trigger] row_text(rows, r),
                ) by {
                    if r < row {
                    }
                }
            } else {
                lemma_scan_result(rows, limit, row + 1, Some(start), last);
            }
        },
    }
}

/// A row begins an import statement exactly when, leading whitespace
/// dropped, it begins with `import` followed by a space, `"`, `'` or `{`.
pub proof fn law_import_row_begins_with_keyword(line: Seq<char>)
    ensures
        starts_import(line) <==> ({
            let t = trim_start(line);
            &&& t.len() >= 7
            &&& t[0] == 'i' && t[1] == 'm' && t[2] == 'p' && t[3] == 'o' && t[4] == 'r' && t[5]
                == 't'
            &&& (t[6] == ' ' || t[6] == '"' || t[6] == '\'' || t[6] == '{')
        }),
{
    reveal_strlit("import ");
    reveal_strlit("import\"");
    reveal_strlit("import'");
    reveal_strlit("import{");
    let t = trim_start(line);
    if t.len() >= 7 {
        let p = t.subrange(0, 7);
        assert(p[0] == t[0] && p[1] == t[1] && p[2] == t[2] && p[3] == t[3] && p[4] == t[4] && p[5]
            == t[5] && p[6] == t[6]);
        if t[0] == 'i' && t[1] == 'm' && t[2] == 'p' && t[3] == 'o' && t[4] == 'r' && t[5] == 't' {
            if t[6] == ' ' {
                assert(p =~= "import "@);
            } else if t[6] == '"' {
                assert(p =~= "import\""@);
            } else if t[6] == '\'' {
                assert(p =~= "import'"@);
            } else if t[6] == '{' {
                assert(p =~= "import{"@);
            }
        }
    }
}

} // verus!
