//! The module specifier that an `import` statement uses to reach one
//! JavaScript/TypeScript file from another.
use crate::paths::{
    components, extension, file_stem, is_name, is_rooted_names, opt_view, parent, path_components,
    path_extension, path_file_stem, path_parent, path_without_extension, rooted_components,
    split_slash, strs_view, without_extension,
};
use crate::text::{chars_equal, find_char_exec, find_char_from, rfind, rfind_exec, to_chars};
use vstd::prelude::*;

verus! {

/// `ext` is one of the JavaScript/TypeScript file extensions.
pub open spec fn js_ts_extension(ext: Seq<char>) -> bool {
    ||| ext == "js"@
    ||| ext == "jsx"@
    ||| ext == "mjs"@
    ||| ext == "ts"@
    ||| ext == "tsx"@
    ||| ext == "mts"@
}

/// Whether `ext` is `js`, `jsx`, `mjs`, `ts`, `tsx` or `mts` (compared exactly).
pub fn is_js_ts_extension(ext: &str) -> (r: bool)
    ensures
        r == js_ts_extension(ext@),
{
    let e = to_chars(ext);
    chars_equal(&e, "js") || chars_equal(&e, "jsx") || chars_equal(&e, "mjs") || chars_equal(
        &e,
        "ts",
    ) || chars_equal(&e, "tsx") || chars_equal(&e, "mts")
}

/// The package part of what follows `node_modules/` in a path: the first
/// segment, or the first two (`@scope/name`) when the first starts with `@`.
pub open spec fn package_name(after: Seq<char>) -> Seq<char> {
    match find_char_from(after, '/', 0) {
        None => after,
        Some(i) => if i > 0 && after[0] == '@' {
            match find_char_from(after, '/', i + 1) {
                None => after,
                Some(j) => after.take(j),
            }
        } else {
            after.take(i)
        },
    }
}

/// `parts` joined with `sep` between neighbours.
pub open spec fn join(parts: Seq<Seq<char>>, sep: Seq<char>) -> Seq<char>
    decreases parts.len(),
{
    if parts.len() == 0 {
        Seq::empty()
    } else if parts.len() == 1 {
        parts[0]
    } else {
        join(parts.drop_last(), sep) + sep + parts.last()
    }
}

/// The length of the longest common prefix of `a` and `b`, counting from index `i`.
pub open spec fn common_prefix_from(a: Seq<Seq<char>>, b: Seq<Seq<char>>, i: int) -> int
    decreases a.len() - i,
{
    if 0 <= i < a.len() && i < b.len() && a[i] == b[i] {
        common_prefix_from(a, b, i + 1)
    } else {
        i
    }
}

/// The number of leading components that `a` and `b` share.
pub open spec fn common_prefix_len(a: Seq<Seq<char>>, b: Seq<Seq<char>>) -> int {
    common_prefix_from(a, b, 0)
}

/// `n` copies of `..`.
pub open spec fn parent_steps(n: nat) -> Seq<Seq<char>> {
    Seq::new(n, |_i: int| ".."@)
}

/// The relative specifier that leads from the directory with components
/// `from_dir` to the path with components `target`: `./` and the rest of the
/// target when the directory is a prefix of it, else one `..` per directory
/// left, then the rest of the target.
pub open spec fn relative_import(from_dir: Seq<Seq<char>>, target: Seq<Seq<char>>) -> Seq<char> {
    let common = common_prefix_len(from_dir, target);
    let up = from_dir.len() - common;
    let down = target.skip(common);
    if up == 0 {
        "./"@ + join(down, "/"@)
    } else if down.len() == 0 {
        join(parent_steps(up as nat), "/"@)
    } else {
        join(parent_steps(up as nat), "/"@) + "/"@ + join(down, "/"@)
    }
}

/// The components reached from `base` by following the pieces `segs` of a
/// specifier lexically: an empty piece and `.` stay, `..` drops the last
/// component, a name is appended.
pub open spec fn resolve(base: Seq<Seq<char>>, segs: Seq<Seq<char>>) -> Seq<Seq<char>>
    decreases segs.len(),
{
    if segs.len() == 0 {
        base
    } else {
        let s = segs[0];
        let next = if s.len() == 0 || s == "."@ {
            base
        } else if s == ".."@ {
            if base.len() > 0 {
                base.drop_last()
            } else {
                base
            }
        } else {
            base.push(s)
        };
        resolve(next, segs.drop_first())
    }
}

/// The path with its JavaScript/TypeScript extension removed, if it has one.
pub open spec fn strip_js_ts_extension(target: Seq<char>) -> Seq<char> {
    match path_extension(target) {
        Some(e) => if js_ts_extension(e) {
            path_without_extension(target)
        } else {
            target
        },
        None => target,
    }
}

/// The path that a relative import of `target` names: the target without its
/// JavaScript/TypeScript extension, or its directory for an `index` file.
pub open spec fn import_target(target: Seq<char>) -> Option<Seq<char>> {
    let stripped = strip_js_ts_extension(target);
    if path_file_stem(stripped) == Some("index"@) {
        path_parent(stripped)
    } else {
        Some(stripped)
    }
}

/// The specifier an import in `from_file` uses for `target`: the package name
/// when the target lies under `node_modules/`, else a relative specifier
/// without the extension, naming the directory for an `index` file.
pub open spec fn import_path(from_file: Seq<char>, target: Seq<char>) -> Option<Seq<char>> {
    match rfind(target, "node_modules/"@) {
        Some(idx) => Some(package_name(target.skip(idx + "node_modules/"@.len()))),
        None => {
            match (import_target(target), path_parent(from_file)) {
                (Some(b), Some(dir)) => Some(
                    relative_import(path_components(dir), path_components(b)),
                ),
                _ => None,
            }
        },
    }
}

/// The components of a rooted path of names: the root, then names only.
proof fn lemma_rooted_names(p: Seq<char>)
    requires
        is_rooted_names(p),
    ensures
        rooted_components(p).len() > 0,
        rooted_components(p)[0] == "/"@,
        forall|i: int|
            1 <= i < rooted_components(p).len() ==> is_name(#[trigger] rooted_components(p)[i]),
{
    let r = rooted_components(p);
    if p.len() > 1 {
        let pieces = split_slash(p.skip(1));
        assert forall|i: int| 1 <= i < r.len() implies is_name(#[trigger] r[i]) by {
            assert(r[i] == pieces[i - 1]);
        }
    }
}

/// A string with the characters of `s`.
fn owned(s: &str) -> (r: String)
    ensures
        r@ == s@,
{
    String::from_str(s)
}

/// The package name that a path continuing with `after` past `node_modules/` imports.
pub fn package_import_path(after: &str) -> (r: String)
    ensures
        r@ == package_name(after@),
{
    let a = to_chars(after);
    match find_char_exec(&a, '/', 0) {
        None => owned(after),
        Some(i) => {
            if i > 0 && a[0] == '@' {
                match find_char_exec(&a, '/', i + 1) {
                    None => owned(after),
                    Some(j) => owned(after.substring_char(0, j)),
                }
            } else {
                owned(after.substring_char(0, i))
            }
        },
    }
}

/// Appends `parts[start..]` joined with `/` to `out`.
fn append_joined(out: &mut String, parts: &Vec<String>, start: usize)
    requires
        start <= parts@.len(),
    ensures
        final(out)@ == old(out)@ + join(strs_view(parts@).skip(start as int), "/"@),
{
    let ghost xs = strs_view(parts@).skip(start as int);
    let ghost init = out@;
    let mut i: usize = start;
    assert(xs.take(0) =~= Seq::<Seq<char>>::empty());
    while i < parts.len()
        invariant
            start <= i <= parts@.len(),
            xs == strs_view(parts@).skip(start as int),
            out@ == init + join(xs.take(i - start), "/"@),
        decreases parts@.len() - i,
    {
        let ghost k = i - start;
        assert(xs.take(k + 1).drop_last() =~= xs.take(k));
        assert(xs[k] == parts@[i as int]@);
        if i > start {
            out.append("/");
        }
        out.append(parts[i].as_str());
        assert(out@ =~= init + join(xs.take(k + 1), "/"@));
        i = i + 1;
    }
    assert(xs.take(parts@.len() - start) =~= xs);
}

/// Appends `n` copies of `..` joined with `/` to `out`.
fn append_parent_steps(out: &mut String, n: usize)
    ensures
        final(out)@ == old(out)@ + join(parent_steps(n as nat), "/"@),
{
    let ghost init = out@;
    let mut i: usize = 0;
    assert(parent_steps(0) =~= Seq::<Seq<char>>::empty());
    while i < n
        invariant
            i <= n,
            out@ == init + join(parent_steps(i as nat), "/"@),
        decreases n - i,
    {
        assert(parent_steps((i + 1) as nat).drop_last() =~= parent_steps(i as nat));
        if i > 0 {
            out.append("/");
        }
        out.append("..");
        assert(out@ =~= init + join(parent_steps((i + 1) as nat), "/"@));
        i = i + 1;
    }
}

/// The relative specifier from the directory with components `from_dir` to
/// the path with components `target`.
pub fn relative_import_path(from_dir: &Vec<String>, target: &Vec<String>) -> (r: String)
    ensures
        r@ == relative_import(strs_view(from_dir@), strs_view(target@)),
{
    let ghost f = strs_view(from_dir@);
    let ghost t = strs_view(target@);
    let mut common: usize = 0;
    while common < from_dir.len() && common < target.len() && from_dir[common] == target[common]
        invariant
            common <= from_dir@.len(),
            common <= target@.len(),
            f == strs_view(from_dir@),
            t == strs_view(target@),
            common_prefix_len(f, t) == common_prefix_from(f, t, common as int),
        decreases from_dir@.len() - common,
    {
        common = common + 1;
    }
    assert(common_prefix_from(f, t, common as int) == common);
    let up = from_dir.len() - common;
    let mut result = String::new();
    if up == 0 {
        result.append("./");
        append_joined(&mut result, target, common);
    } else {
        append_parent_steps(&mut result, up);
        if common < target.len() {
            result.append("/");
            append_joined(&mut result, target, common);
        }
    }
    proof {
        assert(result@ =~= relative_import(f, t));
    }
    result
}

/// The specifier with which an import in `from_file` reaches `target`. It is
/// `None` exactly when the target is not under `node_modules/` and the
/// importing file has no parent directory. Outside `node_modules/`, when the
/// importing file's directory and the path the import names are absolute
/// paths of names only, following the specifier from that directory (`..` up
/// one directory, a name down into it) leads exactly to that path.
pub fn compute_import_path(from_file: &str, target: &str, _worktree_root: &str) -> (r: Option<
    String,
>)
    ensures
        opt_view(r) == import_path(from_file@, target@),
        rfind(target@, "node_modules/"@) is Some ==> r is Some,
        rfind(target@, "node_modules/"@) is None ==> (r is Some <==> path_parent(from_file@) is Some),
        ({
            &&& rfind(target@, "node_modules/"@) is None
            &&& path_parent(from_file@) matches Some(dir)
            &&& import_target(target@) matches Some(named)
            &&& is_rooted_names(dir)
            &&& is_rooted_names(named)
        }) ==> (r matches Some(s) && resolve(
            rooted_components(path_parent(from_file@)->0),
            split_slash(s@),
        ) == rooted_components(import_target(target@)->0)),
{
    let t = to_chars(target);
    let marker = to_chars("node_modules/");
    if let Some(idx) = rfind_exec(&t, &marker) {
        let n = t.len();
        let m = marker.len();
        assert(idx + m <= n);
        let after = target.substring_char(idx + m, n);
        return Some(package_import_path(after));
    }
    let stripped = match extension(target) {
        Some(e) => if is_js_ts_extension(e.as_str()) {
            without_extension(target)
        } else {
            owned(target)
        },
        None => owned(target),
    };
    let base = match file_stem(stripped.as_str()) {
        Some(stem) => if chars_equal(&to_chars(stem.as_str()), "index") {
            parent(stripped.as_str())
        } else {
            Some(stripped)
        },
        None => Some(stripped),
    };
    let base = match base {
        Some(b) => b,
        None => return None,
    };
    let from_dir = match parent(from_file) {
        Some(d) => d,
        None => return None,
    };
    let from_components = components(from_dir.as_str());
    let target_components = components(base.as_str());
    let specifier = relative_import_path(&from_components, &target_components);
    proof {
        if is_rooted_names(from_dir@) && is_rooted_names(base@) {
            lemma_rooted_names(from_dir@);
            lemma_rooted_names(base@);
            crate::import_laws::law_relative_import_leads_back(
                rooted_components(from_dir@),
                rooted_components(base@),
            );
        }
    }
    Some(specifier)
}

} // verus!
