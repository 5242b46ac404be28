//! Task templates as the run configurations read them, and exact copies of
//! the strings they hold.
use crate::paths::{opt_view, strs_view};
use vstd::prelude::*;

verus! {

/// Identifies a worktree of the project.
#[derive(Clone, Copy, Debug, PartialEq, Eq, Structural, Hash)]
pub struct WorktreeId(pub u64);

/// Whether spawning a task's terminal shows it, and whether it takes focus.
#[derive(Clone, Copy, Debug, PartialEq, Eq, Structural)]
pub enum RevealStrategy {
    Always,
    NoFocus,
    Never,
}

/// A script definition from `.zed/tasks.json`. The fields that the run
/// configurations read or set stand on their own; every other field of the
/// definition is carried, unread, in `other` as its name and its JSON text.
#[derive(Debug, PartialEq, Eq)]
pub struct TaskTemplate {
    pub label: String,
    pub command: String,
    pub args: Vec<String>,
    pub cwd: Option<String>,
    pub reveal: RevealStrategy,
    pub other: Vec<(String, String)>,
}

/// A task template's contents.
pub struct TemplateView {
    pub label: Seq<char>,
    pub command: Seq<char>,
    pub args: Seq<Seq<char>>,
    pub cwd: Option<Seq<char>>,
    pub reveal: RevealStrategy,
    pub other: Seq<(Seq<char>, Seq<char>)>,
}

/// The views of name/value pairs of strings.
pub open spec fn pairs_view(v: Seq<(String, String)>) -> Seq<(Seq<char>, Seq<char>)> {
    v.map_values(|p: (String, String)| (p.0@, p.1@))
}

impl View for TaskTemplate {
    type V = TemplateView;

    open spec fn view(&self) -> TemplateView {
        TemplateView {
            label: self.label@,
            command: self.command@,
            args: strs_view(self.args@),
            cwd: opt_view(self.cwd),
            reveal: self.reveal,
            other: pairs_view(self.other@),
        }
    }
}

/// A copy of a string.
pub fn copy_string(s: &String) -> (r: String)
    ensures
        r@ == s@,
{
    s.clone()
}

/// A copy of an optional string.
pub fn copy_opt_string(s: &Option<String>) -> (r: Option<String>)
    ensures
        opt_view(r) == opt_view(*s),
{
    match s {
        Some(x) => Some(x.clone()),
        None => None,
    }
}

/// A copy of a list of strings.
pub fn copy_strings(v: &Vec<String>) -> (r: Vec<String>)
    ensures
        strs_view(r@) == strs_view(v@),
{
    let mut out: Vec<String> = Vec::new();
    let mut i: usize = 0;
    while i < v.len()
        invariant
            i <= v@.len(),
            strs_view(out@) == strs_view(v@.take(i as int)),
        decreases v@.len() - i,
    {
        let ghost before = out@;
        let c = v[i].clone();
        out.push(c);
        assert(out@ == before.push(c));
        assert(strs_view(out@) =~= strs_view(before).push(c@));
        assert(v@.take(i + 1) =~= v@.take(i as int).push(v@[i as int]));
        assert(strs_view(v@.take(i + 1)) =~= strs_view(v@.take(i as int)).push(v@[i as int]@));
        i = i + 1;
    }
    assert(v@.take(v@.len() as int) =~= v@);
    out
}

/// A copy of a list of name/value pairs of strings.
pub fn copy_pairs(v: &Vec<(String, String)>) -> (r: Vec<(String, String)>)
    ensures
        pairs_view(r@) == pairs_view(v@),
{
    let mut out: Vec<(String, String)> = Vec::new();
    let mut i: usize = 0;
    while i < v.len()
        invariant
            i <= v@.len(),
            pairs_view(out@) == pairs_view(v@.take(i as int)),
        decreases v@.len() - i,
    {
        let ghost before = out@;
        let p = (v[i].0.clone(), v[i].1.clone());
        out.push(p);
        assert(out@ == before.push(p));
        assert(pairs_view(out@) =~= pairs_view(before).push((p.0@, p.1@)));
        assert(v@.take(i + 1) =~= v@.take(i as int).push(v@[i as int]));
        assert(pairs_view(v@.take(i + 1)) =~= pairs_view(v@.take(i as int)).push(
            (v@[i as int].0@, v@[i as int].1@),
        ));
        i = i + 1;
    }
    assert(v@.take(v@.len() as int) =~= v@);
    out
}

impl TaskTemplate {
    /// A copy of the template.
    pub fn duplicate(&self) -> (r: TaskTemplate)
        ensures
            r@ == self@,
    {
        TaskTemplate {
            label: copy_string(&self.label),
            command: copy_string(&self.command),
            args: copy_strings(&self.args),
            cwd: copy_opt_string(&self.cwd),
            reveal: self.reveal,
            other: copy_pairs(&self.other),
        }
    }
}

} // verus!
