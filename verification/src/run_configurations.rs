//! The per-workspace state of the title bar's run configurations: the active
//! script's label, the pinned labels in order, and the scripts that the
//! worktrees define.
use crate::paths::{opt_view, strs_view};
use crate::task_template::{
    copy_opt_string, copy_string, copy_strings, RevealStrategy, TaskTemplate, TemplateView,
    WorktreeId,
};
use vstd::prelude::*;

verus! {

/// A script with the worktree that defines it.
pub type Entry = (WorktreeId, TaskTemplate);

/// The view of a script with its worktree.
pub type EntryView = (WorktreeId, TemplateView);

/// The views of scripts with their worktrees.
pub open spec fn entries_view(t: Seq<Entry>) -> Seq<EntryView> {
    t.map_values(|e: Entry| (e.0, e.1@))
}

/// The state as the persisted file holds it: the active label and the pinned labels.
pub struct PersistedState {
    pub active: Option<String>,
    pub pinned: Vec<String>,
}

/// What a persisted state holds.
pub struct PersistedView {
    pub active: Option<Seq<char>>,
    pub pinned: Seq<Seq<char>>,
}

impl View for PersistedState {
    type V = PersistedView;

    open spec fn view(&self) -> PersistedView {
        PersistedView { active: opt_view(self.active), pinned: strs_view(self.pinned@) }
    }
}

/// The active label, the pinned labels in order, and the known scripts.
pub struct RunConfigurations {
    active: Option<String>,
    pinned: Vec<String>,
    templates: Vec<Entry>,
}

/// What the run configurations hold.
pub struct RunConfigurationsView {
    pub active: Option<Seq<char>>,
    pub pinned: Seq<Seq<char>>,
    pub templates: Seq<EntryView>,
}

impl View for RunConfigurations {
    type V = RunConfigurationsView;

    closed spec fn view(&self) -> RunConfigurationsView {
        RunConfigurationsView {
            active: opt_view(self.active),
            pinned: strs_view(self.pinned@),
            templates: entries_view(self.templates@),
        }
    }
}

/// The first index at or after `i` of a script labelled `label`.
pub open spec fn first_labelled(ts: Seq<EntryView>, label: Seq<char>, i: int) -> Option<int>
    decreases ts.len() - i,
{
    if i < 0 || i >= ts.len() {
        None
    } else if ts[i].1.label == label {
        Some(i)
    } else {
        first_labelled(ts, label, i + 1)
    }
}

/// The first script labelled `label`.
pub open spec fn lookup(ts: Seq<EntryView>, label: Seq<char>) -> Option<EntryView> {
    match first_labelled(ts, label, 0) {
        Some(i) => Some(ts[i]),
        None => None,
    }
}

/// The scripts of the pinned labels, in pinned order, skipping labels without one.
pub open spec fn resolve_pinned(pinned: Seq<Seq<char>>, ts: Seq<EntryView>) -> Seq<EntryView>
    decreases pinned.len(),
{
    if pinned.len() == 0 {
        Seq::empty()
    } else {
        let init = resolve_pinned(pinned.drop_last(), ts);
        match lookup(ts, pinned.last()) {
            Some(e) => init.push(e),
            None => init,
        }
    }
}

/// Some script among `ts` is labelled `label`.
pub open spec fn has_label(ts: Seq<EntryView>, label: Seq<char>) -> bool {
    exists|k: int| 0 <= k < ts.len() && #[trigger] ts[k].1.label == label
}

/// `ts` with every script whose label an earlier one already has left out.
pub open spec fn dedupe_by_label(ts: Seq<EntryView>) -> Seq<EntryView>
    decreases ts.len(),
{
    if ts.len() == 0 {
        Seq::empty()
    } else {
        let init = dedupe_by_label(ts.drop_last());
        if has_label(ts.drop_last(), ts.last().1.label) {
            init
        } else {
            init.push(ts.last())
        }
    }
}

/// The first index at or after `i` of `label` among `labels`.
pub open spec fn first_index(labels: Seq<Seq<char>>, label: Seq<char>, i: int) -> Option<int>
    decreases labels.len() - i,
{
    if i < 0 || i >= labels.len() {
        None
    } else if labels[i] == label {
        Some(i)
    } else {
        first_index(labels, label, i + 1)
    }
}

/// The first of `labels`, if any.
pub open spec fn first_label(labels: Seq<Seq<char>>) -> Option<Seq<char>> {
    if labels.len() > 0 {
        Some(labels[0])
    } else {
        None
    }
}

/// `labels` with `label` at the end unless it is already there.
pub open spec fn pin(labels: Seq<Seq<char>>, label: Seq<char>) -> Seq<Seq<char>> {
    if labels.contains(label) {
        labels
    } else {
        labels.push(label)
    }
}

/// The labels of a dedupe are those of its input.
pub proof fn lemma_dedupe_labels(ts: Seq<EntryView>)
    ensures
        forall|x: Seq<char>| has_label(dedupe_by_label(ts), x) == has_label(ts, x),
    decreases ts.len(),
{
    if ts.len() > 0 {
        let p = ts.drop_last();
        lemma_dedupe_labels(p);
        let d = dedupe_by_label(p);
        assert forall|x: Seq<char>| has_label(dedupe_by_label(ts), x) == has_label(ts, x) by {
            if has_label(ts, x) {
                let k = choose|k: int| 0 <= k < ts.len() && #[trigger] ts[k].1.label == x;
                if k < ts.len() - 1 {
                    assert(p[k].1.label == x);
                    assert(has_label(p, x));
                }
            }
            if has_label(p, x) {
                let k = choose|k: int| 0 <= k < p.len() && #[trigger] p[k].1.label == x;
                assert(ts[k].1.label == x);
            }
            if !has_label(p, ts.last().1.label) {
                let e = d.push(ts.last());
                assert(e[d.len() as int].1.label == ts.last().1.label);
                if has_label(d, x) {
                    let k = choose|k: int| 0 <= k < d.len() && #[trigger] d[k].1.label == x;
                    assert(e[k].1.label == x);
                }
                if has_label(e, x) {
                    let k = choose|k: int| 0 <= k < e.len() && #[trigger] e[k].1.label == x;
                    if k < d.len() {
                        assert(d[k].1.label == x);
                    }
                }
            }
            assert(ts[ts.len() - 1].1.label == ts.last().1.label);
        }
    }
}

/// No two scripts of a dedupe share a label.
pub proof fn lemma_dedupe_unique(ts: Seq<EntryView>)
    ensures
        forall|a: int, b: int|
            0 <= a < b < dedupe_by_label(ts).len() ==> dedupe_by_label(ts)[a].1.label
                != dedupe_by_label(ts)[b].1.label,
    decreases ts.len(),
{
    if ts.len() > 0 {
        let p = ts.drop_last();
        lemma_dedupe_unique(p);
        lemma_dedupe_labels(p);
        let d = dedupe_by_label(p);
        if !has_label(p, ts.last().1.label) {
            let e = d.push(ts.last());
            assert forall|a: int, b: int| 0 <= a < b < e.len() implies e[a].1.label
                != e[b].1.label by {
                if b == d.len() {
                    if e[a].1.label == e[b].1.label {
                        assert(d[a].1.label == ts.last().1.label);
                        assert(has_label(d, ts.last().1.label));
                    }
                } else {
                    assert(e[a] == d[a] && e[b] == d[b]);
                }
            }
        }
    }
}

/// Every script of a dedupe is the first of its label in the input.
pub proof fn lemma_dedupe_first(ts: Seq<EntryView>)
    ensures
        forall|k: int|
            0 <= k < dedupe_by_label(ts).len() ==> #[trigger] lookup(
                ts,
                dedupe_by_label(ts)[k].1.label,
            ) == Some(dedupe_by_label(ts)[k]),
    decreases ts.len(),
{
    if ts.len() > 0 {
        let p = ts.drop_last();
        lemma_dedupe_first(p);
        let d = dedupe_by_label(p);
        lemma_first_labelled_prefix(ts);
        let r = dedupe_by_label(ts);
        assert forall|k: int| 0 <= k < r.len() implies #[trigger] lookup(ts, r[k].1.label) == Some(
            r[k],
        ) by {
            if k < d.len() {
                assert(r[k] == d[k]);
                assert(lookup(p, d[k].1.label) == Some(d[k]));
                let i = first_labelled(p, d[k].1.label, 0)->0;
                lemma_first_labelled_found(p, d[k].1.label, 0);
                assert(first_labelled(ts, d[k].1.label, 0) == Some(i));
                assert(ts[i] == p[i]);
            } else {
                assert(!has_label(p, ts.last().1.label));
                lemma_first_labelled_extend(ts, ts.last().1.label, 0);
                assert(r[k] == ts.last());
            }
        }
    }
}

/// In a sequence, `first_labelled` from `i` finds the same script as in the
/// sequence without its last element, when that one finds any.
proof fn lemma_first_labelled_prefix(ts: Seq<EntryView>)
    requires
        ts.len() > 0,
    ensures
        forall|x: Seq<char>| #[trigger]
            first_labelled(ts.drop_last(), x, 0) is Some ==> first_labelled(ts, x, 0)
                == first_labelled(ts.drop_last(), x, 0),
{
    assert forall|x: Seq<char>| #[trigger]
        first_labelled(ts.drop_last(), x, 0) is Some implies first_labelled(ts, x, 0)
            == first_labelled(ts.drop_last(), x, 0) by {
        lemma_first_labelled_prefix_from(ts, x, 0);
    }
}

proof fn lemma_first_labelled_prefix_from(ts: Seq<EntryView>, x: Seq<char>, i: int)
    requires
        ts.len() > 0,
        0 <= i,
        first_labelled(ts.drop_last(), x, i) is Some,
    ensures
        first_labelled(ts, x, i) == first_labelled(ts.drop_last(), x, i),
    decreases ts.len() - i,
{
    let p = ts.drop_last();
    if i < p.len() && p[i].1.label != x {
        lemma_first_labelled_prefix_from(ts, x, i + 1);
    }
}

/// What `first_labelled` finds is a script with that label, at or after `i`.
pub proof fn lemma_first_labelled_found(ts: Seq<EntryView>, x: Seq<char>, i: int)
    ensures
        first_labelled(ts, x, i) matches Some(j) ==> i <= j < ts.len() && 0 <= j && ts[j].1.label
            == x,
    decreases ts.len() - i,
{
    if 0 <= i < ts.len() && ts[i].1.label != x {
        lemma_first_labelled_found(ts, x, i + 1);
    }
}

/// When only the last script carries `x`, `first_labelled` finds it.
proof fn lemma_first_labelled_extend(ts: Seq<EntryView>, x: Seq<char>, i: int)
    requires
        ts.len() > 0,
        0 <= i < ts.len(),
        !has_label(ts.drop_last(), x),
        ts.last().1.label == x,
    ensures
        first_labelled(ts, x, i) == Some(ts.len() - 1),
    decreases ts.len() - i,
{
    if i < ts.len() - 1 {
        assert(ts.drop_last()[i] == ts[i]);
        assert(ts[i].1.label != x);
        lemma_first_labelled_extend(ts, x, i + 1);
    }
}

/// The status of the task that a terminal runs.
#[derive(Clone, Copy, Debug, PartialEq, Eq, Structural)]
pub enum TaskStatus {
    Running,
    Completed { success: bool },
}

/// What starting a script comes down to.
pub enum StartAction {
    /// No known script has the label: ask the task picker to spawn it by name.
    SpawnByName(String),
    /// Schedule this script in a new terminal of its worktree, with the
    /// context made from that worktree's path.
    Schedule { worktree_id: WorktreeId, template: TaskTemplate, context: TaskContext },
}

/// What a scheduled script runs with: its working directory, and the value of
/// the worktree-root task variable (absent when the worktree's path is unknown).
pub struct TaskContext {
    pub cwd: Option<String>,
    pub worktree_root: Option<String>,
}

/// Why a script could not be added.
#[derive(Debug, PartialEq, Eq)]
pub enum RunConfigError {
    /// `tasks.json` already holds a script with this label.
    DuplicateLabel(String),
}

/// How many times a stopped script's terminal is checked before giving up.
pub const STOP_POLL_TICKS: u32 = 30;

/// The milliseconds between two such checks.
pub const STOP_POLL_INTERVAL_MS: u64 = 100;

/// Watches a stopped script until its terminal reports that it has exited,
/// checking at most `STOP_POLL_TICKS` times.
pub struct StopPoll {
    pub label: String,
    pub ticks_left: u32,
}

impl StopPoll {
    /// How many more checks may follow.
    pub open spec fn remaining(&self) -> nat {
        self.ticks_left as nat
    }

    /// Records one check, after which observers are told to redraw; says
    /// whether to check again: only while the script still runs and checks remain.
    pub fn tick(&mut self, still_running: bool) -> (keep_polling: bool)
        ensures
            final(self).label == old(self).label,
            old(self).remaining() > 0 ==> final(self).remaining() == old(self).remaining() - 1,
            old(self).remaining() == 0 ==> final(self).remaining() == 0,
            keep_polling == (still_running && final(self).remaining() > 0),
    {
        if self.ticks_left > 0 {
            self.ticks_left = self.ticks_left - 1;
        }
        still_running && self.ticks_left > 0
    }
}

/// The view of an optional script entry.
pub open spec fn opt_entry_view(o: Option<Entry>) -> Option<EntryView> {
    match o {
        Some(e) => Some((e.0, e.1@)),
        None => None,
    }
}

/// A template with its reveal strategy replaced.
pub open spec fn with_reveal(t: TemplateView, reveal: RevealStrategy) -> TemplateView {
    TemplateView { label: t.label, command: t.command, args: t.args, cwd: t.cwd, reveal, other: t.other }
}

/// The views of worktrees with their absolute paths.
pub open spec fn worktree_paths_view(v: Seq<(WorktreeId, String)>) -> Seq<(WorktreeId, Seq<char>)> {
    v.map_values(|w: (WorktreeId, String)| (w.0, w.1@))
}

/// The absolute path of worktree `id`, searching from index `i`.
pub open spec fn worktree_path_from(
    paths: Seq<(WorktreeId, Seq<char>)>,
    id: WorktreeId,
    i: int,
) -> Option<Seq<char>>
    decreases paths.len() - i,
{
    if i < 0 || i >= paths.len() {
        None
    } else if paths[i].0 == id {
        Some(paths[i].1)
    } else {
        worktree_path_from(paths, id, i + 1)
    }
}

/// The absolute path of worktree `id`, if the project has that worktree.
pub open spec fn worktree_path(paths: Seq<(WorktreeId, Seq<char>)>, id: WorktreeId) -> Option<
    Seq<char>,
> {
    worktree_path_from(paths, id, 0)
}

/// The context a script in a worktree at `path` runs with: that path as the
/// working directory and as the worktree-root variable, or neither when the
/// path is unknown.
pub open spec fn context_matches(c: TaskContext, path: Option<Seq<char>>) -> bool {
    opt_view(c.cwd) == path && opt_view(c.worktree_root) == path
}

/// The action that starting `label` takes, given the known scripts and the
/// project's worktrees with their paths.
pub open spec fn start_action_matches(
    r: StartAction,
    templates: Seq<EntryView>,
    paths: Seq<(WorktreeId, Seq<char>)>,
    label: Seq<char>,
    suppress_focus: bool,
) -> bool {
    match lookup(templates, label) {
        None => (r matches StartAction::SpawnByName(name) && name@ == label),
        Some(e) => (r matches StartAction::Schedule { worktree_id, template, context }
            && worktree_id == e.0 && template@ == (if suppress_focus {
            with_reveal(e.1, RevealStrategy::Never)
        } else {
            e.1
        }) && context_matches(context, worktree_path(paths, e.0))),
    }
}

/// The state after `set_active(label)`: the label becomes active and pinned,
/// unless it already was active.
pub open spec fn activated(v: RunConfigurationsView, label: Seq<char>) -> RunConfigurationsView {
    if v.active == Some(label) {
        v
    } else {
        RunConfigurationsView { active: Some(label), pinned: pin(v.pinned, label), templates: v.templates }
    }
}

/// The state after `toggle_pin(label)`: a pinned label is unpinned (and if it
/// was active, the first remaining pinned label becomes active); another is
/// pinned at the end.
pub open spec fn toggled(v: RunConfigurationsView, label: Seq<char>) -> RunConfigurationsView {
    match first_index(v.pinned, label, 0) {
        Some(p) => {
            let pinned = v.pinned.remove(p);
            RunConfigurationsView {
                active: if v.active == Some(label) {
                    first_label(pinned)
                } else {
                    v.active
                },
                pinned,
                templates: v.templates,
            }
        },
        None => RunConfigurationsView {
            active: v.active,
            pinned: v.pinned.push(label),
            templates: v.templates,
        },
    }
}

/// The state after the scripts are reloaded from `entries`: the first script
/// of each label is kept, in order, and with no active label the first pinned
/// one becomes active. Pinned labels stay, whether or not a script has them.
pub open spec fn reloaded(v: RunConfigurationsView, entries: Seq<EntryView>) -> RunConfigurationsView {
    RunConfigurationsView {
        active: if v.active is None {
            first_label(v.pinned)
        } else {
            v.active
        },
        pinned: v.pinned,
        templates: dedupe_by_label(entries),
    }
}

/// The state after a persisted state is loaded: its active and pinned labels
/// are taken, then the scripts are reloaded from `entries` when the project
/// has a task inventory to give them (`None` when it has none: the scripts
/// stay and no label is made active).
pub open spec fn restored(
    v: RunConfigurationsView,
    state: PersistedView,
    entries: Option<Seq<EntryView>>,
) -> RunConfigurationsView {
    let taken = RunConfigurationsView {
        active: state.active,
        pinned: state.pinned,
        templates: v.templates,
    };
    match entries {
        Some(e) => reloaded(taken, e),
        None => taken,
    }
}

/// The views of the scripts, if any are given.
pub open spec fn opt_entries_view(o: Option<&Vec<Entry>>) -> Option<Seq<EntryView>> {
    match o {
        Some(v) => Some(entries_view(v@)),
        None => None,
    }
}

/// The state after a script labelled `label` has been written: it is pinned
/// and active.
pub open spec fn script_added(v: RunConfigurationsView, label: Seq<char>) -> RunConfigurationsView {
    RunConfigurationsView { active: Some(label), pinned: pin(v.pinned, label), templates: v.templates }
}

/// What persisting the state writes.
pub open spec fn persisted(v: RunConfigurationsView) -> PersistedView {
    PersistedView { active: v.active, pinned: v.pinned }
}

/// Some terminal's task is running.
pub open spec fn any_running(tasks: Seq<Option<TaskStatus>>) -> bool {
    exists|i: int| 0 <= i < tasks.len() && tasks[i] == Some(TaskStatus::Running)
}

/// The templates' labels.
pub open spec fn labels_of(ts: Seq<TaskTemplate>) -> Seq<Seq<char>> {
    ts.map_values(|t: TaskTemplate| t.label@)
}

/// The index of the first script labelled `label`.
fn find_template(templates: &Vec<Entry>, label: &String) -> (r: Option<usize>)
    ensures
        r matches Some(i) ==> i < templates@.len() && first_labelled(
            entries_view(templates@),
            label@,
            0,
        ) == Some(i as int),
        r is None ==> first_labelled(entries_view(templates@), label@, 0) is None,
{
    let ghost ts = entries_view(templates@);
    let mut i: usize = 0;
    while i < templates.len()
        invariant
            i <= templates@.len(),
            ts == entries_view(templates@),
            first_labelled(ts, label@, 0) == first_labelled(ts, label@, i as int),
        decreases templates@.len() - i,
    {
        if templates[i].1.label == *label {
            return Some(i);
        }
        i = i + 1;
    }
    None
}

/// The index of the first occurrence of `label`.
fn index_of(labels: &Vec<String>, label: &String) -> (r: Option<usize>)
    ensures
        r matches Some(i) ==> i < labels@.len() && first_index(strs_view(labels@), label@, 0)
            == Some(i as int) && strs_view(labels@).contains(label@),
        r is None ==> first_index(strs_view(labels@), label@, 0) is None && !strs_view(
            labels@,
        ).contains(label@),
{
    let ghost ls = strs_view(labels@);
    let mut i: usize = 0;
    while i < labels.len()
        invariant
            i <= labels@.len(),
            ls == strs_view(labels@),
            first_index(ls, label@, 0) == first_index(ls, label@, i as int),
            forall|k: int| 0 <= k < i ==> ls[k] != label@,
        decreases labels@.len() - i,
    {
        if labels[i] == *label {
            assert(ls[i as int] == label@);
            return Some(i);
        }
        i = i + 1;
    }
    None
}

/// A copy of the absolute path of worktree `id`, if it is among `paths`.
fn find_worktree_path(paths: &[(WorktreeId, String)], id: WorktreeId) -> (r: Option<String>)
    ensures
        opt_view(r) == worktree_path(worktree_paths_view(paths@), id),
{
    let ghost ps = worktree_paths_view(paths@);
    let mut i: usize = 0;
    while i < paths.len()
        invariant
            i <= paths@.len(),
            ps == worktree_paths_view(paths@),
            worktree_path(ps, id) == worktree_path_from(ps, id, i as int),
        decreases paths@.len() - i,
    {
        if paths[i].0 == id {
            return Some(copy_string(&paths[i].1));
        }
        i = i + 1;
    }
    None
}

/// A copy of a script entry.
fn copy_entry(e: &Entry) -> (r: Entry)
    ensures
        (r.0, r.1@) == (e.0, e.1@),
{
    (e.0, e.1.duplicate())
}

/// A copy of the first label, if any.
fn first_of(labels: &Vec<String>) -> (r: Option<String>)
    ensures
        opt_view(r) == first_label(strs_view(labels@)),
{
    if labels.len() > 0 {
        Some(copy_string(&labels[0]))
    } else {
        None
    }
}

/// Whether some script among `entries` is labelled `label`.
fn entries_have_label(entries: &Vec<Entry>, label: &String) -> (r: bool)
    ensures
        r == has_label(entries_view(entries@), label@),
{
    match find_template(entries, label) {
        Some(i) => {
            proof {
                lemma_first_labelled_found(entries_view(entries@), label@, 0);
            }
            true
        },
        None => {
            proof {
                let ts = entries_view(entries@);
                if has_label(ts, label@) {
                    let k = choose|k: int| 0 <= k < ts.len() && #[trigger] ts[k].1.label == label@;
                    lemma_first_labelled_none(ts, label@, 0, k);
                }
            }
            false
        },
    }
}

/// `first_labelled` from `i` finds a script whenever one at or after `i` has the label.
proof fn lemma_first_labelled_none(ts: Seq<EntryView>, x: Seq<char>, i: int, k: int)
    requires
        0 <= i <= k < ts.len(),
        ts[k].1.label == x,
    ensures
        first_labelled(ts, x, i) is Some,
    decreases k - i,
{
    if ts[i].1.label != x {
        lemma_first_labelled_none(ts, x, i + 1, k);
    }
}

impl RunConfigurations {
    /// No active label, nothing pinned, no scripts known yet.
    pub fn new() -> (r: Self)
        ensures
            r@.active is None,
            r@.pinned == Seq::<Seq<char>>::empty(),
            r@.templates == Seq::<EntryView>::empty(),
    {
        let r = RunConfigurations { active: None, pinned: Vec::new(), templates: Vec::new() };
        assert(r@.pinned =~= Seq::<Seq<char>>::empty());
        assert(r@.templates =~= Seq::<EntryView>::empty());
        r
    }

    /// The pinned labels, in order.
    pub fn pinned_labels(&self) -> (r: &[String])
        ensures
            strs_view(r@) == self@.pinned,
    {
        self.pinned.as_slice()
    }

    /// The active label, if any.
    pub fn active_label(&self) -> (r: Option<&String>)
        ensures
            match r {
                Some(s) => self@.active == Some(s@),
                None => self@.active is None,
            },
    {
        self.active.as_ref()
    }

    /// The known scripts with their worktrees.
    pub fn all_templates(&self) -> (r: &[Entry])
        ensures
            entries_view(r@) == self@.templates,
    {
        self.templates.as_slice()
    }

    /// The scripts of the pinned labels, in pinned order; labels that no known
    /// script carries are left out.
    pub fn resolved_pinned(&self) -> (r: Vec<Entry>)
        ensures
            entries_view(r@) == resolve_pinned(self@.pinned, self@.templates),
    {
        let ghost ps = self@.pinned;
        let ghost ts = self@.templates;
        let mut out: Vec<Entry> = Vec::new();
        let mut i: usize = 0;
        while i < self.pinned.len()
            invariant
                i <= self.pinned@.len(),
                ps == strs_view(self.pinned@),
                ts == entries_view(self.templates@),
                entries_view(out@) == resolve_pinned(ps.take(i as int), ts),
            decreases self.pinned@.len() - i,
        {
            assert(ps.take(i + 1).drop_last() =~= ps.take(i as int));
            assert(ps.take(i + 1).last() == self.pinned@[i as int]@);
            let ghost before = out@;
            match find_template(&self.templates, &self.pinned[i]) {
                Some(k) => {
                    let e = copy_entry(&self.templates[k]);
                    out.push(e);
                    assert(entries_view(out@) =~= entries_view(before).push(ts[k as int]));
                },
                None => {},
            }
            i = i + 1;
        }
        assert(ps.take(ps.len() as int) =~= ps);
        out
    }

    /// The script of the active label, if there is an active label and a
    /// script carries it.
    pub fn active_template(&self) -> (r: Option<Entry>)
        ensures
            opt_entry_view(r) == match self@.active {
                Some(a) => lookup(self@.templates, a),
                None => None,
            },
    {
        let label = match &self.active {
            Some(l) => l,
            None => return None,
        };
        match find_template(&self.templates, label) {
            Some(k) => Some(copy_entry(&self.templates[k])),
            None => None,
        }
    }

    /// Makes `label` active and pins it at the end if it is not pinned; says
    /// whether anything changed (nothing does when it already was active), in
    /// which case the state is to be persisted and observers told.
    pub fn set_active(&mut self, label: String) -> (changed: bool)
        ensures
            final(self)@ == activated(old(self)@, label@),
            changed == (old(self)@.active != Some(label@)),
    {
        let same = match &self.active {
            Some(a) => *a == label,
            None => false,
        };
        if same {
            return false;
        }
        let pinned_at = index_of(&self.pinned, &label);
        let ghost before = self.pinned@;
        self.active = Some(copy_string(&label));
        if pinned_at.is_none() {
            self.pinned.push(label);
            assert(strs_view(self.pinned@) =~= strs_view(before).push(label@));
        }
        true
    }

    /// Unpins `label` if it is pinned (and, if it was active, makes the first
    /// remaining pinned label active), else pins it at the end.
    pub fn toggle_pin(&mut self, label: String)
        ensures
            final(self)@ == toggled(old(self)@, label@),
    {
        let ghost before = self.pinned@;
        match index_of(&self.pinned, &label) {
            Some(pos) => {
                self.pinned.remove(pos);
                assert(strs_view(self.pinned@) =~= strs_view(before).remove(pos as int));
                let was_active = match &self.active {
                    Some(a) => *a == label,
                    None => false,
                };
                if was_active {
                    self.active = first_of(&self.pinned);
                }
            },
            None => {
                self.pinned.push(label);
                assert(strs_view(self.pinned@) =~= strs_view(before).push(label@));
            },
        }
    }

    /// Whether one of the terminals opened for a label runs its task: a
    /// terminal whose task has exited, or that has none, does not count.
    pub fn is_running(terminal_tasks: &[Option<TaskStatus>]) -> (r: bool)
        ensures
            r == any_running(terminal_tasks@),
    {
        let mut i: usize = 0;
        while i < terminal_tasks.len()
            invariant
                i <= terminal_tasks@.len(),
                forall|k: int| 0 <= k < i ==> terminal_tasks@[k] != Some(TaskStatus::Running),
            decreases terminal_tasks@.len() - i,
        {
            if terminal_tasks[i] == Some(TaskStatus::Running) {
                return true;
            }
            i = i + 1;
        }
        false
    }

    /// Starts the script labelled `label`, with its own reveal strategy.
    /// `worktree_paths` are the project's worktrees with their absolute paths.
    pub fn start_label(&self, label: &str, worktree_paths: &[(WorktreeId, String)]) -> (r:
        StartAction)
        ensures
            start_action_matches(
                r,
                self@.templates,
                worktree_paths_view(worktree_paths@),
                label@,
                false,
            ),
    {
        self.start_label_with(label, false, worktree_paths)
    }

    /// Starts the script labelled `label` in its worktree, whatever file the
    /// editor shows: the worktree's absolute path, looked up among
    /// `worktree_paths`, is the working directory and the worktree root. With
    /// `suppress_focus` its terminal is never revealed, so focus stays put.
    /// A label that no known script carries is handed to the task picker.
    pub fn start_label_with(
        &self,
        label: &str,
        suppress_focus: bool,
        worktree_paths: &[(WorktreeId, String)],
    ) -> (r: StartAction)
        ensures
            start_action_matches(
                r,
                self@.templates,
                worktree_paths_view(worktree_paths@),
                label@,
                suppress_focus,
            ),
    {
        let wanted = String::from_str(label);
        match find_template(&self.templates, &wanted) {
            None => StartAction::SpawnByName(wanted),
            Some(k) => {
                let (worktree_id, mut template) = copy_entry(&self.templates[k]);
                if suppress_focus {
                    template.reveal = RevealStrategy::Never;
                }
                let path = find_worktree_path(worktree_paths, worktree_id);
                let context = Self::task_context(path);
                StartAction::Schedule { worktree_id, template, context }
            },
        }
    }

    /// The context for a script scheduled in a worktree at `worktree_abs_path`:
    /// that path is both the working directory and the worktree root.
    pub fn task_context(worktree_abs_path: Option<String>) -> (r: TaskContext)
        ensures
            opt_view(r.cwd) == opt_view(worktree_abs_path),
            opt_view(r.worktree_root) == opt_view(worktree_abs_path),
    {
        let root = copy_opt_string(&worktree_abs_path);
        TaskContext { cwd: worktree_abs_path, worktree_root: root }
    }

    /// Begins watching the terminals of `label` after they were told to stop.
    pub fn stop_label(&self, label: &str) -> (r: StopPoll)
        ensures
            r.label@ == label@,
            r.remaining() == STOP_POLL_TICKS,
    {
        StopPoll { label: String::from_str(label), ticks_left: STOP_POLL_TICKS }
    }

    /// Records that a script labelled `label` was written: it is pinned (at
    /// the end, unless already pinned) and becomes active.
    pub fn add_script(&mut self, label: String)
        ensures
            final(self)@ == script_added(old(self)@, label@),
    {
        let ghost before = self.pinned@;
        if index_of(&self.pinned, &label).is_none() {
            self.pinned.push(copy_string(&label));
            assert(strs_view(self.pinned@) =~= strs_view(before).push(label@));
        }
        self.active = Some(label);
    }

    /// Replaces the known scripts by `worktree_templates` (the scripts of
    /// each visible worktree, worktree by worktree), keeping only the first
    /// script of each label; with no active label, the first pinned one
    /// becomes active. Pinned labels are kept even when no script has them.
    pub fn reload_templates(&mut self, worktree_templates: &Vec<Entry>)
        ensures
            final(self)@ == reloaded(old(self)@, entries_view(worktree_templates@)),
    {
        let ghost es = entries_view(worktree_templates@);
        let mut out: Vec<Entry> = Vec::new();
        let mut i: usize = 0;
        assert(es.take(0) =~= Seq::<EntryView>::empty());
        assert(entries_view(out@) =~= Seq::<EntryView>::empty());
        while i < worktree_templates.len()
            invariant
                i <= worktree_templates@.len(),
                es == entries_view(worktree_templates@),
                entries_view(out@) == dedupe_by_label(es.take(i as int)),
            decreases worktree_templates@.len() - i,
        {
            let ghost prefix = es.take(i as int);
            assert(es.take(i + 1).drop_last() =~= prefix);
            assert(es.take(i + 1).last() == es[i as int]);
            proof {
                lemma_dedupe_labels(prefix);
            }
            let e = &worktree_templates[i];
            if !entries_have_label(&out, &e.1.label) {
                let ghost before = out@;
                out.push(copy_entry(e));
                assert(entries_view(out@) =~= entries_view(before).push(es[i as int]));
            }
            i = i + 1;
        }
        assert(es.take(es.len() as int) =~= es);
        self.templates = out;
        if self.active.is_none() {
            self.active = first_of(&self.pinned);
        }
    }

    /// Takes the active and pinned labels from a loaded persisted state, then
    /// reloads the scripts from `worktree_templates` when the project has a
    /// task inventory to give them (`None` when it has none: then the scripts
    /// stay as they were and no label is made active).
    pub fn load_persisted_state(
        &mut self,
        state: PersistedState,
        worktree_templates: Option<&Vec<Entry>>,
    )
        ensures
            final(self)@ == restored(old(self)@, state@, opt_entries_view(worktree_templates)),
    {
        self.pinned = state.pinned;
        self.active = state.active;
        match worktree_templates {
            Some(ts) => self.reload_templates(ts),
            None => {},
        }
    }

    /// The state to persist: the active label and the pinned labels.
    pub fn persist(&self) -> (r: PersistedState)
        ensures
            r@ == persisted(self@),
    {
        PersistedState { active: copy_opt_string(&self.active), pinned: copy_strings(&self.pinned) }
    }
}

/// Adds `template` at the end of the scripts read from `tasks.json`, unless
/// one of them already carries its label: then nothing changes and the label
/// is reported.
pub fn append_template(templates: &mut Vec<TaskTemplate>, template: TaskTemplate) -> (r: Result<
    (),
    RunConfigError,
>)
    ensures
        labels_of(old(templates)@).contains(template.label@) ==> (r matches Err(
            RunConfigError::DuplicateLabel(l),
        ) && l@ == template.label@ && final(templates)@ == old(templates)@),
        !labels_of(old(templates)@).contains(template.label@) ==> r is Ok && final(templates)@
            == old(templates)@.push(template),
{
    let ghost ls = labels_of(templates@);
    let mut i: usize = 0;
    while i < templates.len()
        invariant
            i <= templates@.len(),
            ls == labels_of(templates@),
            forall|k: int| 0 <= k < i ==> ls[k] != template.label@,
        decreases templates@.len() - i,
    {
        if templates[i].label == template.label {
            assert(ls[i as int] == template.label@);
            return Err(RunConfigError::DuplicateLabel(template.label));
        }
        i = i + 1;
    }
    templates.push(template);
    Ok(())
}

} // verus!
