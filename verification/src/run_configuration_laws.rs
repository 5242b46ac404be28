//! What holds of the run configurations across calls.
use crate::run_configurations::{
    activated, first_index, has_label, labels_of, lemma_dedupe_first, lemma_dedupe_labels,
    lemma_dedupe_unique, lookup, persisted, pin, reloaded, resolve_pinned, restored, script_added,
    toggled, EntryView, RunConfigurationsView,
};
use crate::task_template::TaskTemplate;
use vstd::prelude::*;

verus! {

/// Without `label` among `labels`, no index of it is found.
proof fn lemma_first_index_absent(labels: Seq<Seq<char>>, label: Seq<char>, i: int)
    requires
        0 <= i,
        !labels.contains(label),
    ensures
        first_index(labels, label, i) is None,
    decreases labels.len() - i,
{
    if i < labels.len() {
        assert(labels[i] != label);
        lemma_first_index_absent(labels, label, i + 1);
    }
}

/// A label pushed onto labels without it is found at the end.
proof fn lemma_first_index_pushed(labels: Seq<Seq<char>>, label: Seq<char>, i: int)
    requires
        0 <= i <= labels.len(),
        !labels.contains(label),
    ensures
        first_index(labels.push(label), label, i) == Some(labels.len() as int),
    decreases labels.len() - i,
{
    if i < labels.len() {
        assert(labels.push(label)[i] == labels[i]);
        assert(labels[i] != label);
        lemma_first_index_pushed(labels, label, i + 1);
    }
}

/// What `first_index` finds carries the label and lies in range.
proof fn lemma_first_index_found(labels: Seq<Seq<char>>, label: Seq<char>, i: int)
    requires
        0 <= i,
    ensures
        first_index(labels, label, i) matches Some(p) ==> i <= p < labels.len() && labels[p]
            == label,
    decreases labels.len() - i,
{
    if i < labels.len() && labels[i] != label {
        lemma_first_index_found(labels, label, i + 1);
    }
}

/// Pinning a label that is not pinned, then toggling it again, gives back
/// the same state, provided that the label was not the active one.
pub proof fn law_toggle_pin_twice_restores(v: RunConfigurationsView, label: Seq<char>)
    requires
        !v.pinned.contains(label),
        v.active != Some(label),
    ensures
        toggled(toggled(v, label), label) == v,
{
    lemma_first_index_absent(v.pinned, label, 0);
    lemma_first_index_pushed(v.pinned, label, 0);
    assert(v.pinned.push(label).remove(v.pinned.len() as int) =~= v.pinned);
}

/// `set_active` makes the label active, and once it is, a second call changes nothing.
pub proof fn law_set_active_idempotent(v: RunConfigurationsView, label: Seq<char>)
    ensures
        activated(v, label).active == Some(label),
        activated(activated(v, label), label) == activated(v, label),
        v.active != Some(label) ==> activated(v, label).pinned.contains(label),
{
    if v.active != Some(label) && !v.pinned.contains(label) {
        assert(v.pinned.push(label)[v.pinned.len() as int] == label);
    }
}

/// A pinned list without repeats keeps none after `set_active`,
/// `toggle_pin` or `add_script`.
pub proof fn law_pinned_stay_distinct(v: RunConfigurationsView, label: Seq<char>)
    requires
        v.pinned.no_duplicates(),
    ensures
        activated(v, label).pinned.no_duplicates(),
        toggled(v, label).pinned.no_duplicates(),
        script_added(v, label).pinned.no_duplicates(),
{
    lemma_pin_distinct(v.pinned, label);
    match first_index(v.pinned, label, 0) {
        Some(p) => {
            lemma_first_index_found(v.pinned, label, 0);
            let r = v.pinned.remove(p);
            assert forall|a: int, b: int| 0 <= a < r.len() && 0 <= b < r.len() && a != b implies r[a]
                != r[b] by {
                let a2 = if a < p {
                    a
                } else {
                    a + 1
                };
                let b2 = if b < p {
                    b
                } else {
                    b + 1
                };
                assert(r[a] == v.pinned[a2] && r[b] == v.pinned[b2]);
            }
        },
        None => {
            lemma_first_index_none(v.pinned, label, 0);
            assert(!v.pinned.contains(label));
            assert(pin(v.pinned, label) == v.pinned.push(label));
        },
    }
}

/// Where `first_index` finds nothing, the label is absent from there on.
proof fn lemma_first_index_none(labels: Seq<Seq<char>>, label: Seq<char>, i: int)
    requires
        0 <= i,
        first_index(labels, label, i) is None,
    ensures
        forall|k: int| i <= k < labels.len() ==> labels[k] != label,
    decreases labels.len() - i,
{
    if i < labels.len() {
        lemma_first_index_none(labels, label, i + 1);
    }
}

/// Pinning keeps a list free of repeats.
proof fn lemma_pin_distinct(labels: Seq<Seq<char>>, label: Seq<char>)
    requires
        labels.no_duplicates(),
    ensures
        pin(labels, label).no_duplicates(),
{
    if !labels.contains(label) {
        let r = labels.push(label);
        assert forall|a: int, b: int| 0 <= a < r.len() && 0 <= b < r.len() && a != b implies r[a]
            != r[b] by {
            if a == labels.len() as int {
                assert(r[b] == labels[b]);
            } else if b == labels.len() as int {
                assert(r[a] == labels[a]);
            }
        }
    }
}

/// Loading the state that was persisted gives the same state as reloading the
/// scripts alone, and the same state as before when there is nothing to reload.
pub proof fn law_persist_then_load(v: RunConfigurationsView, entries: Seq<EntryView>)
    ensures
        restored(v, persisted(v), Some(entries)) == reloaded(v, entries),
        restored(v, persisted(v), None) == v,
{
}

/// After a reload no two scripts share a label, every label of the reloaded
/// scripts is among them, each kept script is the first with its label, and
/// the pinned labels are those from before.
pub proof fn law_reload_keeps_first_of_each_label(v: RunConfigurationsView, entries: Seq<EntryView>)
    ensures
        forall|a: int, b: int|
            0 <= a < b < reloaded(v, entries).templates.len() ==> reloaded(v, entries).templates[a].1.label
                != reloaded(v, entries).templates[b].1.label,
        forall|x: Seq<char>| has_label(reloaded(v, entries).templates, x) == has_label(entries, x),
        forall|k: int|
            0 <= k < reloaded(v, entries).templates.len() ==> #[trigger] lookup(
                entries,
                reloaded(v, entries).templates[k].1.label,
            ) == Some(reloaded(v, entries).templates[k]),
        reloaded(v, entries).pinned == v.pinned,
{
    lemma_dedupe_unique(entries);
    lemma_dedupe_labels(entries);
    lemma_dedupe_first(entries);
}

/// The resolved pinned scripts are no more than the pinned labels, and each
/// is the first known script with a pinned label.
pub proof fn law_resolved_pinned_are_known(pinned: Seq<Seq<char>>, ts: Seq<EntryView>)
    ensures
        resolve_pinned(pinned, ts).len() <= pinned.len(),
        forall|k: int|
            0 <= k < resolve_pinned(pinned, ts).len() ==> exists|j: int|
                0 <= j < pinned.len() && lookup(ts, #[trigger] pinned[j]) == Some(
                    #[trigger] resolve_pinned(pinned, ts)[k],
                ),
    decreases pinned.len(),
{
    if pinned.len() > 0 {
        let p = pinned.drop_last();
        law_resolved_pinned_are_known(p, ts);
        let r = resolve_pinned(pinned, ts);
        let r0 = resolve_pinned(p, ts);
        assert forall|k: int| #![trigger r[k]] 0 <= k < r.len() implies exists|j: int|
            0 <= j < pinned.len() && lookup(ts, #[trigger] pinned[j]) == Some(r[k]) by {
            if k < r0.len() {
                let j = choose|j: int| 0 <= j < p.len() && lookup(ts, #[trigger] p[j]) == Some(r0[k]);
                assert(pinned[j] == p[j]);
                assert(r[k] == r0[k]);
            } else {
                let j = pinned.len() - 1;
                assert(pinned[j] == pinned.last());
            }
        }
    }
}

/// Appending a script whose label `tasks.json` does not hold yet (the only
/// case in which `append_template` appends) keeps the labels distinct.
pub proof fn law_append_keeps_labels_distinct(ts: Seq<TaskTemplate>, t: TaskTemplate)
    requires
        labels_of(ts).no_duplicates(),
        !labels_of(ts).contains(t.label@),
    ensures
        labels_of(ts.push(t)).no_duplicates(),
{
    let l = labels_of(ts);
    assert(labels_of(ts.push(t)) =~= l.push(t.label@));
    let r = l.push(t.label@);
    assert forall|a: int, b: int| 0 <= a < r.len() && 0 <= b < r.len() && a != b implies r[a]
        != r[b] by {
        if a == l.len() as int {
            assert(r[b] == l[b]);
        } else if b == l.len() as int {
            assert(r[a] == l[a]);
        }
    }
}

/// Reloading the scripts never changes an active label, whether or not a
/// reloaded script carries it; only when none is active does the first pinned
/// label (if any) become active.
pub proof fn law_reload_keeps_active(v: RunConfigurationsView, entries: Seq<EntryView>)
    ensures
        v.active is Some ==> reloaded(v, entries).active == v.active,
        v.active is None ==> reloaded(v, entries).active == (if v.pinned.len() > 0 {
            Some(v.pinned[0])
        } else {
            None
        }),
{
}

} // verus!
