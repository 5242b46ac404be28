use workbench::run_configurations::{
    append_template, PersistedState, RunConfigError, RunConfigurations, StartAction, TaskStatus,
    STOP_POLL_TICKS,
};
use workbench::task_template::{RevealStrategy, TaskTemplate, WorktreeId};

fn template(label: &str, command: &str) -> TaskTemplate {
    TaskTemplate {
        label: label.to_string(),
        command: command.to_string(),
        args: vec!["--x".to_string()],
        cwd: None,
        reveal: RevealStrategy::Always,
        other: vec![("env".to_string(), "{\"A\":\"1\"}".to_string())],
    }
}

fn entries(items: &[(u64, &str, &str)]) -> Vec<(WorktreeId, TaskTemplate)> {
    items.iter().map(|(w, l, c)| (WorktreeId(*w), template(l, c))).collect()
}

fn labels(rc: &RunConfigurations) -> Vec<String> {
    rc.pinned_labels().to_vec()
}

#[test]
fn new_state_is_empty() {
    let rc = RunConfigurations::new();
    assert!(rc.pinned_labels().is_empty());
    assert!(rc.active_label().is_none());
    assert!(rc.all_templates().is_empty());
    assert!(rc.active_template().is_none());
}

#[test]
fn set_active_pins_and_activates_once() {
    let mut rc = RunConfigurations::new();
    assert!(rc.set_active("dev".to_string()));
    assert_eq!(rc.active_label().map(|s| s.as_str()), Some("dev"));
    assert_eq!(labels(&rc), vec!["dev"]);
    assert!(!rc.set_active("dev".to_string()));
    assert_eq!(labels(&rc), vec!["dev"]);
    assert!(rc.set_active("test".to_string()));
    assert!(rc.set_active("dev".to_string()));
    assert_eq!(labels(&rc), vec!["dev", "test"]);
}

#[test]
fn toggle_pin_pins_and_unpins() {
    let mut rc = RunConfigurations::new();
    rc.toggle_pin("a".to_string());
    rc.toggle_pin("b".to_string());
    assert_eq!(labels(&rc), vec!["a", "b"]);
    assert!(rc.active_label().is_none());
    rc.toggle_pin("a".to_string());
    assert_eq!(labels(&rc), vec!["b"]);
}

#[test]
fn unpinning_active_label_moves_active_to_first_pinned() {
    let mut rc = RunConfigurations::new();
    rc.set_active("a".to_string());
    rc.set_active("b".to_string());
    rc.set_active("c".to_string());
    rc.toggle_pin("c".to_string());
    assert_eq!(rc.active_label().map(|s| s.as_str()), Some("a"));
    rc.toggle_pin("a".to_string());
    assert_eq!(rc.active_label().map(|s| s.as_str()), Some("b"));
    rc.toggle_pin("b".to_string());
    assert!(rc.active_label().is_none());
    assert!(labels(&rc).is_empty());
}

#[test]
fn unpinning_last_active_label_leaves_none_active() {
    let mut rc = RunConfigurations::new();
    rc.set_active("a".to_string());
    rc.toggle_pin("a".to_string());
    assert!(rc.active_label().is_none());
}

#[test]
fn toggling_twice_restores_pins() {
    let mut rc = RunConfigurations::new();
    rc.set_active("a".to_string());
    rc.toggle_pin("b".to_string());
    let before = labels(&rc);
    rc.toggle_pin("x".to_string());
    rc.toggle_pin("x".to_string());
    assert_eq!(labels(&rc), before);
    assert_eq!(rc.active_label().map(|s| s.as_str()), Some("a"));
}

#[test]
fn reload_keeps_first_script_of_each_label() {
    let mut rc = RunConfigurations::new();
    rc.reload_templates(&entries(&[(1, "dev", "npm run dev"), (1, "test", "npm t"), (2, "dev", "other")]));
    let all = rc.all_templates();
    assert_eq!(all.len(), 2);
    assert_eq!(all[0].0, WorktreeId(1));
    assert_eq!(all[0].1.command, "npm run dev");
    assert_eq!(all[1].1.label, "test");
}

#[test]
fn reload_activates_first_pinned_and_keeps_unknown_pins() {
    let mut rc = RunConfigurations::new();
    rc.toggle_pin("missing".to_string());
    rc.toggle_pin("dev".to_string());
    rc.reload_templates(&Vec::new());
    assert_eq!(rc.active_label().map(|s| s.as_str()), Some("missing"));
    assert_eq!(labels(&rc), vec!["missing", "dev"]);
    rc.reload_templates(&entries(&[(3, "dev", "npm run dev")]));
    let resolved = rc.resolved_pinned();
    assert_eq!(resolved.len(), 1);
    assert_eq!(resolved[0].0, WorktreeId(3));
    assert_eq!(resolved[0].1.label, "dev");
    assert!(rc.active_template().is_none());
}

#[test]
fn resolved_pinned_follows_pin_order() {
    let mut rc = RunConfigurations::new();
    rc.reload_templates(&entries(&[(1, "a", "x"), (1, "b", "y"), (1, "c", "z")]));
    rc.toggle_pin("c".to_string());
    rc.toggle_pin("a".to_string());
    let resolved: Vec<String> = rc.resolved_pinned().iter().map(|(_, t)| t.label.clone()).collect();
    assert_eq!(resolved, vec!["c", "a"]);
    rc.set_active("b".to_string());
    let (w, t) = rc.active_template().unwrap();
    assert_eq!((w, t.command.as_str()), (WorktreeId(1), "y"));
}

fn worktrees() -> Vec<(WorktreeId, String)> {
    vec![(WorktreeId(3), "/work/other".to_string()), (WorktreeId(7), "/work/p".to_string())]
}

#[test]
fn start_known_label_schedules_its_template() {
    let mut rc = RunConfigurations::new();
    rc.reload_templates(&entries(&[(7, "dev", "npm run dev")]));
    match rc.start_label("dev", &worktrees()) {
        StartAction::Schedule { worktree_id, template, context } => {
            assert_eq!(worktree_id, WorktreeId(7));
            assert_eq!(template.command, "npm run dev");
            assert_eq!(template.args, vec!["--x".to_string()]);
            assert_eq!(template.reveal, RevealStrategy::Always);
            assert_eq!(template.other, vec![("env".to_string(), "{\"A\":\"1\"}".to_string())]);
            assert_eq!(context.cwd.as_deref(), Some("/work/p"));
            assert_eq!(context.worktree_root.as_deref(), Some("/work/p"));
        }
        StartAction::SpawnByName(_) => panic!("expected a scheduled task"),
    }
    match rc.start_label_with("dev", true, &worktrees()) {
        StartAction::Schedule { template, .. } => assert_eq!(template.reveal, RevealStrategy::Never),
        StartAction::SpawnByName(_) => panic!("expected a scheduled task"),
    }
}

#[test]
fn start_in_unknown_worktree_has_no_context_path() {
    let mut rc = RunConfigurations::new();
    rc.reload_templates(&entries(&[(9, "dev", "npm run dev")]));
    match rc.start_label("dev", &worktrees()) {
        StartAction::Schedule { worktree_id, context, .. } => {
            assert_eq!(worktree_id, WorktreeId(9));
            assert!(context.cwd.is_none() && context.worktree_root.is_none());
        }
        StartAction::SpawnByName(_) => panic!("expected a scheduled task"),
    }
}

#[test]
fn start_unknown_label_spawns_by_name() {
    let rc = RunConfigurations::new();
    match rc.start_label_with("lint", true, &worktrees()) {
        StartAction::SpawnByName(name) => assert_eq!(name, "lint"),
        StartAction::Schedule { .. } => panic!("expected spawn by name"),
    }
}

#[test]
fn running_means_a_terminal_with_a_running_task() {
    assert!(!RunConfigurations::is_running(&[]));
    assert!(!RunConfigurations::is_running(&[None, Some(TaskStatus::Completed { success: true })]));
    assert!(RunConfigurations::is_running(&[None, Some(TaskStatus::Running)]));
}

#[test]
fn stop_polling_ends_when_task_exits_or_after_thirty_checks() {
    let rc = RunConfigurations::new();
    let mut poll = rc.stop_label("dev");
    assert_eq!(poll.label, "dev");
    assert!(poll.tick(true));
    assert!(!poll.tick(false));
    let mut poll = rc.stop_label("dev");
    let mut checks = 1;
    while poll.tick(true) {
        checks += 1;
    }
    assert_eq!(checks, STOP_POLL_TICKS);
    assert!(!poll.tick(true));
}

#[test]
fn add_script_pins_and_activates() {
    let mut rc = RunConfigurations::new();
    rc.toggle_pin("a".to_string());
    rc.add_script("b".to_string());
    assert_eq!(labels(&rc), vec!["a", "b"]);
    assert_eq!(rc.active_label().map(|s| s.as_str()), Some("b"));
    rc.add_script("a".to_string());
    assert_eq!(labels(&rc), vec!["a", "b"]);
    assert_eq!(rc.active_label().map(|s| s.as_str()), Some("a"));
}

#[test]
fn persisted_state_round_trips() {
    let mut rc = RunConfigurations::new();
    rc.set_active("b".to_string());
    rc.toggle_pin("c".to_string());
    let state = rc.persist();
    assert_eq!(state.active.as_deref(), Some("b"));
    assert_eq!(state.pinned, vec!["b".to_string(), "c".to_string()]);
    let mut other = RunConfigurations::new();
    other.load_persisted_state(state, Some(&entries(&[(1, "c", "x")])));
    assert_eq!(labels(&other), labels(&rc));
    assert_eq!(other.active_label(), rc.active_label());
    assert_eq!(other.all_templates().len(), 1);
}

#[test]
fn loading_state_without_active_picks_first_pinned() {
    let mut rc = RunConfigurations::new();
    rc.load_persisted_state(
        PersistedState { active: None, pinned: vec!["x".to_string(), "y".to_string()] },
        Some(&Vec::new()),
    );
    assert_eq!(rc.active_label().map(|s| s.as_str()), Some("x"));
}

#[test]
fn loading_state_without_inventory_keeps_scripts_and_sets_no_active() {
    let mut rc = RunConfigurations::new();
    rc.reload_templates(&entries(&[(1, "dev", "npm run dev")]));
    rc.load_persisted_state(
        PersistedState { active: None, pinned: vec!["x".to_string(), "dev".to_string()] },
        None,
    );
    assert!(rc.active_label().is_none());
    assert_eq!(labels(&rc), vec!["x", "dev"]);
    assert_eq!(rc.all_templates().len(), 1);
    assert_eq!(rc.resolved_pinned().len(), 1);
}

#[test]
fn append_template_rejects_duplicate_label() {
    let mut templates = vec![template("dev", "a")];
    assert_eq!(append_template(&mut templates, template("test", "b")), Ok(()));
    assert_eq!(templates.len(), 2);
    assert_eq!(templates[1].label, "test");
    assert_eq!(
        append_template(&mut templates, template("dev", "c")),
        Err(RunConfigError::DuplicateLabel("dev".to_string()))
    );
    assert_eq!(templates.len(), 2);
    assert_eq!(templates[0].command, "a");
}

#[test]
fn task_context_uses_worktree_path_for_cwd_and_root() {
    let ctx = RunConfigurations::task_context(Some("/work/p".to_string()));
    assert_eq!(ctx.cwd.as_deref(), Some("/work/p"));
    assert_eq!(ctx.worktree_root.as_deref(), Some("/work/p"));
    let ctx = RunConfigurations::task_context(None);
    assert!(ctx.cwd.is_none() && ctx.worktree_root.is_none());
}
