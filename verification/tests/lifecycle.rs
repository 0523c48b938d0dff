use tenex::actions::{Actions, Dispatch};
use tenex::agent::{Agent, Status, Storage, WorkspaceKind};
use tenex::data::{AgentProgram, App, AppData, Config, Settings};
use tenex::lifecycle::{
    descendant_windows, renumber_fits_check, sort_desc, KillPlan, SwitchOutcome, SwitchStep,
};
use tenex::state::{Action, AppMode, ConfirmAction};

/// One sidebar row per stored agent.
fn rows(d: &AppData) -> Vec<Option<u128>> {
    d.storage.agents.iter().map(|a| Some(a.id)).collect()
}

fn config() -> Config {
    Config { default_program: "assistant".to_string(), branch_prefix: "muster/".to_string() }
}

fn settings() -> Settings {
    Settings {
        agent_program: AgentProgram::DefaultProgram,
        planner_agent_program: AgentProgram::DefaultProgram,
        review_agent_program: AgentProgram::DefaultProgram,
        custom_agent_command: String::new(),
        planner_custom_agent_command: String::new(),
        review_custom_agent_command: String::new(),
    }
}

fn root(id: u128, title: &str, branch: &str) -> Agent {
    Agent {
        id,
        parent_id: None,
        title: title.to_string(),
        program: "assistant".to_string(),
        branch: branch.to_string(),
        worktree_path: format!("/w/{title}"),
        repo_root: Some("/repo".to_string()),
        mux_session: format!("tenex-{id}"),
        window_index: None,
        status: Status::Running,
        collapsed: true,
        is_terminal: false,
        workspace_kind: WorkspaceKind::GitWorktree,
    }
}

fn child(id: u128, parent: u128, session: &str, window: u32) -> Agent {
    Agent {
        id,
        parent_id: Some(parent),
        title: format!("child{id}"),
        program: "assistant".to_string(),
        branch: "muster/root".to_string(),
        worktree_path: "/w/root".to_string(),
        repo_root: Some("/repo".to_string()),
        mux_session: session.to_string(),
        window_index: Some(window),
        status: Status::Running,
        collapsed: false,
        is_terminal: false,
        workspace_kind: WorkspaceKind::GitWorktree,
    }
}

fn data_with(agents: Vec<Agent>, selected: Option<u128>) -> AppData {
    let mut app = App::new(config(), Storage { agents }, settings());
    app.data.selected_agent = selected;
    app.data
}

fn error_text(mode: &AppMode) -> String {
    match mode {
        AppMode::ErrorModal { message } => message.clone(),
        other => panic!("expected an error modal, got {other:?}"),
    }
}

#[test]
fn test_kill_agent_root() {
    let handler = Actions::new();
    let mut d = data_with(vec![root(1, "root", "muster/root")], Some(1));
    match handler.kill_agent(&d) {
        KillPlan::Root { root_id, session, branch, window_indices, delete_branch } => {
            assert_eq!(root_id, 1);
            assert_eq!(session, "tenex-1");
            assert_eq!(branch, "muster/root");
            assert!(window_indices.is_empty());
            assert!(delete_branch);
        },
        other => panic!("unexpected {other:?}"),
    }
    Actions::finish_kill_root(&mut d, 1, None, &rows);
    assert_eq!(d.storage.len(), 0);
    assert_eq!(d.ui.status.as_deref(), Some("Agent killed"));
}

#[test]
fn test_kill_agent_child() {
    let handler = Actions::new();
    let mut r = root(1, "root", "muster/root");
    r.collapsed = false;
    let mut d = data_with(vec![r, child(2, 1, "tenex-1", 2)], Some(2));
    match handler.kill_agent(&d) {
        KillPlan::Child { agent_id, root_id, root_session, deleted_indices } => {
            assert_eq!(agent_id, 2);
            assert_eq!(root_id, 1);
            assert_eq!(root_session, "tenex-1");
            assert_eq!(deleted_indices, vec![2]);
            assert!(renumber_fits_check(&d.storage, root_id, &vec![agent_id], &deleted_indices));
            Actions::finish_kill_child(&mut d, root_id, agent_id, &deleted_indices, &rows);
        },
        other => panic!("unexpected {other:?}"),
    }
    assert_eq!(d.storage.len(), 1);
    assert!(d.storage.get(1).is_some());
    assert_eq!(d.ui.status.as_deref(), Some("Agent killed"));
}

#[test]
fn test_kill_agent_with_descendants() {
    let handler = Actions::new();
    let mut agents = vec![root(1, "root", "muster/root")];
    for i in 0..3u32 {
        agents.push(child(10 + u128::from(i), 1, "tenex-1", i + 2));
    }
    let mut d = data_with(agents, Some(1));
    match handler.kill_agent(&d) {
        KillPlan::Root { window_indices, .. } => assert_eq!(window_indices, vec![4, 3, 2]),
        other => panic!("unexpected {other:?}"),
    }
    Actions::finish_kill_root(&mut d, 1, None, &rows);
    assert_eq!(d.storage.len(), 0);
}

#[test]
fn kill_agent_without_selection_does_nothing() {
    let d = data_with(vec![root(1, "root", "muster/root")], None);
    assert!(matches!(Actions::new().kill_agent(&d), KillPlan::Nothing));
}

#[test]
fn kill_root_keeps_branches_it_did_not_make() {
    let d = data_with(vec![root(1, "root", "feature/mine")], Some(1));
    match Actions::new().kill_agent(&d) {
        KillPlan::Root { delete_branch, .. } => assert!(!delete_branch),
        other => panic!("unexpected {other:?}"),
    }
    let d = data_with(vec![root(1, "root", "tenex/made")], Some(1));
    match Actions::new().kill_agent(&d) {
        KillPlan::Root { delete_branch, .. } => assert!(delete_branch),
        other => panic!("unexpected {other:?}"),
    }
}

#[test]
fn killing_a_middle_child_renumbers_later_windows() {
    let mut d = data_with(
        vec![
            root(1, "root", "muster/root"),
            child(2, 1, "tenex-1", 2),
            child(3, 2, "tenex-1", 3),
            child(4, 1, "tenex-1", 4),
            child(5, 1, "tenex-1", 5),
        ],
        Some(2),
    );
    let (agent_id, root_id, deleted) = match Actions::new().kill_agent(&d) {
        KillPlan::Child { agent_id, root_id, deleted_indices, .. } => (agent_id, root_id, deleted_indices),
        other => panic!("unexpected {other:?}"),
    };
    assert_eq!(deleted, vec![3, 2]);
    Actions::finish_kill_child(&mut d, root_id, agent_id, &deleted, &rows);
    let ids: Vec<u128> = d.storage.agents.iter().map(|a| a.id).collect();
    assert_eq!(ids, vec![1, 4, 5]);
    assert_eq!(d.storage.agents[1].window_index, Some(2));
    assert_eq!(d.storage.agents[2].window_index, Some(3));
}

#[test]
fn kill_root_reports_worktree_errors() {
    let mut d = data_with(vec![root(1, "root", "muster/root"), child(2, 1, "tenex-1", 2), root(3, "other", "x")], None);
    Actions::kill_root_agent_tree(&mut d, 1, Some("worktree locked"));
    assert_eq!(d.storage.len(), 1);
    assert_eq!(d.storage.agents[0].id, 3);
    assert_eq!(d.ui.status.as_deref(), Some("Warning: worktree locked"));
}

#[test]
fn handler_test_handle_confirm_reset() {
    let handler = Actions::new();
    let mut plain = root(2, "plain", "muster/plain");
    plain.workspace_kind = WorkspaceKind::PlainDir;
    let mut app = App::new(config(), Storage { agents: vec![root(1, "root", "muster/root"), child(5, 1, "tenex-1", 2), plain] }, settings());
    app.data.selected = 2;
    app.mode = AppMode::Confirming(ConfirmAction::Reset);
    let plan = match handler.handle_action(&mut app, Action::Confirm, &rows).unwrap() {
        Dispatch::Reset(plan) => plan,
        other => panic!("unexpected {other:?}"),
    };
    assert_eq!(plan.len(), 2);
    assert_eq!(plan[0].session, "tenex-1");
    assert_eq!(plan[0].branch.as_deref(), Some("muster/root"));
    assert!(plan[0].delete_branch);
    assert_eq!(plan[1].session, "tenex-2");
    assert!(plan[1].branch.is_none());
    assert_eq!(app.mode, AppMode::Normal);
    assert_eq!(app.data.storage.len(), 0);
    assert_eq!(app.data.selected, 0);
    assert!(app.data.selected_agent.is_none());
    assert_eq!(app.data.ui.status.as_deref(), Some("All agents reset"));
}

#[test]
fn finish_reset_all_keeps_everything_else() {
    let mut d = data_with(vec![root(1, "root", "muster/root")], Some(1));
    d.active_tab = tenex::state::Tab::Diff;
    d.input = "typed".to_string();
    Actions::finish_reset_all(&mut d, &rows);
    assert_eq!(d.storage.len(), 0);
    assert_eq!(d.active_tab, tenex::state::Tab::Diff);
    assert_eq!(d.input, "typed");
    assert!(d.selected_agent.is_none());
}

#[test]
fn sort_desc_orders_highest_first() {
    assert_eq!(sort_desc(&vec![3, 7, 1, 7, 2]), vec![7, 7, 3, 2, 1]);
    assert_eq!(sort_desc(&Vec::new()), Vec::<u32>::new());
}

#[test]
fn descendant_windows_in_storage_order() {
    let s = Storage {
        agents: vec![root(1, "r", "b"), child(2, 1, "s", 4), child(3, 2, "s", 2), root(4, "o", "c"), child(5, 4, "t", 9)],
    };
    assert_eq!(descendant_windows(&s, 1), vec![4, 2]);
    assert_eq!(descendant_windows(&s, 4), vec![9]);
    assert_eq!(descendant_windows(&s, 3), Vec::<u32>::new());
}

#[test]
fn storage_remove_drops_only_that_id() {
    let mut s = Storage { agents: vec![root(1, "r", "b"), child(2, 1, "s", 4)] };
    s.remove(1);
    assert_eq!(s.len(), 1);
    assert_eq!(s.agents[0].id, 2);
}

#[test]
fn switch_branch_without_agent_is_an_error() {
    let mut d = data_with(vec![], None);
    match Actions::new().switch_branch(&mut d) {
        SwitchStep::Done(m) => assert_eq!(error_text(&m), "No agent selected for branch switch."),
        other => panic!("unexpected {other:?}"),
    }
}

#[test]
fn switch_branch_needs_a_target() {
    let mut d = data_with(vec![root(1, "r", "b")], None);
    d.git_op.start_branch_flow(1, "b".to_string());
    d.git_op.target_branch = "   ".to_string();
    match Actions::new().switch_branch(&mut d) {
        SwitchStep::Done(m) => assert_eq!(error_text(&m), "No target branch selected."),
        other => panic!("unexpected {other:?}"),
    }
    assert!(d.git_op.agent_id.is_none());
}

#[test]
fn switch_branch_to_the_current_branch_is_a_no_op() {
    let mut d = data_with(vec![root(1, "r", "b")], None);
    d.git_op.start_branch_flow(1, "feature/x".to_string());
    d.git_op.target_branch = " feature/x ".to_string();
    match Actions::new().switch_branch(&mut d) {
        SwitchStep::Done(m) => assert_eq!(m, AppMode::Normal),
        other => panic!("unexpected {other:?}"),
    }
    assert_eq!(d.ui.status.as_deref(), Some("Already on branch: feature/x"));
}

#[test]
fn switch_branch_with_missing_root() {
    let mut d = data_with(vec![], None);
    d.git_op.start_branch_flow(9, "a".to_string());
    d.git_op.target_branch = "b".to_string();
    match Actions::new().switch_branch(&mut d) {
        SwitchStep::Done(m) => assert_eq!(error_text(&m), "Root agent not found."),
        other => panic!("unexpected {other:?}"),
    }
}

#[test]
fn switch_branch_prepares_the_target_and_finishes() {
    let handler = Actions::new();
    let mut r = root(1, "r", "a");
    r.repo_root = None;
    let mut d = data_with(vec![r], None);
    d.git_op.start_branch_flow(1, "a".to_string());
    d.git_op.target_branch = "origin/b".to_string();
    match handler.switch_branch(&mut d) {
        SwitchStep::Prepare { root_id, target, program, repo_root } => {
            assert_eq!(root_id, 1);
            assert_eq!(target, "origin/b");
            assert_eq!(program, "assistant");
            assert_eq!(repo_root, "/w/r");
        },
        other => panic!("unexpected {other:?}"),
    }
    let m = handler.finish_switch_branch(&mut d, SwitchOutcome::Switched { new_agent_id: 7, branch: "b".to_string() });
    assert_eq!(m, AppMode::Normal);
    assert_eq!(d.selected_agent, Some(7));
    assert_eq!(d.ui.status.as_deref(), Some("Switched to branch: b"));
    assert!(d.git_op.agent_id.is_none());
}

#[test]
fn switch_branch_failures_are_reported() {
    let handler = Actions::new();
    let mut d = data_with(vec![root(1, "r", "a")], None);
    d.git_op.start_branch_flow(1, "a".to_string());
    d.git_op.target_branch = " nope ".to_string();
    assert_eq!(error_text(&handler.finish_switch_branch(&mut d, SwitchOutcome::BranchNotFound)), "Branch not found: nope");
    let m = handler.finish_switch_branch(&mut d, SwitchOutcome::WorktreeMissing("/w/x".to_string()));
    assert_eq!(error_text(&m), "Worktree path does not exist: /w/x");
    let m = handler.finish_switch_branch(&mut d, SwitchOutcome::Failed("boom".to_string()));
    assert_eq!(error_text(&m), "Switch branch failed: boom");
}

#[test]
fn test_spawn_terminal_requires_selected_agent() {
    let d = data_with(vec![root(1, "r", "a")], None);
    assert_eq!(Actions::new().spawn_terminal(&d).err(), Some("No agent selected".to_string()));
}

#[test]
fn test_terminal_is_marked_as_terminal() {
    let handler = Actions::new();
    let mut d = data_with(vec![root(1, "root", "muster/root"), child(2, 1, "tenex-1", 2)], Some(2));
    let p = handler.spawn_terminal(&d).unwrap();
    assert_eq!(p.root_id, 1);
    assert_eq!(p.root_session, "tenex-1");
    assert_eq!(p.worktree_path, "/w/root");
    let m = Actions::finish_spawn_terminal(&mut d, p, "Terminal 1", 30, 3);
    assert_eq!(m, AppMode::Normal);
    let t = d.storage.get(30).unwrap();
    assert!(t.is_terminal);
    assert_eq!(t.parent_id, Some(1));
    assert_eq!(t.window_index, Some(3));
    assert!(!d.storage.get(1).unwrap().collapsed);
    assert_eq!(d.ui.status.as_deref(), Some("Created terminal: Terminal 1"));
}

#[test]
fn remove_conflicting_agents_reports_sessions() {
    let handler = Actions::new();
    let mut other = root(3, "other", "muster/root");
    other.worktree_path = "/elsewhere".to_string();
    other.mux_session = "tenex-1".to_string();
    let mut d = data_with(vec![root(1, "root", "muster/root"), root(2, "x", "muster/x"), other], None);
    let (removed, sessions) = handler.remove_conflicting_agents(&mut d, "muster/root", "/w/root", &rows);
    // Agent 3 is on the branch in another directory: it stays, and keeps the session alive.
    assert_eq!(removed, 1);
    assert_eq!(sessions, vec![("tenex-1".to_string(), true)]);
    let ids: Vec<u128> = d.storage.agents.iter().map(|a| a.id).collect();
    assert_eq!(ids, vec![2, 3]);
}

#[test]
fn finish_create_agent_selects_the_new_root() {
    let mut d = data_with(vec![], None);
    let m = Actions::finish_create_agent(&mut d, root(4, "new", "muster/new"), "new", false);
    assert_eq!(m, AppMode::Normal);
    assert_eq!(d.selected_agent, Some(4));
    assert_eq!(d.ui.status.as_deref(), Some("Created agent: new"));
    let m = Actions::finish_create_agent(&mut d, root(5, "n2", "muster/n2"), "n2", true);
    assert_eq!(m, AppMode::Normal);
    assert_eq!(d.ui.status.as_deref(), Some("Cleaned stale worktree and created agent: n2"));
    assert_eq!(d.storage.len(), 2);
}

#[test]
fn resize_target_follows_the_preview() {
    let handler = Actions::new();
    let mut d = data_with(vec![], None);
    assert_eq!(handler.resize_target_to_preview(&mut d), None);
    d.ui.preview_dimensions = Some((120, 40));
    assert_eq!(handler.resize_target_to_preview(&mut d), Some((120, 40)));
    d.ui.preview_dimensions = Some((0, 40));
    assert_eq!(handler.resize_target_to_preview(&mut d), None);
    assert_eq!(d.ui.status.as_deref(), Some("Preview is too small to resize agent: 0x40"));
}
