use tenex::actions::{Actions, Dispatch};
use tenex::lifecycle::KillPlan;
use tenex::agent::{Agent, Status, Storage, WorkspaceKind};
use tenex::data::{AgentProgram, App, AppData, Config, Settings};
use tenex::state::{Action, AppMode, ConfirmAction, Tab};

/// One sidebar row per stored agent.
fn rows(d: &AppData) -> Vec<Option<u128>> {
    d.storage.agents.iter().map(|a| Some(a.id)).collect()
}

fn config() -> Config {
    Config { default_program: "assistant".to_string(), branch_prefix: "tenex/".to_string() }
}

fn settings() -> Settings {
    Settings {
        agent_program: AgentProgram::DefaultProgram,
        planner_agent_program: AgentProgram::DefaultProgram,
        review_agent_program: AgentProgram::DefaultProgram,
        custom_agent_command: String::new(),
        planner_custom_agent_command: String::new(),
        review_custom_agent_command: String::new(),
    }
}

fn agent(id: u128, parent: Option<u128>, title: &str, branch: &str) -> Agent {
    Agent {
        id,
        parent_id: parent,
        title: title.to_string(),
        program: "assistant".to_string(),
        branch: branch.to_string(),
        worktree_path: "/tmp".to_string(),
        repo_root: None,
        mux_session: format!("tenex-{id}"),
        window_index: None,
        status: Status::Starting,
        collapsed: false,
        is_terminal: false,
        workspace_kind: WorkspaceKind::GitWorktree,
    }
}

fn create_test_app() -> App {
    App::new(config(), Storage::new(), settings())
}

fn app_with(agents: Vec<Agent>, selected: Option<u128>) -> App {
    let mut app = App::new(config(), Storage { agents }, settings());
    app.data.selected_agent = selected;
    app
}

#[test]
fn handler_test_handler_new() {
    let handler = Actions::new();
    assert!(!format!("{:?}", handler.session_manager).is_empty());
}

#[test]
fn handler_test_handler_default() {
    let handler = Actions::default();
    assert!(!format!("{:?}", handler.output_capture).is_empty());
}

#[test]
fn tests_test_handler_new() {
    let handler = Actions::new();
    assert!(!format!("{:?}", handler.session_manager).is_empty());
}

#[test]
fn tests_test_handler_default() {
    let handler = Actions::default();
    assert!(!format!("{:?}", handler.output_capture).is_empty());
}

#[test]
fn tests_test_handle_action_new_agent() {
    let handler = Actions::new();
    let mut app = create_test_app();
    handler.handle_action(&mut app, Action::NewAgent, &rows).unwrap();
    assert_eq!(app.mode, AppMode::Creating);
}

#[test]
fn handler_test_handle_action_new_agent() {
    let handler = Actions::new();
    let mut app = create_test_app();
    handler.handle_action(&mut app, Action::NewAgent, &rows).unwrap();
    assert_eq!(app.mode, AppMode::Creating);
}

#[test]
fn tests_test_handle_action_new_agent_with_prompt() {
    let handler = Actions::new();
    let mut app = create_test_app();
    handler.handle_action(&mut app, Action::NewAgentWithPrompt, &rows).unwrap();
    assert_eq!(app.mode, AppMode::Prompting);
}

#[test]
fn handler_test_handle_action_new_agent_with_prompt() {
    let handler = Actions::new();
    let mut app = create_test_app();
    handler.handle_action(&mut app, Action::NewAgentWithPrompt, &rows).unwrap();
    assert_eq!(app.mode, AppMode::Prompting);
}

#[test]
fn tests_test_handle_action_help() {
    let handler = Actions::new();
    let mut app = create_test_app();
    handler.handle_action(&mut app, Action::Help, &rows).unwrap();
    assert_eq!(app.mode, AppMode::Help);
}

#[test]
fn handler_test_handle_action_help() {
    let handler = Actions::new();
    let mut app = create_test_app();
    handler.handle_action(&mut app, Action::Help, &rows).unwrap();
    assert_eq!(app.mode, AppMode::Help);
}

#[test]
fn tests_test_handle_action_quit_no_agents() {
    let handler = Actions::new();
    let mut app = create_test_app();
    handler.handle_action(&mut app, Action::Quit, &rows).unwrap();
    assert!(app.data.should_quit);
}

#[test]
fn handler_test_handle_action_quit_no_agents() {
    let handler = Actions::new();
    let mut app = create_test_app();
    handler.handle_action(&mut app, Action::Quit, &rows).unwrap();
    assert!(app.data.should_quit);
}

#[test]
fn tests_test_handle_action_switch_tab() {
    let handler = Actions::new();
    let mut app = create_test_app();
    handler.handle_action(&mut app, Action::SwitchTab, &rows).unwrap();
    assert_eq!(app.data.active_tab, Tab::Diff);
}

#[test]
fn handler_test_handle_action_switch_tab() {
    let handler = Actions::new();
    let mut app = create_test_app();
    handler.handle_action(&mut app, Action::SwitchTab, &rows).unwrap();
    assert_eq!(app.data.active_tab, Tab::Diff);
}

#[test]
fn switch_tab_cycles_back_to_preview() {
    let handler = Actions::new();
    let mut app = create_test_app();
    for _ in 0..3 {
        handler.handle_action(&mut app, Action::SwitchTab, &rows).unwrap();
    }
    assert_eq!(app.data.active_tab, Tab::Preview);
}

#[test]
fn tests_test_handle_action_navigation() {
    let handler = Actions::new();
    let mut app = create_test_app();
    for i in 0..3u128 {
        app.data.storage.add(agent(i + 1, None, &format!("agent{i}"), &format!("muster/agent{i}")));
    }
    app.data.selected = 0;
    handler.handle_action(&mut app, Action::NextAgent, &rows).unwrap();
    assert_eq!(app.data.selected, 1);
    assert_eq!(app.data.selected_agent, Some(2));
    handler.handle_action(&mut app, Action::PrevAgent, &rows).unwrap();
    assert_eq!(app.data.selected, 0);
    assert_eq!(app.data.selected_agent, Some(1));
}

#[test]
fn tests_test_handle_action_scroll() {
    let handler = Actions::new();
    let mut app = create_test_app();
    handler.handle_action(&mut app, Action::ScrollDown, &rows).unwrap();
    assert_eq!(app.data.ui.preview_scroll, 5);
    handler.handle_action(&mut app, Action::ScrollUp, &rows).unwrap();
    assert_eq!(app.data.ui.preview_scroll, 0);
    handler.handle_action(&mut app, Action::ScrollTop, &rows).unwrap();
    assert_eq!(app.data.ui.preview_scroll, 0);
}

#[test]
fn tests_test_handle_scroll_bottom() {
    let handler = Actions::new();
    let mut app = create_test_app();
    handler.handle_action(&mut app, Action::ScrollBottom, &rows).unwrap();
    assert_eq!(app.data.ui.preview_scroll, 10000);
}

#[test]
fn tests_test_handle_action_cancel() {
    let handler = Actions::new();
    let mut app = create_test_app();
    app.mode = AppMode::Creating;
    handler.handle_action(&mut app, Action::Cancel, &rows).unwrap();
    assert_eq!(app.mode, AppMode::Normal);
}

#[test]
fn handler_test_handle_action_cancel() {
    let handler = Actions::new();
    let mut app = create_test_app();
    app.mode = AppMode::Creating;
    handler.handle_action(&mut app, Action::Cancel, &rows).unwrap();
    assert_eq!(app.mode, AppMode::Normal);
}

#[test]
fn tests_test_handle_kill_no_agent() {
    let handler = Actions::new();
    let mut app = create_test_app();
    handler.handle_action(&mut app, Action::Kill, &rows).unwrap();
    assert_eq!(app.mode, AppMode::Normal);
}

#[test]
fn handler_test_handle_kill_no_agent() {
    let handler = Actions::new();
    let mut app = create_test_app();
    handler.handle_action(&mut app, Action::Kill, &rows).unwrap();
    assert_eq!(app.mode, AppMode::Normal);
}

#[test]
fn tests_test_handle_quit_with_running_agents() {
    let handler = Actions::new();
    let mut running = agent(1, None, "running", "muster/running");
    running.status = Status::Running;
    let mut app = app_with(vec![running], None);
    handler.handle_action(&mut app, Action::Quit, &rows).unwrap();
    assert_eq!(app.mode, AppMode::Confirming(ConfirmAction::Quit));
    assert!(!app.data.should_quit);
}

#[test]
fn handler_test_handle_quit_with_running_agents() {
    let handler = Actions::new();
    let mut running = agent(1, None, "running", "muster/running");
    running.status = Status::Running;
    let mut app = app_with(vec![running], None);
    handler.handle_action(&mut app, Action::Quit, &rows).unwrap();
    assert_eq!(app.mode, AppMode::Confirming(ConfirmAction::Quit));
}

#[test]
fn tests_test_handle_kill_with_agent() {
    let handler = Actions::new();
    let mut app = app_with(vec![agent(1, None, "test", "muster/test")], Some(1));
    handler.handle_action(&mut app, Action::Kill, &rows).unwrap();
    assert_eq!(app.mode, AppMode::Confirming(ConfirmAction::Kill));
}

#[test]
fn handler_test_handle_kill_with_agent() {
    let handler = Actions::new();
    let mut app = app_with(vec![agent(1, None, "test", "muster/test")], Some(1));
    handler.handle_action(&mut app, Action::Kill, &rows).unwrap();
    assert_eq!(app.mode, AppMode::Confirming(ConfirmAction::Kill));
}

#[test]
fn tests_test_handle_confirm_quit() {
    let handler = Actions::new();
    let mut app = create_test_app();
    app.mode = AppMode::Confirming(ConfirmAction::Quit);
    handler.handle_action(&mut app, Action::Confirm, &rows).unwrap();
    assert!(app.data.should_quit);
    assert_eq!(app.mode, AppMode::Normal);
}

#[test]
fn handler_test_handle_confirm_quit() {
    let handler = Actions::new();
    let mut app = create_test_app();
    app.mode = AppMode::Confirming(ConfirmAction::Quit);
    handler.handle_action(&mut app, Action::Confirm, &rows).unwrap();
    assert!(app.data.should_quit);
    assert_eq!(app.mode, AppMode::Normal);
}

#[test]
fn tests_test_handle_confirm_reset() {
    let handler = Actions::new();
    let agents = (0..3u128).map(|i| agent(i + 1, None, &format!("agent{i}"), &format!("muster/agent{i}"))).collect();
    let mut app = app_with(agents, None);
    app.mode = AppMode::Confirming(ConfirmAction::Reset);
    let r = handler.handle_action(&mut app, Action::Confirm, &rows).unwrap();
    match r {
        Dispatch::Reset(plan) => assert_eq!(plan.len(), 3),
        other => panic!("unexpected {other:?}"),
    }
    assert_eq!(app.mode, AppMode::Normal);
    assert_eq!(app.data.storage.len(), 0);
    assert_eq!(app.data.selected, 0);
    assert_eq!(app.data.ui.status.as_deref(), Some("All agents reset"));
}

#[test]
fn tests_test_toggle_collapse_no_agent() {
    let handler = Actions::new();
    let mut app = create_test_app();
    handler.toggle_collapse(&mut app);
    assert_eq!(app.data.storage.len(), 0);
}

#[test]
fn handler_test_toggle_collapse_no_agent() {
    let handler = Actions::new();
    let mut app = create_test_app();
    handler.toggle_collapse(&mut app);
    assert_eq!(app.mode, AppMode::Normal);
}

#[test]
fn tests_test_toggle_collapse_no_children() {
    let handler = Actions::new();
    let mut app = app_with(vec![agent(1, None, "test", "muster/test")], Some(1));
    handler.toggle_collapse(&mut app);
    assert!(!app.data.storage.agents[0].collapsed);
}

#[test]
fn handler_test_toggle_collapse_no_children() {
    let handler = Actions::new();
    let mut app = app_with(vec![agent(1, None, "test", "muster/test")], Some(1));
    handler.toggle_collapse(&mut app);
    assert!(!app.data.storage.agents[0].collapsed);
}

#[test]
fn toggle_collapse_flips_parent_and_back() {
    let handler = Actions::new();
    let mut app = app_with(vec![agent(1, None, "p", "tenex/p"), agent(2, Some(1), "c", "tenex/p")], Some(1));
    handler.toggle_collapse(&mut app);
    assert!(app.data.storage.agents[0].collapsed);
    handler.toggle_collapse(&mut app);
    assert!(!app.data.storage.agents[0].collapsed);
}

#[test]
fn tests_test_handle_action_spawn_children() {
    let handler = Actions::new();
    let mut app = create_test_app();
    handler.handle_action(&mut app, Action::SpawnChildren, &rows).unwrap();
    assert_eq!(app.mode, AppMode::ChildCount);
    assert!(app.data.spawn.spawning_under.is_none());
}

#[test]
fn tests_test_handle_action_add_children() {
    let handler = Actions::new();
    let mut app = app_with(vec![agent(7, None, "test", "muster/test")], Some(7));
    handler.handle_action(&mut app, Action::AddChildren, &rows).unwrap();
    assert_eq!(app.mode, AppMode::ChildCount);
    assert_eq!(app.data.spawn.spawning_under, Some(7));
}

#[test]
fn tests_test_handle_action_synthesize_no_agent() {
    let handler = Actions::new();
    let mut app = create_test_app();
    handler.handle_action(&mut app, Action::Synthesize, &rows).unwrap();
    assert_eq!(app.mode, AppMode::Normal);
}

#[test]
fn handler_test_handle_action_synthesize_no_agent() {
    let handler = Actions::new();
    let mut app = create_test_app();
    handler.handle_action(&mut app, Action::Synthesize, &rows).unwrap();
    assert_eq!(app.mode, AppMode::Normal);
}

#[test]
fn tests_test_handle_action_synthesize_with_children() {
    let handler = Actions::new();
    let mut app = app_with(
        vec![agent(1, None, "parent", "tenex/parent"), agent(2, Some(1), "child", "tenex/child")],
        Some(1),
    );
    handler.handle_action(&mut app, Action::Synthesize, &rows).unwrap();
    assert_eq!(app.mode, AppMode::Confirming(ConfirmAction::Synthesize));
}

#[test]
fn handler_test_handle_action_synthesize_with_children() {
    let handler = Actions::new();
    let mut app = app_with(
        vec![agent(1, None, "parent", "tenex/parent"), agent(2, Some(1), "child", "tenex/child")],
        Some(1),
    );
    handler.handle_action(&mut app, Action::Synthesize, &rows).unwrap();
    assert_eq!(app.mode, AppMode::Confirming(ConfirmAction::Synthesize));
}

#[test]
fn tests_test_handle_action_synthesize_no_children() {
    let handler = Actions::new();
    let mut app = app_with(vec![agent(1, None, "parent", "tenex/parent")], Some(1));
    handler.handle_action(&mut app, Action::Synthesize, &rows).unwrap();
    assert_eq!(
        app.mode,
        AppMode::ErrorModal { message: "Selected agent has no children to synthesize".to_string() }
    );
}

#[test]
fn handler_test_handle_action_synthesize_no_children() {
    let handler = Actions::new();
    let mut app = app_with(vec![agent(1, None, "parent", "tenex/parent")], Some(1));
    handler.handle_action(&mut app, Action::Synthesize, &rows).unwrap();
    assert!(matches!(app.mode, AppMode::ErrorModal { .. }));
}

#[test]
fn tests_test_handle_action_toggle_collapse() {
    let handler = Actions::new();
    let mut app = create_test_app();
    assert!(handler.handle_action(&mut app, Action::ToggleCollapse, &rows).is_ok());
}

#[test]
fn handler_test_handle_action_toggle_collapse() {
    let handler = Actions::new();
    let mut app = create_test_app();
    assert!(handler.handle_action(&mut app, Action::ToggleCollapse, &rows).is_ok());
}

#[test]
fn tests_test_handle_action_broadcast_no_agent() {
    let handler = Actions::new();
    let mut app = create_test_app();
    handler.handle_action(&mut app, Action::Broadcast, &rows).unwrap();
    assert_eq!(app.mode, AppMode::Normal);
}

#[test]
fn handler_test_handle_action_broadcast_no_agent() {
    let handler = Actions::new();
    let mut app = create_test_app();
    handler.handle_action(&mut app, Action::Broadcast, &rows).unwrap();
    assert_eq!(app.mode, AppMode::Normal);
}

#[test]
fn tests_test_handle_action_broadcast_with_agent() {
    let handler = Actions::new();
    let mut app = app_with(vec![agent(1, None, "test", "muster/test")], Some(1));
    handler.handle_action(&mut app, Action::Broadcast, &rows).unwrap();
    assert_eq!(app.mode, AppMode::Broadcasting);
}

#[test]
fn handler_test_handle_action_broadcast_with_agent() {
    let handler = Actions::new();
    let mut app = app_with(vec![agent(1, None, "test", "muster/test")], Some(1));
    handler.handle_action(&mut app, Action::Broadcast, &rows).unwrap();
    assert_eq!(app.mode, AppMode::Broadcasting);
}

#[test]
fn tests_test_handle_unfocus_preview() {
    let handler = Actions::new();
    let mut app = create_test_app();
    app.mode = AppMode::PreviewFocused;
    handler.handle_action(&mut app, Action::UnfocusPreview, &rows).unwrap();
    assert_eq!(app.mode, AppMode::Normal);
}

#[test]
fn tests_test_handle_unfocus_preview_not_in_preview() {
    let handler = Actions::new();
    let mut app = create_test_app();
    handler.handle_action(&mut app, Action::UnfocusPreview, &rows).unwrap();
    assert_eq!(app.mode, AppMode::Normal);
}

#[test]
fn tests_test_handle_kill_action_no_agent() {
    let handler = Actions::new();
    let mut app = create_test_app();
    handler.handle_action(&mut app, Action::Kill, &rows).unwrap();
    assert_eq!(app.mode, AppMode::Normal);
}

#[test]
fn tests_test_handle_quit_action_no_running_agents() {
    let handler = Actions::new();
    let mut app = app_with(vec![agent(1, None, "idle", "muster/idle")], None);
    handler.handle_action(&mut app, Action::Quit, &rows).unwrap();
    assert!(app.data.should_quit);
}

#[test]
fn tests_test_handle_add_children_no_agent() {
    let handler = Actions::new();
    let mut app = create_test_app();
    let r = handler.handle_action(&mut app, Action::AddChildren, &rows).unwrap();
    assert!(matches!(r, Dispatch::Handled));
    assert_eq!(app.mode, AppMode::Normal);
}

#[test]
fn handle_attach_no_agent_is_refused() {
    let handler = Actions::new();
    let mut app = create_test_app();
    let r = handler.handle_action(&mut app, Action::Attach, &rows);
    assert_eq!(r.err().as_deref(), Some("No agent selected"));
}

#[test]
fn handle_attach_with_agent_asks_to_attach() {
    let handler = Actions::new();
    let mut app = app_with(vec![agent(1, None, "a", "tenex/a")], Some(1));
    assert!(matches!(handler.handle_action(&mut app, Action::Attach, &rows), Ok(Dispatch::Attach)));
}

#[test]
fn handler_test_handle_push_no_agent() {
    let handler = Actions::new();
    let mut app = create_test_app();
    let r = handler.handle_action(&mut app, Action::Push, &rows);
    assert_eq!(r.err().as_deref(), Some("No agent selected"));
}

#[test]
fn handler_test_handle_push_with_agent() {
    let handler = Actions::new();
    let mut app = app_with(vec![agent(1, None, "test", "tenex/test")], Some(1));
    handler.handle_action(&mut app, Action::Push, &rows).unwrap();
    assert_eq!(app.mode, AppMode::ConfirmPush);
    assert_eq!(app.data.git_op.agent_id, Some(1));
    assert_eq!(app.data.git_op.branch_name, "tenex/test");
}

#[test]
fn confirm_push_without_flow_shows_error() {
    let handler = Actions::new();
    let mut app = create_test_app();
    app.mode = AppMode::ConfirmPush;
    handler.handle_action(&mut app, Action::Confirm, &rows).unwrap();
    assert_eq!(app.mode, AppMode::ErrorModal { message: "No agent ID for push".to_string() });
}

#[test]
fn confirm_push_with_flow_asks_to_push() {
    let handler = Actions::new();
    let mut app = app_with(vec![agent(1, None, "test", "tenex/test")], Some(1));
    handler.handle_action(&mut app, Action::Push, &rows).unwrap();
    let r = handler.handle_action(&mut app, Action::Confirm, &rows).unwrap();
    match r {
        Dispatch::Push { worktree_path, branch, open_pr } => {
            assert_eq!(worktree_path, "/tmp");
            assert_eq!(branch, "tenex/test");
            assert!(!open_pr);
        },
        other => panic!("unexpected {other:?}"),
    }
}

#[test]
fn scrolling_mode_hands_over_the_action() {
    let handler = Actions::new();
    let mut app = create_test_app();
    app.mode = AppMode::Scrolling;
    let r = handler.handle_action(&mut app, Action::ScrollDown, &rows).unwrap();
    assert!(matches!(r, Dispatch::Scrolling(Action::ScrollDown)));
    assert_eq!(app.mode, AppMode::Scrolling);
}

#[test]
fn confirm_kill_is_handed_over() {
    let handler = Actions::new();
    let mut app = create_test_app();
    app.mode = AppMode::Confirming(ConfirmAction::Kill);
    let r = handler.handle_action(&mut app, Action::Confirm, &rows).unwrap();
    assert!(matches!(r, Dispatch::Handled));
    assert_eq!(app.mode, AppMode::Normal);
}

#[test]
fn confirm_kill_removes_a_child_at_once() {
    let handler = Actions::new();
    let mut root = agent(1, None, "root", "muster/root");
    root.mux_session = "tenex-root".to_string();
    let mut child = agent(2, Some(1), "child", "muster/root");
    child.window_index = Some(1);
    let mut other = agent(3, Some(1), "other", "muster/root");
    other.window_index = Some(2);
    let mut app = app_with(vec![root, child, other], Some(2));
    app.data.selected = 2;
    app.mode = AppMode::Confirming(ConfirmAction::Kill);
    let r = handler.handle_action(&mut app, Action::Confirm, &rows).unwrap();
    match r {
        Dispatch::CloseWindows { session, indices } => {
            assert_eq!(session, "tenex-root");
            assert_eq!(indices, vec![1]);
        },
        other => panic!("unexpected {other:?}"),
    }
    let ids: Vec<u128> = app.data.storage.agents.iter().map(|a| a.id).collect();
    assert_eq!(ids, vec![1, 3]);
    assert_eq!(app.data.storage.agents[1].window_index, Some(1));
    assert_eq!(app.data.selected, 1);
    assert_eq!(app.data.selected_agent, Some(3));
    assert_eq!(app.data.ui.status.as_deref(), Some("Agent killed"));
    assert_eq!(app.mode, AppMode::Normal);
}

#[test]
fn confirm_kill_hands_a_root_over() {
    let handler = Actions::new();
    let mut app = app_with(vec![agent(1, None, "root", "tenex/root")], Some(1));
    app.mode = AppMode::Confirming(ConfirmAction::Kill);
    match handler.handle_action(&mut app, Action::Confirm, &rows).unwrap() {
        Dispatch::KillRoot(KillPlan::Root { root_id, delete_branch, .. }) => {
            assert_eq!(root_id, 1);
            assert!(delete_branch);
        },
        other => panic!("unexpected {other:?}"),
    }
    assert_eq!(app.data.storage.len(), 1);
    assert_eq!(app.mode, AppMode::Normal);
}

#[test]
fn confirm_synthesize_plans_the_synthesis() {
    let handler = Actions::new();
    let mut app = app_with(vec![agent(1, None, "root", "tenex/root"), agent(2, Some(1), "child", "tenex/root")], Some(1));
    app.mode = AppMode::Confirming(ConfirmAction::Synthesize);
    match handler.handle_action(&mut app, Action::Confirm, &rows).unwrap() {
        Dispatch::Synthesize(p) => {
            assert_eq!(p.parent_id, 1);
            assert_eq!(p.targets.teardown_root_ids, vec![2]);
        },
        other => panic!("unexpected {other:?}"),
    }
    assert_eq!(app.mode, AppMode::Normal);
}

#[test]
fn scrolling_follows_the_active_tab() {
    let handler = Actions::new();
    let mut app = create_test_app();
    app.data.active_tab = Tab::Diff;
    handler.handle_action(&mut app, Action::ScrollDown, &rows).unwrap();
    handler.handle_action(&mut app, Action::ScrollDown, &rows).unwrap();
    assert_eq!(app.data.ui.diff_scroll, 10);
    assert_eq!(app.data.ui.preview_scroll, 0);
    handler.handle_action(&mut app, Action::ScrollUp, &rows).unwrap();
    assert_eq!(app.data.ui.diff_scroll, 5);
    app.data.active_tab = Tab::Commits;
    handler.handle_action(&mut app, Action::ScrollBottom, &rows).unwrap();
    assert_eq!(app.data.ui.commits_scroll, 10000);
}

#[test]
fn attach_checks_the_session() {
    let handler = Actions::new();
    let mut app = create_test_app();
    assert_eq!(handler.attach_to_agent(&mut app, true).err(), Some("No agent selected".to_string()));
    let mut app = app_with(vec![agent(1, None, "root", "tenex/root")], Some(1));
    let q = handler.attach_to_agent(&mut app, true).unwrap();
    assert_eq!(q.session, "tenex-1");
    assert_eq!(q.window_index, None);
    assert_eq!(handler.attach_to_agent(&mut app, false).err(), Some("Tmux session not found".to_string()));
    assert_eq!(app.mode, AppMode::ErrorModal { message: "Tmux session not found".to_string() });
}

#[test]
fn toggle_collapse_twice_restores_the_agent() {
    let handler = Actions::new();
    let mut app = app_with(vec![agent(1, None, "root", "muster/root"), agent(2, Some(1), "child", "muster/root")], Some(1));
    handler.handle_action(&mut app, Action::ToggleCollapse, &rows).unwrap();
    assert!(app.data.storage.agents[0].collapsed);
    handler.handle_action(&mut app, Action::ToggleCollapse, &rows).unwrap();
    assert!(!app.data.storage.agents[0].collapsed);
}
