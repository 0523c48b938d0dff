use tenex::actions::Actions;
use tenex::agent::{Agent, Status, Storage, WorkspaceKind};
use tenex::data::{AgentProgram, App, AppData, Config, Settings};
use tenex::mux::window_target;
use tenex::state::AppMode;

fn config() -> Config {
    Config { default_program: "assistant".to_string(), branch_prefix: "muster/".to_string() }
}

fn settings() -> Settings {
    Settings {
        agent_program: AgentProgram::DefaultProgram,
        planner_agent_program: AgentProgram::DefaultProgram,
        review_agent_program: AgentProgram::DefaultProgram,
        custom_agent_command: String::new(),
        planner_custom_agent_command: String::new(),
        review_custom_agent_command: String::new(),
    }
}

fn agent(id: u128, parent: Option<u128>, window: Option<u32>) -> Agent {
    Agent {
        id,
        parent_id: parent,
        title: format!("agent{id}"),
        program: "assistant".to_string(),
        branch: "muster/root".to_string(),
        worktree_path: "/tmp".to_string(),
        repo_root: None,
        mux_session: "tenex-1".to_string(),
        window_index: window,
        status: Status::Running,
        collapsed: false,
        is_terminal: false,
        workspace_kind: WorkspaceKind::GitWorktree,
    }
}

fn data_with(agents: Vec<Agent>, selected: Option<u128>) -> AppData {
    let mut app = App::new(config(), Storage { agents }, settings());
    app.data.selected_agent = selected;
    app.data
}

#[test]
fn test_broadcast_to_leaves_no_agent() {
    let d = data_with(vec![], None);
    match Actions::new().broadcast_to_leaves(&d) {
        Err(AppMode::ErrorModal { message }) => assert_eq!(message, "No agent selected"),
        other => panic!("unexpected {other:?}"),
    }
}

#[test]
fn test_broadcast_to_leaves_with_agent_no_children() {
    let mut d = data_with(vec![agent(1, None, None)], Some(1));
    let targets = Actions::new().broadcast_to_leaves(&d).unwrap();
    assert_eq!(targets.len(), 1);
    assert_eq!(targets[0].target, "tenex-1");
    // Its session does not exist, so nothing was sent.
    match Actions::finish_broadcast(&mut d, 0) {
        AppMode::ErrorModal { message } => assert_eq!(message, "No leaf agents found to broadcast to"),
        other => panic!("unexpected {other:?}"),
    }
}

#[test]
fn test_broadcast_to_leaves_with_children() {
    let mut d = data_with(vec![agent(1, None, None), agent(2, Some(1), Some(2)), agent(3, Some(1), Some(3))], Some(1));
    let targets = Actions::new().broadcast_to_leaves(&d).unwrap();
    let ids: Vec<u128> = targets.iter().map(|t| t.agent_id).collect();
    assert_eq!(ids, vec![2, 3]);
    assert_eq!(targets[0].target, window_target("tenex-1", 2));
    assert_eq!(Actions::finish_broadcast(&mut d, 2), AppMode::Normal);
    assert_eq!(d.ui.status.as_deref(), Some("Broadcast sent to 2 agent(s)"));
}

#[test]
fn broadcast_skips_parents_and_terminals() {
    let mut t = agent(4, Some(2), Some(4));
    t.is_terminal = true;
    let d = data_with(
        vec![agent(1, None, None), agent(2, Some(1), Some(2)), agent(3, Some(2), Some(3)), t, agent(5, None, None)],
        Some(1),
    );
    let targets = Actions::new().broadcast_to_leaves(&d).unwrap();
    let ids: Vec<u128> = targets.iter().map(|t| t.agent_id).collect();
    assert_eq!(ids, vec![3]);
}
