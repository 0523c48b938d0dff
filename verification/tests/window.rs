use tenex::actions::Actions;
use tenex::agent::{Agent, Status, Storage, WorkspaceKind};
use tenex::data::{AgentProgram, App, Config, Settings};
use tenex::mux::window_target;
use tenex::window::{
    adjust_window_indices_after_deletion, adjust_window_indices_after_deletions, check_resize_dimensions,
    count_deleted_below, deleted_window_indices, finish_resize, renumbered_flags, resize_candidates, resize_failed,
    ResizeStep,
};

fn config() -> Config {
    Config { default_program: "assistant".to_string(), branch_prefix: "muster/".to_string() }
}

fn settings() -> Settings {
    Settings {
        agent_program: AgentProgram::DefaultProgram,
        planner_agent_program: AgentProgram::DefaultProgram,
        review_agent_program: AgentProgram::DefaultProgram,
        custom_agent_command: String::new(),
        planner_custom_agent_command: String::new(),
        review_custom_agent_command: String::new(),
    }
}

fn agent(id: u128, parent: Option<u128>, window: Option<u32>) -> Agent {
    Agent {
        id,
        parent_id: parent,
        title: format!("agent{id}"),
        program: "assistant".to_string(),
        branch: "muster/root".to_string(),
        worktree_path: "/tmp".to_string(),
        repo_root: None,
        mux_session: if parent.is_some() { "tenex-1".to_string() } else { format!("tenex-{id}") },
        window_index: window,
        status: Status::Running,
        collapsed: false,
        is_terminal: false,
        workspace_kind: WorkspaceKind::GitWorktree,
    }
}

fn app_with(agents: Vec<Agent>) -> App {
    App::new(config(), Storage { agents }, settings())
}

fn windows(app: &App) -> Vec<Option<u32>> {
    app.data.storage.agents.iter().map(|a| a.window_index).collect()
}

#[test]
fn test_resize_agent_windows_no_dimensions() {
    let handler = Actions::new();
    let mut app = app_with(vec![]);
    assert!(matches!(handler.resize_agent_windows(&mut app), ResizeStep::Done(true)));
    assert!(app.data.ui.preview_dimensions.is_none());
}

#[test]
fn test_resize_agent_windows_with_dimensions() {
    let handler = Actions::new();
    let mut app = app_with(vec![agent(1, None, None)]);
    app.data.ui.preview_dimensions = Some((100, 50));
    match handler.resize_agent_windows(&mut app) {
        ResizeStep::Resize { width, height, targets } => {
            assert_eq!((width, height), (100, 50));
            assert_eq!(targets.len(), 1);
            assert_eq!(targets[0].session, "tenex-1");
            assert_eq!(targets[0].target, "tenex-1");
        },
        other => panic!("unexpected {other:?}"),
    }
    assert_eq!(app.data.ui.preview_dimensions, Some((100, 50)));
}

#[test]
fn test_resize_agent_windows_with_child_agents() {
    let handler = Actions::new();
    let mut app = app_with(vec![agent(1, None, None), agent(2, Some(1), Some(2)), agent(3, Some(1), None)]);
    app.data.ui.preview_dimensions = Some((80, 40));
    match handler.resize_agent_windows(&mut app) {
        ResizeStep::Resize { targets, .. } => {
            let pairs: Vec<(String, String)> = targets.into_iter().map(|t| (t.session, t.target)).collect();
            assert_eq!(
                pairs,
                vec![
                    ("tenex-1".to_string(), "tenex-1".to_string()),
                    ("tenex-1".to_string(), window_target("tenex-1", 2)),
                ]
            );
        },
        other => panic!("unexpected {other:?}"),
    }
}

#[test]
fn resize_to_an_empty_side_is_refused() {
    let handler = Actions::new();
    let mut app = app_with(vec![agent(1, None, None)]);
    assert!(matches!(handler.resize_agent_windows_to_dimensions(&mut app, 0, 10), ResizeStep::Done(false)));
    assert_eq!(app.data.ui.status.as_deref(), Some("Preview is too small to resize agents: 0x10"));
    assert!(!check_resize_dimensions(&mut app.data, 5, 0));
    assert!(check_resize_dimensions(&mut app.data, 5, 1));
    resize_failed(&mut app.data, "no session");
    assert_eq!(app.data.ui.status.as_deref(), Some("Failed to resize agent preview: no session"));
}

#[test]
fn resize_candidates_of_storage() {
    let s = Storage { agents: vec![agent(1, None, None), agent(2, Some(1), Some(3))] };
    let c = resize_candidates(&s);
    assert_eq!(c.len(), 2);
    assert_eq!(c[1].target, window_target("tenex-1", 3));
}

#[test]
fn window_target_shape() {
    assert_eq!(window_target("tenex-abc", 4), "tenex-abc:4");
}

#[test]
fn count_deleted_below_counts_lower_indices() {
    assert_eq!(count_deleted_below(&vec![5, 3, 2], 4), 2);
    assert_eq!(count_deleted_below(&vec![5, 3, 2], 2), 0);
    assert_eq!(count_deleted_below(&Vec::new(), 9), 0);
}

#[test]
fn deleted_window_indices_are_distinct_and_descending() {
    let s = Storage {
        agents: vec![agent(1, None, None), agent(2, Some(1), Some(2)), agent(3, Some(1), Some(4)), agent(4, Some(1), Some(2))],
    };
    assert_eq!(deleted_window_indices(&s, &vec![2, 3, 4, 1, 99]), vec![4, 2]);
}

#[test]
fn adjust_window_indices_after_deletions_shifts_the_rest_of_the_tree() {
    let mut app = app_with(vec![
        agent(1, None, None),
        agent(2, Some(1), Some(2)),
        agent(3, Some(1), Some(3)),
        agent(4, Some(1), Some(4)),
        agent(5, Some(1), Some(6)),
    ]);
    assert_eq!(renumbered_flags(&app.data.storage, 1, &vec![2, 4]), vec![false, false, true, false, true]);
    adjust_window_indices_after_deletions(&mut app.data, 1, &vec![2, 4], &vec![4, 2]);
    assert_eq!(windows(&app), vec![None, Some(2), Some(2), Some(4), Some(4)]);
}

#[test]
fn adjust_window_indices_after_one_deletion() {
    let mut app = app_with(vec![agent(1, None, None), agent(2, Some(1), Some(2)), agent(3, Some(1), Some(3))]);
    adjust_window_indices_after_deletion(&mut app.data, 1, 2, &vec![2]);
    assert_eq!(windows(&app), vec![None, Some(2), Some(2)]);
    // Nothing closed: nothing moves.
    adjust_window_indices_after_deletion(&mut app.data, 1, 2, &Vec::new());
    assert_eq!(windows(&app), vec![None, Some(2), Some(2)]);
}

#[test]
fn finish_resize_reports_the_last_failure() {
    let mut app = app_with(vec![]);
    assert!(finish_resize(&mut app.data, &vec![None, None]));
    assert!(app.data.ui.status.is_none());
    assert!(!finish_resize(&mut app.data, &vec![Some("first".to_string()), None, Some("boom".to_string()), None]));
    assert_eq!(app.data.ui.status.as_deref(), Some("Failed to resize agent preview: boom"));
}

#[test]
fn renumbering_ignores_the_order_of_closed_windows() {
    assert_eq!(count_deleted_below(&vec![5, 1, 3], 4), count_deleted_below(&vec![1, 3, 5], 4));
    assert_eq!(count_deleted_below(&vec![3, 1], 4), 2);
}
