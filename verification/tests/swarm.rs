use tenex::actions::Actions;
use tenex::agent::{Agent, Status, Storage, WorkspaceKind};
use tenex::data::{AgentProgram, App, AppData, Config, Settings};
use tenex::state::{Action, AppMode};
use tenex::swarm::{
    build_synthesis_read_command, codex_review_base_branch_hint, generate_root_title,
    get_existing_parent_config, next_child_number, parse_agent_title_number, plan_child_agents,
    review_started_against, synthesis_file_name, SpawnStep,
};

/// One sidebar row per stored agent.
fn rows(d: &AppData) -> Vec<Option<u128>> {
    d.storage.agents.iter().map(|a| Some(a.id)).collect()
}

fn config() -> Config {
    Config { default_program: "assistant".to_string(), branch_prefix: "tenex/".to_string() }
}

fn settings() -> Settings {
    Settings {
        agent_program: AgentProgram::DefaultProgram,
        planner_agent_program: AgentProgram::Codex,
        review_agent_program: AgentProgram::Custom,
        custom_agent_command: String::new(),
        planner_custom_agent_command: String::new(),
        review_custom_agent_command: "  my-auditor --fast ".to_string(),
    }
}

fn agent(id: u128, parent: Option<u128>, title: &str) -> Agent {
    Agent {
        id,
        parent_id: parent,
        title: title.to_string(),
        program: "assistant".to_string(),
        branch: "tenex/root".to_string(),
        worktree_path: "/w/root".to_string(),
        repo_root: Some("/repo".to_string()),
        mux_session: if parent.is_some() { "tenex-root".to_string() } else { format!("tenex-{id}") },
        window_index: if parent.is_some() { Some(u32::try_from(id).unwrap()) } else { None },
        status: Status::Running,
        collapsed: true,
        is_terminal: false,
        workspace_kind: WorkspaceKind::GitWorktree,
    }
}

fn data_with(agents: Vec<Agent>, selected: Option<u128>) -> AppData {
    let mut app = App::new(config(), Storage { agents }, settings());
    app.data.selected_agent = selected;
    app.data
}

fn error_text(mode: &AppMode) -> String {
    match mode {
        AppMode::ErrorModal { message } => message.clone(),
        other => panic!("expected an error modal, got {other:?}"),
    }
}

#[test]
fn generate_root_title_keeps_short_tasks() {
    assert_eq!(generate_root_title(Some("Fix the login bug")), "Fix the login bug");
    let exactly_thirty = "a".repeat(30);
    assert_eq!(generate_root_title(Some(&exactly_thirty)), exactly_thirty);
}

#[test]
fn generate_root_title_cuts_long_tasks() {
    let task = "Refactor the authentication module to use tokens";
    assert_eq!(generate_root_title(Some(task)), format!("{}...", &task[..27]));
    assert_eq!(generate_root_title(Some(task)).len(), 30);
}

#[test]
fn generate_root_title_without_task_is_a_swarm_id() {
    let t = generate_root_title(None);
    assert_eq!(t.len(), 16);
    assert!(t.starts_with("Swarm ("));
    assert!(t.ends_with(')'));
    assert!(t[7..15].chars().all(|c| c.is_ascii_hexdigit() && !c.is_ascii_uppercase()));
    assert_ne!(generate_root_title(None), generate_root_title(None));
}

#[test]
fn parse_agent_title_number_reads_the_number_after_the_prefix() {
    assert_eq!(parse_agent_title_number("Agent 3", "Agent"), Some(3));
    assert_eq!(parse_agent_title_number("Agent   12 extra", "Agent"), Some(12));
    assert_eq!(parse_agent_title_number("Agent x", "Agent"), None);
    assert_eq!(parse_agent_title_number("Planner 2", "Agent"), None);
    assert_eq!(parse_agent_title_number("Agent", "Agent"), None);
}

#[test]
fn next_child_number_is_one_past_the_highest() {
    let s = Storage {
        agents: vec![
            agent(1, None, "root"),
            agent(2, Some(1), "Agent 1"),
            agent(3, Some(1), "Agent 4"),
            agent(4, Some(1), "Planner 9"),
            agent(5, Some(9), "Agent 20"),
        ],
    };
    assert_eq!(next_child_number(&s, 1, "Agent"), 5);
    assert_eq!(next_child_number(&s, 1, "Planner"), 10);
    assert_eq!(next_child_number(&s, 1, "Auditor"), 1);
    assert_eq!(next_child_number(&s, 7, "Agent"), 1);
}

#[test]
fn get_existing_parent_config_uses_the_root_workspace() {
    let d = data_with(vec![agent(1, None, "root"), agent(2, Some(1), "Agent 1")], None);
    let c = get_existing_parent_config(&d, 2).unwrap();
    assert_eq!(c.root_session, "tenex-1");
    assert_eq!(c.worktree_path, "/w/root");
    assert_eq!(c.parent_agent_id, 2);
    assert_eq!(get_existing_parent_config(&d, 9).err(), Some("Parent agent not found".to_string()));
    let mut t = agent(3, Some(1), "Terminal 1");
    t.is_terminal = true;
    let d = data_with(vec![agent(1, None, "root"), t], None);
    assert_eq!(get_existing_parent_config(&d, 3).err(), Some("Cannot spawn children under a terminal".to_string()));
}

#[test]
fn handler_test_handle_action_spawn_children() {
    let handler = Actions::new();
    let mut app = App::new(config(), Storage { agents: vec![] }, settings());
    handler.handle_action(&mut app, Action::SpawnChildren, &rows).unwrap();
    assert_eq!(app.mode, AppMode::ChildCount);
    assert!(app.data.spawn.spawning_under.is_none());
    match handler.spawn_children(&app.data, Some("Build it")).unwrap() {
        SpawnStep::NewRoot { title } => assert_eq!(title, "Build it"),
        other => panic!("unexpected {other:?}"),
    }
}

#[test]
fn handler_test_handle_action_add_children() {
    let handler = Actions::new();
    let mut app = App::new(config(), Storage { agents: vec![agent(1, None, "root"), agent(2, Some(1), "Agent 1")] }, settings());
    app.data.selected_agent = Some(1);
    handler.handle_action(&mut app, Action::AddChildren, &rows).unwrap();
    assert_eq!(app.mode, AppMode::ChildCount);
    assert_eq!(app.data.spawn.spawning_under, Some(1));
    let mut d = app.data;
    d.spawn.child_count = 2;
    match handler.spawn_children(&d, Some("task")).unwrap() {
        SpawnStep::Children { config, plan } => {
            assert_eq!(config.parent_agent_id, 1);
            assert_eq!(plan.program, "assistant");
            assert_eq!(plan.titles, vec!["Agent 2", "Agent 3"]);
            let prompt = plan.prompt.unwrap();
            assert_eq!(prompt.task, "task");
            assert!(!prompt.planned);
        },
        other => panic!("unexpected {other:?}"),
    }
}

#[test]
fn planned_children_are_planners() {
    let mut d = data_with(vec![agent(1, None, "root")], None);
    d.spawn.use_plan_prompt = true;
    let plan = plan_child_agents(&d, 1, 2, Some("design"));
    assert_eq!(plan.program, "codex");
    assert_eq!(plan.titles, vec!["Planner 1", "Planner 2"]);
    assert!(plan.prompt.unwrap().planned);
    // Without a task the children are plain agents.
    let plan = plan_child_agents(&d, 1, 1, None);
    assert_eq!(plan.titles, vec!["Agent 1"]);
    assert!(plan.prompt.is_none());
}

#[test]
fn spawn_children_under_missing_parent_fails() {
    let mut d = data_with(vec![], None);
    d.spawn.spawning_under = Some(4);
    assert_eq!(Actions::new().spawn_children(&d, None).err(), Some("Parent agent not found".to_string()));
}

#[test]
fn finish_spawn_children_expands_the_parent() {
    let mut d = data_with(vec![agent(1, None, "root")], None);
    assert_eq!(Actions::finish_spawn_children(&mut d, 1, 3, false), AppMode::Normal);
    assert!(!d.storage.agents[0].collapsed);
    assert_eq!(d.ui.status.as_deref(), Some("Spawned 3 child agents"));
    Actions::finish_spawn_children(&mut d, 1, 1, true);
    assert_eq!(d.ui.status.as_deref(), Some("Cleaned stale worktree and spawned 1 child agents"));
}

#[test]
fn test_handle_action_review_swarm_no_agent() {
    let d = data_with(vec![], None);
    assert_eq!(Actions::new().spawn_review_agents(&d).err(), Some("No agent selected for review".to_string()));
}

#[test]
fn spawn_review_agents_checks_and_plans() {
    let handler = Actions::new();
    let mut d = data_with(vec![agent(1, None, "root"), agent(2, Some(1), "Auditor 1")], None);
    d.spawn.spawning_under = Some(1);
    assert_eq!(handler.spawn_review_agents(&d).err(), Some("No base branch selected for review".to_string()));
    d.review.base_branch = Some("main".to_string());
    d.spawn.child_count = 2;
    let plan = handler.spawn_review_agents(&d).unwrap();
    assert_eq!(plan.base_branch, "main");
    assert_eq!(plan.program, "my-auditor --fast");
    assert_eq!(plan.titles, vec!["Auditor 2", "Auditor 3"]);
    d.storage.agents[0].workspace_kind = WorkspaceKind::PlainDir;
    assert_eq!(handler.spawn_review_agents(&d).err(), Some("Review swarm requires a git repository".to_string()));
}

#[test]
fn test_review_state_cleared() {
    let mut d = data_with(vec![agent(1, None, "root")], None);
    d.review.base_branch = Some("main".to_string());
    Actions::finish_review_agents(&mut d, 1, 2, "main", false);
    assert!(d.review.base_branch.is_none());
    assert!(d.review.branches.is_empty());
    assert_eq!(d.ui.status.as_deref(), Some("Spawned 2 review agents against main"));
    Actions::finish_review_agents(&mut d, 1, 2, "main", true);
    assert_eq!(
        d.ui.status.as_deref(),
        Some("Codex review may be running against a different base than requested: main")
    );
}

#[test]
fn review_hint_matches_the_confirmation() {
    assert_eq!(codex_review_base_branch_hint("main"), "changes against 'main'");
    assert!(review_started_against("Reviewing changes against 'main' now", " main "));
    assert!(!review_started_against("Reviewing changes against 'develop'", "main"));
}

#[test]
fn synthesis_read_command_and_file_name() {
    let id: u128 = 0x0123_4567_89ab_cdef_0123_4567_89ab_cdef;
    let text = "01234567-89ab-cdef-0123-456789abcdef";
    assert_eq!(synthesis_file_name(id), format!("{text}.md"));
    let base = format!(
        "Read .tenex/{text}.md - it contains the collected descendant work. Use it to guide your next steps."
    );
    assert_eq!(build_synthesis_read_command(id, None), base);
    assert_eq!(build_synthesis_read_command(id, Some("   ")), base);
    assert_eq!(
        build_synthesis_read_command(id, Some("  focus on tests ")),
        format!("{base}\n\nAdditional instructions:\nfocus on tests")
    );
}

#[test]
fn test_synthesize_no_agent() {
    let d = data_with(vec![], None);
    let m = Actions::new().synthesize(&d).err().unwrap();
    assert_eq!(error_text(&m), "No agent selected");
}

#[test]
fn test_synthesize_no_children() {
    let d = data_with(vec![agent(1, None, "test")], Some(1));
    let m = Actions::new().synthesize(&d).err().unwrap();
    assert!(error_text(&m).contains("no children to synthesize"));
}

#[test]
fn synthesize_only_terminal_children_is_refused() {
    let mut t = agent(2, Some(1), "Terminal 1");
    t.is_terminal = true;
    let d = data_with(vec![agent(1, None, "root"), t], Some(1));
    let m = Actions::new().synthesize(&d).err().unwrap();
    assert_eq!(error_text(&m), "Selected agent has no non-terminal children to synthesize");
}

#[test]
fn synthesize_plans_the_whole_subtree() {
    let d = data_with(
        vec![agent(1, None, "root"), agent(2, Some(1), "Agent 1"), agent(3, Some(2), "Agent 2"), agent(4, Some(1), "Agent 3")],
        Some(1),
    );
    let p = Actions::new().synthesize_with_prompt(&d, Some("merge it")).unwrap();
    assert_eq!(p.parent_id, 1);
    assert_eq!(p.parent_target, "tenex-1");
    assert_eq!(p.root_id, 1);
    assert_eq!(p.targets.teardown_root_ids, vec![2, 3, 4]);
    assert_eq!(p.file_name, format!("{}.md", uuid::Uuid::from_u128(p.synthesis_id)));
    assert!(p.read_command.ends_with("Additional instructions:\nmerge it"));
    let mut captured = p.targets.capture_agent_ids.clone();
    captured.sort_unstable();
    assert_eq!(captured, vec![2, 3, 4]);
}

#[test]
fn remove_synthesis_targets_and_finish() {
    let mut d = data_with(
        vec![agent(1, None, "root"), agent(2, Some(1), "Agent 1"), agent(3, Some(2), "Agent 2"), agent(5, Some(1), "Agent 3")],
        Some(1),
    );
    d.synthesis_marks = vec![2];
    // Windows 3 and 2 (of agents 3 and 2) are closed; agent 5 moves from window 5 to 3.
    Actions::remove_synthesis_targets(&mut d, 1, &vec![2], &vec![3, 2]);
    let ids: Vec<u128> = d.storage.agents.iter().map(|a| a.id).collect();
    assert_eq!(ids, vec![1, 5]);
    assert_eq!(d.storage.agents[1].window_index, Some(3));
    assert_eq!(Actions::finish_synthesis(&mut d, &rows), AppMode::Normal);
    assert!(d.synthesis_marks.is_empty());
    assert_eq!(d.ui.status.as_deref(), Some("Synthesized findings into parent agent"));
}
