use std::collections::hash_map::DefaultHasher;
use std::hash::{Hash, Hasher};

use tenex::actions::Actions;
use tenex::agent::{Agent, Status, Storage, WorkspaceKind};
use tenex::data::{AgentProgram, App, AppData, Config, Settings};
use tenex::sync::{
    agents_equal, finish_respawn_summary, is_tenex_managed_branch, mark_respawned_agents_running,
    normalize_tree_running, pane_activity_digest_with_fallback, session_listed, should_auto_connect,
    snapshot, sorted_descendants, stored_root_agents, title_for_branch, PaneActivityDigestMode, RespawnEntry,
    RespawnOutcome, SessionListing, WorktreeCandidate,
};

/// One sidebar row per stored agent.
fn rows(d: &AppData) -> Vec<Option<u128>> {
    d.storage.agents.iter().map(|a| Some(a.id)).collect()
}

fn config() -> Config {
    Config { default_program: "assistant".to_string(), branch_prefix: "muster/".to_string() }
}

fn settings() -> Settings {
    Settings {
        agent_program: AgentProgram::Codex,
        planner_agent_program: AgentProgram::DefaultProgram,
        review_agent_program: AgentProgram::DefaultProgram,
        custom_agent_command: String::new(),
        planner_custom_agent_command: String::new(),
        review_custom_agent_command: String::new(),
    }
}

fn agent(id: u128, parent: Option<u128>, session: &str, status: Status) -> Agent {
    Agent {
        id,
        parent_id: parent,
        title: format!("agent{id}"),
        program: "assistant".to_string(),
        branch: format!("muster/agent{id}"),
        worktree_path: "/tmp".to_string(),
        repo_root: None,
        mux_session: session.to_string(),
        window_index: if parent.is_some() { Some(2) } else { None },
        status,
        collapsed: false,
        is_terminal: false,
        workspace_kind: WorkspaceKind::GitWorktree,
    }
}

fn app_with(agents: Vec<Agent>) -> App {
    App::new(config(), Storage { agents }, settings())
}

fn names(v: &[&str]) -> Vec<String> {
    v.iter().map(|s| (*s).to_string()).collect()
}

#[test]
fn test_sync_agent_status() {
    let handler = Actions::new();
    let mut app = app_with(vec![]);
    let out = handler.sync_agent_status(&mut app, SessionListing::ServerDown, &rows);
    assert!(!out.changed);
    assert!(out.pruned_sessions.is_empty());
}

#[test]
fn sync_skips_failed_and_empty_listings() {
    let handler = Actions::new();
    let mut app = app_with(vec![agent(1, None, "s1", Status::Running)]);
    assert!(!handler.sync_agent_status(&mut app, SessionListing::Failed, &rows).changed);
    assert!(!handler.sync_agent_status(&mut app, SessionListing::Listed(Vec::new()), &rows).changed);
    // None of the stored sessions is listed: a mis-observation, nothing is pruned.
    assert!(!handler.sync_agent_status(&mut app, SessionListing::Listed(names(&["other"])), &rows).changed);
    assert_eq!(app.data.storage.len(), 1);
}

#[test]
fn sync_prunes_lost_roots_and_promotes_live_agents() {
    let handler = Actions::new();
    let mut app = app_with(vec![
        agent(1, None, "s1", Status::Starting),
        agent(2, Some(1), "s1", Status::Starting),
        agent(3, None, "s3", Status::Running),
        agent(4, Some(3), "s3", Status::Running),
    ]);
    let out = handler.sync_agent_status(&mut app, SessionListing::Listed(names(&["s1", "unrelated"])), &rows);
    assert!(out.changed);
    assert_eq!(out.pruned_sessions, names(&["s3"]));
    let ids: Vec<u128> = app.data.storage.agents.iter().map(|a| a.id).collect();
    assert_eq!(ids, vec![1, 2]);
    assert!(app.data.storage.agents.iter().all(|a| a.status == Status::Running));
}

#[test]
fn sync_with_everything_live_changes_nothing() {
    let handler = Actions::new();
    let mut app = app_with(vec![agent(1, None, "s1", Status::Running)]);
    let out = handler.sync_agent_status_with_sessions(&mut app, Some(&names(&["s1"])), &rows);
    assert!(!out.changed);
    assert!(out.pruned_sessions.is_empty());
}

#[test]
fn managed_branches_and_titles() {
    assert!(is_tenex_managed_branch("muster/x", "muster/"));
    assert!(is_tenex_managed_branch("tenex/x", ""));
    assert!(!is_tenex_managed_branch("feature/x", ""));
    assert!(!is_tenex_managed_branch("feature/x", "muster/"));
    assert_eq!(title_for_branch("muster/fix-login", "muster/"), "fix-login");
    assert_eq!(title_for_branch("tenex/fix-login", "muster/"), "fix-login");
    assert_eq!(title_for_branch("feature/x", "muster/"), "feature/x");
    assert_eq!(title_for_branch("muster/", "muster/"), "muster/");
}

#[test]
fn should_auto_connect_only_unclaimed_managed_branches() {
    let s = Storage { agents: vec![agent(1, None, "s1", Status::Running)] };
    assert!(!should_auto_connect(&s, "muster/agent1", "muster/"));
    assert!(should_auto_connect(&s, "muster/other", "muster/"));
    assert!(!should_auto_connect(&s, "main", "muster/"));
}

#[test]
fn auto_connect_worktrees_adopts_each_branch_once() {
    let handler = Actions::new();
    let app = app_with(vec![agent(1, None, "s1", Status::Running)]);
    let worktrees = vec![
        WorktreeCandidate { branch: "muster/new".to_string(), path: "/w/new".to_string() },
        WorktreeCandidate { branch: "muster/agent1".to_string(), path: "/w/a1".to_string() },
        WorktreeCandidate { branch: "main".to_string(), path: "/repo".to_string() },
        WorktreeCandidate { branch: "muster/new".to_string(), path: "/w/new2".to_string() },
        WorktreeCandidate { branch: "tenex/other".to_string(), path: "/w/other".to_string() },
    ];
    let adopted = handler.auto_connect_worktrees(&app.data, &worktrees);
    assert_eq!(adopted.len(), 2);
    assert_eq!(adopted[0].title, "new");
    assert_eq!(adopted[0].worktree_path, "/w/new");
    assert_eq!(adopted[0].program, "codex");
    assert_eq!(adopted[1].branch, "tenex/other");
    assert_eq!(adopted[1].title, "other");
}

#[test]
fn session_listed_matches_whole_names() {
    let sessions = names(&["a", "bb"]);
    assert!(session_listed(&sessions, &"bb".to_string()));
    assert!(!session_listed(&sessions, &"b".to_string()));
}

#[test]
fn normalize_tree_running_sets_the_tree() {
    let mut app = app_with(vec![
        agent(1, None, "old", Status::Running),
        agent(2, Some(1), "old", Status::Running),
        agent(3, None, "x", Status::Running),
    ]);
    assert!(normalize_tree_running(&mut app.data, 1, "new", false));
    assert_eq!(app.data.storage.agents[0].mux_session, "new");
    assert_eq!(app.data.storage.agents[1].status, Status::Starting);
    assert_eq!(app.data.storage.agents[2].mux_session, "x");
    assert!(!normalize_tree_running(&mut app.data, 1, "new", false));
}

#[test]
fn mark_respawned_agents_running_marks_recreated_windows() {
    let mut app = app_with(vec![
        agent(1, None, "s", Status::Starting),
        agent(2, Some(1), "s", Status::Starting),
        agent(3, Some(1), "s", Status::Starting),
    ]);
    assert!(mark_respawned_agents_running(&mut app.data, 1, "s", &vec![(3, 7)]));
    assert_eq!(app.data.storage.agents[0].status, Status::Running);
    assert_eq!(app.data.storage.agents[1].status, Status::Starting);
    assert_eq!(app.data.storage.agents[2].status, Status::Running);
    assert_eq!(app.data.storage.agents[2].window_index, Some(7));
}

#[test]
fn respawn_missing_agents_applies_each_outcome() {
    let handler = Actions::new();
    let mut app = app_with(vec![
        agent(1, None, "s1", Status::Starting),
        agent(2, None, "s2", Status::Running),
        agent(3, Some(2), "s2", Status::Running),
        agent(4, None, "s4", Status::Running),
    ]);
    let entries = vec![
        RespawnEntry { root_id: 1, session: "s1".to_string(), outcome: RespawnOutcome::Alive },
        RespawnEntry { root_id: 2, session: "s2".to_string(), outcome: RespawnOutcome::NotRespawned },
        RespawnEntry { root_id: 4, session: "s4b".to_string(), outcome: RespawnOutcome::Respawned(Vec::new()) },
    ];
    let summary = handler.respawn_missing_agents(&mut app, &entries, &rows);
    assert!(summary.changed);
    assert_eq!(summary.respawned_sessions, 1);
    assert_eq!(app.data.storage.agents[0].status, Status::Running);
    assert_eq!(app.data.storage.agents[1].status, Status::Starting);
    assert_eq!(app.data.storage.agents[2].status, Status::Starting);
    assert_eq!(app.data.storage.agents[3].mux_session, "s4b");
    assert_eq!(app.data.storage.agents[3].status, Status::Running);
    assert_eq!(app.data.ui.status.as_deref(), Some("Respawned 1 agent session(s)"));
}

#[test]
fn finish_respawn_summary_is_silent_without_respawns() {
    let mut app = app_with(vec![]);
    finish_respawn_summary(&mut app.data, 0);
    assert!(app.data.ui.status.is_none());
    finish_respawn_summary(&mut app.data, 3);
    assert_eq!(app.data.ui.status.as_deref(), Some("Respawned 3 agent session(s)"));
}

#[test]
fn stored_roots_and_snapshots() {
    let app = app_with(vec![agent(1, None, "s", Status::Running), agent(2, Some(1), "s", Status::Running)]);
    let roots = stored_root_agents(&app.data);
    assert_eq!(roots.len(), 1);
    assert_eq!(roots[0].id, 1);
    let copy = snapshot(&app.data.storage.agents);
    assert!(agents_equal(&copy, &app.data.storage.agents));
    let mut changed = snapshot(&app.data.storage.agents);
    changed[1].title = "renamed".to_string();
    assert!(!agents_equal(&changed, &app.data.storage.agents));
}

#[test]
fn pane_activity_digest_prefers_the_cursor() {
    let text_hash = {
        let mut h = DefaultHasher::new();
        "pane".hash(&mut h);
        h.finish()
    };
    assert_eq!(
        pane_activity_digest_with_fallback(PaneActivityDigestMode::Cursor, Some(5), Some("pane")),
        Some((5, PaneActivityDigestMode::Cursor))
    );
    assert_eq!(
        pane_activity_digest_with_fallback(PaneActivityDigestMode::Cursor, None, Some("pane")),
        Some((text_hash, PaneActivityDigestMode::Capture))
    );
    assert_eq!(
        pane_activity_digest_with_fallback(PaneActivityDigestMode::Capture, Some(5), Some("pane")),
        Some((text_hash, PaneActivityDigestMode::Capture))
    );
    assert_eq!(pane_activity_digest_with_fallback(PaneActivityDigestMode::Capture, None, None), None);
}

#[test]
fn sorted_descendants_follow_window_order_then_storage_order() {
    let mut a = agent(2, Some(1), "s", Status::Running);
    a.window_index = Some(5);
    let mut b = agent(3, Some(1), "s", Status::Running);
    b.window_index = None;
    let mut c = agent(4, Some(2), "s", Status::Running);
    c.window_index = Some(2);
    let mut d = agent(5, Some(1), "s", Status::Running);
    d.window_index = Some(5);
    let app = app_with(vec![agent(1, None, "s", Status::Running), a, b, c, d, agent(6, None, "t", Status::Running)]);
    assert_eq!(sorted_descendants(&app.data, 1), vec![3, 1, 4, 2]);
    assert_eq!(sorted_descendants(&app.data, 6), Vec::<usize>::new());
}

#[test]
fn sync_brings_the_selection_back_after_a_prune() {
    let handler = Actions::new();
    let mut app = app_with(vec![
        agent(1, None, "s1", Status::Running),
        agent(3, None, "s3", Status::Running),
        agent(4, Some(3), "s3", Status::Running),
    ]);
    app.data.selected = 2;
    app.data.selected_agent = Some(4);
    let out = handler.sync_agent_status(&mut app, SessionListing::Listed(names(&["s1"])), &rows);
    assert!(out.changed);
    assert_eq!(app.data.selected, 0);
    assert_eq!(app.data.selected_agent, Some(1));
    assert_eq!(app.data.ui.agent_list_scroll, 0);
}

#[test]
fn sync_without_change_keeps_the_selection() {
    let handler = Actions::new();
    let mut app = app_with(vec![agent(1, None, "s1", Status::Running)]);
    app.data.selected = 5;
    handler.sync_agent_status(&mut app, SessionListing::Listed(names(&["s1"])), &rows);
    assert_eq!(app.data.selected, 5);
}
