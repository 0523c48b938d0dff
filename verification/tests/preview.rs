use std::collections::hash_map::DefaultHasher;
use std::hash::{Hash, Hasher};

use tenex::actions::Actions;
use tenex::agent::{Agent, Status, Storage, WorkspaceKind};
use tenex::data::{AgentProgram, App, Config, Settings, UiState};
use tenex::mux::window_target;
use tenex::preview::{
    commits_report_lines, finish_preview_refresh, git_log_commit_ids, git_log_rich, hash_commit_ids,
    hash_text, last_seen, observe_hash, preview_target, set_last_seen, CommitInfo,
    CommitsDigestObservation, CommitsObservation, DiffObservation, DigestObservation, PreviewObservation,
};
use tenex::state::Tab;

fn config() -> Config {
    Config { default_program: "assistant".to_string(), branch_prefix: "tenex/".to_string() }
}

fn settings() -> Settings {
    Settings {
        agent_program: AgentProgram::DefaultProgram,
        planner_agent_program: AgentProgram::DefaultProgram,
        review_agent_program: AgentProgram::DefaultProgram,
        custom_agent_command: String::new(),
        planner_custom_agent_command: String::new(),
        review_custom_agent_command: String::new(),
    }
}

fn agent(id: u128, parent: Option<u128>, title: &str, branch: &str) -> Agent {
    Agent {
        id,
        parent_id: parent,
        title: title.to_string(),
        program: "assistant".to_string(),
        branch: branch.to_string(),
        worktree_path: "/tmp".to_string(),
        repo_root: None,
        mux_session: format!("tenex-{id}"),
        window_index: None,
        status: Status::Running,
        collapsed: false,
        is_terminal: false,
        workspace_kind: WorkspaceKind::GitWorktree,
    }
}

fn create_test_app() -> App {
    App::new(config(), Storage::new(), settings())
}

fn app_with(agents: Vec<Agent>, selected: Option<u128>) -> App {
    let mut app = App::new(config(), Storage { agents }, settings());
    app.data.selected_agent = selected;
    app
}

fn std_hash_of(strings: &[&str]) -> u64 {
    let mut h = DefaultHasher::new();
    for s in strings {
        s.hash(&mut h);
    }
    h.finish()
}

fn log_record(id: &str, short: &str, date: &str, author: &str, subject: &str, dec: &str, body: &str) -> String {
    format!("{id}\u{1f}{short}\u{1f}{date}\u{1f}{author}\u{1f}{subject}\u{1f}{dec}\u{1f}{body}\u{1e}")
}

#[test]
fn preview_test_update_preview_no_agent() {
    let handler = Actions::new();
    let mut app = create_test_app();
    app.data.ui.preview_cursor_position = Some((3, 4));
    app.data.ui.preview_pane_size = Some((80, 24));
    handler.update_preview(&mut app, PreviewObservation::Captured { text: "ignored".to_string(), cursor: Some((1, 1)), pane_size: Some((1, 1)) }, 0, 0);
    assert!(app.data.ui.preview_content.contains("No agent selected"));
    assert!(app.data.ui.preview_cursor_position.is_none());
    assert!(app.data.ui.preview_pane_size.is_none());
}

#[test]
fn handler_test_update_preview_no_agent() {
    let handler = Actions::new();
    let mut app = create_test_app();
    handler.update_preview(&mut app, PreviewObservation::SessionNotRunning, 0, 1);
    assert_eq!(app.data.ui.preview_content, "(No agent selected)");
}

#[test]
fn preview_test_update_preview_with_agent_no_session() {
    let handler = Actions::new();
    let mut app = app_with(vec![agent(1, None, "test", "nonexistent-session")], Some(1));
    handler.update_preview(&mut app, PreviewObservation::SessionNotRunning, 0, 1);
    assert!(app.data.ui.preview_content.contains("Session not running"));
}

#[test]
fn handler_test_update_preview_with_agent_no_session() {
    let handler = Actions::new();
    let mut app = app_with(vec![agent(1, None, "test", "muster/test")], Some(1));
    handler.update_preview(&mut app, PreviewObservation::SessionNotRunning, 0, 1);
    assert_eq!(app.data.ui.preview_content, "(Session not running)");
}

#[test]
fn test_update_preview_child_agent_window_target() {
    let handler = Actions::new();
    let root = agent(1, None, "root", "muster/root");
    let mut child = agent(2, Some(1), "child", "muster/child");
    child.mux_session = "tenex-1".to_string();
    child.window_index = Some(1);
    let mut app = app_with(vec![root, child], Some(1));
    assert!(app.data.selected_agent().unwrap().window_index.is_none());
    assert_eq!(preview_target(&app.data.storage, 0), "tenex-1");
    app.data.selected_agent = Some(2);
    assert!(app.data.selected_agent().unwrap().window_index.is_some());
    assert_eq!(preview_target(&app.data.storage, 1), window_target("tenex-1", 1));
    handler.update_preview(&mut app, PreviewObservation::SessionNotRunning, 0, 1);
    assert!(app.data.ui.preview_content.contains("Session not running"));
}

#[test]
fn update_preview_shows_the_capture_and_follows() {
    let handler = Actions::new();
    let mut app = app_with(vec![agent(1, None, "a", "b")], Some(1));
    handler.update_preview(&mut app, PreviewObservation::Captured { text: "line 1\nline 2".to_string(), cursor: Some((1, 2)), pane_size: Some((80, 24)) }, 0, 2);
    assert_eq!(app.data.ui.preview_content, "line 1\nline 2");
    assert_eq!(app.data.ui.preview_cursor_position, Some((1, 2)));
    assert_eq!(app.data.ui.preview_pane_size, Some((80, 24)));
    assert_eq!(app.data.ui.preview_scroll, usize::MAX);
    assert!(!app.data.ui.preview_using_full_history);
}

#[test]
fn test_update_preview_switching_to_full_history_preserves_scroll_distance() {
    let mut ui = UiState::new();
    ui.preview_follow = false;
    ui.preview_dimensions = Some((80, 10));
    ui.preview_scroll = 2;
    // 20 lines before (max scroll 10, 8 from the bottom), 30 after (max scroll 20).
    finish_preview_refresh(&mut ui, 20, 2, 30);
    assert_eq!(ui.preview_scroll, 12);
    assert!(ui.preview_using_full_history);
    // Once on the full history, the scroll stays put.
    finish_preview_refresh(&mut ui, 30, 12, 40);
    assert_eq!(ui.preview_scroll, 12);
}

#[test]
fn preview_test_update_diff_no_agent() {
    let handler = Actions::new();
    let mut app = create_test_app();
    handler.update_diff(&mut app, DiffObservation::NotRepository);
    assert!(app.data.ui.diff_content.contains("No agent selected"));
}

#[test]
fn handler_test_update_diff_no_agent() {
    let handler = Actions::new();
    let mut app = create_test_app();
    handler.update_diff(&mut app, DiffObservation::NoWorktree);
    assert_eq!(app.data.ui.diff_content, "(No agent selected)");
    assert_eq!(app.data.ui.diff_hash, 0);
}

#[test]
fn preview_test_update_diff_with_agent_no_worktree() {
    let handler = Actions::new();
    let mut app = app_with(vec![agent(1, None, "test", "muster/test")], Some(1));
    handler.update_diff(&mut app, DiffObservation::NoWorktree);
    assert!(app.data.ui.diff_content.contains("Worktree not found"));
}

#[test]
fn handler_test_update_diff_with_agent_no_worktree() {
    let handler = Actions::new();
    let mut app = app_with(vec![agent(1, None, "test", "muster/test")], Some(1));
    handler.update_diff(&mut app, DiffObservation::NoWorktree);
    assert_eq!(app.data.ui.diff_content, "(Worktree not found)");
}

#[test]
fn preview_test_update_diff_with_agent_valid_worktree() {
    let handler = Actions::new();
    let mut app = app_with(vec![agent(1, None, "test", "muster/test")], Some(1));
    handler.update_diff(&mut app, DiffObservation::NotRepository);
    assert!(app.data.ui.diff_content.contains("Not a git repository"));
}

#[test]
fn handler_test_update_diff_with_agent_valid_worktree() {
    let handler = Actions::new();
    let mut app = app_with(vec![agent(1, None, "test", "muster/test")], Some(1));
    handler.update_diff(&mut app, DiffObservation::NotRepository);
    assert_eq!(app.data.ui.diff_content, "(Not a git repository)");
}

#[test]
fn test_update_diff_sets_error_message_when_diff_generation_fails() {
    let handler = Actions::new();
    let mut app = app_with(vec![agent(1, None, "test", "muster/test")], Some(1));
    handler.update_diff(&mut app, DiffObservation::Failed("diff boom".to_string()));
    assert_eq!(app.data.ui.diff_content, "(Failed to generate diff: diff boom)");
    assert_eq!(app.data.ui.diff_hash, 0);
}

#[test]
fn test_update_diff_sets_unseen_when_not_viewing_diff_tab() {
    let handler = Actions::new();
    let mut app = app_with(vec![agent(1, None, "a", "muster/a")], Some(1));
    app.data.active_tab = Tab::Preview;
    handler.update_diff(&mut app, DiffObservation::Built { content: "+world".to_string(), marker: 17 });
    assert_ne!(app.data.ui.diff_hash, 0);
    assert!(app.data.ui.diff_has_unseen_changes);
    assert_eq!(app.data.ui.diff_content, "+world");
}

#[test]
fn test_diff_unseen_dot_only_shows_changes_since_last_view_per_agent() {
    let handler = Actions::new();
    let mut app = app_with(vec![agent(1, None, "a", "muster/a"), agent(2, None, "b", "muster/b")], Some(1));
    app.data.active_tab = Tab::Diff;
    handler.update_diff(&mut app, DiffObservation::Built { content: "+x".to_string(), marker: 99 });
    assert_ne!(app.data.ui.diff_hash, 0);
    assert!(!app.data.ui.diff_has_unseen_changes);

    app.data.active_tab = Tab::Preview;
    handler.update_diff_digest(&mut app, DigestObservation::Hash(99)).unwrap();
    assert!(!app.data.ui.diff_has_unseen_changes);

    // Moving away and back keeps what was seen for the agent.
    app.data.selected_agent = Some(2);
    app.data.selected_agent = Some(1);
    handler.update_diff_digest(&mut app, DigestObservation::Hash(99)).unwrap();
    assert!(!app.data.ui.diff_has_unseen_changes);

    // The other agent has seen nothing yet.
    app.data.selected_agent = Some(2);
    handler.update_diff_digest(&mut app, DigestObservation::Hash(99)).unwrap();
    assert!(app.data.ui.diff_has_unseen_changes);
}

#[test]
fn test_update_diff_digest_no_agent() {
    let handler = Actions::new();
    let mut app = create_test_app();
    app.data.ui.diff_hash = 5;
    app.data.ui.diff_has_unseen_changes = true;
    handler.update_diff_digest(&mut app, DigestObservation::Hash(7)).unwrap();
    assert_eq!(app.data.ui.diff_hash, 0);
    assert!(!app.data.ui.diff_has_unseen_changes);
}

#[test]
fn test_update_diff_digest_missing_worktree() {
    let handler = Actions::new();
    let mut app = app_with(vec![agent(1, None, "test", "muster/test")], Some(1));
    app.data.ui.diff_hash = 5;
    handler.update_diff_digest(&mut app, DigestObservation::NoWorktree).unwrap();
    assert_eq!(app.data.ui.diff_hash, 0);
    assert!(!app.data.ui.diff_has_unseen_changes);
}

#[test]
fn test_update_diff_digest_sets_unseen_when_not_viewing_diff_tab() {
    let handler = Actions::new();
    let mut app = app_with(vec![agent(1, None, "a", "muster/a")], Some(1));
    app.data.active_tab = Tab::Preview;
    handler.update_diff_digest(&mut app, DigestObservation::Hash(1234)).unwrap();
    assert_eq!(app.data.ui.diff_hash, 1234);
    assert!(app.data.ui.diff_has_unseen_changes);
}

#[test]
fn test_update_diff_digest_sets_unseen_after_viewing_diff() {
    let handler = Actions::new();
    let mut app = app_with(vec![agent(1, None, "a", "muster/a")], Some(1));
    app.data.active_tab = Tab::Diff;
    handler.update_diff(&mut app, DiffObservation::Built { content: "+a".to_string(), marker: 10 });
    assert!(!app.data.ui.diff_has_unseen_changes);
    app.data.active_tab = Tab::Preview;
    handler.update_diff_digest(&mut app, DigestObservation::Hash(11)).unwrap();
    assert!(app.data.ui.diff_has_unseen_changes);
}

#[test]
fn test_update_diff_digest_errors_when_worktree_is_not_git_repo() {
    let handler = Actions::new();
    let mut app = app_with(vec![agent(1, None, "a", "muster/a")], Some(1));
    let r = handler.update_diff_digest(&mut app, DigestObservation::Failed("could not find repository".to_string()));
    assert_eq!(r, Err("could not find repository".to_string()));
}

#[test]
fn test_update_diff_digest_clears_unseen_when_marker_is_zero() {
    let handler = Actions::new();
    let mut app = app_with(vec![agent(1, None, "a", "muster/a")], Some(1));
    app.data.active_tab = Tab::Preview;
    app.data.ui.diff_has_unseen_changes = true;
    handler.update_diff_digest(&mut app, DigestObservation::Hash(0)).unwrap();
    assert_eq!(app.data.ui.diff_hash, 0);
    assert!(!app.data.ui.diff_has_unseen_changes);
}

#[test]
fn test_update_diff_digest_clears_unseen_when_marker_matches_last_seen() {
    let handler = Actions::new();
    let mut app = app_with(vec![agent(1, None, "a", "muster/a")], Some(1));
    set_last_seen(&mut app.data.ui.diff_last_seen, 1, 42);
    app.data.active_tab = Tab::Preview;
    app.data.ui.diff_has_unseen_changes = true;
    handler.update_diff_digest(&mut app, DigestObservation::Hash(42)).unwrap();
    assert!(!app.data.ui.diff_has_unseen_changes);
}

#[test]
fn test_update_commits_no_agent() {
    let handler = Actions::new();
    let mut app = create_test_app();
    handler.update_commits(&mut app, CommitsObservation::NoWorktree).unwrap();
    assert!(app.data.ui.commits_content.contains("No agent selected"));
    assert_eq!(app.data.ui.commits_hash, 0);
}

#[test]
fn test_update_commits_with_agent_no_worktree() {
    let handler = Actions::new();
    let mut app = app_with(vec![agent(1, None, "test", "muster/test")], Some(1));
    app.data.active_tab = Tab::Commits;
    handler.update_commits(&mut app, CommitsObservation::NoWorktree).unwrap();
    assert!(app.data.ui.commits_content.contains("Worktree not found"));
    assert_eq!(app.data.ui.commits_hash, 0);
}

#[test]
fn test_update_commits_with_agent_non_git_worktree() {
    let handler = Actions::new();
    let mut app = app_with(vec![agent(1, None, "test", "muster/test")], Some(1));
    app.data.active_tab = Tab::Commits;
    handler.update_commits(&mut app, CommitsObservation::NotRepository).unwrap();
    assert!(app.data.ui.commits_content.contains("Not a git repository"));
    assert_eq!(app.data.ui.commits_hash, 0);
}

#[test]
fn test_update_commits_includes_description_body() {
    let handler = Actions::new();
    let mut app = app_with(vec![agent(1, None, "a", "tenex/does-not-exist")], Some(1));
    app.data.active_tab = Tab::Commits;
    let output = log_record(
        "c2",
        "c2s",
        "2026-03-29 09:00",
        "Test",
        "Add world",
        "HEAD -> tenex/test",
        "This adds world.\n\nThis adds world to greeting.\n",
    ) + &log_record("c1", "c1s", "2026-03-29 08:00", "Test", "Initial commit", "master", "");
    handler
        .update_commits(&mut app, CommitsObservation::Log { base_branch: "master".to_string(), used_range: false, output })
        .unwrap();
    assert!(app.data.ui.commits_content.contains("This adds world."));
    assert!(app.data.ui.commits_content.contains("This adds world to greeting."));
    assert!(app.data.ui.commits_content.contains("\n    \n"));
}

#[test]
fn test_update_commits_falls_back_to_head_history_when_base_range_invalid() {
    let handler = Actions::new();
    let mut app = app_with(vec![agent(1, None, "a", "tenex/does-not-exist")], Some(1));
    app.data.active_tab = Tab::Commits;
    let output = log_record("c1", "c1s", "2026-03-29 08:00", "Test", "Initial", "", "");
    handler
        .update_commits(&mut app, CommitsObservation::Log { base_branch: "main".to_string(), used_range: false, output })
        .unwrap();
    assert!(app.data.ui.commits_content.contains("HEAD history"));
}

#[test]
fn test_update_commits_truncates_long_body() {
    let handler = Actions::new();
    let mut app = app_with(vec![agent(1, None, "a", "tenex/test")], Some(1));
    app.data.active_tab = Tab::Commits;
    let body = (0..50).map(|i| format!("line {i}")).collect::<Vec<_>>().join("\n");
    let output = log_record("c2", "c2s", "2026-03-29 09:00", "Test", "Big body", "", &body);
    handler
        .update_commits(&mut app, CommitsObservation::Log { base_branch: "master".to_string(), used_range: true, output })
        .unwrap();
    assert!(app.data.ui.commits_content.contains('…'));
    assert!(app.data.ui.commits_content.contains("    line 39"));
    assert!(!app.data.ui.commits_content.contains("line 40"));
}

#[test]
fn test_update_commits_shows_truncated_suffix_when_limit_is_small() {
    let mut app = app_with(vec![agent(1, None, "a", "tenex/test")], Some(1));
    app.data.active_tab = Tab::Commits;
    let output = log_record("c3", "c3", "2026-03-29 09:02", "Test", "Change", "", "")
        + &log_record("c2", "c2", "2026-03-29 09:01", "Test", "Change", "", "");
    Actions::update_commits_with_limit(
        &mut app,
        CommitsObservation::Log { base_branch: "master".to_string(), used_range: true, output },
        1,
    )
    .unwrap();
    assert!(app.data.ui.commits_content.contains("(truncated)"));
}

#[test]
fn test_update_commits_shows_no_commits_when_range_empty() {
    let handler = Actions::new();
    let mut app = app_with(vec![agent(1, None, "a", "master")], Some(1));
    app.data.active_tab = Tab::Commits;
    handler
        .update_commits(
            &mut app,
            CommitsObservation::Log { base_branch: "master".to_string(), used_range: true, output: String::new() },
        )
        .unwrap();
    assert!(app.data.ui.commits_content.contains("(No commits)"));
    assert_eq!(app.data.ui.commits_hash, 0);
}

#[test]
fn test_update_commits_sets_unseen_when_not_in_commits_tab() {
    let handler = Actions::new();
    let mut app = app_with(vec![agent(1, None, "a", "tenex/test")], Some(1));
    app.data.active_tab = Tab::Preview;
    let output = log_record("c2", "c2s", "2026-03-29 09:00", "Test", "Change", "", "");
    handler
        .update_commits(&mut app, CommitsObservation::Log { base_branch: "master".to_string(), used_range: true, output })
        .unwrap();
    assert_ne!(app.data.ui.commits_hash, 0);
    assert!(app.data.ui.commits_has_unseen_changes);
}

#[test]
fn update_commits_propagates_git_log_failures() {
    let handler = Actions::new();
    let mut app = app_with(vec![agent(1, None, "a", "tenex/test")], Some(1));
    let r = handler.update_commits(&mut app, CommitsObservation::Failed("git log failed".to_string()));
    assert_eq!(r, Err("git log failed".to_string()));
}

#[test]
fn commits_report_has_exact_lines() {
    let commits = vec![CommitInfo {
        id: "abc".to_string(),
        short_id: "a1".to_string(),
        date: "2026-03-29 09:00".to_string(),
        author: "Alice".to_string(),
        subject: "Subject".to_string(),
        decorations: " HEAD -> x ".to_string(),
        body: "\n\nfirst\nsecond\n\n".to_string(),
    }];
    let lines = commits_report_lines("tenex/x", "main", true, &commits, false);
    assert_eq!(
        lines,
        vec![
            "Branch: tenex/x",
            "Commits: main..HEAD (1 shown)",
            "a1  Subject",
            "  2026-03-29 09:00 • Alice • HEAD -> x",
            "    first",
            "    second",
        ]
    );
    let empty = commits_report_lines("b", "main", false, &Vec::new(), true);
    assert_eq!(empty, vec!["Branch: b", "Commits: HEAD history (0 shown) (truncated)", "(No commits)"]);
}

#[test]
fn test_git_log_commit_ids_truncates_output() {
    let (ids, truncated) = git_log_commit_ids("one\ntwo\n", 1);
    assert_eq!(ids, vec!["one".to_string()]);
    assert!(truncated);
}

#[test]
fn git_log_commit_ids_drops_blank_lines() {
    let (ids, truncated) = git_log_commit_ids("a  \n\n b\n", 5);
    assert_eq!(ids, vec!["a".to_string(), " b".to_string()]);
    assert!(!truncated);
}

#[test]
fn test_git_log_rich_skips_records_with_missing_fields() {
    let out = "\u{1f}short\u{1f}date\u{1f}author\u{1f}subject\u{1f}dec\u{1f}body\u{1e}\nid\u{1f}\u{1f}date\u{1f}author\u{1f}subject\u{1f}dec\u{1f}body\u{1e}\nid\u{1f}short\u{1f}\u{1f}author\u{1f}subject\u{1f}dec\u{1f}body\u{1e}\nid\u{1f}short\u{1f}date\u{1f}\u{1f}subject\u{1f}dec\u{1f}body\u{1e}\nid\u{1f}short\u{1f}date\u{1f}author\u{1f}\u{1f}dec\u{1f}body\u{1e}\ngood\u{1f}g\u{1f}2026-03-29 09:00\u{1f}Alice\u{1f}Subject\u{1f}\u{1f}Body\u{1e}\n";
    let (commits, truncated) = git_log_rich(out, 10);
    assert_eq!(commits.len(), 1);
    assert!(!truncated);
    assert_eq!(commits[0].id, "good");
    assert_eq!(commits[0].short_id, "g");
    assert_eq!(commits[0].author, "Alice");
    assert_eq!(commits[0].subject, "Subject");
    assert_eq!(commits[0].body, "Body");
}

#[test]
fn test_git_log_rich_truncates_commits() {
    let out = "a\u{1f}a\u{1f}2026-03-29 09:00\u{1f}Alice\u{1f}One\u{1f}\u{1f}\u{1e}\nb\u{1f}b\u{1f}2026-03-29 09:01\u{1f}Bob\u{1f}Two\u{1f}\u{1f}\u{1e}\n";
    let (commits, truncated) = git_log_rich(out, 1);
    assert_eq!(commits.len(), 1);
    assert!(truncated);
    assert_eq!(commits[0].id, "a");
}

#[test]
fn hashes_match_std_hashing_of_strings() {
    assert_eq!(hash_text("pane output"), std_hash_of(&["pane output"]));
    let ids = vec!["c1".to_string(), "c2".to_string()];
    assert_eq!(hash_commit_ids(&ids), std_hash_of(&["c1", "c2"]));
    assert_eq!(hash_commit_ids(&Vec::new()), 0);
    assert_ne!(hash_commit_ids(&ids), hash_commit_ids(&vec!["c2".to_string(), "c1".to_string()]));
}

#[test]
fn last_seen_table_reads_back_writes() {
    let mut table: Vec<(u128, u64)> = Vec::new();
    assert_eq!(last_seen(&table, 1), 0);
    set_last_seen(&mut table, 1, 5);
    set_last_seen(&mut table, 2, 6);
    set_last_seen(&mut table, 1, 7);
    assert_eq!(last_seen(&table, 1), 7);
    assert_eq!(last_seen(&table, 2), 6);
    assert_eq!(last_seen(&table, 3), 0);
}

#[test]
fn observe_hash_marks_unseen_only_off_tab() {
    let mut table: Vec<(u128, u64)> = Vec::new();
    assert!(observe_hash(&mut table, false, 1, 9));
    assert!(!observe_hash(&mut table, true, 1, 9));
    assert!(!observe_hash(&mut table, false, 1, 9));
    assert!(observe_hash(&mut table, false, 1, 10));
    assert!(!observe_hash(&mut table, false, 1, 0));
}

#[test]
fn test_update_commits_digest_sets_unseen_when_hash_changes() {
    let handler = Actions::new();
    let mut app = app_with(vec![agent(1, None, "a", "tenex/test")], Some(1));
    app.data.active_tab = Tab::Preview;
    let log = "c2c2c2\nc1c1c1\n".to_string();
    handler.update_commits_digest(&mut app, CommitsDigestObservation::Log(log.clone())).unwrap();
    assert_ne!(app.data.ui.commits_hash, 0);
    assert_eq!(app.data.ui.commits_hash, std_hash_of(&["c2c2c2", "c1c1c1"]));
    assert!(app.data.ui.commits_has_unseen_changes);
    let h = app.data.ui.commits_hash;
    set_last_seen(&mut app.data.ui.commits_last_seen, 1, h);
    handler.update_commits_digest(&mut app, CommitsDigestObservation::Log(log)).unwrap();
    assert!(!app.data.ui.commits_has_unseen_changes);
}

#[test]
fn test_update_commits_digest_falls_back_when_range_git_log_fails() {
    let handler = Actions::new();
    let mut app = app_with(vec![agent(1, None, "a", "tenex/test")], Some(1));
    app.data.active_tab = Tab::Preview;
    // The whole history is read when the range cannot be.
    handler.update_commits_digest(&mut app, CommitsDigestObservation::Log("only\n".to_string())).unwrap();
    assert_ne!(app.data.ui.commits_hash, 0);
    assert!(app.data.ui.commits_has_unseen_changes);
}

#[test]
fn test_update_commits_digest_returns_early_when_worktree_is_not_git() {
    let handler = Actions::new();
    let mut app = app_with(vec![agent(1, None, "a", "muster/a")], Some(1));
    app.data.ui.commits_hash = 9;
    handler.update_commits_digest(&mut app, CommitsDigestObservation::Unavailable).unwrap();
    assert_eq!(app.data.ui.commits_hash, 0);
    assert!(!app.data.ui.commits_has_unseen_changes);
}

#[test]
fn test_update_commits_digest_returns_early_when_worktree_missing() {
    let handler = Actions::new();
    let mut app = app_with(vec![agent(1, None, "a", "muster/a")], Some(1));
    app.data.ui.commits_has_unseen_changes = true;
    handler.update_commits_digest(&mut app, CommitsDigestObservation::Unavailable).unwrap();
    assert_eq!(app.data.ui.commits_hash, 0);
    assert!(!app.data.ui.commits_has_unseen_changes);
}

#[test]
fn test_update_commits_digest_sets_hash_zero_when_range_is_empty() {
    let handler = Actions::new();
    let mut app = app_with(vec![agent(1, None, "a", "master")], Some(1));
    handler.update_commits_digest(&mut app, CommitsDigestObservation::Log(String::new())).unwrap();
    assert_eq!(app.data.ui.commits_hash, 0);
    assert!(!app.data.ui.commits_has_unseen_changes);
}

#[test]
fn update_commits_digest_reports_failures() {
    let handler = Actions::new();
    let mut app = app_with(vec![agent(1, None, "a", "master")], Some(1));
    let r = handler.update_commits_digest(&mut app, CommitsDigestObservation::Failed("git log failed".to_string()));
    assert_eq!(r, Err("git log failed".to_string()));
    let mut none = create_test_app();
    none.data.ui.commits_hash = 3;
    handler.update_commits_digest(&mut none, CommitsDigestObservation::Log("x\n".to_string())).unwrap();
    assert_eq!(none.data.ui.commits_hash, 0);
}
