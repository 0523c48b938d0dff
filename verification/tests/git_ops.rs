use tenex::actions::Actions;
use tenex::git_ops::{
    base_branch_from_reflog, base_branch_from_symbolic_ref, branch_config_key, command_args,
    configured_upstream, count_indicates_unpushed, default_branch_candidates, git_config_get,
    git_failure_message, output_indicates_merge_conflict, output_indicates_rebase_conflict,
    unpushed_compare_ref, ConfiguredUpstream,
};

const PORCELAIN: &str = "worktree /repo\nHEAD 1111111111111111111111111111111111111111\nbranch refs/heads/main\n\nworktree /repo/.worktrees/feature\nHEAD 2222222222222222222222222222222222222222\nbranch refs/heads/feature/x\n\nworktree /repo/.worktrees/detached\nHEAD 3333333333333333333333333333333333333333\ndetached\n";

#[test]
fn test_output_indicates_rebase_conflict_recognizes_markers() {
    assert!(output_indicates_rebase_conflict("error: could not apply abc123"));
    assert!(output_indicates_rebase_conflict("CONFLICT (content): Merge conflict"));
    assert!(!output_indicates_rebase_conflict("fatal: not a git repository"));
}

#[test]
fn merge_conflict_markers_are_recognized() {
    assert!(output_indicates_merge_conflict("CONFLICT (content): Merge conflict in a.txt"));
    assert!(output_indicates_merge_conflict(
        "Automatic merge failed; fix conflicts and then commit the result."
    ));
    assert!(!output_indicates_merge_conflict("error: could not apply abc123"));
    assert!(!output_indicates_merge_conflict(""));
}

#[test]
fn git_ops_test_find_worktree_for_branch_no_worktree() {
    let result = Actions::find_worktree_for_branch(PORCELAIN, "non-existent-branch-12345");
    assert!(result.is_none());
}

#[test]
fn tests_test_find_worktree_for_branch_no_worktree() {
    let result = Actions::find_worktree_for_branch("", "non-existent-branch-12345");
    assert!(result.is_none());
}

#[test]
fn find_worktree_for_branch_returns_the_entry_path() {
    assert_eq!(
        Actions::find_worktree_for_branch(PORCELAIN, "feature/x"),
        Some("/repo/.worktrees/feature".to_string())
    );
    assert_eq!(Actions::find_worktree_for_branch(PORCELAIN, "main"), Some("/repo".to_string()));
    // A branch line needs an exact match of the whole name.
    assert_eq!(Actions::find_worktree_for_branch(PORCELAIN, "feature"), None);
}

#[test]
fn find_worktree_for_branch_without_preceding_worktree_line_is_none() {
    assert_eq!(Actions::find_worktree_for_branch("branch refs/heads/main\n", "main"), None);
}

#[test]
fn test_detect_base_branch_falls_back_to_origin_head_when_reflog_missing() {
    // The reflog of a branch that does not exist cannot be read.
    let base = Actions::detect_base_branch(None, Some("origin/main\n"), &vec![true, false, false]);
    assert_eq!(base, "main");
}

#[test]
fn test_detect_base_branch_uses_origin_head_when_origin_head_is_non_default() {
    let base = Actions::detect_base_branch(None, Some("origin/trunk\n"), &vec![true, false, false]);
    assert_eq!(base, "trunk");
}

#[test]
fn tests_test_detect_base_branch_no_git() {
    let base = Actions::detect_base_branch(None, None, &vec![false, false, false]);
    assert_eq!(base, "main");
}

#[test]
fn git_ops_test_detect_base_branch_no_git() {
    let base = Actions::detect_base_branch(None, None, &vec![]);
    assert_eq!(base, "main");
}

#[test]
fn test_detect_base_branch_handles_empty_origin_head_output() {
    let base = Actions::detect_base_branch(None, Some(""), &vec![true, false, false]);
    assert_eq!(base, "main");
}

#[test]
fn test_detect_base_branch_falls_back_when_remote_head_has_no_slash() {
    let base = Actions::detect_base_branch(None, Some("main\n"), &vec![false, false, false]);
    assert_eq!(base, "main");
}

#[test]
fn test_detect_base_branch_falls_back_when_remote_head_base_is_empty() {
    let base = Actions::detect_base_branch(None, Some("origin/\n"), &vec![false, false, false]);
    assert_eq!(base, "main");
}

#[test]
fn test_detect_base_branch_falls_back_to_remote_default_when_local_defaults_missing() {
    // `main` exists only on the remote; `origin/HEAD` was deleted.
    let base = Actions::detect_base_branch(Some(""), None, &vec![true, false, false]);
    assert_eq!(base, "main");
}

#[test]
fn detect_base_branch_prefers_the_reflog() {
    let reflog = "abc feature@{0}: branch: Created from develop\n";
    let base = Actions::detect_base_branch(Some(reflog), Some("origin/trunk\n"), &vec![true, true, true]);
    assert_eq!(base, "develop");
}

#[test]
fn detect_base_branch_takes_the_first_existing_default() {
    assert_eq!(Actions::detect_base_branch(None, None, &vec![false, true, true]), "master");
    assert_eq!(Actions::detect_base_branch(None, None, &vec![false, false, true]), "develop");
}

#[test]
fn base_branch_from_reflog_reads_created_from_entries() {
    assert_eq!(
        base_branch_from_reflog("x HEAD@{1}: commit: y\nz b@{0}: branch: Created from origin/main extra\n"),
        Some("origin/main".to_string())
    );
    assert_eq!(base_branch_from_reflog("z b@{0}: branch: Created from   \n"), Some("main".to_string()));
    assert_eq!(base_branch_from_reflog("nothing here\n"), None);
}

#[test]
fn base_branch_from_symbolic_ref_takes_the_last_segment() {
    assert_eq!(base_branch_from_symbolic_ref("origin/main\n"), Some("main".to_string()));
    assert_eq!(base_branch_from_symbolic_ref("  origin/release/v2  \nignored/x\n"), Some("v2".to_string()));
    assert_eq!(base_branch_from_symbolic_ref("main\n"), None);
    assert_eq!(base_branch_from_symbolic_ref("origin/\n"), None);
    assert_eq!(base_branch_from_symbolic_ref(""), None);
}

#[test]
fn default_branch_candidates_in_order() {
    assert_eq!(default_branch_candidates(), vec!["main", "master", "develop"]);
}

#[test]
fn test_has_unpushed_commits_detects_deleted_fallback_remote_ref() {
    // The remote no longer has the branch: everything counts as unpushed.
    assert!(Actions::has_unpushed_commits(false, ""));
}

#[test]
fn test_has_unpushed_commits_fallback_uses_live_remote_ref() {
    assert!(!Actions::has_unpushed_commits(true, "0\n"));
    assert!(Actions::has_unpushed_commits(true, "1\n"));
}

#[test]
fn tests_test_has_unpushed_commits_no_git() {
    // Without a repository the remote ref cannot be resolved.
    assert!(Actions::has_unpushed_commits(false, "fatal: not a git repository"));
}

#[test]
fn count_output_is_parsed_leniently() {
    assert!(count_indicates_unpushed("  3 \n"));
    assert!(!count_indicates_unpushed("0"));
    assert!(!count_indicates_unpushed("garbage"));
    assert!(!count_indicates_unpushed(""));
    // Beyond a 32-bit count the output is not a number of commits.
    assert!(!count_indicates_unpushed("4294967296"));
    assert!(count_indicates_unpushed("4294967295"));
}

#[test]
fn unpushed_compare_ref_uses_upstream_when_configured() {
    assert_eq!(unpushed_compare_ref("feature/a", true), "feature/a@{upstream}");
    assert_eq!(unpushed_compare_ref("feature/a", false), "origin/feature/a");
}

#[test]
fn test_configured_upstream_errors_when_config_is_incomplete() {
    let err = configured_upstream("feature/local", Some("origin".to_string()), None).err().unwrap();
    assert!(err.contains("Incomplete upstream config"));
    assert_eq!(err, "Incomplete upstream config for branch 'feature/local'");
    let err = configured_upstream("feature/local", None, Some("refs/heads/x".to_string())).err().unwrap();
    assert!(err.contains("Incomplete upstream config"));
}

#[test]
fn test_configured_upstream_errors_when_config_value_is_empty() {
    let key = branch_config_key("feature/local", "remote");
    let err = git_config_get(&key, Some(0), true, "\n", "").err().unwrap();
    assert!(err.contains("is empty"));
    assert_eq!(err, "Git config key 'branch.feature/local.remote' is empty");
}

#[test]
fn test_configured_upstream_errors_when_config_read_fails() {
    let key = branch_config_key("feature/local", "remote");
    let err = git_config_get(&key, Some(128), false, "", "fatal: bad config line 1\n").err().unwrap();
    assert!(err.contains("Failed to read git config key"));
    assert_eq!(err, "Failed to read git config key 'branch.feature/local.remote': fatal: bad config line 1");
}

#[test]
fn test_configured_upstream_errors_when_merge_config_read_fails() {
    let remote_key = branch_config_key("feature/local", "remote");
    assert_eq!(git_config_get(&remote_key, Some(0), true, "origin\n", ""), Ok(Some("origin".to_string())));
    let merge_key = branch_config_key("feature/local", "merge");
    let message = git_config_get(&merge_key, Some(2), false, "", "merge boom\n").err().unwrap();
    assert!(message.contains("Failed to read git config key"));
    assert!(message.contains("branch.feature/local.merge"));
}

#[test]
fn git_config_get_unset_key_is_none() {
    assert_eq!(git_config_get("branch.x.remote", Some(1), false, "", ""), Ok(None));
    assert_eq!(git_config_get("k", Some(0), true, "value\r\n", ""), Ok(Some("value".to_string())));
    assert_eq!(git_config_get("k", None, false, "", " killed "), Err("Failed to read git config key 'k': killed".to_string()));
}

#[test]
fn configured_upstream_pairs_remote_and_merge_ref() {
    let up = configured_upstream("b", Some("origin".to_string()), Some("refs/heads/old".to_string()))
        .unwrap()
        .unwrap();
    assert_eq!(up.remote, "origin");
    assert_eq!(up.merge_ref, "refs/heads/old");
    assert_eq!(up.refspec("b"), "b:refs/heads/old");
    assert!(configured_upstream("b", None, None).unwrap().is_none());
}

#[test]
fn push_command_args_follow_the_upstream() {
    assert_eq!(command_args("feature/x", None), vec!["push", "-u", "origin", "feature/x"]);
    let up = ConfiguredUpstream { remote: "fork".to_string(), merge_ref: "refs/heads/old-name".to_string() };
    assert_eq!(command_args("feature/new", Some(up)), vec!["push", "fork", "feature/new:refs/heads/old-name"]);
}

#[test]
fn git_failure_message_prefers_stderr() {
    assert_eq!(git_failure_message(" out ", " err \n"), "err");
    assert_eq!(git_failure_message(" out \n", "  \n"), "out");
    assert_eq!(git_failure_message("", ""), "Unknown error");
}

#[test]
fn branch_config_key_shape() {
    assert_eq!(branch_config_key("feature/a", "merge"), "branch.feature/a.merge");
}

#[test]
fn stash_output_tells_whether_a_stash_was_made() {
    assert!(tenex::git_ops::stash_created("Saved working directory and index state On main: tenex-merge-temp\n"));
    assert!(!tenex::git_ops::stash_created("No local changes to save\n"));
}
