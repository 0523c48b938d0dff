//! The steps of the git flows over the application data. Each `execute_*` function
//! checks the flow state and either ends the flow or says which git command to run;
//! the matching `finish_*` function takes what the command reported.

use vstd::prelude::*;
use crate::agent::{Agent, AgentView, agent_views, Status, WorkspaceKind, lemma_climb_stored, lemma_position, position, root_position, with_collapsed, is_descendant};
use crate::actions::Actions;
use crate::data::AppData;
use crate::git_ops::{
    git_failure_message, git_failure_message_spec, merge_conflict_spec, output_indicates_merge_conflict,
    output_indicates_rebase_conflict, rebase_conflict_spec,
};
use crate::state::{AppMode, BranchInfo, git_op_cleared, review_cleared};
use crate::text::{concat2, concat3, concat4, owned, trim, trim_spec};

verus! {

/// `m` is the error modal with message `msg`.
pub open spec fn is_error(m: AppMode, msg: Seq<char>) -> bool {
    m matches AppMode::ErrorModal { message } && message@ == msg
}

/// `m` is the success modal with message `msg`.
pub open spec fn is_success(m: AppMode, msg: Seq<char>) -> bool {
    m matches AppMode::SuccessModal { message } && message@ == msg
}

/// The status line of `d` shows `msg`.
pub open spec fn status_is(d: AppData, msg: Seq<char>) -> bool {
    d.ui.status matches Some(s) && s@ == msg
}

/// The error modal with message `message`.
pub fn error_mode(message: String) -> (r: AppMode)
    ensures
        is_error(r, message@),
{
    AppMode::ErrorModal { message }
}

/// The success modal with message `message`.
pub fn success_mode(message: String) -> (r: AppMode)
    ensures
        is_success(r, message@),
{
    AppMode::SuccessModal { message }
}

/// The next step of a git flow.
#[derive(Debug)]
pub enum GitStep {
    /// The flow is over; show this mode.
    Done(AppMode),
    /// Run the flow's git command for `branch` (against `target`, where the flow has
    /// one) in `worktree_path`.
    Run { worktree_path: String, repo_root: Option<String>, branch: String, target: String },
}

/// What a failed rebase or merge leads to.
#[derive(Debug)]
pub enum GitOutcome {
    /// Show this mode.
    Mode(AppMode),
    /// Open a terminal titled `title` in the agent's tree that first runs `command`.
    ConflictTerminal { title: String, command: String },
    /// The merge stopped on conflicts in the worktree of the target branch.
    WorktreeConflict,
}

/// The result of a merge attempt.
#[derive(Debug, PartialEq, Eq)]
pub enum MergeResult {
    Success,
    Conflict,
    Failed(String),
}

/// Both the git flow state and the branch selector are cleared; nothing else about
/// the flows changed.
pub open spec fn flow_cleared(old_d: AppData, new_d: AppData) -> bool {
    &&& git_op_cleared(new_d.git_op)
    &&& review_cleared(new_d.review)
    &&& new_d.storage == old_d.storage
}

impl AppData {
    /// End the git flow and close the branch selector.
    pub fn clear_git_flow(&mut self)
        ensures
            flow_cleared(*old(self), *final(self)),
            final(self).ui == old(self).ui,
            final(self).selected_agent == old(self).selected_agent,
    {
        self.git_op.clear();
        self.review.clear();
    }

    /// Check the state of the flow `what` (push, rename, ...): the agent it names
    /// must still be stored.
    fn flow_agent_index(&self) -> (r: Option<usize>)
        ensures
            match self.git_op.agent_id {
                None => r.is_none(),
                Some(id) => match r {
                    Some(i) => i as int == position(self.storage@, id) && i < self.storage@.len(),
                    None => position(self.storage@, id) == -1,
                },
            },
    {
        match self.git_op.agent_id {
            Some(id) => self.storage.find_index(id),
            None => None,
        }
    }
}

impl Actions {
    /// Begin the push flow for the selected agent: ask for confirmation.
    pub fn push_branch(app_data: &mut AppData) -> (r: Result<AppMode, String>)
        ensures
            match old(app_data).selected_agent {
                Some(id) if position(old(app_data).storage@, id) >= 0 => {
                    let a = old(app_data).storage@[position(old(app_data).storage@, id)];
                    &&& r matches Ok(AppMode::ConfirmPush)
                    &&& final(app_data).git_op.agent_id == Some(id)
                    &&& final(app_data).git_op.branch_name@ == a.branch
                },
                _ => r matches Err(e) && e@ == "No agent selected"@ && *final(app_data) == *old(app_data),
            },
            *final(app_data) == (AppData { git_op: final(app_data).git_op, ..*old(app_data) }),
    {
        proof {
            if let Some(id) = app_data.selected_agent {
                lemma_position(app_data.storage@, id);
            }
        }
        let (id, branch) = match app_data.selected_agent() {
            Some(a) => (a.id, a.branch.clone()),
            None => {
                return Err(owned("No agent selected"));
            },
        };
        app_data.git_op.start_push(id, branch);
        Ok(AppMode::ConfirmPush)
    }
}

/// The push step: check the flow and name the branch and worktree to push.
pub open spec fn push_step_ok(old_d: AppData, new_d: AppData, r: GitStep, missing_id_msg: Seq<char>) -> bool {
    match old_d.git_op.agent_id {
        None => r matches GitStep::Done(m) && is_error(m, missing_id_msg) && git_op_cleared(
            new_d.git_op,
        ) && new_d.storage == old_d.storage,
        Some(id) => if position(old_d.storage@, id) == -1 {
            r matches GitStep::Done(m) && is_error(m, "Agent not found"@) && git_op_cleared(
                new_d.git_op,
            ) && new_d.storage == old_d.storage
        } else {
            &&& r matches GitStep::Run { worktree_path, branch, .. }
            &&& worktree_path@ == old_d.storage@[position(old_d.storage@, id)].worktree_path
            &&& branch@ == old_d.git_op.branch_name@
            &&& new_d == old_d
        },
    }
}

fn push_step(app_data: &mut AppData, missing_id_msg: &str) -> (r: GitStep)
    ensures
        push_step_ok(*old(app_data), *final(app_data), r, missing_id_msg@),
{
    if app_data.git_op.agent_id.is_none() {
        app_data.git_op.clear();
        return GitStep::Done(error_mode(owned(missing_id_msg)));
    }
    match app_data.flow_agent_index() {
        None => {
            app_data.git_op.clear();
            GitStep::Done(error_mode(owned("Agent not found")))
        },
        Some(i) => GitStep::Run {
            worktree_path: app_data.storage.agents[i].worktree_path.clone(),
            repo_root: None,
            branch: app_data.git_op.branch_name.clone(),
            target: String::new(),
        },
    }
}

impl Actions {
    /// Execute the confirmed push: check the flow, then name what to push.
    pub fn execute_push(app_data: &mut AppData) -> (r: GitStep)
        ensures
            push_step_ok(*old(app_data), *final(app_data), r, "No agent ID for push"@),
    {
        push_step(app_data, "No agent ID for push")
    }
}

impl Actions {
    /// Finish the push flow with what the push reported.
    pub fn finish_push(app_data: &mut AppData, success: bool, stderr: &str) -> (r: AppMode)
        ensures
            git_op_cleared(final(app_data).git_op),
            final(app_data).storage == old(app_data).storage,
            success ==> (r == AppMode::Normal && status_is(
                *final(app_data),
                "Pushed branch: "@ + old(app_data).git_op.branch_name@,
            )),
            !success ==> is_error(r, "Push failed: "@ + trim_spec(stderr@)),
    {
        if !success {
            app_data.git_op.clear();
            return error_mode(concat2("Push failed: ", trim(stderr)));
        }
        let msg = concat2("Pushed branch: ", app_data.git_op.branch_name.as_str());
        app_data.set_status(msg);
        app_data.git_op.clear();
        AppMode::Normal
    }
}

impl Actions {
    /// Execute the push that precedes opening a pull request.
    pub fn execute_push_and_open_pr(app_data: &mut AppData) -> (r: GitStep)
        ensures
            push_step_ok(*old(app_data), *final(app_data), r, "No agent ID for push"@),
    {
        push_step(app_data, "No agent ID for push")
    }
}

/// The next step of the pull-request flow.
#[derive(Debug)]
pub enum PrStep {
    /// The flow is over; show this mode.
    Done(AppMode),
    /// Open the pull-request page for `branch` against `base` from `worktree_path`.
    Open { worktree_path: String, branch: String, base: String },
}

/// What the pull-request tool reported.
#[derive(Debug)]
pub enum GhOutcome {
    /// The page was opened.
    Opened,
    /// The tool ran and failed with this error output.
    Failed(String),
    /// The tool could not be started.
    NotFound,
}

impl Actions {
    /// What to open for the pull request of the flow in progress.
    pub fn open_pr_target(app_data: &mut AppData) -> (r: PrStep)
        ensures
            match old(app_data).git_op.agent_id {
                None => r matches PrStep::Done(m) && is_error(m, "Failed to open PR: No agent ID for PR"@)
                    && *final(app_data) == *old(app_data),
                Some(id) => if position(old(app_data).storage@, id) == -1 {
                    r matches PrStep::Done(m) && is_error(m, "Failed to open PR: Agent not found"@)
                        && *final(app_data) == *old(app_data)
                } else {
                    &&& r matches PrStep::Open { worktree_path, branch, base }
                    &&& worktree_path@ == old(app_data).storage@[position(
                        old(app_data).storage@,
                        id,
                    )].worktree_path
                    &&& branch@ == old(app_data).git_op.branch_name@
                    &&& base@ == old(app_data).git_op.base_branch@
                    &&& *final(app_data) == *old(app_data)
                },
            },
    {
        if app_data.git_op.agent_id.is_none() {
            return PrStep::Done(error_mode(owned("Failed to open PR: No agent ID for PR")));
        }
        match app_data.flow_agent_index() {
            None => PrStep::Done(error_mode(owned("Failed to open PR: Agent not found"))),
            Some(i) => PrStep::Open {
                worktree_path: app_data.storage.agents[i].worktree_path.clone(),
                branch: app_data.git_op.branch_name.clone(),
                base: app_data.git_op.base_branch.clone(),
            },
        }
    }
}

impl Actions {
    /// After the push for a pull request: on failure the flow ends, else the page is to be
    /// opened.
    pub fn finish_push_for_pr(app_data: &mut AppData, success: bool, stderr: &str) -> (r: PrStep)
        ensures
            !success ==> (r matches PrStep::Done(m) && is_error(m, "Push failed: "@ + trim_spec(stderr@))
                && git_op_cleared(final(app_data).git_op) && final(app_data).storage == old(
                app_data,
            ).storage),
            success ==> match old(app_data).git_op.agent_id {
                Some(id) if position(old(app_data).storage@, id) >= 0 => (r matches PrStep::Open {
                    branch,
                    base,
                    ..
                } && branch@ == old(app_data).git_op.branch_name@ && base@ == old(
                    app_data,
                ).git_op.base_branch@),
                _ => r matches PrStep::Done(AppMode::ErrorModal { .. }),
            },
            success ==> *final(app_data) == *old(app_data),
            !success ==> *final(app_data) == (AppData { git_op: final(app_data).git_op, ..*old(app_data) }),
    {
        if !success {
            app_data.git_op.clear();
            return PrStep::Done(error_mode(concat2("Push failed: ", trim(stderr))));
        }
        proof {
            if let Some(id) = app_data.git_op.agent_id {
                lemma_position(app_data.storage@, id);
            }
        }
        Actions::open_pr_target(app_data)
    }
}

impl Actions {
    /// Finish the pull-request flow with what the tool reported.
    pub fn finish_open_pr(app_data: &mut AppData, outcome: GhOutcome) -> (r: AppMode)
        ensures
            git_op_cleared(final(app_data).git_op),
            final(app_data).storage == old(app_data).storage,
            match outcome {
                GhOutcome::Opened => r == AppMode::Normal && status_is(
                    *final(app_data),
                    "Opening PR: "@ + old(app_data).git_op.branch_name@ + " → "@ + old(
                        app_data,
                    ).git_op.base_branch@,
                ),
                GhOutcome::Failed(e) => is_error(r, "Failed to open PR: "@ + trim_spec(e@)),
                GhOutcome::NotFound => is_error(
                    r,
                    "Failed to open PR: gh CLI not found. Install it with: brew install gh"@,
                ),
            },
    {
        match outcome {
            GhOutcome::Opened => {
                let msg = concat4(
                    "Opening PR: ",
                    app_data.git_op.branch_name.as_str(),
                    " → ",
                    app_data.git_op.base_branch.as_str(),
                );
                app_data.set_status(msg);
                app_data.git_op.clear();
                AppMode::Normal
            },
            GhOutcome::Failed(e) => {
                app_data.git_op.clear();
                error_mode(concat2("Failed to open PR: ", trim(e.as_str())))
            },
            GhOutcome::NotFound => {
                app_data.git_op.clear();
                error_mode(owned("Failed to open PR: gh CLI not found. Install it with: brew install gh"))
            },
        }
    }
}

impl Actions {
    /// Begin the pull-request flow for the selected agent, given the detected base branch
    /// and whether commits are yet to be pushed: confirm a push first, or open the page.
    pub fn open_pr_flow(app_data: &mut AppData, base_branch: String, has_unpushed: bool) -> (r: Result<PrStep, String>)
        ensures
            match old(app_data).selected_agent {
                Some(id) if position(old(app_data).storage@, id) >= 0 => {
                    let a = old(app_data).storage@[position(old(app_data).storage@, id)];
                    &&& final(app_data).git_op.agent_id == Some(id)
                    &&& final(app_data).git_op.branch_name@ == a.branch
                    &&& final(app_data).git_op.base_branch@ == base_branch@
                    &&& final(app_data).git_op.has_unpushed == has_unpushed
                    &&& has_unpushed ==> (r matches Ok(PrStep::Done(AppMode::ConfirmPushForPR)))
                    &&& !has_unpushed ==> (r matches Ok(PrStep::Open { worktree_path, branch, base })
                        && worktree_path@ == a.worktree_path && branch@ == a.branch && base@
                        == base_branch@)
                    &&& *final(app_data) == (AppData { git_op: final(app_data).git_op, ..*old(app_data) })
                },
                _ => r matches Err(e) && e@ == "No agent selected"@ && *final(app_data) == *old(app_data),
            },
    {
        proof {
            if let Some(id) = app_data.selected_agent {
                lemma_position(app_data.storage@, id);
            }
        }
        let (id, branch, worktree) = match app_data.selected_agent() {
            Some(a) => (a.id, a.branch.clone(), a.worktree_path.clone()),
            None => {
                return Err(owned("No agent selected"));
            },
        };
        let b2 = branch.clone();
        let base2 = base_branch.clone();
        app_data.git_op.start_open_pr(id, branch, base_branch, has_unpushed);
        if has_unpushed {
            return Ok(PrStep::Done(AppMode::ConfirmPushForPR));
        }
        Ok(PrStep::Open { worktree_path: worktree, branch: b2, base: base2 })
    }
}


/// The branch-flow step: check the flow and name the worktree, branch and target.
pub open spec fn branch_step_ok(old_d: AppData, new_d: AppData, r: GitStep, missing_id_msg: Seq<char>) -> bool {
    match old_d.git_op.agent_id {
        None => r matches GitStep::Done(m) && is_error(m, missing_id_msg) && flow_cleared(old_d, new_d),
        Some(id) => if position(old_d.storage@, id) == -1 {
            r matches GitStep::Done(m) && is_error(m, "Agent not found"@) && flow_cleared(old_d, new_d)
        } else {
            let a = old_d.storage@[position(old_d.storage@, id)];
            &&& r matches GitStep::Run { worktree_path, repo_root, branch, target }
            &&& worktree_path@ == a.worktree_path
            &&& crate::agent::opt_view(repo_root) == a.repo_root
            &&& branch@ == old_d.git_op.branch_name@
            &&& target@ == old_d.git_op.target_branch@
            &&& new_d == old_d
        },
    }
}

fn branch_step(app_data: &mut AppData, missing_id_msg: &str) -> (r: GitStep)
    ensures
        branch_step_ok(*old(app_data), *final(app_data), r, missing_id_msg@),
{
    if app_data.git_op.agent_id.is_none() {
        app_data.clear_git_flow();
        return GitStep::Done(error_mode(owned(missing_id_msg)));
    }
    match app_data.flow_agent_index() {
        None => {
            app_data.clear_git_flow();
            GitStep::Done(error_mode(owned("Agent not found")))
        },
        Some(i) => {
            let a = &app_data.storage.agents[i];
            GitStep::Run {
                worktree_path: a.worktree_path.clone(),
                repo_root: match &a.repo_root {
                    Some(r) => Some(r.clone()),
                    None => None,
                },
                branch: app_data.git_op.branch_name.clone(),
                target: app_data.git_op.target_branch.clone(),
            }
        },
    }
}

impl Actions {
    /// Execute the rebase flow: check it, then name the branch to rebase onto which
    /// target.
    pub fn execute_rebase(app_data: &mut AppData) -> (r: GitStep)
        ensures
            branch_step_ok(*old(app_data), *final(app_data), r, "No agent ID for rebase"@),
    {
        branch_step(app_data, "No agent ID for rebase")
    }
}

impl Actions {
    /// Finish the rebase flow with what `git rebase` reported.
    pub fn finish_rebase(app_data: &mut AppData, success: bool, stdout: &str, stderr: &str) -> (r: GitOutcome)
        ensures
            success ==> (r matches GitOutcome::Mode(m) && is_success(
                m,
                "Rebased "@ + old(app_data).git_op.branch_name@ + " onto "@ + old(
                    app_data,
                ).git_op.target_branch@,
            ) && flow_cleared(*old(app_data), *final(app_data))),
            !success && rebase_conflict_spec(stdout@ + stderr@) ==> (r matches GitOutcome::ConflictTerminal {
                title,
                command,
            } && title@ == "Rebase Conflict"@ && command@ == "git status"@ && *final(app_data) == *old(
                app_data,
            )),
            !success && !rebase_conflict_spec(stdout@ + stderr@) ==> (r matches GitOutcome::Mode(m)
                && is_error(m, "Rebase failed: "@ + git_failure_message_spec(stdout@, stderr@))
                && flow_cleared(*old(app_data), *final(app_data))),
    {
        if !success {
            let combined = concat2(stdout, stderr);
            if output_indicates_rebase_conflict(combined.as_str()) {
                return GitOutcome::ConflictTerminal {
                    title: owned("Rebase Conflict"),
                    command: owned("git status"),
                };
            }
            let msg = git_failure_message(stdout, stderr);
            app_data.clear_git_flow();
            return GitOutcome::Mode(error_mode(concat2("Rebase failed: ", msg.as_str())));
        }
        let msg = concat4(
            "Rebased ",
            app_data.git_op.branch_name.as_str(),
            " onto ",
            app_data.git_op.target_branch.as_str(),
        );
        app_data.clear_git_flow();
        GitOutcome::Mode(success_mode(msg))
    }
}

impl Actions {
    /// Execute the merge flow: check it, then name the branch to merge into which target.
    pub fn execute_merge(app_data: &mut AppData) -> (r: GitStep)
        ensures
            branch_step_ok(*old(app_data), *final(app_data), r, "No agent ID for merge"@),
    {
        branch_step(app_data, "No agent ID for merge")
    }
}

/// `Merge <source> into <target>`, the merge commit message.
pub fn merge_commit_message(source: &str, target: &str) -> (r: String)
    ensures
        r@ == "Merge "@ + source@ + " into "@ + target@,
{
    concat4("Merge ", source, " into ", target)
}

/// Classify a merge attempt by its exit status and output.
pub fn merge_result(success: bool, stdout: &str, stderr: &str) -> (r: MergeResult)
    ensures
        success ==> r == MergeResult::Success,
        !success && merge_conflict_spec(stdout@ + stderr@) ==> r == MergeResult::Conflict,
        !success && !merge_conflict_spec(stdout@ + stderr@) ==> (r matches MergeResult::Failed(m) && m@
            == git_failure_message_spec(stdout@, stderr@)),
{
    if success {
        return MergeResult::Success;
    }
    let combined = concat2(stdout, stderr);
    if output_indicates_merge_conflict(combined.as_str()) {
        MergeResult::Conflict
    } else {
        MergeResult::Failed(git_failure_message(stdout, stderr))
    }
}

impl Actions {
    /// Finish a merge made in the worktree where the target branch is checked out.
    pub fn finish_merge_in_worktree(app_data: &mut AppData, success: bool, stdout: &str, stderr: &str) -> (r: GitOutcome)
        ensures
            success ==> (r matches GitOutcome::Mode(m) && is_success(
                m,
                "Merged "@ + old(app_data).git_op.branch_name@ + " into "@ + old(
                    app_data,
                ).git_op.target_branch@,
            ) && flow_cleared(*old(app_data), *final(app_data))),
            !success && merge_conflict_spec(stdout@ + stderr@) ==> (r == GitOutcome::WorktreeConflict
                && *final(app_data) == *old(app_data)),
            !success && !merge_conflict_spec(stdout@ + stderr@) ==> (r matches GitOutcome::Mode(m)
                && is_error(m, "Merge failed: "@ + git_failure_message_spec(stdout@, stderr@))
                && flow_cleared(*old(app_data), *final(app_data))),
    {
        match merge_result(success, stdout, stderr) {
            MergeResult::Success => {
                let msg = concat4(
                    "Merged ",
                    app_data.git_op.branch_name.as_str(),
                    " into ",
                    app_data.git_op.target_branch.as_str(),
                );
                app_data.clear_git_flow();
                GitOutcome::Mode(success_mode(msg))
            },
            MergeResult::Conflict => GitOutcome::WorktreeConflict,
            MergeResult::Failed(msg) => {
                app_data.clear_git_flow();
                GitOutcome::Mode(error_mode(concat2("Merge failed: ", msg.as_str())))
            },
        }
    }
}

impl Actions {
    /// Finish a merge made in the main repository.
    pub fn finish_merge_in_main_repo(app_data: &mut AppData, result: MergeResult) -> (r: GitOutcome)
        ensures
            result == MergeResult::Success ==> (r matches GitOutcome::Mode(m) && is_success(
                m,
                "Merged "@ + old(app_data).git_op.branch_name@ + " into "@ + old(
                    app_data,
                ).git_op.target_branch@,
            ) && flow_cleared(*old(app_data), *final(app_data))),
            result == MergeResult::Conflict ==> (r matches GitOutcome::ConflictTerminal { title, command }
                && title@ == "Merge Conflict: "@ + old(app_data).git_op.branch_name@ + " -> "@ + old(
                app_data,
            ).git_op.target_branch@ && command@ == "git status"@ && *final(app_data) == *old(app_data)),
            result matches MergeResult::Failed(msg) ==> (r matches GitOutcome::Mode(m) && is_error(
                m,
                "Merge failed: "@ + msg@,
            ) && flow_cleared(*old(app_data), *final(app_data))),
    {
        match result {
            MergeResult::Success => {
                let msg = concat4(
                    "Merged ",
                    app_data.git_op.branch_name.as_str(),
                    " into ",
                    app_data.git_op.target_branch.as_str(),
                );
                app_data.clear_git_flow();
                GitOutcome::Mode(success_mode(msg))
            },
            MergeResult::Conflict => GitOutcome::ConflictTerminal {
                title: concat4(
                    "Merge Conflict: ",
                    app_data.git_op.branch_name.as_str(),
                    " -> ",
                    app_data.git_op.target_branch.as_str(),
                ),
                command: owned("git status"),
            },
            MergeResult::Failed(msg) => {
                app_data.clear_git_flow();
                GitOutcome::Mode(error_mode(concat2("Merge failed: ", msg.as_str())))
            },
        }
    }
}

impl Actions {
    /// End the merge flow because the target branch could not be checked out.
    pub fn checkout_failed(app_data: &mut AppData) -> (r: AppMode)
        ensures
            is_error(r, "Failed to checkout "@ + old(app_data).git_op.target_branch@),
            flow_cleared(*old(app_data), *final(app_data)),
    {
        let msg = concat2("Failed to checkout ", app_data.git_op.target_branch.as_str());
        app_data.clear_git_flow();
        error_mode(msg)
    }
}

/// Where a new terminal for conflict resolution goes: under `root_id`, in its
/// session, on its branch, in `worktree_path`.
#[derive(Debug)]
pub struct TerminalPlan {
    pub root_id: u128,
    pub root_session: String,
    pub worktree_path: String,
    pub branch: String,
    pub repo_root: Option<String>,
}

/// `p` describes the stored agent at index `i`, working in `worktree`.
pub open spec fn plan_from(p: TerminalPlan, s: Seq<AgentView>, i: int, worktree: Seq<char>) -> bool {
    &&& p.root_id == s[i].id
    &&& p.root_session@ == s[i].mux_session
    &&& p.worktree_path@ == worktree
    &&& p.branch@ == s[i].branch
    &&& crate::agent::opt_view(p.repo_root) == s[i].repo_root
}

fn plan_for(s: &crate::agent::Storage, i: usize, worktree: &String) -> (p: TerminalPlan)
    requires
        i < s@.len(),
    ensures
        plan_from(p, s@, i as int, worktree@),
{
    let a = &s.agents[i];
    TerminalPlan {
        root_id: a.id,
        root_session: a.mux_session.clone(),
        worktree_path: worktree.clone(),
        branch: a.branch.clone(),
        repo_root: match &a.repo_root {
            Some(r) => Some(r.clone()),
            None => None,
        },
    }
}

impl Actions {
    /// Where the terminal for a conflict in the flow's agent goes: under that agent's
    /// root, in the root's worktree.
    pub fn conflict_terminal_plan(app_data: &AppData) -> (r: Result<TerminalPlan, String>)
        ensures
            match app_data.git_op.agent_id {
                None => r matches Err(e) && e@ == "No agent ID"@,
                Some(id) => if position(app_data.storage@, id) == -1 {
                    r matches Err(e) && e@ == "Agent not found"@
                } else {
                    let ri = root_position(app_data.storage@, id);
                    r matches Ok(p) && plan_from(p, app_data.storage@, ri, app_data.storage@[ri].worktree_path)
                },
            },
    {
        let id = match app_data.git_op.agent_id {
            Some(id) => id,
            None => {
                return Err(owned("No agent ID"));
            },
        };
        if app_data.storage.find_index(id).is_none() {
            return Err(owned("Agent not found"));
        }
        proof {
            lemma_climb_stored(app_data.storage@, id, app_data.storage@.len());
        }
        match app_data.storage.root_ancestor_index(id) {
            Some(ri) => Ok(plan_for(&app_data.storage, ri, &app_data.storage.agents[ri].worktree_path)),
            None => Err(owned("Could not find root agent")),
        }
    }
}

/// The terminal agent for `plan`, in window `window_index`.
pub open spec fn terminal_agent_spec(plan: TerminalPlan, title: Seq<char>, id: u128, window_index: u32, a: AgentView) -> bool {
    &&& a.id == id
    &&& a.parent_id == Some(plan.root_id)
    &&& a.title == title
    &&& a.program == "terminal"@
    &&& a.branch == plan.branch@
    &&& a.worktree_path == plan.worktree_path@
    &&& a.repo_root == crate::agent::opt_view(plan.repo_root)
    &&& a.mux_session == plan.root_session@
    &&& a.window_index == Some(window_index)
    &&& a.status == Status::Starting
    &&& !a.collapsed
    &&& a.is_terminal
    &&& a.workspace_kind == WorkspaceKind::GitWorktree
}

impl Actions {
    /// Record the conflict terminal opened for `plan` as agent `terminal_id` in window
    /// `window_index`, expand its root and end the flow.
    pub fn finish_conflict_terminal(
        app_data: &mut AppData,
        plan: TerminalPlan,
        title: &str,
        terminal_id: u128,
        window_index: u32,
    ) -> (r: AppMode)
        ensures
            r == AppMode::Normal,
            final(app_data).storage@.len() == old(app_data).storage@.len() + 1,
            exists|t: AgentView|
                terminal_agent_spec(plan, title@, terminal_id, window_index, t) && final(app_data).storage@
                    == with_collapsed(old(app_data).storage@.push(t), plan.root_id, false),
            git_op_cleared(final(app_data).git_op),
            review_cleared(final(app_data).review),
            status_is(*final(app_data), "Opened terminal for conflict resolution: "@ + title@),
    {
        let t = Agent {
            id: terminal_id,
            parent_id: Some(plan.root_id),
            title: owned(title),
            program: owned("terminal"),
            branch: plan.branch,
            worktree_path: plan.worktree_path,
            repo_root: plan.repo_root,
            mux_session: plan.root_session,
            window_index: Some(window_index),
            status: Status::Starting,
            collapsed: false,
            is_terminal: true,
            workspace_kind: WorkspaceKind::GitWorktree,
        };
        let ghost tg = t@;
        proof {
            lemma_position(app_data.storage@.push(tg), plan.root_id);
        }
        app_data.storage.add(t);
        app_data.storage.set_collapsed(plan.root_id, false);
        app_data.clear_git_flow();
        app_data.set_status(concat2("Opened terminal for conflict resolution: ", title));
        proof {
            assert(terminal_agent_spec(plan, title@, terminal_id, window_index, tg));
        }
        AppMode::Normal
    }
}

impl Actions {
    /// The root agent that owns the worktree where a merge stopped: the first root whose
    /// canonical worktree path is `worktree`.
    pub fn merge_conflict_owner(
        storage: &crate::agent::Storage,
        canonical_paths: &Vec<String>,
        worktree: &str,
    ) -> (r: Option<usize>)
        requires
            canonical_paths@.len() == storage@.len(),
        ensures
            match r {
                Some(i) => i < storage@.len() && canonical_paths@[i as int]@ == worktree@
                    && storage@[i as int].parent_id.is_none() && forall|j: int|
                    0 <= j < i ==> !(canonical_paths@[j]@ == worktree@ && storage@[j].parent_id.is_none()),
                None => forall|j: int|
                    0 <= j < storage@.len() ==> !(canonical_paths@[j]@ == worktree@
                        && storage@[j].parent_id.is_none()),
            },
    {
        let w = owned(worktree);
        let mut i: usize = 0;
        while i < storage.agents.len()
            invariant
                canonical_paths@.len() == storage@.len(),
                w@ == worktree@,
                i <= storage@.len(),
                forall|j: int|
                    0 <= j < i ==> !(canonical_paths@[j]@ == worktree@ && storage@[j].parent_id.is_none()),
            decreases storage@.len() - i,
        {
            if canonical_paths[i] == w && storage.agents[i].is_root() {
                return Some(i);
            }
            i = i + 1;
        }
        None
    }
}

impl Actions {
    /// End a merge that stopped on conflicts in a worktree no agent owns: say where to
    /// resolve them.
    pub fn merge_conflict_without_owner(app_data: &mut AppData, worktree_display: &str) -> (r: AppMode)
        ensures
            r == AppMode::Normal,
            status_is(
                *final(app_data),
                "Merge conflict in "@ + old(app_data).git_op.target_branch@ + ". Resolve in: "@
                    + worktree_display@,
            ),
            flow_cleared(*old(app_data), *final(app_data)),
    {
        let msg = concat4(
            "Merge conflict in ",
            app_data.git_op.target_branch.as_str(),
            ". Resolve in: ",
            worktree_display,
        );
        app_data.set_status(msg);
        app_data.clear_git_flow();
        AppMode::Normal
    }
}

impl Actions {
    /// The plan for a terminal in the worktree of the agent at index `owner`.
    pub fn worktree_conflict_plan(app_data: &AppData, owner: usize, worktree: &String) -> (p: TerminalPlan)
        requires
            owner < app_data.storage@.len(),
        ensures
            plan_from(p, app_data.storage@, owner as int, worktree@),
    {
        plan_for(&app_data.storage, owner, worktree)
    }
}


impl Actions {
    /// Begin renaming the selected agent: its title goes into the input buffer.
    pub fn rename_agent(app_data: &mut AppData) -> (r: Result<AppMode, String>)
        ensures
            match old(app_data).selected_agent {
                Some(id) if position(old(app_data).storage@, id) >= 0 => {
                    let a = old(app_data).storage@[position(old(app_data).storage@, id)];
                    &&& r matches Ok(AppMode::RenameBranch)
                    &&& final(app_data).git_op.agent_id == Some(id)
                    &&& final(app_data).git_op.original_branch@ == a.title
                    &&& final(app_data).git_op.branch_name@ == a.title
                    &&& final(app_data).git_op.is_root_rename == a.parent_id.is_none()
                    &&& final(app_data).input@ == a.title
                    &&& *final(app_data) == (AppData {
                        input: final(app_data).input,
                        git_op: final(app_data).git_op,
                        ..*old(app_data)
                    })
                },
                _ => r matches Err(e) && e@ == "No agent selected"@ && *final(app_data) == *old(app_data),
            },
    {
        proof {
            if let Some(id) = app_data.selected_agent {
                lemma_position(app_data.storage@, id);
            }
        }
        let (id, title, is_root) = match app_data.selected_agent() {
            Some(a) => (a.id, a.title.clone(), a.is_root()),
            None => {
                return Err(owned("No agent selected"));
            },
        };
        app_data.input = title.clone();
        app_data.git_op.start_rename(id, title, is_root);
        Ok(AppMode::RenameBranch)
    }
}

/// The next step of the rename flow.
#[derive(Debug)]
pub enum RenameStep {
    /// The flow is over; show this mode.
    Done(AppMode),
    /// Rename the root agent `agent_id`: its branch, worktree and session.
    RenameRoot { agent_id: u128, old_name: String, new_name: String },
    /// The sub-agent was renamed; rename its window `window_index` in `session` too,
    /// then show the normal mode.
    RenameWindow { session: String, window_index: u32, new_name: String },
}

/// The first agent with id `id` renamed to `title`.
pub open spec fn with_title(s: Seq<AgentView>, id: u128, title: Seq<char>) -> Seq<AgentView> {
    if position(s, id) >= 0 {
        s.update(position(s, id), AgentView { title: title, ..s[position(s, id)] })
    } else {
        s
    }
}

/// What the rename step does to the application data and what it returns.
pub open spec fn rename_step_ok(old_d: AppData, new_d: AppData, r: RenameStep) -> bool {
    match old_d.git_op.agent_id {
            None => r matches RenameStep::Done(m) && is_error(m, "No agent ID for rename"@)
                && git_op_cleared(new_d.git_op) && new_d.storage == old_d.storage,
            Some(id) => if position(old_d.storage@, id) == -1 {
                &&& r matches RenameStep::Done(m)
                &&& is_error(m, "Agent not found"@)
                &&& new_d.git_op.agent_id.is_none()
                &&& new_d.storage == old_d.storage
            } else if old_d.git_op.original_branch@ == old_d.git_op.branch_name@ {
                &&& r == RenameStep::Done(AppMode::Normal)
                &&& status_is(new_d, "Name unchanged"@)
                &&& git_op_cleared(new_d.git_op)
                &&& new_d.storage == old_d.storage
            } else if old_d.git_op.is_root_rename {
                &&& r matches RenameStep::RenameRoot { agent_id, old_name, new_name }
                &&& agent_id == id
                &&& old_name@ == old_d.git_op.original_branch@
                &&& new_name@ == old_d.git_op.branch_name@
                &&& new_d == old_d
            } else {
                let a = old_d.storage@[position(old_d.storage@, id)];
                &&& new_d.storage@ == with_title(
                    old_d.storage@,
                    id,
                    old_d.git_op.branch_name@,
                )
                &&& status_is(new_d, "Renamed: "@ + a.title + " → "@ + old_d.git_op.branch_name@)
                &&& git_op_cleared(new_d.git_op)
                &&& match a.window_index {
                    Some(w) => r matches RenameStep::RenameWindow { session, window_index, new_name }
                        && session@ == a.mux_session && window_index == w
                        && new_name@ == old_d.git_op.branch_name@,
                    None => r == RenameStep::Done(AppMode::Normal),
                }
            },
        }
}

impl Actions {
    /// Execute the rename flow. A sub-agent is renamed here; a root agent needs its
    /// branch, worktree and session renamed by the caller first.
    pub fn execute_rename(app_data: &mut AppData) -> (r: RenameStep)
        ensures
            rename_step_ok(*old(app_data), *final(app_data), r),
    {
        let id = match app_data.git_op.agent_id {
            Some(id) => id,
            None => {
                app_data.git_op.clear();
                return RenameStep::Done(error_mode(owned("No agent ID for rename")));
            },
        };
        let i = match app_data.storage.find_index(id) {
            Some(i) => i,
            None => {
                app_data.git_op.agent_id = None;
                return RenameStep::Done(error_mode(owned("Agent not found")));
            },
        };
        if app_data.git_op.original_branch == app_data.git_op.branch_name {
            app_data.set_status(owned("Name unchanged"));
            app_data.git_op.clear();
            return RenameStep::Done(AppMode::Normal);
        }
        if app_data.git_op.is_root_rename {
            return RenameStep::RenameRoot {
                agent_id: id,
                old_name: app_data.git_op.original_branch.clone(),
                new_name: app_data.git_op.branch_name.clone(),
            };
        }
        let new_name = app_data.git_op.branch_name.clone();
        let old_title = app_data.storage.agents[i].title.clone();
        let session = app_data.storage.agents[i].mux_session.clone();
        let window = app_data.storage.agents[i].window_index;
        app_data.storage.agents[i].title = new_name.clone();
        assert(app_data.storage@ =~= with_title(old(app_data).storage@, id, new_name@));
        app_data.set_status(concat4("Renamed: ", old_title.as_str(), " → ", new_name.as_str()));
        app_data.git_op.clear();
        match window {
            Some(w) => RenameStep::RenameWindow { session, window_index: w, new_name },
            None => RenameStep::Done(AppMode::Normal),
        }
    }
}

impl Actions {
    /// Finish a root rename with what it came to.
    pub fn finish_rename(app_data: &mut AppData, result: Result<(), String>) -> (r: AppMode)
        ensures
            git_op_cleared(final(app_data).git_op),
            final(app_data).storage == old(app_data).storage,
            match result {
                Ok(()) => r == AppMode::Normal,
                Err(e) => is_error(r, "Rename failed: "@ + e@),
            },
    {
        app_data.git_op.clear();
        match result {
            Ok(()) => AppMode::Normal,
            Err(e) => error_mode(concat2("Rename failed: ", e.as_str())),
        }
    }
}

/// `s` after a root rename of agent `id`: its title, branch and worktree change, and
/// every agent below it moves to the new worktree.
pub open spec fn renamed_records(
    s: Seq<AgentView>,
    id: u128,
    title: Seq<char>,
    branch: Seq<char>,
    worktree: Seq<char>,
) -> Seq<AgentView> {
    Seq::new(
        s.len(),
        |i: int|
            if i == position(s, id) {
                AgentView { title: title, branch: branch, worktree_path: worktree, ..s[i] }
            } else if is_descendant(s, s[i].id, id) {
                AgentView { worktree_path: worktree, ..s[i] }
            } else {
                s[i]
            },
    )
}

impl Actions {
    /// Update the stored records after a root rename.
    pub fn update_agent_records(
        app_data: &mut AppData,
        agent_id: u128,
        new_name: &str,
        new_branch: &str,
        new_worktree_path: &str,
    )
        ensures
            final(app_data).storage@ == renamed_records(
                old(app_data).storage@,
                agent_id,
                new_name@,
                new_branch@,
                new_worktree_path@,
            ),
            final(app_data).git_op == old(app_data).git_op,
            final(app_data).ui == old(app_data).ui,
            *final(app_data) == (AppData { storage: final(app_data).storage, ..*old(app_data) }),
    {
        let ghost s = app_data.storage@;
        let pos = app_data.storage.find_index(agent_id);
        let below = app_data.storage.descendant_flags(agent_id);
        let n = app_data.storage.agents.len();
        let mut i: usize = 0;
        while i < n
            invariant
                n == s.len(),
                app_data.storage@.len() == n,
                i <= n,
                match pos {
                    Some(p) => p as int == position(s, agent_id),
                    None => position(s, agent_id) == -1,
                },
                forall|j: int|
                    0 <= j < i ==> app_data.storage@[j] == renamed_records(
                        s,
                        agent_id,
                        new_name@,
                        new_branch@,
                        new_worktree_path@,
                    )[j],
                forall|j: int| i <= j < n ==> app_data.storage@[j] == s[j],
                below@.len() == n,
                forall|j: int| 0 <= j < n ==> below@[j] == is_descendant(s, s[j].id, agent_id),
                app_data.git_op == old(app_data).git_op,
                app_data.ui == old(app_data).ui,
                *app_data == (AppData { storage: app_data.storage, ..*old(app_data) }),
            decreases n - i,
        {
            let is_target = match pos {
                Some(p) => p == i,
                None => false,
            };
            let ghost prev = app_data.storage@;
            let ghost goal = renamed_records(s, agent_id, new_name@, new_branch@, new_worktree_path@);
            if is_target {
                app_data.storage.agents[i].title = owned(new_name);
                app_data.storage.agents[i].branch = owned(new_branch);
                app_data.storage.agents[i].worktree_path = owned(new_worktree_path);
            } else {
                if below[i] {
                    app_data.storage.agents[i].worktree_path = owned(new_worktree_path);
                }
            }
            proof {
                assert(app_data.storage@ =~= prev.update(i as int, goal[i as int]));
            }
            i = i + 1;
        }
        proof {
            assert(app_data.storage@ =~= renamed_records(
                s,
                agent_id,
                new_name@,
                new_branch@,
                new_worktree_path@,
            ));
        }
    }
}


/// `s` after the session of root agent `id` was renamed: it and every agent below it
/// name the new session.
pub open spec fn resessioned(s: Seq<AgentView>, id: u128, session: Seq<char>) -> Seq<AgentView> {
    Seq::new(
        s.len(),
        |i: int|
            if i == position(s, id) || is_descendant(s, s[i].id, id) {
                AgentView { mux_session: session, ..s[i] }
            } else {
                s[i]
            },
    )
}

impl Actions {
    /// Record that the session of root agent `agent_id` is now `new_session`.
    pub fn rename_mux_session_records(app_data: &mut AppData, agent_id: u128, new_session: &str)
        ensures
            final(app_data).storage@ == resessioned(old(app_data).storage@, agent_id, new_session@),
            final(app_data).git_op == old(app_data).git_op,
            final(app_data).ui == old(app_data).ui,
            *final(app_data) == (AppData { storage: final(app_data).storage, ..*old(app_data) }),
    {
        let ghost s = app_data.storage@;
        let pos = app_data.storage.find_index(agent_id);
        let below = app_data.storage.descendant_flags(agent_id);
        let n = app_data.storage.agents.len();
        let mut i: usize = 0;
        while i < n
            invariant
                n == s.len(),
                app_data.storage@.len() == n,
                i <= n,
                match pos {
                    Some(p) => p as int == position(s, agent_id),
                    None => position(s, agent_id) == -1,
                },
                below@.len() == n,
                forall|j: int| 0 <= j < n ==> below@[j] == is_descendant(s, s[j].id, agent_id),
                forall|j: int| 0 <= j < i ==> app_data.storage@[j] == resessioned(s, agent_id, new_session@)[j],
                forall|j: int| i <= j < n ==> app_data.storage@[j] == s[j],
                app_data.git_op == old(app_data).git_op,
                app_data.ui == old(app_data).ui,
                *app_data == (AppData { storage: app_data.storage, ..*old(app_data) }),
            decreases n - i,
        {
            let is_target = match pos {
                Some(p) => p == i,
                None => false,
            };
            let ghost prev = app_data.storage@;
            let ghost goal = resessioned(s, agent_id, new_session@);
            if is_target || below[i] {
                app_data.storage.agents[i].mux_session = owned(new_session);
            }
            proof {
                assert(app_data.storage@ =~= prev.update(i as int, goal[i as int]));
            }
            i = i + 1;
        }
        proof {
            assert(app_data.storage@ =~= resessioned(s, agent_id, new_session@));
        }
    }
}

/// The status after a root rename: whether the renamed branch was pushed where the
/// old one had a remote branch (which is kept).
pub open spec fn remote_rename_status_spec(
    old_name: Seq<char>,
    new_name: Seq<char>,
    old_branch: Seq<char>,
    remote_exists: bool,
    push_succeeded: bool,
) -> Seq<char> {
    if !remote_exists {
        "Renamed: "@ + old_name + " → "@ + new_name
    } else if push_succeeded {
        "Renamed: "@ + old_name + " → "@ + new_name + " (kept origin/"@ + old_branch + ")"@
    } else {
        "Renamed to "@ + new_name + " (remote push failed; origin/"@ + old_branch + " kept)"@
    }
}

impl Actions {
    /// Report the end of a root rename in the status line.
    pub fn handle_remote_branch_rename(
        app_data: &mut AppData,
        old_name: &str,
        new_name: &str,
        old_branch: &str,
        remote_exists: bool,
        push_succeeded: bool,
    )
        ensures
            status_is(
                *final(app_data),
                remote_rename_status_spec(old_name@, new_name@, old_branch@, remote_exists, push_succeeded),
            ),
            final(app_data).storage == old(app_data).storage,
            final(app_data).git_op == old(app_data).git_op,
            *final(app_data) == (AppData {
                ui: crate::data::UiState { status: final(app_data).ui.status, ..old(app_data).ui },
                ..*old(app_data)
            }),
    {
        let msg = if !remote_exists {
            concat4("Renamed: ", old_name, " → ", new_name)
        } else if push_succeeded {
            let mut m = concat4("Renamed: ", old_name, " → ", new_name);
            m.append(" (kept origin/");
            m.append(old_branch);
            m.append(")");
            m
        } else {
            let mut m = concat3("Renamed to ", new_name, " (remote push failed; origin/");
            m.append(old_branch);
            m.append(" kept)");
            m
        };
        app_data.set_status(msg);
    }
}

/// Open the branch selector for a rebase or merge of the selected agent's branch.
fn start_branch_selector(
    app_data: &mut AppData,
    branches: Vec<BranchInfo>,
    no_agent_msg: &str,
    rebase: bool,
) -> (r: AppMode)
    ensures
        match old(app_data).selected_agent {
            Some(id) if position(old(app_data).storage@, id) >= 0 => {
                let a = old(app_data).storage@[position(old(app_data).storage@, id)];
                &&& (if rebase {
                    r == AppMode::RebaseBranchSelector
                } else {
                    r == AppMode::MergeBranchSelector
                })
                &&& final(app_data).git_op.agent_id == Some(id)
                &&& final(app_data).git_op.branch_name@ == a.branch
                &&& final(app_data).git_op.target_branch@.len() == 0
                &&& final(app_data).review.branches == branches
                &&& final(app_data).review.selected == 0
                &&& final(app_data).review.base_branch.is_none()
                &&& *final(app_data) == (AppData {
                    git_op: final(app_data).git_op,
                    review: final(app_data).review,
                    ..*old(app_data)
                })
            },
            _ => is_error(r, no_agent_msg@) && *final(app_data) == *old(app_data),
        },
{
    proof {
        if let Some(id) = app_data.selected_agent {
            lemma_position(app_data.storage@, id);
        }
    }
    let (id, branch) = match app_data.selected_agent() {
        Some(a) => (a.id, a.branch.clone()),
        None => {
            return error_mode(owned(no_agent_msg));
        },
    };
    app_data.git_op.start_branch_flow(id, branch);
    app_data.review.clear();
    app_data.review.branches = branches;
    if rebase {
        AppMode::RebaseBranchSelector
    } else {
        AppMode::MergeBranchSelector
    }
}

impl Actions {
    /// Begin the rebase flow: offer `branches` to rebase the selected agent's branch onto.
    pub fn rebase_branch(app_data: &mut AppData, branches: Vec<BranchInfo>) -> (r: AppMode)
        ensures
            match old(app_data).selected_agent {
                Some(id) if position(old(app_data).storage@, id) >= 0 => r == AppMode::RebaseBranchSelector
                    && final(app_data).git_op.agent_id == Some(id)
                    && final(app_data).git_op.branch_name@ == old(app_data).storage@[position(old(app_data).storage@, id)].branch
                    && final(app_data).review.branches == branches
                    && *final(app_data) == (AppData {
                        git_op: final(app_data).git_op,
                        review: final(app_data).review,
                        ..*old(app_data)
                    }),
                _ => is_error(r, "No agent selected. Select an agent first to rebase."@) && *final(app_data) == *old(app_data),
            },
    {
        start_branch_selector(app_data, branches, "No agent selected. Select an agent first to rebase.", true)
    }
}

impl Actions {
    /// Begin the merge flow: offer `branches` to merge the selected agent's branch into.
    pub fn merge_branch(app_data: &mut AppData, branches: Vec<BranchInfo>) -> (r: AppMode)
        ensures
            match old(app_data).selected_agent {
                Some(id) if position(old(app_data).storage@, id) >= 0 => r == AppMode::MergeBranchSelector
                    && final(app_data).git_op.agent_id == Some(id)
                    && final(app_data).git_op.branch_name@ == old(app_data).storage@[position(old(app_data).storage@, id)].branch
                    && final(app_data).review.branches == branches
                    && *final(app_data) == (AppData {
                        git_op: final(app_data).git_op,
                        review: final(app_data).review,
                        ..*old(app_data)
                    }),
                _ => is_error(r, "No agent selected. Select an agent first to merge."@) && *final(app_data) == *old(app_data),
            },
    {
        start_branch_selector(app_data, branches, "No agent selected. Select an agent first to merge.", false)
    }
}

/// The branch that a selector entry names: `remote/name` for a remote branch with a
/// known remote, else its name.
pub open spec fn branch_target_spec(b: BranchInfo) -> Seq<char> {
    if b.is_remote && b.remote.is_some() {
        b.remote.unwrap()@ + "/"@ + b.name@
    } else {
        b.name@
    }
}

impl AppData {
    /// Take the highlighted branch as the target of the rebase or merge.
    pub fn confirm_rebase_merge_branch(&mut self) -> (r: bool)
        ensures
            r == (old(self).review.selected < old(self).review.branches@.len()),
            r ==> final(self).git_op.target_branch@ == branch_target_spec(
                old(self).review.branches@[old(self).review.selected as int],
            ),
            final(self).git_op.agent_id == old(self).git_op.agent_id,
            final(self).git_op.branch_name == old(self).git_op.branch_name,
            final(self).storage == old(self).storage,
    {
        if self.review.selected >= self.review.branches.len() {
            return false;
        }
        let b = &self.review.branches[self.review.selected];
        let target = if b.is_remote {
            match &b.remote {
                Some(remote) => concat3(remote.as_str(), "/", b.name.as_str()),
                None => b.name.clone(),
            }
        } else {
            b.name.clone()
        };
        self.git_op.target_branch = target;
        true
    }
}

} // verus!
