//! Application modes, key actions and the per-flow state that handlers keep.

use vstd::prelude::*;

verus! {

/// Something the user may be asked to confirm.
#[derive(Clone, Copy, Debug, PartialEq, Eq, Structural)]
pub enum ConfirmAction {
    Kill,
    Reset,
    Quit,
    Synthesize,
    WorktreeConflict,
}

/// The mode the application is in, which decides how keys are read and what is drawn.
#[derive(Debug, PartialEq, Eq)]
pub enum AppMode {
    Normal,
    Scrolling,
    PreviewFocused,
    Creating,
    Prompting,
    Help,
    /// The settings menu (which program each kind of agent runs).
    SettingsMenu,
    Broadcasting,
    /// Choosing how many children to spawn.
    ChildCount,
    Confirming(ConfirmAction),
    ConfirmPush,
    ConfirmPushForPR,
    RenameBranch,
    RebaseBranchSelector,
    MergeBranchSelector,
    ErrorModal { message: String },
    SuccessModal { message: String },
}

/// A key-bound action.
#[derive(Clone, Copy, Debug, PartialEq, Eq, Structural)]
pub enum Action {
    NewAgent,
    NewAgentWithPrompt,
    Attach,
    Kill,
    Push,
    SwitchTab,
    NextAgent,
    PrevAgent,
    Help,
    Quit,
    ScrollUp,
    ScrollDown,
    ScrollTop,
    ScrollBottom,
    Cancel,
    Confirm,
    SpawnChildren,
    AddChildren,
    Synthesize,
    ToggleCollapse,
    Broadcast,
    UnfocusPreview,
}

/// The tab shown in the detail pane.
#[derive(Clone, Copy, Debug, PartialEq, Eq, Structural)]
pub enum Tab {
    Preview,
    Diff,
    Commits,
}

/// State of the git flow in progress (push, rename, pull request, rebase, merge).
#[derive(Debug)]
pub struct GitOpState {
    pub agent_id: Option<u128>,
    pub branch_name: String,
    pub original_branch: String,
    pub target_branch: String,
    pub base_branch: String,
    pub is_root_rename: bool,
    pub has_unpushed: bool,
}

/// A cleared git flow state.
pub open spec fn git_op_cleared(g: GitOpState) -> bool {
    &&& g.agent_id.is_none()
    &&& g.branch_name@.len() == 0
    &&& g.original_branch@.len() == 0
    &&& g.target_branch@.len() == 0
    &&& g.base_branch@.len() == 0
    &&& !g.is_root_rename
    &&& !g.has_unpushed
}

impl GitOpState {
    /// No flow in progress.
    pub fn new() -> (r: GitOpState)
        ensures
            git_op_cleared(r),
    {
        GitOpState {
            agent_id: None,
            branch_name: String::new(),
            original_branch: String::new(),
            target_branch: String::new(),
            base_branch: String::new(),
            is_root_rename: false,
            has_unpushed: false,
        }
    }

    /// End the flow in progress.
    pub fn clear(&mut self)
        ensures
            git_op_cleared(*final(self)),
    {
        *self = GitOpState::new();
    }

    /// Begin a push of `branch` for agent `agent_id`.
    pub fn start_push(&mut self, agent_id: u128, branch: String)
        ensures
            final(self).agent_id == Some(agent_id),
            final(self).branch_name@ == branch@,
    {
        self.clear();
        self.agent_id = Some(agent_id);
        self.branch_name = branch;
    }

    /// Begin renaming agent `agent_id`, currently named `current`.
    pub fn start_rename(&mut self, agent_id: u128, current: String, is_root: bool)
        ensures
            final(self).agent_id == Some(agent_id),
            final(self).original_branch@ == current@,
            final(self).branch_name@ == current@,
            final(self).is_root_rename == is_root,
    {
        self.clear();
        self.agent_id = Some(agent_id);
        self.branch_name = current.clone();
        self.original_branch = current;
        self.is_root_rename = is_root;
    }

    /// Begin a rebase or merge of `branch` for agent `agent_id`.
    pub fn start_branch_flow(&mut self, agent_id: u128, branch: String)
        ensures
            final(self).agent_id == Some(agent_id),
            final(self).branch_name@ == branch@,
            final(self).target_branch@.len() == 0,
    {
        self.clear();
        self.agent_id = Some(agent_id);
        self.branch_name = branch;
    }

    /// Begin opening a pull request.
    pub fn start_open_pr(&mut self, agent_id: u128, branch: String, base: String, has_unpushed: bool)
        ensures
            final(self).agent_id == Some(agent_id),
            final(self).branch_name@ == branch@,
            final(self).base_branch@ == base@,
            final(self).has_unpushed == has_unpushed,
    {
        self.clear();
        self.agent_id = Some(agent_id);
        self.branch_name = branch;
        self.base_branch = base;
        self.has_unpushed = has_unpushed;
    }
}

/// A branch offered by the branch selector.
#[derive(Debug)]
pub struct BranchInfo {
    pub name: String,
    pub is_remote: bool,
    pub remote: Option<String>,
}

/// State of the branch selector used by review, rebase and merge flows.
#[derive(Debug)]
pub struct ReviewState {
    pub branches: Vec<BranchInfo>,
    pub selected: usize,
    pub base_branch: Option<String>,
}

/// A cleared branch selector.
pub open spec fn review_cleared(r: ReviewState) -> bool {
    r.branches@.len() == 0 && r.selected == 0 && r.base_branch.is_none()
}

impl ReviewState {
    /// An empty selector.
    pub fn new() -> (r: ReviewState)
        ensures
            review_cleared(r),
    {
        ReviewState { branches: Vec::new(), selected: 0, base_branch: None }
    }

    /// Close the selector.
    pub fn clear(&mut self)
        ensures
            review_cleared(*final(self)),
    {
        *self = ReviewState::new();
    }
}

} // verus!
