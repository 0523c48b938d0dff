//! Agent lifecycle: killing agents and their windows, resetting, switching a root to
//! another branch, terminals, and agents that a worktree conflict displaces.

use vstd::prelude::*;
use crate::actions::{Actions, selected_index, selected_view};
use crate::agent::{
    Agent, AgentView, Storage, WorkspaceKind, Status, descendants_spec, is_descendant, lemma_position,
    position, with_collapsed,
};
use crate::data::{AppData, UiState, before_validation, lays_out, validated_after};
use crate::git_flows::{error_mode, is_error, status_is};
use crate::state::{AppMode, git_op_cleared, review_cleared};
use crate::swarm::{known_root_index, lemma_known_root};
use crate::text::{concat2, concat4, decimal, decimal_string, owned, starts_with, trim, trim_spec};
use crate::window::{
    adjust_window_indices_after_deletion, count_below, count_deleted_below, renumber, renumber_fits,
    renumbered,
};

verus! {

broadcast use vstd::seq_lib::group_seq_properties;

/// The window indices of a sequence of agents, in order, skipping agents without one.
pub open spec fn windows_of(s: Seq<AgentView>) -> Seq<u32>
    decreases s.len(),
{
    if s.len() == 0 {
        Seq::empty()
    } else {
        let prev = windows_of(s.drop_last());
        match s.last().window_index {
            Some(w) => prev.push(w),
            None => prev,
        }
    }
}

/// `v` never increases.
pub open spec fn non_increasing(v: Seq<u32>) -> bool {
    forall|i: int, j: int| 0 <= i < j < v.len() ==> v[i] >= v[j]
}

proof fn lemma_insert_non_increasing(before: Seq<u32>, j: int, x: u32)
    requires
        non_increasing(before),
        0 <= j <= before.len(),
        forall|k: int| 0 <= k < j ==> before[k] > x,
        j < before.len() ==> before[j] <= x,
    ensures
        non_increasing(before.insert(j, x)),
        before.insert(j, x).to_multiset() == before.to_multiset().insert(x),
{
    let v = before.insert(j, x);
    assert forall|a: int, b: int| 0 <= a < b < v.len() implies v[a] >= v[b] by {
        if b < j {
            assert(v[a] == before[a] && v[b] == before[b]);
        } else if a < j && b == j {
            assert(v[a] == before[a]);
        } else if a < j {
            assert(v[a] == before[a] && v[b] == before[b - 1]);
        } else if a == j {
            assert(v[b] == before[b - 1]);
            assert(before[j] >= before[b - 1]);
        } else {
            assert(v[a] == before[a - 1] && v[b] == before[b - 1]);
        }
    }
    vstd::seq_lib::to_multiset_insert(before, j, x);
}

/// Inserting `x` at `j` into the sorted `out`, which holds what `seen` holds, gives a
/// sorted sequence holding what `seen` and `x` hold.
proof fn lemma_sort_step(out: Seq<u32>, j: int, x: u32, seen: Seq<u32>)
    requires
        non_increasing(out),
        0 <= j <= out.len(),
        forall|k: int| 0 <= k < j ==> out[k] > x,
        j < out.len() ==> out[j] <= x,
        out.to_multiset() == seen.to_multiset(),
    ensures
        non_increasing(out.insert(j, x)),
        out.insert(j, x).to_multiset() == seen.push(x).to_multiset(),
{
    lemma_insert_non_increasing(out, j, x);
    vstd::seq_lib::to_multiset_build(seen, x);
}

/// The same indices as `v`, highest first.
#[verifier::spinoff_prover]
pub fn sort_desc(v: &Vec<u32>) -> (r: Vec<u32>)
    ensures
        non_increasing(r@),
        r@.to_multiset() == v@.to_multiset(),
{
    let mut out: Vec<u32> = Vec::new();
    let mut i: usize = 0;
    while i < v.len()
        invariant
            i <= v@.len(),
            non_increasing(out@),
            out@.to_multiset() == v@.take(i as int).to_multiset(),
        decreases v@.len() - i,
    {
        let x = v[i];
        let mut j: usize = 0;
        while j < out.len() && out[j] > x
            invariant
                j <= out@.len(),
                forall|k: int| 0 <= k < j ==> out@[k] > x,
            decreases out@.len() - j,
        {
            j = j + 1;
        }
        proof {
            lemma_sort_step(out@, j as int, x, v@.take(i as int));
            assert(v@.take(i + 1) =~= v@.take(i as int).push(x));
        }
        out.insert(j, x);
        i = i + 1;
    }
    proof {
        assert(v@.take(v@.len() as int) =~= v@);
    }
    out
}

/// The window indices of the agents below `id`, in storage order.
pub fn descendant_windows(storage: &Storage, id: u128) -> (r: Vec<u32>)
    ensures
        r@ == windows_of(descendants_spec(storage@, id)),
{
    let ghost s = storage@;
    let ghost pred = |g: AgentView| is_descendant(s, g.id, id);
    let below = storage.descendant_flags(id);
    let mut out: Vec<u32> = Vec::new();
    let mut i: usize = 0;
    while i < storage.agents.len()
        invariant
            s == storage@,
            pred == (|g: AgentView| is_descendant(s, g.id, id)),
            below@.len() == s.len(),
            forall|k: int| 0 <= k < s.len() ==> below@[k] == is_descendant(s, s[k].id, id),
            i <= s.len(),
            out@ == windows_of(s.take(i as int).filter(pred)),
        decreases s.len() - i,
    {
        proof {
            s.take(i as int).lemma_filter_push(s[i as int], pred);
            assert(s.take(i + 1) =~= s.take(i as int).push(s[i as int]));
        }
        if below[i] {
            proof {
                let f = s.take(i as int).filter(pred);
                assert(f.push(s[i as int]).drop_last() =~= f);
            }
            match storage.agents[i].window_index {
                Some(w) => {
                    out.push(w);
                },
                None => {},
            }
        }
        i = i + 1;
    }
    proof {
        assert(s.take(s.len() as int) =~= s);
    }
    out
}

/// Whether renumbering under `root_id` after closing the windows `deleted` of the
/// agents `closed` keeps every window index at or above zero.
pub fn renumber_fits_check(storage: &Storage, root_id: u128, closed: &Vec<u128>, deleted: &Vec<u32>) -> (r: bool)
    ensures
        r == renumber_fits(storage@, root_id, closed@, deleted@),
{
    let flags = crate::window::renumbered_flags(storage, root_id, closed);
    let mut i: usize = 0;
    while i < storage.agents.len()
        invariant
            i <= storage@.len(),
            flags@.len() == storage@.len(),
            forall|k: int| 0 <= k < flags@.len() ==> flags@[k] == renumbered(storage@, root_id, closed@, storage@[k]),
            forall|k: int|
                0 <= k < i && renumbered(storage@, root_id, closed@, storage@[k]) && storage@[k].window_index.is_some()
                    ==> count_below(deleted@, storage@[k].window_index.unwrap()) <= storage@[k].window_index.unwrap(),
        decreases storage@.len() - i,
    {
        if flags[i] {
            match storage.agents[i].window_index {
                Some(w) => {
                    let c = count_deleted_below(deleted, w);
                    if c > w as usize {
                        return false;
                    }
                },
                None => {},
            }
        }
        i = i + 1;
    }
    true
}

/// What killing the selected agent takes.
#[derive(Debug)]
pub enum KillPlan {
    /// No agent is selected: nothing to do.
    Nothing,
    /// Kill the tree of root `root_id`: close the windows in `window_indices` (highest
    /// first), then the session `session`, and remove the worktree of branch `branch`,
    /// deleting the branch too when `delete_branch`.
    Root { root_id: u128, session: String, branch: String, window_indices: Vec<u32>, delete_branch: bool },
    /// Close the windows `deleted_indices` (highest first) of child `agent_id` and the
    /// agents below it in `root_session`, the session of root `root_id`.
    Child { agent_id: u128, root_id: u128, root_session: String, deleted_indices: Vec<u32> },
}

/// Whether removing the worktree of `branch` deletes the branch too: it does for
/// branches this tool made.
pub open spec fn delete_branch_spec(branch: Seq<char>, prefix: Seq<char>) -> bool {
    prefix.is_prefix_of(branch) || "tenex/"@.is_prefix_of(branch)
}

/// The windows closed when child `a` of storage `s` is killed: those of the agents
/// below it and its own.
pub open spec fn child_windows(s: Seq<AgentView>, a: AgentView) -> Seq<u32> {
    windows_of(descendants_spec(s, a.id)) + match a.window_index {
        Some(w) => seq![w],
        None => Seq::empty(),
    }
}

/// `r` is what killing the selected agent of `d` takes.
pub open spec fn kill_plan_ok(d: AppData, r: KillPlan) -> bool {
    &&& selected_index(d) < 0 ==> r is Nothing
    &&& selected_index(d) >= 0 ==> {
                let s = d.storage@;
                let a = selected_view(d);
                let root = s[known_root_index(s, selected_index(d))];
                if a.parent_id.is_none() {
                    &&& r matches KillPlan::Root { root_id, session, branch, window_indices, delete_branch }
                    &&& root_id == a.id
                    &&& session@ == a.mux_session
                    &&& branch@ == a.branch
                    &&& non_increasing(window_indices@)
                    &&& window_indices@.to_multiset() == windows_of(descendants_spec(s, a.id)).to_multiset()
                    &&& delete_branch == delete_branch_spec(a.branch, d.config.branch_prefix@)
                } else {
                    &&& r matches KillPlan::Child { agent_id, root_id, root_session, deleted_indices }
                    &&& agent_id == a.id
                    &&& root_id == root.id
                    &&& root_session@ == root.mux_session
                    &&& non_increasing(deleted_indices@)
                    &&& deleted_indices@.to_multiset() == child_windows(s, a).to_multiset()
                }
            }
}

/// `new_d` is `old_d` after child `agent_id` of root `root_id` was killed with its
/// windows `deleted` closed, the selection brought back among the rows that `sidebar`
/// lays out.
pub open spec fn child_killed<F: Fn(&AppData) -> Vec<Option<u128>>>(
    old_d: AppData,
    new_d: AppData,
    root_id: u128,
    agent_id: u128,
    deleted: Seq<u32>,
    sidebar: F,
) -> bool {
    let s1 = if deleted.len() == 0 {
        old_d.storage@
    } else {
        renumber(old_d.storage@, root_id, seq![agent_id], deleted)
    };
    &&& new_d.storage@ == s1.filter(|g: AgentView| !(g.id == agent_id || is_descendant(s1, g.id, agent_id)))
    &&& status_is(new_d, "Agent killed"@)
    &&& before_validation(old_d, new_d) == (AppData {
        storage: new_d.storage,
        ui: UiState { status: new_d.ui.status, ..old_d.ui },
        ..old_d
    })
    &&& validated_after(old_d, new_d, sidebar)
}

impl Actions {
    /// Plan killing the selected agent and everything below it.
    pub fn kill_agent(self, app_data: &AppData) -> (r: KillPlan)
        ensures
            kill_plan_ok(*app_data, r),
    {
        proof {
            if let Some(id) = app_data.selected_agent {
                lemma_position(app_data.storage@, id);
            }
        }
        let i = match app_data.selected_agent {
            Some(id) => match app_data.storage.find_index(id) {
                Some(i) => i,
                None => {
                    return KillPlan::Nothing;
                },
            },
            None => {
                return KillPlan::Nothing;
            },
        };
        let a = &app_data.storage.agents[i];
        let below = descendant_windows(&app_data.storage, a.id);
        if a.is_root() {
            let delete_branch = starts_with(a.branch.as_str(), app_data.config.branch_prefix.as_str())
                || starts_with(a.branch.as_str(), "tenex/");
            return KillPlan::Root {
                root_id: a.id,
                session: a.mux_session.clone(),
                branch: a.branch.clone(),
                window_indices: sort_desc(&below),
                delete_branch,
            };
        }
        proof {
            lemma_known_root(app_data.storage@, i as int);
        }
        let ri = match app_data.storage.root_ancestor_index(a.id) {
            Some(ri) => ri,
            None => i,
        };
        let mut all = below;
        match a.window_index {
            Some(w) => {
                all.push(w);
            },
            None => {},
        }
        proof {
            assert(all@ =~= child_windows(app_data.storage@, app_data.storage@[i as int]));
        }
        KillPlan::Child {
            agent_id: a.id,
            root_id: app_data.storage.agents[ri].id,
            root_session: app_data.storage.agents[ri].mux_session.clone(),
            deleted_indices: sort_desc(&all),
        }
    }

    /// Finish killing child `agent_id` of root `root_id` once its windows
    /// `deleted_indices` are closed: renumber the windows left under the root and
    /// remove the child and everything below it.
    pub fn finish_kill_child<F: Fn(&AppData) -> Vec<Option<u128>>>(
        app_data: &mut AppData,
        root_id: u128,
        agent_id: u128,
        deleted_indices: &Vec<u32>,
        sidebar: &F,
    )
        requires
            renumber_fits(old(app_data).storage@, root_id, seq![agent_id], deleted_indices@),
            lays_out(*sidebar),
        ensures
            child_killed(*old(app_data), *final(app_data), root_id, agent_id, deleted_indices@, *sidebar),
    {
        adjust_window_indices_after_deletion(app_data, root_id, agent_id, deleted_indices);
        app_data.storage.remove_with_descendants(agent_id);
        app_data.set_status(owned("Agent killed"));
        let ghost mid = *app_data;
        app_data.validate_selection_in(sidebar);
        assert(before_validation(*old(app_data), *app_data) == mid);
    }

    /// Finish killing the tree of root `root_id`: remove it; a failure to remove its
    /// worktree is reported in the status line.
    pub fn kill_root_agent_tree(app_data: &mut AppData, root_id: u128, worktree_error: Option<&str>)
        ensures
            final(app_data).storage@ == old(app_data).storage@.filter(
                |g: AgentView| !(g.id == root_id || is_descendant(old(app_data).storage@, g.id, root_id)),
            ),
            match worktree_error {
                Some(e) => status_is(*final(app_data), "Warning: "@ + e@),
                None => final(app_data).ui == old(app_data).ui,
            },
            final(app_data).git_op == old(app_data).git_op,
            *final(app_data) == (AppData {
                storage: final(app_data).storage,
                ui: UiState { status: final(app_data).ui.status, ..old(app_data).ui },
                ..*old(app_data)
            }),
    {
        if let Some(e) = worktree_error {
            app_data.set_status(concat2("Warning: ", e));
        }
        app_data.storage.remove_with_descendants(root_id);
    }

    /// Finish killing the selected root agent's tree.
    pub fn finish_kill_root<F: Fn(&AppData) -> Vec<Option<u128>>>(
        app_data: &mut AppData,
        root_id: u128,
        worktree_error: Option<&str>,
        sidebar: &F,
    )
        requires
            lays_out(*sidebar),
        ensures
            final(app_data).storage@ == old(app_data).storage@.filter(
                |g: AgentView| !(g.id == root_id || is_descendant(old(app_data).storage@, g.id, root_id)),
            ),
            status_is(*final(app_data), "Agent killed"@),
            before_validation(*old(app_data), *final(app_data)) == (AppData {
                storage: final(app_data).storage,
                ui: UiState { status: final(app_data).ui.status, ..old(app_data).ui },
                ..*old(app_data)
            }),
            validated_after(*old(app_data), *final(app_data), *sidebar),
    {
        Actions::kill_root_agent_tree(app_data, root_id, worktree_error);
        app_data.set_status(owned("Agent killed"));
        let ghost mid = *app_data;
        app_data.validate_selection_in(sidebar);
        assert(before_validation(*old(app_data), *app_data) == mid);
    }
}

/// The stored roots, in storage order.
pub open spec fn stored_roots(s: Seq<AgentView>) -> Seq<AgentView> {
    s.filter(|g: AgentView| g.parent_id.is_none())
}

/// What resetting takes for one stored root.
#[derive(Debug)]
pub struct ResetEntry {
    /// The session to kill.
    pub session: String,
    /// The branch whose worktree is removed, when the root works in a git worktree.
    pub branch: Option<String>,
    /// The repository to remove it from, when known.
    pub repo_root: Option<String>,
    /// Whether the branch is deleted too.
    pub delete_branch: bool,
}

/// `plan` is what resetting `d` takes: for each stored root in storage order, its
/// session, repository, and the worktree branch to remove (with the branch itself when
/// this tool made it).
pub open spec fn reset_plan_ok(d: AppData, plan: Seq<ResetEntry>) -> bool {
    &&& plan.len() == stored_roots(d.storage@).len()
    &&& forall|k: int| 0 <= k < plan.len() ==> {
        let g = #[trigger] stored_roots(d.storage@)[k];
        let e = plan[k];
        &&& e.session@ == g.mux_session
        &&& crate::agent::opt_view(e.repo_root) == g.repo_root
        &&& e.delete_branch == delete_branch_spec(g.branch, d.config.branch_prefix@)
        &&& (g.workspace_kind == WorkspaceKind::GitWorktree ==> crate::agent::opt_view(e.branch) == Some(g.branch))
        &&& (g.workspace_kind != WorkspaceKind::GitWorktree ==> e.branch.is_none())
    }
}

impl Actions {
    /// What resetting all agents takes, root by root in storage order.
    pub fn reset_plan(self, app_data: &AppData) -> (r: Vec<ResetEntry>)
        ensures
            reset_plan_ok(*app_data, r@),
    {
        let roots = crate::sync::stored_root_agents(app_data);
        let ghost rv = crate::agent::agent_views(roots@);
        let mut out: Vec<ResetEntry> = Vec::new();
        let mut k: usize = 0;
        while k < roots.len()
            invariant
                rv == crate::agent::agent_views(roots@),
                rv == stored_roots(app_data.storage@),
                k <= roots@.len(),
                out@.len() == k,
                forall|j: int| 0 <= j < k ==> {
                    let g = #[trigger] rv[j];
                    let e = out@[j];
                    &&& e.session@ == g.mux_session
                    &&& crate::agent::opt_view(e.repo_root) == g.repo_root
                    &&& e.delete_branch == delete_branch_spec(g.branch, app_data.config.branch_prefix@)
                    &&& (g.workspace_kind == WorkspaceKind::GitWorktree ==> crate::agent::opt_view(e.branch) == Some(g.branch))
                    &&& (g.workspace_kind != WorkspaceKind::GitWorktree ==> e.branch.is_none())
                },
            decreases roots@.len() - k,
        {
            let a = &roots[k];
            assert(rv[k as int] == a@);
            let delete_branch = starts_with(a.branch.as_str(), app_data.config.branch_prefix.as_str())
                || starts_with(a.branch.as_str(), "tenex/");
            let branch = if a.workspace_kind == WorkspaceKind::GitWorktree {
                Some(a.branch.clone())
            } else {
                None
            };
            out.push(ResetEntry {
                session: a.mux_session.clone(),
                branch,
                repo_root: match &a.repo_root {
                    Some(r) => Some(r.clone()),
                    None => None,
                },
                delete_branch,
            });
            k = k + 1;
        }
        out
    }

    /// Finish resetting: no agent is stored, the status line says so, and the selection
    /// is brought back among the rows that `sidebar` lays out; nothing else changes.
    pub fn finish_reset_all<F: Fn(&AppData) -> Vec<Option<u128>>>(app_data: &mut AppData, sidebar: &F)
        requires
            lays_out(*sidebar),
        ensures
            final(app_data).storage@.len() == 0,
            status_is(*final(app_data), "All agents reset"@),
            before_validation(*old(app_data), *final(app_data)) == (AppData {
                storage: final(app_data).storage,
                ui: UiState { status: final(app_data).ui.status, ..old(app_data).ui },
                ..*old(app_data)
            }),
            validated_after(*old(app_data), *final(app_data), *sidebar),
    {
        app_data.storage.agents = Vec::new();
        app_data.set_status(owned("All agents reset"));
        let ghost mid = *app_data;
        app_data.validate_selection_in(sidebar);
        assert(before_validation(*old(app_data), *app_data) == mid);
    }
}

/// The next step of switching a root agent to another branch.
#[derive(Debug)]
pub enum SwitchStep {
    /// The switch is over; show this mode.
    Done(AppMode),
    /// Resolve `target` in the repository at `repo_root` and prepare its worktree for
    /// a new root running `program` in place of root `root_id`.
    Prepare { root_id: u128, target: String, program: String, repo_root: String },
}

/// What preparing the branch switch came to.
#[derive(Debug)]
pub enum SwitchOutcome {
    /// The target branch does not exist, locally or on a remote.
    BranchNotFound,
    /// The target's worktree path does not exist.
    WorktreeMissing(String),
    /// The old tree was killed and a new root `new_agent_id` runs on `branch`.
    Switched { new_agent_id: u128, branch: String },
    /// Something failed with this error.
    Failed(String),
}

/// The branch-switch flow is over: its state is cleared and nothing else changed but
/// what `rest` allows.
pub open spec fn switch_cleared(old_d: AppData, new_d: AppData) -> bool {
    &&& git_op_cleared(new_d.git_op)
    &&& review_cleared(new_d.review)
    &&& new_d.storage == old_d.storage
}

impl Actions {
    /// Begin switching the flow's root agent to the chosen branch.
    pub fn switch_branch(self, app_data: &mut AppData) -> (r: SwitchStep)
        ensures
            match old(app_data).git_op.agent_id {
                None => r matches SwitchStep::Done(m) && is_error(m, "No agent selected for branch switch."@)
                    && switch_cleared(*old(app_data), *final(app_data)),
                Some(id) => {
                    let target = trim_spec(old(app_data).git_op.target_branch@);
                    let current = old(app_data).git_op.branch_name@;
                    if target.len() == 0 {
                        r matches SwitchStep::Done(m) && is_error(m, "No target branch selected."@)
                            && switch_cleared(*old(app_data), *final(app_data))
                    } else if target == current {
                        &&& r == SwitchStep::Done(AppMode::Normal)
                        &&& switch_cleared(*old(app_data), *final(app_data))
                        &&& status_is(*final(app_data), "Already on branch: "@ + current)
                    } else if position(old(app_data).storage@, id) == -1 {
                        r matches SwitchStep::Done(m) && is_error(m, "Root agent not found."@)
                            && switch_cleared(*old(app_data), *final(app_data))
                    } else {
                        let a = old(app_data).storage@[position(old(app_data).storage@, id)];
                        &&& r matches SwitchStep::Prepare { root_id, target: t, program, repo_root }
                        &&& root_id == id
                        &&& t@ == target
                        &&& program@ == a.program
                        &&& repo_root@ == match a.repo_root {
                            Some(p) => p,
                            None => a.worktree_path,
                        }
                        &&& *final(app_data) == *old(app_data)
                    }
                },
            },
    {
        let id = match app_data.git_op.agent_id {
            Some(id) => id,
            None => {
                app_data.clear_git_flow();
                return SwitchStep::Done(error_mode(owned("No agent selected for branch switch.")));
            },
        };
        let target = owned(trim(app_data.git_op.target_branch.as_str()));
        if target.unicode_len() == 0 {
            app_data.clear_git_flow();
            return SwitchStep::Done(error_mode(owned("No target branch selected.")));
        }
        let current = app_data.git_op.branch_name.clone();
        if target == current {
            app_data.clear_git_flow();
            app_data.set_status(concat2("Already on branch: ", current.as_str()));
            return SwitchStep::Done(AppMode::Normal);
        }
        match app_data.storage.find_index(id) {
            None => {
                app_data.clear_git_flow();
                SwitchStep::Done(error_mode(owned("Root agent not found.")))
            },
            Some(i) => {
                let a = &app_data.storage.agents[i];
                let repo_root = match &a.repo_root {
                    Some(p) => p.clone(),
                    None => a.worktree_path.clone(),
                };
                SwitchStep::Prepare { root_id: id, target, program: a.program.clone(), repo_root }
            },
        }
    }

    /// Finish the branch switch with what preparing it came to.
    pub fn finish_switch_branch(self, app_data: &mut AppData, outcome: SwitchOutcome) -> (r: AppMode)
        ensures
            git_op_cleared(final(app_data).git_op),
            review_cleared(final(app_data).review),
            final(app_data).storage == old(app_data).storage,
            match outcome {
                SwitchOutcome::BranchNotFound => is_error(
                    r,
                    "Branch not found: "@ + trim_spec(old(app_data).git_op.target_branch@),
                ),
                SwitchOutcome::WorktreeMissing(p) => is_error(r, "Worktree path does not exist: "@ + p@),
                SwitchOutcome::Failed(e) => is_error(r, "Switch branch failed: "@ + e@),
                SwitchOutcome::Switched { new_agent_id, branch } => {
                    &&& r == AppMode::Normal
                    &&& final(app_data).selected_agent == Some(new_agent_id)
                    &&& status_is(*final(app_data), "Switched to branch: "@ + branch@)
                },
            },
    {
        let r = match outcome {
            SwitchOutcome::BranchNotFound => error_mode(
                concat2("Branch not found: ", trim(app_data.git_op.target_branch.as_str())),
            ),
            SwitchOutcome::WorktreeMissing(p) => error_mode(concat2("Worktree path does not exist: ", p.as_str())),
            SwitchOutcome::Failed(e) => error_mode(concat2("Switch branch failed: ", e.as_str())),
            SwitchOutcome::Switched { new_agent_id, branch } => {
                app_data.selected_agent = Some(new_agent_id);
                app_data.set_status(concat2("Switched to branch: ", branch.as_str()));
                AppMode::Normal
            },
        };
        app_data.clear_git_flow();
        r
    }
}

/// The title of a root started in the worktree at `path` on `branch`: the worktree's
/// directory name (the path's last part, trailing slashes aside), or the branch when
/// that part is empty or `..`.
pub open spec fn worktree_title_spec(path: Seq<char>, branch: Seq<char>) -> Seq<char> {
    let p = crate::text::trim_end_char_spec(path, '/');
    let name = match crate::text::after_last_spec(p, '/') {
        Some(x) => x,
        None => p,
    };
    if name.len() == 0 || name == ".."@ {
        branch
    } else {
        name
    }
}

/// The title of a root started in the worktree at `path` on `branch`.
pub fn worktree_title(path: &str, branch: &str) -> (r: String)
    ensures
        r@ == worktree_title_spec(path@, branch@),
{
    let p = crate::text::trim_end_char(path, '/');
    let name = match crate::text::after_last(p, '/') {
        Some(x) => x,
        None => p,
    };
    proof {
        reveal_strlit("..");
    }
    let dots = name.unicode_len() == 2 && starts_with(name, "..");
    proof {
        if name@.len() == 2 && "..".view().is_prefix_of(name@) {
            assert(name@ =~= ".."@);
        }
    }
    if name.unicode_len() == 0 || dots {
        owned(branch)
    } else {
        owned(name)
    }
}

/// The new root `g` that a branch switch starts: agent `id` titled after its worktree,
/// running `program` on `branch` in `worktree_path` of `repo_root`, in session
/// `session`, starting.
pub open spec fn switched_root(
    id: u128,
    session: Seq<char>,
    program: Seq<char>,
    branch: Seq<char>,
    worktree_path: Seq<char>,
    repo_root: Seq<char>,
    g: AgentView,
) -> bool {
    &&& g.id == id
    &&& g.parent_id.is_none()
    &&& g.title == worktree_title_spec(worktree_path, branch)
    &&& g.program == program
    &&& g.branch == branch
    &&& g.worktree_path == worktree_path
    &&& g.repo_root == Some(repo_root)
    &&& g.mux_session == session
    &&& g.window_index.is_none()
    &&& g.status == Status::Starting
    &&& !g.collapsed
    &&& !g.is_terminal
    &&& g.workspace_kind == WorkspaceKind::GitWorktree
}

impl Actions {
    /// The middle of a branch switch, once the old tree's sessions are gone and the new
    /// root's session `session` runs in the target worktree: forget the tree of
    /// `root_id` (bringing the selection back among the rows that `sidebar` lays out),
    /// record the new root `new_id`, and select it.
    pub fn restart_root_on_branch<F: Fn(&AppData) -> Vec<Option<u128>>>(
        app_data: &mut AppData,
        root_id: u128,
        new_id: u128,
        session: &str,
        program: &str,
        branch: &str,
        worktree_path: &str,
        repo_root: &str,
        sidebar: &F,
    )
        requires
            lays_out(*sidebar),
        ensures
            exists|mid: AppData, g: AgentView| {
                &&& mid.storage@ == old(app_data).storage@.filter(
                    |x: AgentView| !(x.id == root_id || is_descendant(old(app_data).storage@, x.id, root_id)),
                )
                &&& before_validation(*old(app_data), mid) == (AppData { storage: mid.storage, ..*old(app_data) })
                &&& validated_after(*old(app_data), mid, *sidebar)
                &&& switched_root(new_id, session@, program@, branch@, worktree_path@, repo_root@, g)
                &&& final(app_data).storage@ == mid.storage@.push(g)
                &&& exists|rows: Vec<Option<u128>>|
                    sidebar.ensures((&AppData { storage: final(app_data).storage, ..mid },), rows)
                        && *final(app_data) == crate::data::selected_by_id(
                        AppData { storage: final(app_data).storage, ..mid },
                        rows@,
                        new_id,
                    )
            },
    {
        app_data.storage.remove_with_descendants(root_id);
        let ghost removed = *app_data;
        app_data.validate_selection_in(sidebar);
        assert(before_validation(*old(app_data), *app_data) == removed);
        let ghost mid = *app_data;
        let root = Agent {
            id: new_id,
            parent_id: None,
            title: worktree_title(worktree_path, branch),
            program: owned(program),
            branch: owned(branch),
            worktree_path: owned(worktree_path),
            repo_root: Some(owned(repo_root)),
            mux_session: owned(session),
            window_index: None,
            status: Status::Starting,
            collapsed: false,
            is_terminal: false,
            workspace_kind: WorkspaceKind::GitWorktree,
        };
        let ghost g = root@;
        app_data.storage.add(root);
        let ghost added = *app_data;
        assert(added == (AppData { storage: added.storage, ..mid }));
        app_data.select_agent_by_id_in(sidebar, new_id);
        assert(switched_root(new_id, session@, program@, branch@, worktree_path@, repo_root@, g));
    }
}

/// Where a new terminal goes: under the root of the selected agent, in the root's
/// session and workspace.
#[derive(Debug)]
pub struct TerminalSpawn {
    pub root_id: u128,
    pub root_session: String,
    pub worktree_path: String,
    pub branch: String,
    pub repo_root: Option<String>,
    pub workspace_kind: WorkspaceKind,
}

/// The terminal agent `t` made for `p`, titled `title`, as agent `id` in window `w`.
pub open spec fn spawned_terminal(p: TerminalSpawn, title: Seq<char>, id: u128, w: u32, t: AgentView) -> bool {
    &&& t.id == id
    &&& t.parent_id == Some(p.root_id)
    &&& t.title == title
    &&& t.program == "terminal"@
    &&& t.branch == p.branch@
    &&& t.worktree_path == p.worktree_path@
    &&& t.repo_root == crate::agent::opt_view(p.repo_root)
    &&& t.mux_session == p.root_session@
    &&& t.window_index == Some(w)
    &&& t.status == Status::Starting
    &&& !t.collapsed
    &&& t.is_terminal
    &&& t.workspace_kind == p.workspace_kind
}

impl Actions {
    /// Where a new terminal under the selected agent's root goes.
    pub fn spawn_terminal(self, app_data: &AppData) -> (r: Result<TerminalSpawn, String>)
        ensures
            selected_index(*app_data) < 0 ==> (r matches Err(e) && e@ == "No agent selected"@),
            selected_index(*app_data) >= 0 ==> {
                let s = app_data.storage@;
                let root = s[known_root_index(s, selected_index(*app_data))];
                &&& r matches Ok(p)
                &&& p.root_id == root.id
                &&& p.root_session@ == root.mux_session
                &&& p.worktree_path@ == root.worktree_path
                &&& p.branch@ == root.branch
                &&& crate::agent::opt_view(p.repo_root) == root.repo_root
                &&& p.workspace_kind == root.workspace_kind
            },
    {
        proof {
            if let Some(id) = app_data.selected_agent {
                lemma_position(app_data.storage@, id);
            }
        }
        let i = match app_data.selected_agent {
            Some(id) => match app_data.storage.find_index(id) {
                Some(i) => i,
                None => {
                    return Err(owned("No agent selected"));
                },
            },
            None => {
                return Err(owned("No agent selected"));
            },
        };
        proof {
            lemma_known_root(app_data.storage@, i as int);
        }
        let ri = match app_data.storage.root_ancestor_index(app_data.storage.agents[i].id) {
            Some(ri) => ri,
            None => i,
        };
        let root = &app_data.storage.agents[ri];
        Ok(TerminalSpawn {
            root_id: root.id,
            root_session: root.mux_session.clone(),
            worktree_path: root.worktree_path.clone(),
            branch: root.branch.clone(),
            repo_root: match &root.repo_root {
                Some(r) => Some(r.clone()),
                None => None,
            },
            workspace_kind: root.workspace_kind,
        })
    }

    /// Record the terminal opened for `p` as agent `terminal_id` titled `title` in
    /// window `window_index`, and expand its root.
    pub fn finish_spawn_terminal(
        app_data: &mut AppData,
        p: TerminalSpawn,
        title: &str,
        terminal_id: u128,
        window_index: u32,
    ) -> (r: AppMode)
        ensures
            r == AppMode::Normal,
            exists|t: AgentView|
                spawned_terminal(p, title@, terminal_id, window_index, t) && final(app_data).storage@
                    == with_collapsed(old(app_data).storage@.push(t), p.root_id, false),
            status_is(*final(app_data), "Created terminal: "@ + title@),
            *final(app_data) == (AppData {
                storage: final(app_data).storage,
                ui: UiState { status: final(app_data).ui.status, ..old(app_data).ui },
                ..*old(app_data)
            }),
    {
        let ghost pv = p;
        let t = Agent {
            id: terminal_id,
            parent_id: Some(p.root_id),
            title: owned(title),
            program: owned("terminal"),
            branch: p.branch,
            worktree_path: p.worktree_path,
            repo_root: p.repo_root,
            mux_session: p.root_session,
            window_index: Some(window_index),
            status: Status::Starting,
            collapsed: false,
            is_terminal: true,
            workspace_kind: p.workspace_kind,
        };
        let ghost tg = t@;
        app_data.storage.add(t);
        app_data.storage.set_collapsed(p.root_id, false);
        app_data.set_status(concat2("Created terminal: ", title));
        proof {
            assert(spawned_terminal(pv, title@, terminal_id, window_index, tg));
        }
        AppMode::Normal
    }
}

impl Storage {
    /// Remove every agent with id `id` (and nothing else).
    pub fn remove(&mut self, id: u128)
        ensures
            final(self)@ == old(self)@.filter(|g: AgentView| g.id != id),
    {
        let ghost s = self@;
        let ghost keep = |g: AgentView| g.id != id;
        let mut out: Vec<Agent> = Vec::new();
        let mut i: usize = 0;
        while i < self.agents.len()
            invariant
                s == self@,
                keep == (|g: AgentView| g.id != id),
                i <= s.len(),
                crate::agent::agent_views(out@) == s.take(i as int).filter(keep),
            decreases s.len() - i,
        {
            proof {
                s.take(i as int).lemma_filter_push(s[i as int], keep);
                assert(s.take(i + 1) =~= s.take(i as int).push(s[i as int]));
            }
            if self.agents[i].id != id {
                let ghost before = out@;
                out.push(self.agents[i].duplicate());
                proof {
                    assert(crate::agent::agent_views(out@) =~= crate::agent::agent_views(before).push(s[i as int]));
                }
            }
            i = i + 1;
        }
        proof {
            assert(s.take(s.len() as int) =~= s);
        }
        self.agents = out;
    }
}

/// The agents that a worktree conflict for `branch` in `worktree_path` displaces:
/// those on that branch in that worktree.
pub open spec fn displaced(s: Seq<AgentView>, branch: Seq<char>, worktree_path: Seq<char>) -> Seq<AgentView> {
    s.filter(displaced_by(branch, worktree_path))
}

/// An agent is displaced when it is on `branch` in `worktree_path`.
pub open spec fn displaced_by(branch: Seq<char>, worktree_path: Seq<char>) -> spec_fn(AgentView) -> bool {
    |g: AgentView| g.branch == branch && g.worktree_path == worktree_path
}

/// An agent stays when it is not displaced.
pub open spec fn kept_by(branch: Seq<char>, worktree_path: Seq<char>) -> spec_fn(AgentView) -> bool {
    |g: AgentView| !(g.branch == branch && g.worktree_path == worktree_path)
}

/// `session` is used by a stored agent that is not displaced.
pub open spec fn session_kept(s: Seq<AgentView>, branch: Seq<char>, worktree_path: Seq<char>, session: Seq<char>) -> bool {
    exists|k: int|
        0 <= k < s.len() && s[k].mux_session == session && !(s[k].branch == branch && s[k].worktree_path
            == worktree_path)
}

impl Actions {
    /// Remove the agents displaced by reconnecting to the worktree of `branch` at
    /// `worktree_path`; return how many were removed and, for each of them in storage
    /// order, its session and whether an agent that stays uses that session too (a
    /// session that none uses any more is to be killed).
    pub fn remove_conflicting_agents<F: Fn(&AppData) -> Vec<Option<u128>>>(
        self,
        app_data: &mut AppData,
        branch: &str,
        worktree_path: &str,
        sidebar: &F,
    ) -> (r: (usize, Vec<(String, bool)>))
        requires
            lays_out(*sidebar),
        ensures
            before_validation(*old(app_data), *final(app_data)) == (AppData {
                storage: final(app_data).storage,
                ..*old(app_data)
            }),
            validated_after(*old(app_data), *final(app_data), *sidebar),
            r.0 == displaced(old(app_data).storage@, branch@, worktree_path@).len(),
            final(app_data).storage@ == old(app_data).storage@.filter(kept_by(branch@, worktree_path@)),
            r.1@.len() == r.0,
            forall|k: int| 0 <= k < r.1@.len() ==> {
                let g = displaced(old(app_data).storage@, branch@, worktree_path@)[k];
                &&& (#[trigger] r.1@[k]).0@ == g.mux_session
                &&& r.1@[k].1 == session_kept(old(app_data).storage@, branch@, worktree_path@, g.mux_session)
            },
    {
        let ghost s = app_data.storage@;
        let ghost hit = displaced_by(branch@, worktree_path@);
        let ghost miss = kept_by(branch@, worktree_path@);
        let b = owned(branch);
        let w = owned(worktree_path);
        let n = app_data.storage.agents.len();
        let mut sessions: Vec<(String, bool)> = Vec::new();
        let mut kept: Vec<Agent> = Vec::new();
        let mut i: usize = 0;
        while i < n
            invariant
                n == s.len(),
                s == app_data.storage@,
                b@ == branch@,
                w@ == worktree_path@,
                hit == displaced_by(branch@, worktree_path@),
                miss == kept_by(branch@, worktree_path@),
                i <= n,
                sessions@.len() == s.take(i as int).filter(hit).len(),
                sessions@.len() <= i,
                crate::agent::agent_views(kept@) == s.take(i as int).filter(miss),
                forall|k: int| 0 <= k < sessions@.len() ==> {
                    let g = s.take(i as int).filter(hit)[k];
                    &&& (#[trigger] sessions@[k]).0@ == g.mux_session
                    &&& sessions@[k].1 == session_kept(s, branch@, worktree_path@, g.mux_session)
                },
            decreases n - i,
        {
            let ghost before_hit = s.take(i as int).filter(hit);
            proof {
                s.take(i as int).lemma_filter_push(s[i as int], hit);
                s.take(i as int).lemma_filter_push(s[i as int], miss);
                assert(s.take(i + 1) =~= s.take(i as int).push(s[i as int]));
            }
            let a = &app_data.storage.agents[i];
            assert(s[i as int] == a@);
            if a.branch == b && a.worktree_path == w {
                let used = session_used_elsewhere(&app_data.storage, &b, &w, &a.mux_session);
                sessions.push((a.mux_session.clone(), used));
                proof {
                    let after_hit = s.take(i + 1).filter(hit);
                    assert(after_hit =~= before_hit.push(a@));
                    assert forall|k: int| 0 <= k < sessions@.len() implies {
                        let g = after_hit[k];
                        &&& (#[trigger] sessions@[k]).0@ == g.mux_session
                        &&& sessions@[k].1 == session_kept(s, branch@, worktree_path@, g.mux_session)
                    } by {
                        if k < before_hit.len() {
                            assert(after_hit[k] == before_hit[k]);
                        }
                    }
                }
            } else {
                let ghost before = kept@;
                kept.push(a.duplicate());
                proof {
                    assert(crate::agent::agent_views(kept@) =~= crate::agent::agent_views(before).push(a@));
                    assert(s.take(i + 1).filter(hit) =~= before_hit);
                }
            }
            i = i + 1;
        }
        proof {
            assert(s.take(n as int) =~= s);
        }
        app_data.storage.agents = kept;
        let ghost mid = *app_data;
        app_data.validate_selection_in(sidebar);
        assert(before_validation(*old(app_data), *app_data) == mid);
        (sessions.len(), sessions)
    }
}

fn session_used_elsewhere(storage: &Storage, branch: &String, worktree_path: &String, session: &String) -> (r: bool)
    ensures
        r == session_kept(storage@, branch@, worktree_path@, session@),
{
    let mut k: usize = 0;
    while k < storage.agents.len()
        invariant
            k <= storage@.len(),
            forall|j: int|
                0 <= j < k ==> !(storage@[j].mux_session == session@ && !(storage@[j].branch == branch@
                    && storage@[j].worktree_path == worktree_path@)),
        decreases storage@.len() - k,
    {
        let g = &storage.agents[k];
        assert(storage@[k as int] == g@);
        if g.mux_session == *session && !(g.branch == *branch && g.worktree_path == *worktree_path) {
            return true;
        }
        k = k + 1;
    }
    false
}

impl Actions {
    /// Record the root agent created and launched for `title`, select it, and say so
    /// in the status line.
    pub fn finish_create_agent(app_data: &mut AppData, agent: Agent, title: &str, cleaned_stale_worktree: bool) -> (r: AppMode)
        ensures
            r == AppMode::Normal,
            final(app_data).storage@ == old(app_data).storage@.push(agent@),
            final(app_data).selected_agent == Some(agent.id),
            status_is(*final(app_data), if cleaned_stale_worktree {
                "Cleaned stale worktree and created agent: "@ + title@
            } else {
                "Created agent: "@ + title@
            }),
    {
        let id = agent.id;
        app_data.storage.add(agent);
        app_data.selected_agent = Some(id);
        if cleaned_stale_worktree {
            app_data.set_status(concat2("Cleaned stale worktree and created agent: ", title));
        } else {
            app_data.set_status(concat2("Created agent: ", title));
        }
        AppMode::Normal
    }

    /// The size to resize a new agent's pane to: the preview's, once it is known; an
    /// empty side is refused with a status message.
    pub fn resize_target_to_preview(self, app_data: &mut AppData) -> (r: Option<(u16, u16)>)
        ensures
            final(app_data).storage == old(app_data).storage,
            match old(app_data).ui.preview_dimensions {
                None => r.is_none() && *final(app_data) == *old(app_data),
                Some((w, h)) => if w == 0 || h == 0 {
                    r.is_none() && status_is(
                        *final(app_data),
                        "Preview is too small to resize agent: "@ + decimal(w as nat) + "x"@ + decimal(h as nat),
                    )
                } else {
                    r == Some((w, h)) && *final(app_data) == *old(app_data)
                },
            },
    {
        match app_data.ui.preview_dimensions {
            None => None,
            Some((w, h)) => {
                if w == 0 || h == 0 {
                    let ws = decimal_string(w as u64);
                    let hs = decimal_string(h as u64);
                    app_data.set_status(concat4("Preview is too small to resize agent: ", ws.as_str(), "x", hs.as_str()));
                    None
                } else {
                    Some((w, h))
                }
            },
        }
    }
}

} // verus!
