//! The action handler: what a key-bound action does in each mode.

use vstd::prelude::*;
use crate::agent::{AgentView, Status, has_children_spec, lemma_position, position, with_collapsed};
use crate::data::{
    App, AppData, SpawnState, UiState, before_validation, lays_out, next_tab, pane_scroll, sat_add_usize, sat_sub,
    stepped_next, stepped_prev, validated_after, with_pane_scroll,
};
use crate::git_flows::{GitStep, RenameStep, is_error, push_step_ok, rename_step_ok, status_is};
use crate::lifecycle::{
    KillPlan, ResetEntry, child_killed, kill_plan_ok, renumber_fits_check, reset_plan_ok,
};
use crate::state::{Action, AppMode, ConfirmAction};
use crate::swarm::{SynthesisPlan, synthesis_check, synthesis_plan_ok};
use crate::text::owned;
use crate::window::renumber_fits;

verus! {

/// Handle on the multiplexer's sessions.
#[derive(Clone, Copy, Debug)]
pub struct SessionManager;

/// Handle on captured pane output.
#[derive(Clone, Copy, Debug)]
pub struct OutputCapture;

/// Handle on the raw output stream of panes.
#[derive(Clone, Copy, Debug)]
pub struct OutputStream;

/// Handler for application actions.
#[derive(Clone, Copy, Debug)]
pub struct Actions {
    pub session_manager: SessionManager,
    pub output_capture: OutputCapture,
    pub output_stream: OutputStream,
}

/// What is left to do after an action was handled here.
#[derive(Debug)]
pub enum Dispatch {
    /// Nothing: the action was handled completely.
    Handled,
    /// Attach the terminal to the selected agent's session, once it is known to exist
    /// (see `Actions::attach_to_agent`).
    Attach,
    /// Hand the action to the scrolling mode's key map.
    Scrolling(Action),
    /// Push `branch` from `worktree_path`; with `open_pr`, open a pull request afterwards.
    Push { worktree_path: String, branch: String, open_pr: bool },
    /// Rename the root agent `agent_id`: its branch, worktree and session.
    RenameRoot { agent_id: u128, old_name: String, new_name: String },
    /// Rename window `window_index` of `session`.
    RenameWindow { session: String, window_index: u32, new_name: String },
    /// A killed child is already removed: close its windows `indices` (highest first)
    /// in `session`.
    CloseWindows { session: String, indices: Vec<u32> },
    /// Kill a root's tree as the plan says, then finish with `Actions::finish_kill_root`.
    KillRoot(KillPlan),
    /// The agents are already forgotten: kill the sessions and remove the worktrees of
    /// these roots.
    Reset(Vec<ResetEntry>),
    /// Capture, tear down and hand over as the plan says, then finish with
    /// `Actions::remove_synthesis_targets` and `Actions::finish_synthesis`.
    Synthesize(SynthesisPlan),
    /// Reconnect to the worktree that the new agent's branch already has.
    ReconnectWorktree,
}

/// The multiplexer session and window that attaching to an agent shows.
#[derive(Debug)]
pub struct AttachRequest {
    pub session: String,
    pub window_index: Option<u32>,
}

/// Index of the selected agent in the storage of `d`, or -1 when the selection
/// points at no stored agent.
pub open spec fn selected_index(d: AppData) -> int {
    match d.selected_agent {
        Some(id) => position(d.storage@, id),
        None => -1,
    }
}

/// The selected agent of `d`; meaningful when `selected_index(d) >= 0`.
pub open spec fn selected_view(d: AppData) -> AgentView {
    d.storage@[selected_index(d)]
}

/// Some stored agent of `d` is running.
pub open spec fn running_spec(d: AppData) -> bool {
    exists|i: int| 0 <= i < d.storage@.len() && d.storage@[i].status == Status::Running
}

/// The storage of `d` after the collapse toggle of the selected agent.
pub open spec fn toggled(d: AppData) -> Seq<AgentView> {
    if selected_index(d) >= 0 && has_children_spec(d.storage@, selected_view(d).id) {
        with_collapsed(d.storage@, selected_view(d).id, !selected_view(d).collapsed)
    } else {
        d.storage@
    }
}

/// The action was handled completely.
pub open spec fn handled(r: Result<Dispatch, String>) -> bool {
    r matches Ok(Dispatch::Handled)
}

/// The action was refused with `msg`.
pub open spec fn refused(r: Result<Dispatch, String>, msg: Seq<char>) -> bool {
    r matches Err(e) && e@ == msg
}

/// `new_app` and `r` are what `action` does in normal mode to `old_app`, with the
/// sidebar laid out by `sidebar`.
pub open spec fn normal_dispatch<F: Fn(&AppData) -> Vec<Option<u128>>>(
    old_app: App,
    new_app: App,
    action: Action,
    r: Result<Dispatch, String>,
    sidebar: F,
) -> bool {
    let d = old_app.data;
    let sel = selected_index(d) >= 0;
    let same_data = new_app.data == d;
    let same_mode = new_app.mode == old_app.mode;
    let offset = pane_scroll(d.ui, d.active_tab);
    match action {
        Action::NewAgent => same_data && new_app.mode == AppMode::Creating && handled(r),
        Action::NewAgentWithPrompt => same_data && new_app.mode == AppMode::Prompting && handled(r),
        Action::Attach => same_data && same_mode && if sel {
            r == Ok::<Dispatch, String>(Dispatch::Attach)
        } else {
            refused(r, "No agent selected"@)
        },
        Action::Kill => same_data && handled(r) && new_app.mode == (if sel {
            AppMode::Confirming(ConfirmAction::Kill)
        } else {
            old_app.mode
        }),
        Action::Push => if sel {
            &&& handled(r)
            &&& new_app.mode == AppMode::ConfirmPush
            &&& new_app.data.git_op.agent_id == d.selected_agent
            &&& new_app.data.git_op.branch_name@ == selected_view(d).branch
            &&& new_app.data == (AppData { git_op: new_app.data.git_op, ..d })
        } else {
            same_data && same_mode && refused(r, "No agent selected"@)
        },
        Action::SwitchTab => new_app.data == (AppData { active_tab: next_tab(d.active_tab), ..d })
            && same_mode && handled(r),
        Action::NextAgent => same_mode && handled(r) && exists|rows: Vec<Option<u128>>|
            sidebar.ensures((&d,), rows) && new_app.data == stepped_next(d, rows@),
        Action::PrevAgent => same_mode && handled(r) && exists|rows: Vec<Option<u128>>|
            sidebar.ensures((&d,), rows) && new_app.data == stepped_prev(d, rows@),
        Action::Help => same_data && new_app.mode == AppMode::Help && handled(r),
        Action::Quit => handled(r) && if running_spec(d) {
            same_data && new_app.mode == AppMode::Confirming(ConfirmAction::Quit)
        } else {
            new_app.data == (AppData { should_quit: true, ..d }) && same_mode
        },
        Action::ScrollUp => same_mode && handled(r) && new_app.data == with_pane_scroll(d, sat_sub(offset, 5)),
        Action::ScrollDown => same_mode && handled(r) && new_app.data == with_pane_scroll(
            d,
            sat_add_usize(offset, 5),
        ),
        Action::ScrollTop => same_mode && handled(r) && new_app.data == with_pane_scroll(d, 0),
        Action::ScrollBottom => same_mode && handled(r) && new_app.data == with_pane_scroll(d, 10000),
        Action::Cancel | Action::Confirm => same_data && new_app.mode == AppMode::Normal && handled(r),
        Action::SpawnChildren => handled(r) && new_app.mode == AppMode::ChildCount && new_app.data == (AppData {
            spawn: SpawnState { spawning_under: None, ..d.spawn },
            ..d
        }),
        Action::AddChildren => handled(r) && if sel {
            new_app.mode == AppMode::ChildCount && new_app.data == (AppData {
                spawn: SpawnState { spawning_under: Some(selected_view(d).id), ..d.spawn },
                ..d
            })
        } else {
            same_data && same_mode
        },
        Action::Synthesize => same_data && handled(r) && if !sel {
            same_mode
        } else if has_children_spec(d.storage@, selected_view(d).id) {
            new_app.mode == AppMode::Confirming(ConfirmAction::Synthesize)
        } else {
            is_error(new_app.mode, "Selected agent has no children to synthesize"@)
        },
        Action::ToggleCollapse => new_app.data.storage@ == toggled(d) && new_app.data == (AppData {
            storage: new_app.data.storage,
            ..d
        }) && same_mode && handled(r),
        Action::Broadcast => same_data && handled(r) && new_app.mode == (if sel {
            AppMode::Broadcasting
        } else {
            old_app.mode
        }),
        Action::UnfocusPreview => same_data && same_mode && handled(r),
    }
}

/// `new_app` and `r` are what confirming `c` does to `old_app`: quitting is marked, a
/// reset forgets every agent at once, a killed child is removed at once, and a killed
/// root or a synthesis is planned for the caller to carry out; the mode returns to
/// normal unless a synthesis is refused.
pub open spec fn confirmed<F: Fn(&AppData) -> Vec<Option<u128>>>(
    old_app: App,
    new_app: App,
    c: ConfirmAction,
    r: Result<Dispatch, String>,
    sidebar: F,
) -> bool {
    let d = old_app.data;
    let n = new_app.data;
    match c {
        ConfirmAction::Quit => n == (AppData { should_quit: true, ..d }) && new_app.mode == AppMode::Normal
            && handled(r),
        ConfirmAction::Reset => {
            &&& new_app.mode == AppMode::Normal
            &&& r matches Ok(Dispatch::Reset(plan)) && reset_plan_ok(d, plan@)
            &&& n.storage@.len() == 0
            &&& status_is(n, "All agents reset"@)
            &&& before_validation(d, n) == (AppData {
                storage: n.storage,
                ui: UiState { status: n.ui.status, ..d.ui },
                ..d
            })
            &&& validated_after(d, n, sidebar)
        },
        ConfirmAction::Kill => {
            &&& new_app.mode == AppMode::Normal
            &&& exists|plan: KillPlan| #[trigger] kill_plan_ok(d, plan) && match plan {
                KillPlan::Nothing => n == d && handled(r),
                KillPlan::Root { .. } => n == d && r == Ok::<Dispatch, String>(Dispatch::KillRoot(plan)),
                KillPlan::Child { agent_id, root_id, root_session, deleted_indices } => if renumber_fits(
                    d.storage@,
                    root_id,
                    seq![agent_id],
                    deleted_indices@,
                ) {
                    &&& child_killed(d, n, root_id, agent_id, deleted_indices@, sidebar)
                    &&& r matches Ok(Dispatch::CloseWindows { session, indices })
                    &&& session@ == root_session@
                    &&& indices@ == deleted_indices@
                } else {
                    n == d && refused(r, "Window indices of the agent tree are inconsistent"@)
                },
            }
        },
        ConfirmAction::Synthesize => n == d && match synthesis_check(d) {
            Err(e) => is_error(new_app.mode, e) && handled(r),
            Ok(i) => new_app.mode == AppMode::Normal && (r matches Ok(Dispatch::Synthesize(p))
                && synthesis_plan_ok(d, i, Seq::empty(), p)),
        },
        ConfirmAction::WorktreeConflict => n == d && new_app.mode == AppMode::Normal && r == Ok::<
            Dispatch,
            String,
        >(Dispatch::ReconnectWorktree),
    }
}

/// Attaching was refused with `msg`.
pub open spec fn refused_attach(r: Result<AttachRequest, String>, msg: Seq<char>) -> bool {
    r matches Err(e) && e@ == msg
}

/// The dispatch of a push step: `Done` shows its mode, `Run` asks for the push.
pub open spec fn push_dispatched(new_app: App, step: GitStep, r: Result<Dispatch, String>, open_pr: bool) -> bool {
    match step {
        GitStep::Done(m) => new_app.mode == m && handled(r),
        GitStep::Run { worktree_path, branch, .. } => {
            &&& r matches Ok(Dispatch::Push { worktree_path: w, branch: b, open_pr: o })
            &&& w@ == worktree_path@
            &&& b@ == branch@
            &&& o == open_pr
        },
    }
}

/// The dispatch of a rename step.
pub open spec fn rename_dispatched(old_app: App, new_app: App, step: RenameStep, r: Result<Dispatch, String>) -> bool {
    match step {
        RenameStep::Done(m) => new_app.mode == m && handled(r),
        RenameStep::RenameRoot { agent_id, old_name, new_name } => {
            &&& new_app.mode == old_app.mode
            &&& r matches Ok(Dispatch::RenameRoot { agent_id: i, old_name: o, new_name: n })
            &&& i == agent_id
            &&& o@ == old_name@
            &&& n@ == new_name@
        },
        RenameStep::RenameWindow { session, window_index, new_name } => {
            &&& new_app.mode == AppMode::Normal
            &&& r matches Ok(Dispatch::RenameWindow { session: s, window_index: w, new_name: n })
            &&& s@ == session@
            &&& w == window_index
            &&& n@ == new_name@
        },
    }
}

impl Actions {
    /// A handler over the multiplexer.
    pub fn new() -> (r: Actions)
        ensures
            r == (Actions { session_manager: SessionManager, output_capture: OutputCapture, output_stream: OutputStream }),
    {
        Actions { session_manager: SessionManager, output_capture: OutputCapture, output_stream: OutputStream }
    }

    /// Handle a key-bound action in the current mode of `app`; `sidebar` lays out the
    /// sidebar's rows (an agent's id, or a project header) for moving the selection.
    ///
    /// Returns an error where the action needs a selected agent and none is selected.
    pub fn handle_action<F: Fn(&AppData) -> Vec<Option<u128>>>(
        self,
        app: &mut App,
        action: Action,
        sidebar: &F,
    ) -> (r: Result<Dispatch, String>)
        requires
            lays_out(*sidebar),
        ensures
            match (old(app).mode, action) {
                (AppMode::Normal, a) => normal_dispatch(*old(app), *final(app), a, r, *sidebar),
                (AppMode::Scrolling, a) => *final(app) == *old(app) && r == Ok::<Dispatch, String>(
                    Dispatch::Scrolling(a),
                ),
                (AppMode::Confirming(c), Action::Confirm) => confirmed(*old(app), *final(app), c, r, *sidebar),
                (AppMode::ConfirmPush, Action::Confirm) => exists|step: GitStep|
                    push_step_ok(old(app).data, final(app).data, step, "No agent ID for push"@)
                        && push_dispatched(*final(app), step, r, false),
                (AppMode::ConfirmPushForPR, Action::Confirm) => exists|step: GitStep|
                    push_step_ok(old(app).data, final(app).data, step, "No agent ID for push"@)
                        && push_dispatched(*final(app), step, r, true),
                (AppMode::RenameBranch, Action::Confirm) => exists|step: RenameStep|
                    rename_step_ok(old(app).data, final(app).data, step) && rename_dispatched(
                        *old(app),
                        *final(app),
                        step,
                        r,
                    ),
                (AppMode::PreviewFocused, Action::UnfocusPreview) | (_, Action::Cancel) => final(app).data
                    == old(app).data && final(app).mode == AppMode::Normal && handled(r),
                _ => *final(app) == *old(app) && handled(r),
            },
    {
        match (&app.mode, action) {
            (AppMode::Normal, _) => self.dispatch_normal_mode(app, action, sidebar),
            (AppMode::Scrolling, _) => Ok(Dispatch::Scrolling(action)),
            (AppMode::Confirming(c), Action::Confirm) => {
                let c = *c;
                self.dispatch_confirmed(app, c, sidebar)
            },
            (AppMode::ConfirmPush, Action::Confirm) => {
                let step = Actions::execute_push(&mut app.data);
                Ok(Self::dispatch_push(app, step, false))
            },
            (AppMode::ConfirmPushForPR, Action::Confirm) => {
                let step = Actions::execute_push_and_open_pr(&mut app.data);
                Ok(Self::dispatch_push(app, step, true))
            },
            (AppMode::RenameBranch, Action::Confirm) => {
                let step = Actions::execute_rename(&mut app.data);
                let ghost g = step;
                let d = Self::dispatch_rename(app, step);
                assert(rename_step_ok(old(app).data, app.data, g) && rename_dispatched(*old(app), *app, g, Ok(d)));
                Ok(d)
            },
            (AppMode::PreviewFocused, Action::UnfocusPreview) | (_, Action::Cancel) => {
                app.mode = AppMode::Normal;
                Ok(Dispatch::Handled)
            },
            _ => Ok(Dispatch::Handled),
        }
    }

    /// Carry out the confirmed action `c`.
    fn dispatch_confirmed<F: Fn(&AppData) -> Vec<Option<u128>>>(
        self,
        app: &mut App,
        c: ConfirmAction,
        sidebar: &F,
    ) -> (r: Result<Dispatch, String>)
        requires
            lays_out(*sidebar),
        ensures
            confirmed(*old(app), *final(app), c, r, *sidebar),
    {
        match c {
            ConfirmAction::Quit => {
                app.mode = AppMode::Normal;
                app.data.should_quit = true;
                Ok(Dispatch::Handled)
            },
            ConfirmAction::Reset => {
                let plan = self.reset_plan(&app.data);
                Actions::finish_reset_all(&mut app.data, sidebar);
                app.mode = AppMode::Normal;
                Ok(Dispatch::Reset(plan))
            },
            ConfirmAction::Kill => {
                app.mode = AppMode::Normal;
                let plan = self.kill_agent(&app.data);
                let ghost gp = plan;
                match plan {
                    KillPlan::Nothing => Ok(Dispatch::Handled),
                    KillPlan::Root { .. } => Ok(Dispatch::KillRoot(plan)),
                    KillPlan::Child { agent_id, root_id, root_session, deleted_indices } => {
                        let closed = vec![agent_id];
                        proof {
                            assert(closed@ =~= seq![agent_id]);
                        }
                        if !renumber_fits_check(&app.data.storage, root_id, &closed, &deleted_indices) {
                            return Err(owned("Window indices of the agent tree are inconsistent"));
                        }
                        Actions::finish_kill_child(&mut app.data, root_id, agent_id, &deleted_indices, sidebar);
                        Ok(Dispatch::CloseWindows { session: root_session, indices: deleted_indices })
                    },
                }
            },
            ConfirmAction::Synthesize => match self.synthesize(&app.data) {
                Err(m) => {
                    app.mode = m;
                    Ok(Dispatch::Handled)
                },
                Ok(p) => {
                    app.mode = AppMode::Normal;
                    Ok(Dispatch::Synthesize(p))
                },
            },
            ConfirmAction::WorktreeConflict => {
                app.mode = AppMode::Normal;
                Ok(Dispatch::ReconnectWorktree)
            },
        }
    }

    /// Attach to the selected agent, given whether its session still exists; a gone
    /// session is reported in an error modal.
    pub fn attach_to_agent(self, app: &mut App, session_exists: bool) -> (r: Result<AttachRequest, String>)
        ensures
            selected_index(old(app).data) < 0 ==> *final(app) == *old(app) && refused_attach(r, "No agent selected"@),
            selected_index(old(app).data) >= 0 && !session_exists ==> {
                &&& final(app).data == old(app).data
                &&& is_error(final(app).mode, "Tmux session not found"@)
                &&& refused_attach(r, "Tmux session not found"@)
            },
            selected_index(old(app).data) >= 0 && session_exists ==> {
                let a = selected_view(old(app).data);
                &&& *final(app) == *old(app)
                &&& r matches Ok(q)
                &&& q.session@ == a.mux_session
                &&& q.window_index == a.window_index
            },
    {
        proof {
            if let Some(id) = app.data.selected_agent {
                lemma_position(app.data.storage@, id);
            }
        }
        let target: Option<(String, Option<u32>)> = match app.data.selected_agent() {
            Some(a) => Some((a.mux_session.clone(), a.window_index)),
            None => None,
        };
        match target {
            None => Err(owned("No agent selected")),
            Some((session, window_index)) => {
                if session_exists {
                    Ok(AttachRequest { session, window_index })
                } else {
                    app.mode = AppMode::ErrorModal { message: owned("Tmux session not found") };
                    Err(owned("Tmux session not found"))
                }
            },
        }
    }

    fn dispatch_push(app: &mut App, step: GitStep, open_pr: bool) -> (r: Dispatch)
        ensures
            final(app).data == old(app).data,
            push_dispatched(*final(app), step, Ok(r), open_pr),
    {
        match step {
            GitStep::Done(m) => {
                app.mode = m;
                Dispatch::Handled
            },
            GitStep::Run { worktree_path, branch, .. } => Dispatch::Push { worktree_path, branch, open_pr },
        }
    }

    fn dispatch_rename(app: &mut App, step: RenameStep) -> (r: Dispatch)
        ensures
            final(app).data == old(app).data,
            rename_dispatched(*old(app), *final(app), step, Ok(r)),
    {
        match step {
            RenameStep::Done(m) => {
                app.mode = m;
                Dispatch::Handled
            },
            RenameStep::RenameRoot { agent_id, old_name, new_name } => Dispatch::RenameRoot {
                agent_id,
                old_name,
                new_name,
            },
            RenameStep::RenameWindow { session, window_index, new_name } => {
                app.mode = AppMode::Normal;
                Dispatch::RenameWindow { session, window_index, new_name }
            },
        }
    }

    /// What an action does in normal mode.
    fn dispatch_normal_mode<F: Fn(&AppData) -> Vec<Option<u128>>>(
        self,
        app: &mut App,
        action: Action,
        sidebar: &F,
    ) -> (r: Result<Dispatch, String>)
        requires
            lays_out(*sidebar),
        ensures
            normal_dispatch(*old(app), *final(app), action, r, *sidebar),
    {
        proof {
            if let Some(id) = app.data.selected_agent {
                lemma_position(app.data.storage@, id);
            }
        }
        let selected: Option<u128> = match app.data.selected_agent() {
            Some(a) => Some(a.id),
            None => None,
        };
        match action {
            Action::NewAgent => {
                app.mode = AppMode::Creating;
                Ok(Dispatch::Handled)
            },
            Action::NewAgentWithPrompt => {
                app.mode = AppMode::Prompting;
                Ok(Dispatch::Handled)
            },
            Action::Attach => match selected {
                Some(_) => Ok(Dispatch::Attach),
                None => Err(owned("No agent selected")),
            },
            Action::Kill => {
                if selected.is_some() {
                    app.mode = AppMode::Confirming(ConfirmAction::Kill);
                }
                Ok(Dispatch::Handled)
            },
            Action::Push => match Actions::push_branch(&mut app.data) {
                Ok(m) => {
                    app.mode = m;
                    Ok(Dispatch::Handled)
                },
                Err(e) => Err(e),
            },
            Action::SwitchTab => {
                app.data.switch_tab();
                Ok(Dispatch::Handled)
            },
            Action::NextAgent => {
                let rows = sidebar(&app.data);
                let ghost before = app.data;
                app.data.select_next_row(&rows);
                assert(sidebar.ensures((&before,), rows));
                Ok(Dispatch::Handled)
            },
            Action::PrevAgent => {
                let rows = sidebar(&app.data);
                let ghost before = app.data;
                app.data.select_prev_row(&rows);
                assert(sidebar.ensures((&before,), rows));
                Ok(Dispatch::Handled)
            },
            Action::Help => {
                app.mode = AppMode::Help;
                Ok(Dispatch::Handled)
            },
            Action::Quit => {
                if app.data.has_running_agents() {
                    app.mode = AppMode::Confirming(ConfirmAction::Quit);
                } else {
                    app.data.should_quit = true;
                }
                Ok(Dispatch::Handled)
            },
            Action::ScrollUp => {
                app.data.scroll_up(5);
                Ok(Dispatch::Handled)
            },
            Action::ScrollDown => {
                app.data.scroll_down(5);
                Ok(Dispatch::Handled)
            },
            Action::ScrollTop => {
                app.data.scroll_to_top();
                Ok(Dispatch::Handled)
            },
            Action::ScrollBottom => {
                app.data.scroll_to_bottom(10000, 0);
                Ok(Dispatch::Handled)
            },
            Action::Cancel | Action::Confirm => {
                app.mode = AppMode::Normal;
                Ok(Dispatch::Handled)
            },
            Action::SpawnChildren => {
                app.data.spawn.spawning_under = None;
                app.mode = AppMode::ChildCount;
                Ok(Dispatch::Handled)
            },
            Action::AddChildren => {
                if let Some(id) = selected {
                    app.data.spawn.spawning_under = Some(id);
                    app.mode = AppMode::ChildCount;
                }
                Ok(Dispatch::Handled)
            },
            Action::Synthesize => {
                if let Some(id) = selected {
                    if app.data.storage.has_children(id) {
                        app.mode = AppMode::Confirming(ConfirmAction::Synthesize);
                    } else {
                        app.mode = AppMode::ErrorModal {
                            message: owned("Selected agent has no children to synthesize"),
                        };
                    }
                }
                Ok(Dispatch::Handled)
            },
            Action::ToggleCollapse => {
                self.toggle_collapse(app);
                Ok(Dispatch::Handled)
            },
            Action::Broadcast => {
                if selected.is_some() {
                    app.mode = AppMode::Broadcasting;
                }
                Ok(Dispatch::Handled)
            },
            Action::UnfocusPreview => Ok(Dispatch::Handled),
        }
    }

    /// Collapse or expand the selected agent, when it has children.
    pub fn toggle_collapse(self, app: &mut App)
        ensures
            final(app).data.storage@ == toggled(old(app).data),
            final(app).data == (AppData { storage: final(app).data.storage, ..old(app).data }),
            final(app).mode == old(app).mode,
    {
        proof {
            if let Some(id) = app.data.selected_agent {
                lemma_position(app.data.storage@, id);
            }
        }
        let target: Option<(u128, bool)> = match app.data.selected_agent() {
            Some(a) => Some((a.id, a.collapsed)),
            None => None,
        };
        if let Some((id, collapsed)) = target {
            if app.data.storage.has_children(id) {
                app.data.storage.set_collapsed(id, !collapsed);
            }
        }
    }
}

impl Default for Actions {
    fn default() -> (r: Actions)
        ensures
            r == (Actions { session_manager: SessionManager, output_capture: OutputCapture, output_stream: OutputStream }),
    {
        Actions::new()
    }
}

} // verus!
