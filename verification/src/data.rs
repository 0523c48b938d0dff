//! Application data that outlives mode transitions.

use vstd::prelude::*;
use crate::agent::{Agent, Status, Storage, position};
use crate::state::{AppMode, GitOpState, ReviewState, Tab};
use crate::text::{owned, trim, trim_spec};

verus! {

broadcast use vstd::seq_lib::group_seq_properties;

/// The program family used to start agents.
#[derive(Clone, Copy, Debug, PartialEq, Eq, Structural)]
pub enum AgentProgram {
    /// The configured default program.
    DefaultProgram,
    /// The `codex` program.
    Codex,
    /// The user's own command, or the default program when it is blank.
    Custom,
}

/// Configuration read at start-up.
#[derive(Debug)]
pub struct Config {
    pub default_program: String,
    pub branch_prefix: String,
}

/// User preferences.
#[derive(Debug)]
pub struct Settings {
    pub agent_program: AgentProgram,
    pub planner_agent_program: AgentProgram,
    pub review_agent_program: AgentProgram,
    pub custom_agent_command: String,
    pub planner_custom_agent_command: String,
    pub review_custom_agent_command: String,
}

/// UI state: status line, preview, diff and commit panes.
#[derive(Debug)]
pub struct UiState {
    pub status: Option<String>,
    pub preview_dimensions: Option<(u16, u16)>,
    pub preview_content: String,
    pub preview_scroll: usize,
    pub preview_follow: bool,
    /// Where the pane's cursor is, when it was read.
    pub preview_cursor_position: Option<(u16, u16)>,
    /// The size of the pane shown, when it was read.
    pub preview_pane_size: Option<(u16, u16)>,
    pub preview_using_full_history: bool,
    pub diff_content: String,
    pub diff_hash: u64,
    pub diff_has_unseen_changes: bool,
    pub diff_last_seen: Vec<(u128, u64)>,
    pub diff_scroll: usize,
    pub commits_content: String,
    pub commits_hash: u64,
    pub commits_has_unseen_changes: bool,
    pub commits_last_seen: Vec<(u128, u64)>,
    pub commits_scroll: usize,
    pub agent_list_scroll: usize,
}

/// Child-spawning state.
#[derive(Debug)]
pub struct SpawnState {
    pub child_count: usize,
    pub spawning_under: Option<u128>,
    pub use_plan_prompt: bool,
}

/// Persistent application data (everything except the current mode).
#[derive(Debug)]
pub struct AppData {
    pub config: Config,
    pub settings: Settings,
    pub storage: Storage,
    /// The agent that the sidebar selection points at, if it points at an agent.
    pub selected_agent: Option<u128>,
    /// Index of the selected sidebar row.
    pub selected: usize,
    pub active_tab: Tab,
    pub should_quit: bool,
    pub input: String,
    pub ui: UiState,
    pub git_op: GitOpState,
    pub review: ReviewState,
    pub spawn: SpawnState,
    pub synthesis_marks: Vec<u128>,
    /// The highlighted row of the slash-command palette.
    pub palette_selected: usize,
}

/// The application: its current mode and the data that outlives modes.
#[derive(Debug)]
pub struct App {
    pub mode: AppMode,
    pub data: AppData,
}

/// The command for a program choice whose custom command may be blank.
pub open spec fn custom_or_default_spec(custom: Seq<char>, default_program: Seq<char>) -> Seq<char> {
    if trim_spec(custom).len() == 0 {
        default_program
    } else {
        trim_spec(custom)
    }
}

/// The trimmed custom command, or the default program when it is blank.
pub fn custom_agent_command_or_default(custom: &str, default_program: &str) -> (r: String)
    ensures
        r@ == custom_or_default_spec(custom@, default_program@),
{
    let custom = trim(custom);
    if custom.unicode_len() == 0 {
        owned(default_program)
    } else {
        owned(custom)
    }
}

/// The command that a program choice starts.
pub open spec fn spawn_command_spec(
    program: AgentProgram,
    custom: Seq<char>,
    default_program: Seq<char>,
) -> Seq<char> {
    match program {
        AgentProgram::Codex => "codex"@,
        AgentProgram::DefaultProgram => default_program,
        AgentProgram::Custom => custom_or_default_spec(custom, default_program),
    }
}

fn spawn_command(program: AgentProgram, custom: &String, default_program: &String) -> (r: String)
    ensures
        r@ == spawn_command_spec(program, custom@, default_program@),
{
    match program {
        AgentProgram::Codex => owned("codex"),
        AgentProgram::DefaultProgram => default_program.clone(),
        AgentProgram::Custom => custom_agent_command_or_default(custom.as_str(), default_program.as_str()),
    }
}

/// The tab after `t` in the detail pane.
pub open spec fn next_tab(t: Tab) -> Tab {
    match t {
        Tab::Preview => Tab::Diff,
        Tab::Diff => Tab::Commits,
        Tab::Commits => Tab::Preview,
    }
}

impl AppData {
    /// The base command used when spawning new agents.
    pub fn agent_spawn_command(&self) -> (r: String)
        ensures
            r@ == spawn_command_spec(
                self.settings.agent_program,
                self.settings.custom_agent_command@,
                self.config.default_program@,
            ),
    {
        spawn_command(
            self.settings.agent_program,
            &self.settings.custom_agent_command,
            &self.config.default_program,
        )
    }

    /// The base command used when spawning planner agents.
    pub fn planner_agent_spawn_command(&self) -> (r: String)
        ensures
            r@ == spawn_command_spec(
                self.settings.planner_agent_program,
                self.settings.planner_custom_agent_command@,
                self.config.default_program@,
            ),
    {
        spawn_command(
            self.settings.planner_agent_program,
            &self.settings.planner_custom_agent_command,
            &self.config.default_program,
        )
    }

    /// The base command used when spawning review agents.
    pub fn review_agent_spawn_command(&self) -> (r: String)
        ensures
            r@ == spawn_command_spec(
                self.settings.review_agent_program,
                self.settings.review_custom_agent_command@,
                self.config.default_program@,
            ),
    {
        spawn_command(
            self.settings.review_agent_program,
            &self.settings.review_custom_agent_command,
            &self.config.default_program,
        )
    }

    /// The selected agent, when the selection points at a stored agent.
    pub fn selected_agent(&self) -> (r: Option<&Agent>)
        ensures
            match self.selected_agent {
                Some(id) => match r {
                    Some(a) => position(self.storage@, id) >= 0 && a@ == self.storage@[position(
                        self.storage@,
                        id,
                    )],
                    None => position(self.storage@, id) == -1,
                },
                None => r.is_none(),
            },
    {
        match self.selected_agent {
            Some(id) => self.storage.get(id),
            None => None,
        }
    }

    /// Whether any agent is running.
    pub fn has_running_agents(&self) -> (r: bool)
        ensures
            r == exists|i: int|
                0 <= i < self.storage@.len() && self.storage@[i].status == Status::Running,
    {
        let mut i: usize = 0;
        while i < self.storage.agents.len()
            invariant
                i <= self.storage@.len(),
                forall|j: int| 0 <= j < i ==> self.storage@[j].status != Status::Running,
            decreases self.storage@.len() - i,
        {
            if self.storage.agents[i].status == Status::Running {
                assert(self.storage@[i as int].status == Status::Running);
                return true;
            }
            i = i + 1;
        }
        false
    }

    /// Show `message` in the status line.
    pub fn set_status(&mut self, message: String)
        ensures
            *final(self) == (AppData {
                ui: UiState { status: Some(message), ..old(self).ui },
                ..*old(self)
            }),
    {
        self.ui.status = Some(message);
    }

    /// Move to the next tab of the detail pane.
    pub fn switch_tab(&mut self)
        ensures
            *final(self) == (AppData { active_tab: next_tab(old(self).active_tab), ..*old(self) }),
    {
        self.active_tab = match self.active_tab {
            Tab::Preview => Tab::Diff,
            Tab::Diff => Tab::Commits,
            Tab::Commits => Tab::Preview,
        };
    }
}

/// The height of the agent list's viewport: one more than the preview's inner height
/// (20 until the preview was measured).
pub open spec fn list_viewport(ui: UiState) -> int {
    match ui.preview_dimensions {
        Some((_, h)) => h + 1,
        None => 21,
    }
}

/// The agent list scroll that keeps row `selected` of `count` rows visible, starting
/// from scroll `scroll`.
pub open spec fn list_scroll_spec(count: int, selected: int, scroll: int, viewport: int) -> int {
    let max_scroll = if count > viewport { count - viewport } else { 0 };
    let s0 = if scroll < max_scroll { scroll } else { max_scroll };
    let s1 = if selected < s0 {
        selected
    } else if selected > s0 + viewport - 1 {
        selected - (viewport - 1)
    } else {
        s0
    };
    if count == 0 {
        0
    } else if s1 < max_scroll {
        s1
    } else {
        max_scroll
    }
}

/// The selection after moving down from `selected` among `count` rows (wrapping).
pub open spec fn next_selection(selected: int, count: int) -> int {
    if selected >= count {
        0
    } else {
        (selected + 1) % count
    }
}

/// The selection after moving up from `selected` among `count` rows (wrapping).
pub open spec fn prev_selection(selected: int, count: int) -> int {
    if selected == 0 || selected >= count {
        count - 1
    } else {
        selected - 1
    }
}

/// Row `selected` clamped into a list of `count` rows (0 when the list is empty).
pub open spec fn clamped_selection(selected: int, count: int) -> int {
    if count == 0 {
        0
    } else if selected >= count {
        count - 1
    } else {
        selected
    }
}

/// `d` with row `target` of a list of `count` rows selected and the list scrolled to
/// keep it visible.
pub open spec fn rescrolled(d: AppData, target: int, count: int) -> AppData {
    AppData {
        selected: target as usize,
        ui: UiState {
            agent_list_scroll: list_scroll_spec(count, target, d.ui.agent_list_scroll as int, list_viewport(d.ui))
                as usize,
            ..d.ui
        },
        ..d
    }
}

/// `d` after moving its selection to `target` among `count` rows: unchanged when the
/// list is empty or the selection stays.
pub open spec fn moved_selection(d: AppData, target: int, count: int) -> AppData {
    if count == 0 || target == d.selected {
        d
    } else {
        rescrolled(d, target, count)
    }
}

/// The agent shown in row `i` of the sidebar rows `rows` (each row shows an agent, or
/// is a project header), if that row shows one.
pub open spec fn row_agent(rows: Seq<Option<u128>>, i: int) -> Option<u128> {
    if 0 <= i < rows.len() {
        rows[i]
    } else {
        None
    }
}

/// `d` with the selected agent read from row `selected` of `rows`.
pub open spec fn pointed(d: AppData, rows: Seq<Option<u128>>) -> AppData {
    AppData { selected_agent: row_agent(rows, d.selected as int), ..d }
}

/// `d` after moving down one row of the sidebar `rows` (wrapping).
pub open spec fn stepped_next(d: AppData, rows: Seq<Option<u128>>) -> AppData {
    if rows.len() == 0 {
        d
    } else {
        pointed(moved_selection(d, next_selection(d.selected as int, rows.len() as int), rows.len() as int), rows)
    }
}

/// `d` after moving up one row of the sidebar `rows` (wrapping).
pub open spec fn stepped_prev(d: AppData, rows: Seq<Option<u128>>) -> AppData {
    if rows.len() == 0 {
        d
    } else {
        pointed(moved_selection(d, prev_selection(d.selected as int, rows.len() as int), rows.len() as int), rows)
    }
}

/// `d` with its selection brought back among the sidebar `rows` and kept visible.
pub open spec fn revalidated(d: AppData, rows: Seq<Option<u128>>) -> AppData {
    pointed(
        rescrolled(d, clamped_selection(d.selected as int, rows.len() as int), rows.len() as int),
        rows,
    )
}

/// `new_d` without what validating the selection changes: its selection, the agent
/// selected and the list scroll as they were in `old_d`.
pub open spec fn before_validation(old_d: AppData, new_d: AppData) -> AppData {
    AppData {
        selected: old_d.selected,
        selected_agent: old_d.selected_agent,
        ui: UiState { agent_list_scroll: old_d.ui.agent_list_scroll, ..new_d.ui },
        ..new_d
    }
}

/// `new_d` is what validating the selection gives after the change from `old_d`: the
/// sidebar laid out by `sidebar` for the changed data, and the selection brought back
/// among its rows.
pub open spec fn validated_after<F: Fn(&AppData) -> Vec<Option<u128>>>(old_d: AppData, new_d: AppData, sidebar: F) -> bool {
    exists|rows: Vec<Option<u128>>|
        sidebar.ensures((&before_validation(old_d, new_d),), rows) && new_d == revalidated(
            before_validation(old_d, new_d),
            rows@,
        )
}

/// Every caller may lay out the sidebar of any data with `sidebar`.
pub open spec fn lays_out<F: Fn(&AppData) -> Vec<Option<u128>>>(sidebar: F) -> bool {
    forall|d: &AppData| #[trigger] sidebar.requires((d,))
}

/// The scroll offset of the pane of tab `t`.
pub open spec fn pane_scroll(u: UiState, t: Tab) -> int {
    match t {
        Tab::Preview => u.preview_scroll as int,
        Tab::Diff => u.diff_scroll as int,
        Tab::Commits => u.commits_scroll as int,
    }
}

/// `d` with the scroll offset of its active pane set to `v`.
pub open spec fn with_pane_scroll(d: AppData, v: int) -> AppData {
    match d.active_tab {
        Tab::Preview => AppData { ui: UiState { preview_scroll: v as usize, ..d.ui }, ..d },
        Tab::Diff => AppData { ui: UiState { diff_scroll: v as usize, ..d.ui }, ..d },
        Tab::Commits => AppData { ui: UiState { commits_scroll: v as usize, ..d.ui }, ..d },
    }
}

/// `a - b`, or 0 below zero.
pub open spec fn sat_sub(a: int, b: int) -> int {
    if a >= b {
        a - b
    } else {
        0
    }
}

/// `a + b`, or `usize::MAX` above it.
pub open spec fn sat_add_usize(a: int, b: int) -> int {
    if a + b > usize::MAX {
        usize::MAX as int
    } else {
        a + b
    }
}

impl AppData {
    /// Keep the selected row of the agent list (of `visible_count` rows) visible.
    pub fn ensure_agent_list_scroll(&mut self, visible_count: usize)
        ensures
            final(self).ui.agent_list_scroll == list_scroll_spec(
                visible_count as int,
                old(self).selected as int,
                old(self).ui.agent_list_scroll as int,
                list_viewport(old(self).ui),
            ),
            *final(self) == (AppData {
                ui: UiState { agent_list_scroll: final(self).ui.agent_list_scroll, ..old(self).ui },
                ..*old(self)
            }),
            old(self).selected < visible_count ==> {
                let scroll = final(self).ui.agent_list_scroll;
                scroll <= old(self).selected < scroll + list_viewport(old(self).ui)
            },
    {
        if visible_count == 0 {
            self.ui.agent_list_scroll = 0;
            return;
        }
        let preview_height: usize = match self.ui.preview_dimensions {
            Some((_, h)) => h as usize,
            None => 20,
        };
        let viewport = preview_height + 1;
        let max_scroll = visible_count.saturating_sub(viewport);
        let mut scroll = if self.ui.agent_list_scroll < max_scroll {
            self.ui.agent_list_scroll
        } else {
            max_scroll
        };
        if self.selected < scroll {
            scroll = self.selected;
        } else {
            let bottom = scroll.saturating_add(viewport).saturating_sub(1);
            if self.selected > bottom {
                scroll = self.selected.saturating_sub(viewport.saturating_sub(1));
            }
        }
        self.ui.agent_list_scroll = if scroll < max_scroll {
            scroll
        } else {
            max_scroll
        };
    }

    /// Move the selection to the next of `item_count` sidebar rows (wrapping).
    pub fn select_next(&mut self, item_count: usize)
        ensures
            *final(self) == moved_selection(
                *old(self),
                next_selection(old(self).selected as int, item_count as int),
                item_count as int,
            ),
            final(self).selected < item_count ==> {
                let scroll = final(self).ui.agent_list_scroll;
                scroll <= final(self).selected < scroll + list_viewport(old(self).ui)
            } || final(self).selected == old(self).selected,
    {
        if item_count == 0 {
            return;
        }
        let next = if self.selected >= item_count {
            0
        } else {
            (self.selected + 1) % item_count
        };
        if next == self.selected {
            return;
        }
        self.selected = next;
        self.ensure_agent_list_scroll(item_count);
    }

    /// Move the selection to the previous of `item_count` sidebar rows (wrapping).
    pub fn select_prev(&mut self, item_count: usize)
        ensures
            *final(self) == moved_selection(
                *old(self),
                prev_selection(old(self).selected as int, item_count as int),
                item_count as int,
            ),
            final(self).selected < item_count ==> {
                let scroll = final(self).ui.agent_list_scroll;
                scroll <= final(self).selected < scroll + list_viewport(old(self).ui)
            } || final(self).selected == old(self).selected,
    {
        if item_count == 0 {
            return;
        }
        let prev = if self.selected == 0 || self.selected >= item_count {
            item_count - 1
        } else {
            self.selected - 1
        };
        if prev == self.selected {
            return;
        }
        self.selected = prev;
        self.ensure_agent_list_scroll(item_count);
    }

    /// Bring the selection back among the `visible_count` sidebar rows and keep it
    /// visible.
    pub fn validate_selection(&mut self, visible_count: usize)
        ensures
            *final(self) == rescrolled(
                *old(self),
                clamped_selection(old(self).selected as int, visible_count as int),
                visible_count as int,
            ),
            visible_count > 0 ==> {
                let scroll = final(self).ui.agent_list_scroll;
                scroll <= final(self).selected < scroll + list_viewport(old(self).ui)
            },
    {
        if visible_count == 0 {
            self.selected = 0;
        } else if self.selected >= visible_count {
            self.selected = visible_count - 1;
        }
        self.ensure_agent_list_scroll(visible_count);
    }
}

/// `u` shows nothing yet: no status, empty panes, no digests, following the preview.
pub open spec fn ui_fresh(u: UiState) -> bool {
    &&& u.status.is_none()
    &&& u.preview_dimensions.is_none()
    &&& u.preview_content@.len() == 0
    &&& u.preview_scroll == 0
    &&& u.preview_follow
    &&& u.preview_cursor_position.is_none()
    &&& u.preview_pane_size.is_none()
    &&& !u.preview_using_full_history
    &&& u.diff_content@.len() == 0
    &&& u.diff_hash == 0
    &&& !u.diff_has_unseen_changes
    &&& u.diff_last_seen@.len() == 0
    &&& u.diff_scroll == 0
    &&& u.commits_content@.len() == 0
    &&& u.commits_hash == 0
    &&& !u.commits_has_unseen_changes
    &&& u.commits_last_seen@.len() == 0
    &&& u.commits_scroll == 0
    &&& u.agent_list_scroll == 0
}

impl UiState {
    /// An empty ui: no status, nothing shown, following the preview's output.
    pub fn new() -> (r: UiState)
        ensures
            ui_fresh(r),
    {
        UiState {
            status: None,
            preview_dimensions: None,
            preview_content: String::new(),
            preview_scroll: 0,
            preview_follow: true,
            preview_cursor_position: None,
            preview_pane_size: None,
            preview_using_full_history: false,
            diff_content: String::new(),
            diff_hash: 0,
            diff_has_unseen_changes: false,
            diff_last_seen: Vec::new(),
            diff_scroll: 0,
            commits_content: String::new(),
            commits_hash: 0,
            commits_has_unseen_changes: false,
            commits_last_seen: Vec::new(),
            commits_scroll: 0,
            agent_list_scroll: 0,
        }
    }
}

/// `d` is fresh application data over `config`, `storage` and `settings`: the first row
/// below the project header selected and no agent, the preview tab shown, nothing
/// typed, shown or marked, no flow in progress, spawning one child under no agent.
pub open spec fn fresh_data(d: AppData, config: Config, storage: Storage, settings: Settings) -> bool {
    &&& d.config == config
    &&& d.storage == storage
    &&& d.settings == settings
    &&& d.selected_agent.is_none()
    &&& d.selected == 1
    &&& d.active_tab == Tab::Preview
    &&& !d.should_quit
    &&& d.input@.len() == 0
    &&& ui_fresh(d.ui)
    &&& crate::state::git_op_cleared(d.git_op)
    &&& crate::state::review_cleared(d.review)
    &&& d.spawn.child_count == 1
    &&& d.spawn.spawning_under.is_none()
    &&& !d.spawn.use_plan_prompt
    &&& d.synthesis_marks@.len() == 0
    &&& d.palette_selected == 0
}

impl SpawnState {
    /// Spawning one child under no agent yet, without the planning prompt.
    pub fn new() -> (r: SpawnState)
        ensures
            r.child_count == 1,
            r.spawning_under.is_none(),
            !r.use_plan_prompt,
    {
        SpawnState { child_count: 1, spawning_under: None, use_plan_prompt: false }
    }
}

impl AppData {
    /// Application data over `config`, `storage` and `settings`: the first row below
    /// the project header selected, the preview tab shown, no flow in progress.
    pub fn new(config: Config, storage: Storage, settings: Settings) -> (r: AppData)
        ensures
            fresh_data(r, config, storage, settings),
    {
        AppData {
            config,
            settings,
            storage,
            selected_agent: None,
            selected: 1,
            active_tab: Tab::Preview,
            should_quit: false,
            input: String::new(),
            ui: UiState::new(),
            git_op: GitOpState::new(),
            review: ReviewState::new(),
            spawn: SpawnState::new(),
            synthesis_marks: Vec::new(),
            palette_selected: 0,
        }
    }
}

impl App {
    /// The application in normal mode over fresh data.
    pub fn new(config: Config, storage: Storage, settings: Settings) -> (r: App)
        ensures
            r.mode == AppMode::Normal,
            fresh_data(r.data, config, storage, settings),
    {
        App { mode: AppMode::Normal, data: AppData::new(config, storage, settings) }
    }
}

/// The agent shown in row `i` of `rows`, if that row shows one.
fn row_at(rows: &Vec<Option<u128>>, i: usize) -> (r: Option<u128>)
    ensures
        r == row_agent(rows@, i as int),
{
    if i < rows.len() {
        rows[i]
    } else {
        None
    }
}

impl AppData {
    /// Select the next row of the sidebar `rows` (wrapping), and the agent it shows.
    pub fn select_next_row(&mut self, rows: &Vec<Option<u128>>)
        ensures
            *final(self) == stepped_next(*old(self), rows@),
    {
        if rows.len() == 0 {
            return;
        }
        self.select_next(rows.len());
        self.selected_agent = row_at(rows, self.selected);
    }

    /// Select the previous row of the sidebar `rows` (wrapping), and the agent it shows.
    pub fn select_prev_row(&mut self, rows: &Vec<Option<u128>>)
        ensures
            *final(self) == stepped_prev(*old(self), rows@),
    {
        if rows.len() == 0 {
            return;
        }
        self.select_prev(rows.len());
        self.selected_agent = row_at(rows, self.selected);
    }

    /// Bring the selection back among the sidebar `rows`, keep it visible, and select
    /// the agent its row shows.
    pub fn validate_selection_rows(&mut self, rows: &Vec<Option<u128>>)
        ensures
            *final(self) == revalidated(*old(self), rows@),
    {
        self.validate_selection(rows.len());
        self.selected_agent = row_at(rows, self.selected);
    }

    /// Lay out the sidebar of the data with `sidebar` and bring the selection back
    /// among its rows.
    pub fn validate_selection_in<F: Fn(&AppData) -> Vec<Option<u128>>>(&mut self, sidebar: &F)
        requires
            lays_out(*sidebar),
        ensures
            exists|rows: Vec<Option<u128>>|
                sidebar.ensures((&*old(self),), rows) && *final(self) == revalidated(*old(self), rows@),
    {
        let rows = sidebar(&*self);
        let ghost before = *self;
        self.validate_selection_rows(&rows);
        assert(sidebar.ensures((&before,), rows));
    }

    /// Scroll the active pane up by `amount` lines.
    pub fn scroll_up(&mut self, amount: usize)
        ensures
            *final(self) == with_pane_scroll(
                *old(self),
                sat_sub(pane_scroll(old(self).ui, old(self).active_tab), amount as int),
            ),
    {
        match self.active_tab {
            Tab::Preview => self.ui.preview_scroll = self.ui.preview_scroll.saturating_sub(amount),
            Tab::Diff => self.ui.diff_scroll = self.ui.diff_scroll.saturating_sub(amount),
            Tab::Commits => self.ui.commits_scroll = self.ui.commits_scroll.saturating_sub(amount),
        }
    }

    /// Scroll the active pane down by `amount` lines.
    pub fn scroll_down(&mut self, amount: usize)
        ensures
            *final(self) == with_pane_scroll(
                *old(self),
                sat_add_usize(pane_scroll(old(self).ui, old(self).active_tab), amount as int),
            ),
    {
        match self.active_tab {
            Tab::Preview => self.ui.preview_scroll = self.ui.preview_scroll.saturating_add(amount),
            Tab::Diff => self.ui.diff_scroll = self.ui.diff_scroll.saturating_add(amount),
            Tab::Commits => self.ui.commits_scroll = self.ui.commits_scroll.saturating_add(amount),
        }
    }

    /// Scroll the active pane to its top.
    pub fn scroll_to_top(&mut self)
        ensures
            *final(self) == with_pane_scroll(*old(self), 0),
    {
        match self.active_tab {
            Tab::Preview => self.ui.preview_scroll = 0,
            Tab::Diff => self.ui.diff_scroll = 0,
            Tab::Commits => self.ui.commits_scroll = 0,
        }
    }

    /// Scroll the active pane to its bottom: `content_lines` lines of which
    /// `visible_lines` fit.
    pub fn scroll_to_bottom(&mut self, content_lines: usize, visible_lines: usize)
        ensures
            *final(self) == with_pane_scroll(*old(self), sat_sub(content_lines as int, visible_lines as int)),
    {
        let bottom = content_lines.saturating_sub(visible_lines);
        match self.active_tab {
            Tab::Preview => self.ui.preview_scroll = bottom,
            Tab::Diff => self.ui.diff_scroll = bottom,
            Tab::Commits => self.ui.commits_scroll = bottom,
        }
    }
}

/// The first row at or after `i` of `rows` that shows agent `id`, or -1.
pub open spec fn row_of_from(rows: Seq<Option<u128>>, id: u128, i: int) -> int
    decreases rows.len() - i,
{
    if i < 0 || i >= rows.len() {
        -1
    } else if rows[i] == Some(id) {
        i
    } else {
        row_of_from(rows, id, i + 1)
    }
}

/// `d` with the row of `rows` that shows agent `id` selected (and kept visible), when
/// a row shows it; else unchanged.
pub open spec fn selected_by_id(d: AppData, rows: Seq<Option<u128>>, id: u128) -> AppData {
    let t = row_of_from(rows, id, 0);
    if t < 0 {
        d
    } else {
        AppData { selected_agent: Some(id), ..moved_selection(d, t, rows.len() as int) }
    }
}

proof fn lemma_row_of_from(rows: Seq<Option<u128>>, id: u128, i: int)
    requires
        0 <= i <= rows.len(),
    ensures
        row_of_from(rows, id, i) == -1 || (i <= row_of_from(rows, id, i) < rows.len() && rows[row_of_from(
            rows,
            id,
            i,
        )] == Some(id)),
    decreases rows.len() - i,
{
    if i < rows.len() && rows[i] != Some(id) {
        lemma_row_of_from(rows, id, i + 1);
    }
}

impl AppData {
    /// Select the row of the sidebar `rows` that shows agent `id`, if one does.
    pub fn select_agent_by_id(&mut self, rows: &Vec<Option<u128>>, id: u128)
        ensures
            *final(self) == selected_by_id(*old(self), rows@, id),
    {
        let mut i: usize = 0;
        while i < rows.len()
            invariant
                i <= rows@.len(),
                row_of_from(rows@, id, 0) == row_of_from(rows@, id, i as int),
                *self == *old(self),
            decreases rows@.len() - i,
        {
            if rows[i] == Some(id) {
                proof {
                    lemma_row_of_from(rows@, id, i as int);
                }
                if i != self.selected {
                    self.selected = i;
                    self.ensure_agent_list_scroll(rows.len());
                }
                self.selected_agent = Some(id);
                return;
            }
            i = i + 1;
        }
    }

    /// Lay out the sidebar with `sidebar` and select the row that shows agent `id`.
    pub fn select_agent_by_id_in<F: Fn(&AppData) -> Vec<Option<u128>>>(&mut self, sidebar: &F, id: u128)
        requires
            lays_out(*sidebar),
        ensures
            exists|rows: Vec<Option<u128>>|
                sidebar.ensures((&*old(self),), rows) && *final(self) == selected_by_id(*old(self), rows@, id),
    {
        let rows = sidebar(&*self);
        let ghost before = *self;
        self.select_agent_by_id(&rows, id);
        assert(sidebar.ensures((&before,), rows));
    }
}

} // verus!
