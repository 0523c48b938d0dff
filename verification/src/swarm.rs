//! Swarms: spawning children and review agents under an agent, and what a swarm's root
//! and children are called.

use vstd::prelude::*;
use vstd::string::StringSliceAdditionalSpecFns;
use vstd::utf8::{decode_utf8, encode_utf8, is_char_boundary};
use crate::actions::Actions;
use crate::agent::{Agent, AgentView, Status, Storage, WorkspaceKind, has_children_spec, is_descendant, lemma_climb_stored, lemma_position, climb, position, root_position, with_collapsed};
use crate::data::{AppData, spawn_command_spec};
use crate::git_flows::{error_mode, is_error, status_is};
use crate::actions::selected_index;
use crate::mux::{window_target, window_target_spec};
use crate::synthesis::{SynthesisTargets, capture_agents, target_roots, teardown_agents};
use crate::window::{adjust_window_indices_after_deletions, lemma_distinct_deletions_fit, renumber, strictly_decreasing};
use crate::ids::{hex_field, is_hex_char, lemma_hex_field, lemma_uuid_text, new_uuid, uuid_text, uuid_text_spec};
use crate::state::{AppMode, review_cleared};
use crate::text::{
    concat2, concat3, concat4, contains, decimal, decimal_string, first_word, first_word_spec, owned,
    parse_u64, parse_unsigned, seq_contains, strip_prefix, strip_prefix_spec, trim, trim_spec, trim_start,
    trim_start_spec,
};

verus! {

broadcast use vstd::utf8::encode_utf8_decode_utf8;

/// The title of a new swarm root for `task`: the task itself, or, when its UTF-8
/// encoding is longer than 30 bytes, its first 27 bytes and an ellipsis.
pub open spec fn root_title_spec(task: Seq<char>) -> Seq<char> {
    let b = encode_utf8(task);
    if b.len() > 30 {
        decode_utf8(b.subrange(0, 27)) + "..."@
    } else {
        task
    }
}

/// `title` is `Swarm (` and eight lowercase hexadecimal digits in parentheses.
pub open spec fn swarm_title_shape(title: Seq<char>) -> bool {
    &&& title.len() == 16
    &&& title.subrange(0, 7) == "Swarm ("@
    &&& title[15] == ')'
    &&& forall|i: int| 7 <= i < 15 ==> is_hex_char(#[trigger] title[i])
}

/// The title of a new swarm root: from the task when there is one, else from the
/// first eight digits of a fresh random id.
pub fn generate_root_title(task: Option<&str>) -> (r: String)
    requires
        task matches Some(t) ==> encode_utf8(t@).len() <= usize::MAX,
        task matches Some(t) ==> (encode_utf8(t@).len() > 30 ==> is_char_boundary(encode_utf8(t@), 27)),
    ensures
        match task {
            Some(t) => r@ == root_title_spec(t@),
            None => swarm_title_shape(r@),
        },
{
    match task {
        Some(t) => {
            if t.len() > 30 {
                let (head, _) = t.split_at(27);
                proof {
                    assert(head.spec_bytes() =~= encode_utf8(t@).subrange(0, 27));
                    assert(decode_utf8(encode_utf8(head@)) == head@);
                }
                concat2(head, "...")
            } else {
                owned(t)
            }
        },
        None => {
            let id = new_uuid();
            let text = uuid_text(id);
            proof {
                lemma_uuid_text(id);
                lemma_hex_field(id as nat, 32);
            }
            let short = text.as_str().substring_char(0, 8);
            let r = concat3("Swarm (", short, ")");
            proof {
                reveal_strlit("Swarm (");
                reveal_strlit(")");
                assert(r@.subrange(0, 7) =~= "Swarm ("@);
                assert forall|i: int| 7 <= i < 15 implies is_hex_char(#[trigger] r@[i]) by {
                    assert(r@[i] == hex_field(id as nat, 32)[i - 7]);
                }
            }
            r
        },
    }
}

/// The number in a title that starts with `prefix`: the first word after it, when it
/// is an unsigned decimal that fits a `usize`.
pub open spec fn title_number_spec(title: Seq<char>, prefix: Seq<char>) -> Option<int> {
    match strip_prefix_spec(title, prefix) {
        None => None,
        Some(rest) => match first_word_spec(trim_start_spec(rest)) {
            None => None,
            Some(w) => match parse_unsigned(w) {
                Some(n) => if 0 <= n <= usize::MAX {
                    Some(n)
                } else {
                    None
                },
                None => None,
            },
        },
    }
}

/// The number in a title such as `Agent 3` with prefix `Agent`.
pub fn parse_agent_title_number(title: &str, prefix: &str) -> (r: Option<usize>)
    ensures
        match title_number_spec(title@, prefix@) {
            Some(n) => r == Some(n as usize),
            None => r.is_none(),
        },
{
    let rest = match strip_prefix(title, prefix) {
        Some(rest) => trim_start(rest),
        None => {
            return None;
        },
    };
    let word = match first_word(rest) {
        Some(w) => w,
        None => {
            return None;
        },
    };
    match parse_u64(word) {
        Some(v) => {
            if v <= usize::MAX as u64 {
                Some(v as usize)
            } else {
                None
            }
        },
        None => None,
    }
}

/// The largest title number with `prefix` among the children of `parent_id` among the
/// first `k` agents, or 0.
pub open spec fn max_title_number(s: Seq<AgentView>, parent_id: u128, prefix: Seq<char>, k: int) -> int
    decreases k,
{
    if k <= 0 {
        0
    } else {
        let prev = max_title_number(s, parent_id, prefix, k - 1);
        let g = s[k - 1];
        match title_number_spec(g.title, prefix) {
            Some(n) => if g.parent_id == Some(parent_id) && n > prev {
                n
            } else {
                prev
            },
            None => prev,
        }
    }
}

/// The number of the next child titled with `prefix` under `parent_id`: one more than
/// the largest such number among its children (saturating), or 1.
pub open spec fn next_child_number_spec(s: Seq<AgentView>, parent_id: u128, prefix: Seq<char>) -> int {
    let m = max_title_number(s, parent_id, prefix, s.len() as int);
    if m >= usize::MAX {
        usize::MAX as int
    } else {
        m + 1
    }
}

proof fn lemma_max_title_number_bounds(s: Seq<AgentView>, parent_id: u128, prefix: Seq<char>, k: int)
    ensures
        0 <= max_title_number(s, parent_id, prefix, k) <= usize::MAX,
    decreases k,
{
    if k > 0 {
        lemma_max_title_number_bounds(s, parent_id, prefix, k - 1);
        if let Some(n) = title_number_spec(s[k - 1].title, prefix) {
            assert(n <= usize::MAX);
        }
    }
}

/// The number of the next child titled with `prefix` under `parent_id`.
pub fn next_child_number(storage: &Storage, parent_id: u128, prefix: &str) -> (r: usize)
    ensures
        r == next_child_number_spec(storage@, parent_id, prefix@),
{
    let mut m: usize = 0;
    let mut i: usize = 0;
    while i < storage.agents.len()
        invariant
            i <= storage@.len(),
            m == max_title_number(storage@, parent_id, prefix@, i as int),
        decreases storage@.len() - i,
    {
        proof {
            lemma_max_title_number_bounds(storage@, parent_id, prefix@, i as int);
        }
        let a = &storage.agents[i];
        assert(storage@[i as int] == storage.agents@[i as int]@);
        if a.parent_id == Some(parent_id) {
            match parse_agent_title_number(a.title.as_str(), prefix) {
                Some(n) => {
                    if n > m {
                        m = n;
                    }
                },
                None => {},
            }
        }
        i = i + 1;
    }
    m.saturating_add(1)
}

/// Where the children of a swarm go: the root's session and workspace, and the agent
/// they are spawned under.
#[derive(Debug)]
pub struct SpawnConfig {
    pub root_session: String,
    pub worktree_path: String,
    pub branch: String,
    pub workspace_kind: WorkspaceKind,
    pub parent_agent_id: u128,
}

/// `c` spawns under `parent_id` in the session and workspace of the root of the agent
/// at index `root` of `s`.
pub open spec fn config_from(c: SpawnConfig, s: Seq<AgentView>, root: int, parent_id: u128) -> bool {
    &&& c.root_session@ == s[root].mux_session
    &&& c.worktree_path@ == s[root].worktree_path
    &&& c.branch@ == s[root].branch
    &&& c.workspace_kind == s[root].workspace_kind
    &&& c.parent_agent_id == parent_id
}

/// Index of the root of the stored agent at index `i`: the root reached by climbing
/// stored parents.
pub open spec fn known_root_index(s: Seq<AgentView>, i: int) -> int {
    root_position(s, s[i].id)
}

pub proof fn lemma_known_root(s: Seq<AgentView>, i: int)
    requires
        0 <= i < s.len(),
    ensures
        0 <= known_root_index(s, i) < s.len(),
{
    lemma_position(s, s[i].id);
    lemma_climb_stored(s, s[i].id, s.len());
    lemma_position(s, climb(s, s[i].id, s.len()));
}

fn config_for(storage: &Storage, parent_index: usize, parent_id: u128) -> (r: SpawnConfig)
    requires
        parent_index < storage@.len(),
    ensures
        config_from(r, storage@, known_root_index(storage@, parent_index as int), parent_id),
{
    proof {
        lemma_known_root(storage@, parent_index as int);
    }
    let ri = match storage.root_ancestor_index(storage.agents[parent_index].id) {
        Some(ri) => ri,
        None => parent_index,
    };
    let root = &storage.agents[ri];
    SpawnConfig {
        root_session: root.mux_session.clone(),
        worktree_path: root.worktree_path.clone(),
        branch: root.branch.clone(),
        workspace_kind: root.workspace_kind,
        parent_agent_id: parent_id,
    }
}

/// Where to spawn children under the stored agent `pid`.
pub fn get_existing_parent_config(app_data: &AppData, pid: u128) -> (r: Result<SpawnConfig, String>)
    ensures
        match get_existing_parent_result(*app_data, pid) {
            Err(e) => r matches Err(f) && f@ == e,
            Ok(i) => r matches Ok(c) && config_from(c, app_data.storage@, known_root_index(app_data.storage@, i), pid),
        },
{
    match app_data.storage.find_index(pid) {
        None => Err(owned("Parent agent not found")),
        Some(i) => {
            if app_data.storage.agents[i].is_terminal_agent() {
                Err(owned("Cannot spawn children under a terminal"))
            } else {
                Ok(config_for(&app_data.storage, i, pid))
            }
        },
    }
}

/// The task a child is started with: the task itself, or (when `planned`) the planning
/// prompt built from it.
#[derive(Debug)]
pub struct ChildPrompt {
    pub task: String,
    pub planned: bool,
}

/// What to spawn as children: the program, the prompt, and one title per child.
#[derive(Debug)]
pub struct ChildSpawnPlan {
    pub program: String,
    pub prompt: Option<ChildPrompt>,
    pub titles: Vec<String>,
}

/// The title of child number `n` with `prefix`.
pub open spec fn child_title(prefix: Seq<char>, n: int) -> Seq<char> {
    prefix + " "@ + decimal(n as nat)
}

/// `n + i`, saturating at `usize::MAX`.
pub open spec fn saturating_add_spec(n: int, i: int) -> int {
    if n + i > usize::MAX {
        usize::MAX as int
    } else {
        n + i
    }
}

/// `titles` are `count` titles with `prefix` numbered from `start` on.
pub open spec fn numbered_titles(titles: Seq<String>, prefix: Seq<char>, start: int, count: int) -> bool {
    &&& titles.len() == count
    &&& forall|i: int| 0 <= i < count ==> #[trigger] titles[i]@ == child_title(prefix, saturating_add_spec(start, i))
}

fn numbered(prefix: &str, start: usize, count: usize) -> (r: Vec<String>)
    ensures
        numbered_titles(r@, prefix@, start as int, count as int),
{
    let mut out: Vec<String> = Vec::new();
    let mut i: usize = 0;
    while i < count
        invariant
            i <= count,
            numbered_titles(out@, prefix@, start as int, i as int),
        decreases count - i,
    {
        let n = start.saturating_add(i);
        let d = decimal_string(n as u64);
        out.push(concat3(prefix, " ", d.as_str()));
        i = i + 1;
    }
    out
}

/// The prefix of child titles: `Planner` when planning a given task, else `Agent`.
pub open spec fn child_prefix(use_plan_prompt: bool, has_task: bool) -> Seq<char> {
    if use_plan_prompt && has_task {
        "Planner"@
    } else {
        "Agent"@
    }
}

/// `p` spawns `count` children under `parent_id` for `task` as the settings of `d` ask.
pub open spec fn child_plan_ok(d: AppData, parent_id: u128, count: int, task: Option<Seq<char>>, p: ChildSpawnPlan) -> bool {
    let planned = d.spawn.use_plan_prompt;
    &&& p.program@ == (if planned {
        spawn_command_spec(
            d.settings.planner_agent_program,
            d.settings.planner_custom_agent_command@,
            d.config.default_program@,
        )
    } else {
        spawn_command_spec(d.settings.agent_program, d.settings.custom_agent_command@, d.config.default_program@)
    })
    &&& match task {
        Some(t) => p.prompt matches Some(c) && c.task@ == t && c.planned == planned,
        None => p.prompt.is_none(),
    }
    &&& numbered_titles(
        p.titles@,
        child_prefix(planned, task is Some),
        next_child_number_spec(d.storage@, parent_id, child_prefix(planned, task is Some)),
        count,
    )
}

/// The children to spawn under `parent_id`.
pub fn plan_child_agents(app_data: &AppData, parent_id: u128, count: usize, task: Option<&str>) -> (r: ChildSpawnPlan)
    ensures
        child_plan_ok(*app_data, parent_id, count as int, match task {
            Some(t) => Some(t@),
            None => None,
        }, r),
{
    let planned = app_data.spawn.use_plan_prompt;
    let program = if planned {
        app_data.planner_agent_spawn_command()
    } else {
        app_data.agent_spawn_command()
    };
    let prompt = match task {
        Some(t) => Some(ChildPrompt { task: owned(t), planned }),
        None => None,
    };
    let prefix = if planned && task.is_some() {
        "Planner"
    } else {
        "Agent"
    };
    let start = next_child_number(&app_data.storage, parent_id, prefix);
    let titles = numbered(prefix, start, count);
    ChildSpawnPlan { program, prompt, titles }
}

/// The first step of spawning children.
#[derive(Debug)]
pub enum SpawnStep {
    /// A new root titled `title` is created first; its children are planned once it
    /// is stored.
    NewRoot { title: String },
    /// Spawn the planned children as the configuration says.
    Children { config: SpawnConfig, plan: ChildSpawnPlan },
}

impl Actions {
    /// Begin spawning the configured number of children for `task`: under the agent
    /// they are to go under, or under a new root.
    pub fn spawn_children(self, app_data: &AppData, task: Option<&str>) -> (r: Result<SpawnStep, String>)
        requires
            app_data.spawn.spawning_under.is_none() ==> (task matches Some(t) ==> encode_utf8(t@).len()
                <= usize::MAX),
            app_data.spawn.spawning_under.is_none() ==> (task matches Some(t) ==> (encode_utf8(t@).len() > 30
                ==> is_char_boundary(encode_utf8(t@), 27))),
        ensures
            match app_data.spawn.spawning_under {
                None => r matches Ok(SpawnStep::NewRoot { title }) && match task {
                    Some(t) => title@ == root_title_spec(t@),
                    None => swarm_title_shape(title@),
                },
                Some(pid) => match get_existing_parent_result(*app_data, pid) {
                    Err(e) => r matches Err(f) && f@ == e,
                    Ok(i) => r matches Ok(SpawnStep::Children { config, plan }) && config_from(
                        config,
                        app_data.storage@,
                        known_root_index(app_data.storage@, i),
                        pid,
                    ) && child_plan_ok(*app_data, pid, app_data.spawn.child_count as int, match task {
                        Some(t) => Some(t@),
                        None => None,
                    }, plan),
                },
            },
    {
        match app_data.spawn.spawning_under {
            None => Ok(SpawnStep::NewRoot { title: generate_root_title(task) }),
            Some(pid) => {
                let config = match get_existing_parent_config(app_data, pid) {
                    Ok(c) => c,
                    Err(e) => {
                        return Err(e);
                    },
                };
                let plan = plan_child_agents(app_data, pid, app_data.spawn.child_count, task);
                Ok(SpawnStep::Children { config, plan })
            },
        }
    }

    /// Finish spawning `count` children under `parent_id`: the parent is expanded and
    /// the status line says what happened.
    pub fn finish_spawn_children(app_data: &mut AppData, parent_id: u128, count: usize, cleaned_stale_worktree: bool) -> (r: AppMode)
        ensures
            r == AppMode::Normal,
            final(app_data).storage@ == with_collapsed(old(app_data).storage@, parent_id, false),
            status_is(*final(app_data), if cleaned_stale_worktree {
                "Cleaned stale worktree and spawned "@ + decimal(count as nat) + " child agents"@
            } else {
                "Spawned "@ + decimal(count as nat) + " child agents"@
            }),
            *final(app_data) == (AppData {
                storage: final(app_data).storage,
                ui: crate::data::UiState { status: final(app_data).ui.status, ..old(app_data).ui },
                ..*old(app_data)
            }),
    {
        app_data.storage.set_collapsed(parent_id, false);
        let n = decimal_string(count as u64);
        if cleaned_stale_worktree {
            app_data.set_status(concat3("Cleaned stale worktree and spawned ", n.as_str(), " child agents"));
        } else {
            app_data.set_status(concat3("Spawned ", n.as_str(), " child agents"));
        }
        AppMode::Normal
    }
}

/// The repository of the stored agent `id`, if it is stored and has one.
pub open spec fn stored_repo_root(s: Seq<AgentView>, id: u128) -> Option<Seq<char>> {
    if position(s, id) >= 0 {
        s[position(s, id)].repo_root
    } else {
        None
    }
}

/// `g` is the child agent `id` titled `title` running `program` in window `w`, spawned
/// as `config` says over the stored agents `s`: it works in the root's workspace and
/// session, in its parent's repository, and is starting.
pub open spec fn spawned_child(
    config: SpawnConfig,
    s: Seq<AgentView>,
    id: u128,
    title: Seq<char>,
    program: Seq<char>,
    w: u32,
    g: AgentView,
) -> bool {
    &&& g.id == id
    &&& g.parent_id == Some(config.parent_agent_id)
    &&& g.title == title
    &&& g.program == program
    &&& g.branch == config.branch@
    &&& g.worktree_path == config.worktree_path@
    &&& g.repo_root == stored_repo_root(s, config.parent_agent_id)
    &&& g.mux_session == config.root_session@
    &&& g.window_index == Some(w)
    &&& g.status == Status::Starting
    &&& !g.collapsed
    &&& !g.is_terminal
    &&& g.workspace_kind == config.workspace_kind
}

impl Actions {
    /// Record child agent `id`, titled `title` and running `program`, once its window
    /// `window_index` was made in the root's session as `config` says.
    pub fn add_child_agent(
        app_data: &mut AppData,
        config: &SpawnConfig,
        id: u128,
        title: &str,
        program: &str,
        window_index: u32,
    )
        ensures
            exists|g: AgentView|
                spawned_child(*config, old(app_data).storage@, id, title@, program@, window_index, g)
                    && final(app_data).storage@ == old(app_data).storage@.push(g),
            *final(app_data) == (AppData { storage: final(app_data).storage, ..*old(app_data) }),
    {
        proof {
            lemma_position(app_data.storage@, config.parent_agent_id);
        }
        let repo_root = match app_data.storage.get(config.parent_agent_id) {
            Some(p) => match &p.repo_root {
                Some(r) => Some(r.clone()),
                None => None,
            },
            None => None,
        };
        let child = Agent {
            id,
            parent_id: Some(config.parent_agent_id),
            title: owned(title),
            program: owned(program),
            branch: config.branch.clone(),
            worktree_path: config.worktree_path.clone(),
            repo_root,
            mux_session: config.root_session.clone(),
            window_index: Some(window_index),
            status: Status::Starting,
            collapsed: false,
            is_terminal: false,
            workspace_kind: config.workspace_kind,
        };
        let ghost g = child@;
        app_data.storage.add(child);
        proof {
            assert(spawned_child(*config, old(app_data).storage@, id, title@, program@, window_index, g));
        }
    }
}

/// Which error, if any, finding the spawn configuration under `pid` gives; else the
/// index of the parent.
pub open spec fn get_existing_parent_result(d: AppData, pid: u128) -> Result<int, Seq<char>> {
    let i = position(d.storage@, pid);
    if i == -1 {
        Err("Parent agent not found"@)
    } else if d.storage@[i].is_terminal {
        Err("Cannot spawn children under a terminal"@)
    } else {
        Ok(i)
    }
}

/// What review agents to spawn under the agent chosen for review.
#[derive(Debug)]
pub struct ReviewPlan {
    pub config: SpawnConfig,
    pub base_branch: String,
    pub program: String,
    pub titles: Vec<String>,
}

/// Why spawning review agents is refused for `d`, if it is; else the index of the agent
/// chosen for review.
pub open spec fn review_check(d: AppData) -> Result<int, Seq<char>> {
    let s = d.storage@;
    match d.spawn.spawning_under {
        None => Err("No agent selected for review"@),
        Some(pid) => if position(s, pid) == -1 {
            Err("Parent agent not found"@)
        } else if s[position(s, pid)].is_terminal {
            Err("Cannot spawn review agents under a terminal"@)
        } else if d.review.base_branch.is_none() {
            Err("No base branch selected for review"@)
        } else if s[known_root_index(s, position(s, pid))].workspace_kind != WorkspaceKind::GitWorktree {
            Err("Review swarm requires a git repository"@)
        } else {
            Ok(position(s, pid))
        },
    }
}

/// The text that a started review shows when it runs against `base_branch`.
pub open spec fn review_hint_spec(base_branch: Seq<char>) -> Seq<char> {
    "changes against '"@ + base_branch + "'"@
}

/// The text that a started review shows when it runs against `base_branch`.
pub fn codex_review_base_branch_hint(base_branch: &str) -> (r: String)
    ensures
        r@ == review_hint_spec(base_branch@),
{
    concat3("changes against '", base_branch, "'")
}

/// Whether the confirmation of a started review names the requested base branch.
pub fn review_started_against(review_text: &str, base_branch: &str) -> (r: bool)
    ensures
        r == seq_contains(review_text@, review_hint_spec(trim_spec(base_branch@))),
{
    let hint = codex_review_base_branch_hint(trim(base_branch));
    contains(review_text, hint.as_str())
}

impl Actions {
    /// Plan the review agents for the agent chosen for review, against the chosen base
    /// branch.
    pub fn spawn_review_agents(self, app_data: &AppData) -> (r: Result<ReviewPlan, String>)
        ensures
            match review_check(*app_data) {
                Err(e) => r matches Err(f) && f@ == e,
                Ok(i) => {
                    let pid = app_data.spawn.spawning_under.unwrap();
                    &&& r matches Ok(p)
                    &&& config_from(p.config, app_data.storage@, known_root_index(app_data.storage@, i), pid)
                    &&& p.base_branch@ == app_data.review.base_branch.unwrap()@
                    &&& p.program@ == spawn_command_spec(
                        app_data.settings.review_agent_program,
                        app_data.settings.review_custom_agent_command@,
                        app_data.config.default_program@,
                    )
                    &&& numbered_titles(
                        p.titles@,
                        "Auditor"@,
                        next_child_number_spec(app_data.storage@, pid, "Auditor"@),
                        app_data.spawn.child_count as int,
                    )
                },
            },
    {
        let pid = match app_data.spawn.spawning_under {
            Some(pid) => pid,
            None => {
                return Err(owned("No agent selected for review"));
            },
        };
        let i = match app_data.storage.find_index(pid) {
            Some(i) => i,
            None => {
                return Err(owned("Parent agent not found"));
            },
        };
        if app_data.storage.agents[i].is_terminal_agent() {
            return Err(owned("Cannot spawn review agents under a terminal"));
        }
        let base_branch = match &app_data.review.base_branch {
            Some(b) => b.clone(),
            None => {
                return Err(owned("No base branch selected for review"));
            },
        };
        let config = config_for(&app_data.storage, i, pid);
        if config.workspace_kind != WorkspaceKind::GitWorktree {
            return Err(owned("Review swarm requires a git repository"));
        }
        let program = app_data.review_agent_spawn_command();
        let start = next_child_number(&app_data.storage, pid, "Auditor");
        let titles = numbered("Auditor", start, app_data.spawn.child_count);
        Ok(ReviewPlan { config, base_branch, program, titles })
    }

    /// Finish spawning `count` review agents under `parent_id` against `base_branch`: the
    /// parent is expanded, the branch selector closed, and the status line says what
    /// happened (or that a review may run against another base).
    pub fn finish_review_agents(
        app_data: &mut AppData,
        parent_id: u128,
        count: usize,
        base_branch: &str,
        base_mismatch: bool,
    )
        ensures
            final(app_data).storage@ == with_collapsed(old(app_data).storage@, parent_id, false),
            review_cleared(final(app_data).review),
            status_is(*final(app_data), if base_mismatch {
                "Codex review may be running against a different base than requested: "@ + base_branch@
            } else {
                "Spawned "@ + decimal(count as nat) + " review agents against "@ + base_branch@
            }),
            *final(app_data) == (AppData {
                storage: final(app_data).storage,
                review: final(app_data).review,
                ui: crate::data::UiState { status: final(app_data).ui.status, ..old(app_data).ui },
                ..*old(app_data)
            }),
    {
        app_data.storage.set_collapsed(parent_id, false);
        let n = decimal_string(count as u64);
        app_data.set_status(concat4("Spawned ", n.as_str(), " review agents against ", base_branch));
        app_data.review.clear();
        if base_mismatch {
            app_data.set_status(
                concat2("Codex review may be running against a different base than requested: ", base_branch),
            );
        }
    }
}

/// The message that tells a parent to read the synthesis file of `synthesis_id`, with
/// the trimmed extra instructions when there are any.
pub open spec fn read_command_spec(synthesis_id: u128, prompt: Seq<char>) -> Seq<char> {
    let base = "Read .tenex/"@ + uuid_text_spec(synthesis_id)
        + ".md - it contains the collected descendant work. Use it to guide your next steps."@;
    if trim_spec(prompt).len() == 0 {
        base
    } else {
        base + "\n\nAdditional instructions:\n"@ + trim_spec(prompt)
    }
}

/// The message that tells a parent to read the synthesis file of `synthesis_id`.
pub fn build_synthesis_read_command(synthesis_id: u128, prompt: Option<&str>) -> (r: String)
    ensures
        r@ == read_command_spec(synthesis_id, match prompt {
            Some(p) => p@,
            None => Seq::empty(),
        }),
{
    let id = uuid_text(synthesis_id);
    let mut cmd = concat3(
        "Read .tenex/",
        id.as_str(),
        ".md - it contains the collected descendant work. Use it to guide your next steps.",
    );
    let p = match prompt {
        Some(p) => trim(p),
        None => {
            proof {
                reveal_strlit("");
                assert(trim_start_spec(Seq::<char>::empty()) =~= Seq::<char>::empty());
                assert(trim_spec(Seq::<char>::empty()) =~= Seq::<char>::empty());
            }
            return cmd;
        },
    };
    if p.unicode_len() == 0 {
        return cmd;
    }
    cmd.append("\n\nAdditional instructions:\n");
    cmd.append(p);
    cmd
}

/// The name of the synthesis file of `synthesis_id`.
pub fn synthesis_file_name(synthesis_id: u128) -> (r: String)
    ensures
        r@ == uuid_text_spec(synthesis_id) + ".md"@,
{
    let id = uuid_text(synthesis_id);
    concat2(id.as_str(), ".md")
}

/// The stored agents after removing the trees of the first `k` roots, one after the
/// other.
pub open spec fn removed_trees(s: Seq<AgentView>, roots: Seq<u128>, k: int) -> Seq<AgentView>
    decreases k,
{
    if k <= 0 {
        s
    } else {
        let prev = removed_trees(s, roots, k - 1);
        prev.filter(|g: AgentView| !(g.id == roots[k - 1] || is_descendant(prev, g.id, roots[k - 1])))
    }
}

/// The stored agents after the windows with indices `deleted` were closed under root
/// `root`: unchanged when none was closed.
pub open spec fn renumbered_after(s: Seq<AgentView>, root: u128, closed: Seq<u128>, deleted: Seq<u32>) -> Seq<AgentView> {
    if deleted.len() == 0 {
        s
    } else {
        renumber(s, root, closed, deleted)
    }
}

/// What synthesizing into the selected agent involves.
#[derive(Debug)]
pub struct SynthesisPlan {
    pub parent_id: u128,
    /// The session of the parent, where the descendants' windows are.
    pub parent_session: String,
    /// Where to send the parent the message to read the synthesis.
    pub parent_target: String,
    pub worktree_path: String,
    /// The root of the parent's tree.
    pub root_id: u128,
    pub targets: SynthesisTargets,
    /// The id of the synthesis file.
    pub synthesis_id: u128,
    /// The name of the synthesis file under `.tenex/`.
    pub file_name: String,
    /// The message that tells the parent to read the file.
    pub read_command: String,
}

/// Why synthesizing into the selected agent of `d` is refused, if it is; else the
/// index of that agent.
pub open spec fn synthesis_check(d: AppData) -> Result<int, Seq<char>> {
    let s = d.storage@;
    let i = selected_index(d);
    if i < 0 {
        Err("No agent selected"@)
    } else if s[i].is_terminal {
        Err("Cannot synthesize into a terminal agent"@)
    } else if !has_children_spec(s, s[i].id) {
        Err("Selected agent has no children to synthesize"@)
    } else if capture_agents(s, s[i].id, target_roots(s, s[i].id, d.synthesis_marks@)).len() == 0 {
        Err("Selected agent has no non-terminal children to synthesize"@)
    } else {
        Ok(i)
    }
}

/// `p` synthesizes into the agent at index `i` of the storage of `d` with extra
/// instructions `prompt`.
pub open spec fn synthesis_plan_ok(d: AppData, i: int, prompt: Seq<char>, p: SynthesisPlan) -> bool {
    let s = d.storage@;
    let a = s[i];
    let roots = target_roots(s, a.id, d.synthesis_marks@);
    &&& p.parent_id == a.id
    &&& p.parent_session@ == a.mux_session
    &&& p.parent_target@ == match a.window_index {
        Some(w) => window_target_spec(a.mux_session, w),
        None => a.mux_session,
    }
    &&& p.worktree_path@ == a.worktree_path
    &&& p.root_id == s[known_root_index(s, i)].id
    &&& p.targets.teardown_root_ids@ == roots
    &&& p.targets.teardown_agent_ids@ == teardown_agents(s, a.id, roots)
    &&& p.targets.capture_agent_ids@ == capture_agents(s, a.id, roots)
    &&& p.file_name@ == uuid_text_spec(p.synthesis_id) + ".md"@
    &&& p.read_command@ == read_command_spec(p.synthesis_id, prompt)
}

impl Actions {
    /// Plan folding the work of the selected agent's descendants back into it; a
    /// refusal is the error modal to show.
    pub fn synthesize(self, app_data: &AppData) -> (r: Result<SynthesisPlan, AppMode>)
        ensures
            match synthesis_check(*app_data) {
                Err(e) => r matches Err(m) && is_error(m, e),
                Ok(i) => r matches Ok(p) && synthesis_plan_ok(*app_data, i, Seq::empty(), p),
            },
    {
        self.synthesize_with_prompt(app_data, None)
    }

    /// Plan folding the work of the selected agent's descendants back into it, with
    /// optional extra instructions for it; a refusal is the error modal to show.
    pub fn synthesize_with_prompt(self, app_data: &AppData, prompt: Option<&str>) -> (r: Result<SynthesisPlan, AppMode>)
        ensures
            match synthesis_check(*app_data) {
                Err(e) => r matches Err(m) && is_error(m, e),
                Ok(i) => r matches Ok(p) && synthesis_plan_ok(*app_data, i, match prompt {
                    Some(t) => t@,
                    None => Seq::empty(),
                }, p),
            },
    {
        proof {
            if let Some(id) = app_data.selected_agent {
                lemma_position(app_data.storage@, id);
            }
        }
        let i = match app_data.selected_agent {
            Some(id) => match app_data.storage.find_index(id) {
                Some(i) => i,
                None => {
                    return Err(error_mode(owned("No agent selected")));
                },
            },
            None => {
                return Err(error_mode(owned("No agent selected")));
            },
        };
        let a = &app_data.storage.agents[i];
        if a.is_terminal_agent() {
            return Err(error_mode(owned("Cannot synthesize into a terminal agent")));
        }
        if !app_data.storage.has_children(a.id) {
            return Err(error_mode(owned("Selected agent has no children to synthesize")));
        }
        let targets = app_data.synthesis_targets_for(a.id);
        if targets.capture_agent_ids.len() == 0 {
            return Err(error_mode(owned("Selected agent has no non-terminal children to synthesize")));
        }
        let parent_target = match a.window_index {
            Some(w) => window_target(a.mux_session.as_str(), w),
            None => a.mux_session.clone(),
        };
        proof {
            lemma_known_root(app_data.storage@, i as int);
        }
        let root_index = match app_data.storage.root_ancestor_index(a.id) {
            Some(r) => r,
            None => i,
        };
        let synthesis_id = new_uuid();
        let file_name = synthesis_file_name(synthesis_id);
        let read_command = build_synthesis_read_command(synthesis_id, prompt);
        proof {
            if prompt.is_none() {
                reveal_strlit("");
            }
        }
        Ok(SynthesisPlan {
            parent_id: a.id,
            parent_session: a.mux_session.clone(),
            parent_target,
            worktree_path: a.worktree_path.clone(),
            root_id: app_data.storage.agents[root_index].id,
            targets,
            synthesis_id,
            file_name,
            read_command,
        })
    }

    /// Remove what a synthesis tore down: after the windows with indices
    /// `deleted_indices` were closed, renumber the windows left under `root_id`, then
    /// remove the trees of `teardown_root_ids`.
    pub fn remove_synthesis_targets(
        app_data: &mut AppData,
        root_id: u128,
        teardown_root_ids: &Vec<u128>,
        deleted_indices: &Vec<u32>,
    )
        requires
            strictly_decreasing(deleted_indices@),
        ensures
            final(app_data).storage@ == removed_trees(
                renumbered_after(old(app_data).storage@, root_id, teardown_root_ids@, deleted_indices@),
                teardown_root_ids@,
                teardown_root_ids@.len() as int,
            ),
            *final(app_data) == (AppData { storage: final(app_data).storage, ..*old(app_data) }),
    {
        proof {
            lemma_distinct_deletions_fit(app_data.storage@, root_id, teardown_root_ids@, deleted_indices@);
        }
        adjust_window_indices_after_deletions(app_data, root_id, teardown_root_ids, deleted_indices);
        let ghost start = app_data.storage@;
        let mut k: usize = 0;
        while k < teardown_root_ids.len()
            invariant
                k <= teardown_root_ids@.len(),
                start == renumbered_after(old(app_data).storage@, root_id, teardown_root_ids@, deleted_indices@),
                app_data.storage@ == removed_trees(start, teardown_root_ids@, k as int),
                *app_data == (AppData { storage: app_data.storage, ..*old(app_data) }),
            decreases teardown_root_ids@.len() - k,
        {
            app_data.storage.remove_with_descendants(teardown_root_ids[k]);
            k = k + 1;
        }
    }

    /// Finish a synthesis: the selection is brought back among the rows that `sidebar`
    /// lays out, the marks are dropped and the status line says so.
    pub fn finish_synthesis<F: Fn(&AppData) -> Vec<Option<u128>>>(app_data: &mut AppData, sidebar: &F) -> (r: AppMode)
        requires
            crate::data::lays_out(*sidebar),
        ensures
            r == AppMode::Normal,
            final(app_data).synthesis_marks@.len() == 0,
            final(app_data).storage == old(app_data).storage,
            status_is(*final(app_data), "Synthesized findings into parent agent"@),
            exists|rows: Vec<Option<u128>>|
                sidebar.ensures((&*old(app_data),), rows) && {
                    let v = crate::data::revalidated(*old(app_data), rows@);
                    *final(app_data) == (AppData {
                        synthesis_marks: final(app_data).synthesis_marks,
                        ui: crate::data::UiState { status: final(app_data).ui.status, ..v.ui },
                        ..v
                    })
                },
    {
        app_data.validate_selection_in(sidebar);
        app_data.clear_synthesis_marks();
        app_data.set_status(owned("Synthesized findings into parent agent"));
        AppMode::Normal
    }
}

/// The captured output of an agent for a synthesis, or a note when it could not be
/// captured.
pub fn finding_output(capture: Option<String>) -> (r: String)
    ensures
        r@ == match capture {
            Some(c) => c@,
            None => "(Could not capture output)"@,
        },
{
    match capture {
        Some(c) => c,
        None => owned("(Could not capture output)"),
    }
}

/// The synthesis file's text for the (title, output) findings, in order: a heading
/// with each agent's title, then its output.
pub open spec fn findings_text_spec(findings: Seq<(Seq<char>, Seq<char>)>) -> Seq<char>
    decreases findings.len(),
{
    if findings.len() == 0 {
        Seq::empty()
    } else {
        let (title, output) = findings.last();
        findings_text_spec(findings.drop_last()) + "## "@ + title + "\n\n"@ + output + "\n\n"@
    }
}

/// The views of (title, output) pairs.
pub open spec fn pair_views(v: Seq<(String, String)>) -> Seq<(Seq<char>, Seq<char>)> {
    v.map_values(|p: (String, String)| (p.0@, p.1@))
}

/// The synthesis file's text for the (title, output) findings.
pub fn synthesis_findings_text(findings: &Vec<(String, String)>) -> (r: String)
    ensures
        r@ == findings_text_spec(pair_views(findings@)),
{
    let mut out = String::new();
    let mut i: usize = 0;
    while i < findings.len()
        invariant
            i <= findings@.len(),
            out@ == findings_text_spec(pair_views(findings@.take(i as int))),
        decreases findings@.len() - i,
    {
        let piece = concat4("## ", findings[i].0.as_str(), "\n\n", findings[i].1.as_str());
        let piece = concat2(piece.as_str(), "\n\n");
        out = concat2(out.as_str(), piece.as_str());
        proof {
            let t = pair_views(findings@.take(i + 1));
            assert(t.drop_last() =~= pair_views(findings@.take(i as int)));
            assert(t.last() == (findings@[i as int].0@, findings@[i as int].1@));
        }
        i = i + 1;
    }
    proof {
        assert(findings@.take(findings@.len() as int) =~= findings@);
    }
    out
}

} // verus!
