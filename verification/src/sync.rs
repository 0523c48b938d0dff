//! Agent status synchronisation with the multiplexer's sessions, respawn bookkeeping
//! and the rules for adopting existing worktrees.

use vstd::prelude::*;
use crate::agent::{Agent, AgentView, Status, Storage, WorkspaceKind, agent_views, is_descendant, position, lemma_position};
use crate::actions::Actions;
use crate::data::{App, AppData, before_validation, lays_out, validated_after};
use crate::git_flows::status_is;
use crate::preview::{hash_text, text_hash};
use crate::text::{concat3, decimal, decimal_string, owned, starts_with, strip_prefix, strip_prefix_spec};

verus! {

broadcast use vstd::seq_lib::group_seq_properties;

/// `branch` is one that this tool manages: it starts with the configured prefix (when
/// one is configured) or with `tenex/`.
pub open spec fn managed_branch_spec(branch: Seq<char>, prefix: Seq<char>) -> bool {
    (prefix.len() > 0 && prefix.is_prefix_of(branch)) || "tenex/"@.is_prefix_of(branch)
}

/// Whether `branch` is managed by this tool.
pub fn is_tenex_managed_branch(branch: &str, branch_prefix: &str) -> (r: bool)
    ensures
        r == managed_branch_spec(branch@, branch_prefix@),
{
    (branch_prefix.unicode_len() > 0 && starts_with(branch, branch_prefix)) || starts_with(branch, "tenex/")
}

/// The title of an agent adopted for `branch`: the branch without the configured
/// prefix, else without `tenex/`, else the branch itself; never empty when the branch
/// is not.
pub open spec fn title_for_branch_spec(branch: Seq<char>, prefix: Seq<char>) -> Seq<char> {
    let stripped = match strip_prefix_spec(branch, prefix) {
        Some(s) => s,
        None => match strip_prefix_spec(branch, "tenex/"@) {
            Some(s) => s,
            None => branch,
        },
    };
    if stripped.len() == 0 {
        branch
    } else {
        stripped
    }
}

/// The title for an agent adopted for `branch`.
pub fn title_for_branch(branch: &str, branch_prefix: &str) -> (r: String)
    ensures
        r@ == title_for_branch_spec(branch@, branch_prefix@),
{
    let stripped = match strip_prefix(branch, branch_prefix) {
        Some(s) => s,
        None => match strip_prefix(branch, "tenex/") {
            Some(s) => s,
            None => branch,
        },
    };
    if stripped.unicode_len() == 0 {
        owned(branch)
    } else {
        owned(stripped)
    }
}

/// Whether an existing worktree on `branch` is to be adopted as a new agent: its branch
/// is managed and no stored agent works on it yet.
pub fn should_auto_connect(storage: &Storage, branch: &str, branch_prefix: &str) -> (r: bool)
    ensures
        r == (managed_branch_spec(branch@, branch_prefix@) && forall|i: int|
            0 <= i < storage@.len() ==> storage@[i].branch != branch@),
{
    if !is_tenex_managed_branch(branch, branch_prefix) {
        return false;
    }
    let b = owned(branch);
    let mut i: usize = 0;
    while i < storage.agents.len()
        invariant
            i <= storage@.len(),
            b@ == branch@,
            forall|j: int| 0 <= j < i ==> storage@[j].branch != branch@,
        decreases storage@.len() - i,
    {
        if storage.agents[i].branch == b {
            assert(storage@[i as int].branch == branch@);
            return false;
        }
        i = i + 1;
    }
    true
}

/// `name` is among the listed sessions.
pub open spec fn listed(sessions: Seq<String>, name: Seq<char>) -> bool {
    exists|j: int| 0 <= j < sessions.len() && sessions[j]@ == name
}

/// Whether `name` is among the listed sessions.
pub fn session_listed(sessions: &Vec<String>, name: &String) -> (r: bool)
    ensures
        r == listed(sessions@, name@),
{
    let mut j: usize = 0;
    while j < sessions.len()
        invariant
            j <= sessions@.len(),
            forall|k: int| 0 <= k < j ==> sessions@[k]@ != name@,
        decreases sessions@.len() - j,
    {
        if sessions[j] == *name {
            assert(sessions@[j as int]@ == name@);
            return true;
        }
        j = j + 1;
    }
    false
}

/// The agent at index `i` is a root whose session is gone.
pub open spec fn lost_root(s: Seq<AgentView>, sessions: Seq<String>, i: int) -> bool {
    s[i].parent_id.is_none() && !listed(sessions, s[i].mux_session)
}

/// `g` is removed by pruning: it is a lost root or lies below one.
pub open spec fn pruned(s: Seq<AgentView>, sessions: Seq<String>, g: AgentView) -> bool {
    exists|r: int|
        0 <= r < s.len() && #[trigger] lost_root(s, sessions, r) && (g.id == s[r].id || is_descendant(
            s,
            g.id,
            s[r].id,
        ))
}

/// `g` with a starting status promoted to running when its session is listed.
pub open spec fn promoted(sessions: Seq<String>, g: AgentView) -> AgentView {
    if g.status == Status::Starting && listed(sessions, g.mux_session) {
        AgentView { status: Status::Running, ..g }
    } else {
        g
    }
}

/// The sync is skipped: listing failed, listed nothing while agents are stored, or
/// listed none of the stored roots' sessions.
pub open spec fn sync_skipped(s: Seq<AgentView>, sessions: Option<Seq<String>>) -> bool {
    match sessions {
        None => true,
        Some(ss) => (ss.len() == 0 && s.len() > 0) || ((exists|i: int|
            0 <= i < s.len() && s[i].parent_id.is_none()) && forall|i: int|
            0 <= i < s.len() && s[i].parent_id.is_none() ==> !listed(ss, s[i].mux_session)),
    }
}

/// The agents after a sync with listed sessions `ss`: lost roots and the agents below
/// them are removed, and starting agents whose session is listed are running.
pub open spec fn synced(s: Seq<AgentView>, ss: Seq<String>) -> Seq<AgentView> {
    s.filter(|g: AgentView| !pruned(s, ss, g)).map_values(|g: AgentView| promoted(ss, g))
}

/// The sessions of the lost roots among the first `k` agents, in storage order.
pub open spec fn lost_sessions(s: Seq<AgentView>, ss: Seq<String>, k: int) -> Seq<Seq<char>>
    decreases k,
{
    if k <= 0 {
        Seq::empty()
    } else if lost_root(s, ss, k - 1) {
        lost_sessions(s, ss, k - 1).push(s[k - 1].mux_session)
    } else {
        lost_sessions(s, ss, k - 1)
    }
}

/// What a sync did.
#[derive(Debug)]
pub struct SyncOutcome {
    /// Sessions of the roots that were removed, whose leftovers the caller cleans up.
    pub pruned_sessions: Vec<String>,
    /// Whether the stored agents changed (and must be saved).
    pub changed: bool,
}

fn root_lost_flags(storage: &Storage, sessions: &Vec<String>) -> (r: (Vec<bool>, bool, bool))
    ensures
        r.0@.len() == storage@.len(),
        forall|i: int| 0 <= i < storage@.len() ==> r.0@[i] == lost_root(storage@, sessions@, i),
        r.1 == exists|i: int| 0 <= i < storage@.len() && storage@[i].parent_id.is_none(),
        r.2 == exists|i: int|
            0 <= i < storage@.len() && storage@[i].parent_id.is_none() && listed(sessions@, storage@[i].mux_session),
{
    let mut flags: Vec<bool> = Vec::new();
    let mut any_root = false;
    let mut any_live = false;
    let mut i: usize = 0;
    while i < storage.agents.len()
        invariant
            i <= storage@.len(),
            flags@.len() == i,
            forall|k: int| 0 <= k < i ==> flags@[k] == lost_root(storage@, sessions@, k),
            any_root == exists|k: int| 0 <= k < i && storage@[k].parent_id.is_none(),
            any_live == exists|k: int|
                0 <= k < i && storage@[k].parent_id.is_none() && listed(sessions@, storage@[k].mux_session),
        decreases storage@.len() - i,
    {
        let a = &storage.agents[i];
        let is_root = a.is_root();
        let live = session_listed(sessions, &a.mux_session);
        flags.push(is_root && !live);
        if is_root {
            any_root = true;
            if live {
                any_live = true;
            }
        }
        proof {
            assert(storage@[i as int].parent_id.is_none() == is_root);
        }
        i = i + 1;
    }
    (flags, any_root, any_live)
}

/// What the sync with `sessions` does to the stored agents of `old_d`.
pub open spec fn sync_ok(old_d: AppData, new_d: AppData, sessions: Option<Seq<String>>, r: SyncOutcome) -> bool {
    &&& sync_skipped(old_d.storage@, sessions) ==> (new_d == old_d && !r.changed
        && r.pruned_sessions@.len() == 0)
    &&& !sync_skipped(old_d.storage@, sessions) ==> {
        &&& new_d.storage@ == synced(old_d.storage@, sessions.unwrap())
        &&& r.changed == (new_d.storage@ != old_d.storage@)
        &&& crate::text::string_views(r.pruned_sessions@) == lost_sessions(
            old_d.storage@,
            sessions.unwrap(),
            old_d.storage@.len() as int,
        )
        &&& new_d == (AppData { storage: new_d.storage, ..old_d })
    }
}

/// The view of an optional session list.
pub open spec fn listing_view(sessions: Option<&Vec<String>>) -> Option<Seq<String>> {
    match sessions {
        Some(v) => Some(v@),
        None => None,
    }
}

/// What listing the multiplexer's sessions gave.
#[derive(Debug)]
pub enum SessionListing {
    /// The multiplexer's server is not running.
    ServerDown,
    /// Listing failed.
    Failed,
    /// The names of the listed sessions.
    Listed(Vec<String>),
}

impl Actions {
    /// Bring the stored agents in line with what listing the sessions gave: nothing
    /// is done while the server is down or listing failed. When the stored agents
    /// changed, the selection is brought back among the rows that `sidebar` lays out.
    pub fn sync_agent_status<F: Fn(&AppData) -> Vec<Option<u128>>>(
        self,
        app: &mut App,
        listing: SessionListing,
        sidebar: &F,
    ) -> (r: SyncOutcome)
        requires
            lays_out(*sidebar),
        ensures
            final(app).mode == old(app).mode,
            sync_ok(
                old(app).data,
                before_validation(old(app).data, final(app).data),
                match listing {
                    SessionListing::Listed(v) => Some(v@),
                    _ => None,
                },
                r,
            ),
            r.changed ==> validated_after(old(app).data, final(app).data, *sidebar),
            !r.changed ==> final(app).data == before_validation(old(app).data, final(app).data),
    {
        match listing {
            SessionListing::Listed(v) => self.sync_agent_status_with_sessions(app, Some(&v), sidebar),
            _ => self.sync_agent_status_with_sessions(app, None, sidebar),
        }
    }

    /// Bring the stored agents in line with the sessions the multiplexer listed
    /// (`None` when listing failed). When the stored agents changed, the selection is
    /// brought back among the rows that `sidebar` lays out.
    pub fn sync_agent_status_with_sessions<F: Fn(&AppData) -> Vec<Option<u128>>>(
        self,
        app: &mut App,
        sessions: Option<&Vec<String>>,
        sidebar: &F,
    ) -> (r: SyncOutcome)
        requires
            lays_out(*sidebar),
        ensures
            final(app).mode == old(app).mode,
            sync_ok(old(app).data, before_validation(old(app).data, final(app).data), listing_view(sessions), r),
            r.changed ==> validated_after(old(app).data, final(app).data, *sidebar),
            !r.changed ==> final(app).data == before_validation(old(app).data, final(app).data),
    {
        let r = sync_storage(&mut app.data, sessions);
        if r.changed {
            let ghost mid = app.data;
            app.data.validate_selection_in(sidebar);
            assert(before_validation(old(app).data, app.data) == mid);
        }
        r
    }
}

fn sync_storage(app_data: &mut AppData, sessions: Option<&Vec<String>>) -> (r: SyncOutcome)
    ensures
        sync_ok(*old(app_data), *final(app_data), listing_view(sessions), r),
{
    let ss = match sessions {
        Some(v) => v,
        None => {
            return SyncOutcome { pruned_sessions: Vec::new(), changed: false };
        },
    };
    if ss.len() == 0 && app_data.storage.agents.len() > 0 {
        return SyncOutcome { pruned_sessions: Vec::new(), changed: false };
    }
    let (lost, any_root, any_live) = root_lost_flags(&app_data.storage, ss);
    if any_root && !any_live {
        return SyncOutcome { pruned_sessions: Vec::new(), changed: false };
    }
    let ghost s = app_data.storage@;
    let ghost keep = |g: AgentView| !pruned(s, ss@, g);
    let n = app_data.storage.agents.len();
    let mut pruned_sessions: Vec<String> = Vec::new();
    let mut i: usize = 0;
    while i < n
        invariant
            n == s.len(),
            app_data.storage@ == s,
            lost@.len() == n,
            forall|k: int| 0 <= k < n ==> lost@[k] == lost_root(s, ss@, k),
            i <= n,
            crate::text::string_views(pruned_sessions@) == lost_sessions(s, ss@, i as int),
        decreases n - i,
    {
        let ghost before = pruned_sessions@;
        if lost[i] {
            pruned_sessions.push(app_data.storage.agents[i].mux_session.clone());
        }
        proof {
            assert(crate::text::string_views(pruned_sessions@) =~= lost_sessions(s, ss@, i + 1));
        }
        i = i + 1;
    }
    let mut out: Vec<Agent> = Vec::new();
    let mut i: usize = 0;
    while i < n
        invariant
            n == s.len(),
            app_data.storage@ == s,
            lost@.len() == n,
            forall|k: int| 0 <= k < n ==> lost@[k] == lost_root(s, ss@, k),
            keep == (|g: AgentView| !pruned(s, ss@, g)),
            i <= n,
            agent_views(out@) == s.take(i as int).filter(keep).map_values(|g: AgentView| promoted(ss@, g)),
        decreases n - i,
    {
        let gid = app_data.storage.agents[i].id;
        let mut gone = false;
        let mut r: usize = 0;
        while r < n
            invariant
                n == s.len(),
                app_data.storage@ == s,
                i < n,
                gid == s[i as int].id,
                lost@.len() == n,
                forall|k: int| 0 <= k < n ==> lost@[k] == lost_root(s, ss@, k),
                r <= n,
                gone == exists|k: int|
                    0 <= k < r && #[trigger] lost_root(s, ss@, k) && (gid == s[k].id || is_descendant(
                        s,
                        gid,
                        s[k].id,
                    )),
            decreases n - r,
        {
            if lost[r] {
                let rid = app_data.storage.agents[r].id;
                if gid == rid || app_data.storage.is_descendant(gid, rid) {
                    gone = true;
                }
            }
            r = r + 1;
        }
        proof {
            s.take(i as int).lemma_filter_push(s[i as int], keep);
            assert(s.take(i + 1) =~= s.take(i as int).push(s[i as int]));
            assert(gone == pruned(s, ss@, s[i as int]));
        }
        if !gone {
            let mut g = app_data.storage.agents[i].duplicate();
            if g.status == Status::Starting && session_listed(ss, &g.mux_session) {
                g.status = Status::Running;
            }
            let ghost before = out@;
            out.push(g);
            proof {
                assert(agent_views(out@) =~= agent_views(before).push(promoted(ss@, s[i as int])));
            }
        }
        i = i + 1;
    }
    proof {
        assert(s.take(n as int) =~= s);
    }
    let changed = !agents_equal(&out, &app_data.storage.agents);
    app_data.storage.agents = out;
    SyncOutcome { pruned_sessions, changed }
}

/// Whether two agent lists have equal views.
pub fn agents_equal(a: &Vec<Agent>, b: &Vec<Agent>) -> (r: bool)
    ensures
        r == (agent_views(a@) == agent_views(b@)),
{
    if a.len() != b.len() {
        assert(agent_views(a@).len() != agent_views(b@).len());
        return false;
    }
    let mut i: usize = 0;
    while i < a.len()
        invariant
            a@.len() == b@.len(),
            i <= a@.len(),
            forall|k: int| 0 <= k < i ==> a@[k]@ == b@[k]@,
        decreases a@.len() - i,
    {
        if !agent_equal(&a[i], &b[i]) {
            assert(agent_views(a@)[i as int] != agent_views(b@)[i as int]);
            return false;
        }
        i = i + 1;
    }
    assert(agent_views(a@) =~= agent_views(b@));
    true
}

fn opt_string_equal(a: &Option<String>, b: &Option<String>) -> (r: bool)
    ensures
        r == (crate::agent::opt_view(*a) == crate::agent::opt_view(*b)),
{
    match (a, b) {
        (Some(x), Some(y)) => *x == *y,
        (None, None) => true,
        _ => false,
    }
}

/// Whether two agents have equal views.
pub fn agent_equal(a: &Agent, b: &Agent) -> (r: bool)
    ensures
        r == (a@ == b@),
{
    a.id == b.id && a.parent_id == b.parent_id && a.title == b.title && a.program == b.program
        && a.branch == b.branch && a.worktree_path == b.worktree_path && opt_string_equal(
        &a.repo_root,
        &b.repo_root,
    ) && a.mux_session == b.mux_session && a.window_index == b.window_index && a.status == b.status
        && a.collapsed == b.collapsed && a.is_terminal == b.is_terminal && a.workspace_kind
        == b.workspace_kind
}


/// `s` after the tree of root `root_id` was set to session `session` and status
/// running (or starting, when `running` is false).
pub open spec fn normalized(s: Seq<AgentView>, root_id: u128, session: Seq<char>, running: bool) -> Seq<AgentView> {
    s.map_values(
        |g: AgentView|
            if g.id == root_id || is_descendant(s, g.id, root_id) {
                AgentView {
                    mux_session: session,
                    status: if running {
                        Status::Running
                    } else {
                        Status::Starting
                    },
                    ..g
                }
            } else {
                g
            },
    )
}

/// Set the session and status of the tree of root `root_id`; tell whether anything
/// changed.
pub fn normalize_tree_running(app_data: &mut AppData, root_id: u128, mux_session: &str, running: bool) -> (r: bool)
    ensures
        final(app_data).storage@ == normalized(old(app_data).storage@, root_id, mux_session@, running),
        r == (final(app_data).storage@ != old(app_data).storage@),
        *final(app_data) == (AppData { storage: final(app_data).storage, ..*old(app_data) }),
{
    let ghost s = app_data.storage@;
    let below = app_data.storage.descendant_flags(root_id);
    let status = if running {
        Status::Running
    } else {
        Status::Starting
    };
    let session = owned(mux_session);
    let n = app_data.storage.agents.len();
    let mut changed = false;
    let mut i: usize = 0;
    while i < n
        invariant
            n == s.len(),
            app_data.storage@.len() == n,
            i <= n,
            session@ == mux_session@,
            status == (if running { Status::Running } else { Status::Starting }),
            below@.len() == n,
            forall|j: int| 0 <= j < n ==> below@[j] == is_descendant(s, s[j].id, root_id),
            forall|j: int| 0 <= j < i ==> app_data.storage@[j] == normalized(s, root_id, mux_session@, running)[j],
            forall|j: int| i <= j < n ==> app_data.storage@[j] == s[j],
            changed == exists|j: int| 0 <= j < i && app_data.storage@[j] != s[j],
            *app_data == (AppData { storage: app_data.storage, ..*old(app_data) }),
        decreases n - i,
    {
        let ghost prev = app_data.storage@;
        let ghost goal = normalized(s, root_id, mux_session@, running);
        if app_data.storage.agents[i].id == root_id || below[i] {
            if app_data.storage.agents[i].mux_session != session {
                app_data.storage.agents[i].mux_session = session.clone();
                changed = true;
            }
            if app_data.storage.agents[i].status != status {
                app_data.storage.agents[i].status = status;
                changed = true;
            }
        }
        proof {
            assert(app_data.storage@ =~= prev.update(i as int, goal[i as int]));
            assert(app_data.storage@[i as int] != s[i as int] <==> changed_at(s, goal, i as int));
        }
        i = i + 1;
    }
    proof {
        assert(app_data.storage@ =~= normalized(s, root_id, mux_session@, running));
        if !changed {
            assert(app_data.storage@ =~= s);
        }
    }
    changed
}

spec fn changed_at(s: Seq<AgentView>, t: Seq<AgentView>, i: int) -> bool {
    t[i] != s[i]
}

/// `s` with the first agent with id `id` running in `session` (and in window `w`, when
/// given).
pub open spec fn mark_one(s: Seq<AgentView>, id: u128, session: Seq<char>, w: Option<u32>) -> Seq<AgentView> {
    if position(s, id) >= 0 {
        let g = s[position(s, id)];
        s.update(
            position(s, id),
            AgentView {
                mux_session: session,
                status: Status::Running,
                window_index: match w {
                    Some(x) => Some(x),
                    None => g.window_index,
                },
                ..g
            },
        )
    } else {
        s
    }
}

/// `s` after marking the root and the first `k` recreated windows running.
pub open spec fn marked(s: Seq<AgentView>, root_id: u128, session: Seq<char>, rec: Seq<(u128, u32)>, k: int) -> Seq<AgentView>
    decreases k,
{
    if k <= 0 {
        mark_one(s, root_id, session, None)
    } else {
        mark_one(marked(s, root_id, session, rec, k - 1), rec[k - 1].0, session, Some(rec[k - 1].1))
    }
}

fn mark_one_exec(storage: &mut Storage, id: u128, session: &String, w: Option<u32>)
    ensures
        final(storage)@ == mark_one(old(storage)@, id, session@, w),
{
    proof {
        lemma_position(storage@, id);
    }
    match storage.find_index(id) {
        Some(i) => {
            let ghost prev = storage@;
            storage.agents[i].mux_session = session.clone();
            storage.agents[i].status = Status::Running;
            match w {
                Some(x) => {
                    storage.agents[i].window_index = Some(x);
                },
                None => {},
            }
            proof {
                assert(storage@ =~= mark_one(prev, id, session@, w));
            }
        },
        None => {},
    }
}

/// After the session of root `root_id` was recreated as `mux_session` and the windows
/// in `recreated` (agent id, window index) were recreated in it, mark them all
/// running; tell whether anything changed.
pub fn mark_respawned_agents_running(
    app_data: &mut AppData,
    root_id: u128,
    mux_session: &str,
    recreated: &Vec<(u128, u32)>,
) -> (r: bool)
    ensures
        final(app_data).storage@ == marked(
            old(app_data).storage@,
            root_id,
            mux_session@,
            recreated@,
            recreated@.len() as int,
        ),
        r == (final(app_data).storage@ != old(app_data).storage@),
        *final(app_data) == (AppData { storage: final(app_data).storage, ..*old(app_data) }),
{
    let before = snapshot(&app_data.storage.agents);
    let session = owned(mux_session);
    mark_one_exec(&mut app_data.storage, root_id, &session, None);
    let mut k: usize = 0;
    while k < recreated.len()
        invariant
            k <= recreated@.len(),
            session@ == mux_session@,
            agent_views(before@) == old(app_data).storage@,
            app_data.storage@ == marked(old(app_data).storage@, root_id, mux_session@, recreated@, k as int),
            *app_data == (AppData { storage: app_data.storage, ..*old(app_data) }),
        decreases recreated@.len() - k,
    {
        let (id, w) = recreated[k];
        mark_one_exec(&mut app_data.storage, id, &session, Some(w));
        k = k + 1;
    }
    !agents_equal(&before, &app_data.storage.agents)
}

/// A copy of a list of agents.
pub fn snapshot(v: &Vec<Agent>) -> (r: Vec<Agent>)
    ensures
        agent_views(r@) == agent_views(v@),
{
    let mut out: Vec<Agent> = Vec::new();
    let mut i: usize = 0;
    while i < v.len()
        invariant
            i <= v@.len(),
            agent_views(out@) == agent_views(v@.take(i as int)),
        decreases v@.len() - i,
    {
        let ghost before = out@;
        out.push(v[i].duplicate());
        proof {
            assert(v@.take(i + 1) =~= v@.take(i as int).push(v@[i as int]));
            assert(agent_views(out@) =~= agent_views(before).push(v@[i as int]@));
            assert(agent_views(v@.take(i + 1)) =~= agent_views(v@.take(i as int)).push(v@[i as int]@));
        }
        i = i + 1;
    }
    proof {
        assert(v@.take(v@.len() as int) =~= v@);
    }
    out
}

/// The status line after respawning: the number of sessions brought back, when any.
pub fn finish_respawn_summary(app_data: &mut AppData, respawned_sessions: usize)
    ensures
        respawned_sessions > 0 ==> status_is(
            *final(app_data),
            "Respawned "@ + decimal(respawned_sessions as nat) + " agent session(s)"@,
        ),
        respawned_sessions == 0 ==> *final(app_data) == *old(app_data),
        final(app_data).storage == old(app_data).storage,
        *final(app_data) == (AppData {
            ui: crate::data::UiState { status: final(app_data).ui.status, ..old(app_data).ui },
            ..*old(app_data)
        }),
{
    if respawned_sessions > 0 {
        let n = decimal_string(respawned_sessions as u64);
        app_data.set_status(concat3("Respawned ", n.as_str(), " agent session(s)"));
    }
}

/// How pane activity is observed: by the output cursor, or by capturing the pane.
#[derive(Clone, Copy, Debug, PartialEq, Eq, Structural)]
pub enum PaneActivityDigestMode {
    Cursor,
    Capture,
}

/// The digest of a pane's activity and the mode to use next time. In cursor mode the
/// digest of the output cursor is used when it could be read; otherwise, and in
/// capture mode, the hash of the captured pane text is used and capture mode stays.
/// `None` when the capture that is needed failed.
pub fn pane_activity_digest_with_fallback(
    mode: PaneActivityDigestMode,
    cursor_digest: Option<u64>,
    capture: Option<&str>,
) -> (r: Option<(u64, PaneActivityDigestMode)>)
    ensures
        match (mode, cursor_digest) {
            (PaneActivityDigestMode::Cursor, Some(d)) => r == Some((d, PaneActivityDigestMode::Cursor)),
            _ => match capture {
                Some(text) => r == Some((text_hash(text@), PaneActivityDigestMode::Capture)),
                None => r.is_none(),
            },
        },
{
    match (mode, cursor_digest) {
        (PaneActivityDigestMode::Cursor, Some(d)) => Some((d, PaneActivityDigestMode::Cursor)),
        _ => match capture {
            Some(text) => Some((hash_text(text), PaneActivityDigestMode::Capture)),
            None => None,
        },
    }
}

/// A worktree of the repository inside this instance's worktree directory, not
/// claimed by another instance, with the branch checked out in it.
#[derive(Debug)]
pub struct WorktreeCandidate {
    pub branch: String,
    pub path: String,
}

/// An agent to adopt for an existing worktree.
#[derive(Debug)]
pub struct AutoConnect {
    pub title: String,
    pub program: String,
    pub branch: String,
    pub worktree_path: String,
}

/// The (branch, path) views of worktree candidates.
pub open spec fn candidate_views(v: Seq<WorktreeCandidate>) -> Seq<(Seq<char>, Seq<char>)> {
    v.map_values(|c: WorktreeCandidate| (c.branch@, c.path@))
}

/// The first `k` candidates that are adopted: those on a managed branch that neither a
/// stored agent nor an earlier adopted candidate works on.
pub open spec fn adopted(
    s: Seq<AgentView>,
    prefix: Seq<char>,
    cands: Seq<(Seq<char>, Seq<char>)>,
    k: int,
) -> Seq<(Seq<char>, Seq<char>)>
    decreases k,
{
    if k <= 0 {
        Seq::empty()
    } else {
        let prev = adopted(s, prefix, cands, k - 1);
        let c = cands[k - 1];
        if managed_branch_spec(c.0, prefix) && (forall|i: int| 0 <= i < s.len() ==> s[i].branch != c.0) && (forall|
            j: int,
        | 0 <= j < prev.len() ==> prev[j].0 != c.0) {
            prev.push(c)
        } else {
            prev
        }
    }
}

fn adopted_contains(v: &Vec<AutoConnect>, branch: &String) -> (r: bool)
    ensures
        r == exists|j: int| 0 <= j < v@.len() && v@[j].branch@ == branch@,
{
    let mut j: usize = 0;
    while j < v.len()
        invariant
            j <= v@.len(),
            forall|k: int| 0 <= k < j ==> v@[k].branch@ != branch@,
        decreases v@.len() - j,
    {
        if v[j].branch == *branch {
            assert(v@[j as int].branch@ == branch@);
            return true;
        }
        j = j + 1;
    }
    false
}

impl Actions {
    /// The agents to adopt for existing worktrees: one per worktree on a branch this
    /// tool manages that no agent works on yet, titled after its branch and running
    /// the configured program.
    pub fn auto_connect_worktrees(self, app_data: &AppData, worktrees: &Vec<WorktreeCandidate>) -> (r: Vec<AutoConnect>)
        ensures
            r@.len() == adopted(
                app_data.storage@,
                app_data.config.branch_prefix@,
                candidate_views(worktrees@),
                worktrees@.len() as int,
            ).len(),
            forall|j: int| 0 <= j < r@.len() ==> {
                let c = adopted(
                    app_data.storage@,
                    app_data.config.branch_prefix@,
                    candidate_views(worktrees@),
                    worktrees@.len() as int,
                )[j];
                &&& (#[trigger] r@[j]).branch@ == c.0
                &&& r@[j].worktree_path@ == c.1
                &&& r@[j].title@ == title_for_branch_spec(c.0, app_data.config.branch_prefix@)
                &&& r@[j].program@ == crate::data::spawn_command_spec(
                    app_data.settings.agent_program,
                    app_data.settings.custom_agent_command@,
                    app_data.config.default_program@,
                )
            },
    {
        let ghost s = app_data.storage@;
        let ghost prefix = app_data.config.branch_prefix@;
        let ghost cands = candidate_views(worktrees@);
        let mut out: Vec<AutoConnect> = Vec::new();
        let mut k: usize = 0;
        while k < worktrees.len()
            invariant
                s == app_data.storage@,
                prefix == app_data.config.branch_prefix@,
                cands == candidate_views(worktrees@),
                k <= worktrees@.len(),
                out@.len() == adopted(s, prefix, cands, k as int).len(),
                forall|j: int| 0 <= j < out@.len() ==> {
                    let c = adopted(s, prefix, cands, k as int)[j];
                    &&& (#[trigger] out@[j]).branch@ == c.0
                    &&& out@[j].worktree_path@ == c.1
                    &&& out@[j].title@ == title_for_branch_spec(c.0, prefix)
                    &&& out@[j].program@ == crate::data::spawn_command_spec(
                        app_data.settings.agent_program,
                        app_data.settings.custom_agent_command@,
                        app_data.config.default_program@,
                    )
                },
            decreases worktrees@.len() - k,
        {
            let c = &worktrees[k];
            assert(cands[k as int] == (c.branch@, c.path@));
            let ghost prev = adopted(s, prefix, cands, k as int);
            let fresh = should_auto_connect(&app_data.storage, c.branch.as_str(), app_data.config.branch_prefix.as_str());
            if fresh && !adopted_contains(&out, &c.branch) {
                out.push(AutoConnect {
                    title: title_for_branch(c.branch.as_str(), app_data.config.branch_prefix.as_str()),
                    program: app_data.agent_spawn_command(),
                    branch: c.branch.clone(),
                    worktree_path: c.path.clone(),
                });
                proof {
                    assert forall|j: int| 0 <= j < prev.len() implies prev[j].0 != c.branch@ by {
                        assert(out@[j].branch@ == prev[j].0);
                    }
                    assert(adopted(s, prefix, cands, k + 1) == prev.push(cands[k as int]));
                }
            } else {
                proof {
                    if fresh {
                        let j = choose|j: int| 0 <= j < out@.len() && out@[j].branch@ == c.branch@;
                        assert(prev[j].0 == c.branch@);
                    }
                    assert(adopted(s, prefix, cands, k + 1) == prev);
                }
            }
            k = k + 1;
        }
        out
    }
}

/// The root agent `g` adopted for the worktree of `c` as agent `id`, running in
/// `session`, of the repository at `repo_root`.
pub open spec fn adopted_root(c: AutoConnect, id: u128, session: Seq<char>, repo_root: Seq<char>, g: AgentView) -> bool {
    &&& g.id == id
    &&& g.parent_id.is_none()
    &&& g.title == c.title@
    &&& g.program == c.program@
    &&& g.branch == c.branch@
    &&& g.worktree_path == c.worktree_path@
    &&& g.repo_root == Some(repo_root)
    &&& g.mux_session == session
    &&& g.window_index.is_none()
    &&& g.status == Status::Starting
    &&& !g.collapsed
    &&& !g.is_terminal
    &&& g.workspace_kind == WorkspaceKind::GitWorktree
}

impl Actions {
    /// Record root agent `id` adopted for the worktree of `c`, once its session
    /// `session` was started there.
    pub fn adopt_worktree(app_data: &mut AppData, c: &AutoConnect, id: u128, session: &str, repo_root: &str)
        ensures
            exists|g: AgentView|
                adopted_root(*c, id, session@, repo_root@, g) && final(app_data).storage@ == old(
                    app_data,
                ).storage@.push(g),
            *final(app_data) == (AppData { storage: final(app_data).storage, ..*old(app_data) }),
    {
        let a = Agent {
            id,
            parent_id: None,
            title: c.title.clone(),
            program: c.program.clone(),
            branch: c.branch.clone(),
            worktree_path: c.worktree_path.clone(),
            repo_root: Some(owned(repo_root)),
            mux_session: owned(session),
            window_index: None,
            status: Status::Starting,
            collapsed: false,
            is_terminal: false,
            workspace_kind: WorkspaceKind::GitWorktree,
        };
        let ghost g = a@;
        app_data.storage.add(a);
        assert(adopted_root(*c, id, session@, repo_root@, g));
    }
}

/// The stored root agents, in storage order.
pub fn stored_root_agents(app_data: &AppData) -> (r: Vec<Agent>)
    ensures
        agent_views(r@) == app_data.storage@.filter(|g: AgentView| g.parent_id.is_none()),
{
    let ghost s = app_data.storage@;
    let ghost root = |g: AgentView| g.parent_id.is_none();
    let mut out: Vec<Agent> = Vec::new();
    let mut i: usize = 0;
    while i < app_data.storage.agents.len()
        invariant
            s == app_data.storage@,
            root == (|g: AgentView| g.parent_id.is_none()),
            i <= s.len(),
            agent_views(out@) == s.take(i as int).filter(root),
        decreases s.len() - i,
    {
        proof {
            s.take(i as int).lemma_filter_push(s[i as int], root);
            assert(s.take(i + 1) =~= s.take(i as int).push(s[i as int]));
        }
        if app_data.storage.agents[i].is_root() {
            let ghost before = out@;
            out.push(app_data.storage.agents[i].duplicate());
            proof {
                assert(agent_views(out@) =~= agent_views(before).push(s[i as int]));
            }
        }
        i = i + 1;
    }
    proof {
        assert(s.take(s.len() as int) =~= s);
    }
    out
}

/// What the attempt to bring back the session of a stored root came to.
#[derive(Debug)]
pub enum RespawnOutcome {
    /// The session was still there.
    Alive,
    /// The session was gone and could not be recreated.
    NotRespawned,
    /// The session was recreated, with the windows (agent id, window index) that
    /// could be recreated in it.
    Respawned(Vec<(u128, u32)>),
}

/// What to do for a stored root whose session may be gone.
#[derive(Debug, PartialEq, Eq, Structural)]
pub enum RootRespawnStep {
    /// Its session is still there.
    Alive,
    /// Its worktree is gone: it cannot be respawned.
    WorktreeMissing,
    /// Recreate its session in its worktree.
    Recreate,
}

/// What to do for a stored root, given whether its session exists and its worktree does.
pub fn root_respawn_step(session_exists: bool, worktree_exists: bool) -> (r: RootRespawnStep)
    ensures
        r == (if session_exists {
            RootRespawnStep::Alive
        } else if !worktree_exists {
            RootRespawnStep::WorktreeMissing
        } else {
            RootRespawnStep::Recreate
        }),
{
    if session_exists {
        RootRespawnStep::Alive
    } else if !worktree_exists {
        RootRespawnStep::WorktreeMissing
    } else {
        RootRespawnStep::Recreate
    }
}

/// What to do for an agent below a root whose session was recreated.
#[derive(Debug)]
pub enum WindowRespawnStep {
    /// Its worktree is gone: its window is not recreated.
    Skip,
    /// Recreate its window titled `title` in `worktree_path`, then run `command` in it
    /// (a terminal runs none).
    Create { title: String, worktree_path: String, command: Option<String> },
}

/// What to do for `agent` below a recreated root, given whether its worktree exists.
pub fn window_respawn_step(agent: &Agent, worktree_exists: bool) -> (r: WindowRespawnStep)
    ensures
        !worktree_exists ==> r is Skip,
        worktree_exists ==> (r matches WindowRespawnStep::Create { title, worktree_path, command }
            && title@ == agent@.title && worktree_path@ == agent@.worktree_path && (if agent@.is_terminal {
            command.is_none()
        } else {
            command matches Some(c) && c@ == agent@.program
        })),
{
    if !worktree_exists {
        return WindowRespawnStep::Skip;
    }
    WindowRespawnStep::Create {
        title: agent.title.clone(),
        worktree_path: agent.worktree_path.clone(),
        command: if agent.is_terminal {
            None
        } else {
            Some(agent.program.clone())
        },
    }
}

/// A stored root, its session, and what respawning it came to.
#[derive(Debug)]
pub struct RespawnEntry {
    pub root_id: u128,
    pub session: String,
    pub outcome: RespawnOutcome,
}

/// The stored agents after applying the first `k` respawn entries.
pub open spec fn respawned(s: Seq<AgentView>, entries: Seq<RespawnEntry>, k: int) -> Seq<AgentView>
    decreases k,
{
    if k <= 0 {
        s
    } else {
        let prev = respawned(s, entries, k - 1);
        let e = entries[k - 1];
        match e.outcome {
            RespawnOutcome::Alive => normalized(prev, e.root_id, e.session@, true),
            RespawnOutcome::NotRespawned => normalized(prev, e.root_id, e.session@, false),
            RespawnOutcome::Respawned(rec) => marked(
                normalized(prev, e.root_id, e.session@, false),
                e.root_id,
                e.session@,
                rec@,
                rec@.len() as int,
            ),
        }
    }
}

/// How many of the first `k` respawn entries recreated their session.
pub open spec fn respawn_count(entries: Seq<RespawnEntry>, k: int) -> nat
    decreases k,
{
    if k <= 0 {
        0
    } else {
        respawn_count(entries, k - 1) + if entries[k - 1].outcome is Respawned {
            1nat
        } else {
            0nat
        }
    }
}

/// Whether one of the first `k` respawn entries changed the stored agents or
/// recreated a session.
pub open spec fn respawn_changed(s: Seq<AgentView>, entries: Seq<RespawnEntry>, k: int) -> bool
    decreases k,
{
    if k <= 0 {
        false
    } else {
        respawn_changed(s, entries, k - 1) || entries[k - 1].outcome is Respawned || respawned(s, entries, k)
            != respawned(s, entries, k - 1)
    }
}

/// What respawning did.
#[derive(Debug)]
pub struct RespawnSummary {
    /// Whether the stored agents changed (and must be saved).
    pub changed: bool,
    /// How many sessions were recreated.
    pub respawned_sessions: usize,
}

impl Actions {
    /// Bring the stored agents in line with what respawning their roots' sessions came
    /// to: the tree of a live root is running in its session; the tree of a lost root
    /// is starting, and running again in the windows that were recreated when its
    /// session was. When anything changed, the selection is brought back among the
    /// rows that `sidebar` lays out.
    pub fn respawn_missing_agents<F: Fn(&AppData) -> Vec<Option<u128>>>(
        self,
        app: &mut App,
        entries: &Vec<RespawnEntry>,
        sidebar: &F,
    ) -> (r: RespawnSummary)
        requires
            lays_out(*sidebar),
        ensures
            final(app).mode == old(app).mode,
            final(app).data.storage@ == respawned(old(app).data.storage@, entries@, entries@.len() as int),
            r.respawned_sessions == respawn_count(entries@, entries@.len() as int),
            r.changed == respawn_changed(old(app).data.storage@, entries@, entries@.len() as int),
            r.respawned_sessions > 0 ==> status_is(
                final(app).data,
                "Respawned "@ + decimal(r.respawned_sessions as nat) + " agent session(s)"@,
            ),
            r.respawned_sessions == 0 ==> before_validation(old(app).data, final(app).data) == (AppData {
                storage: final(app).data.storage,
                ..old(app).data
            }),
            r.changed ==> validated_after(old(app).data, final(app).data, *sidebar),
            !r.changed ==> final(app).data == before_validation(old(app).data, final(app).data),
    {
        let mut changed = false;
        let mut count: usize = 0;
        let mut k: usize = 0;
        while k < entries.len()
            invariant
                k <= entries@.len(),
                count as nat == respawn_count(entries@, k as int),
                count <= k,
                changed == respawn_changed(old(app).data.storage@, entries@, k as int),
                app.data.storage@ == respawned(old(app).data.storage@, entries@, k as int),
                app.data == (AppData { storage: app.data.storage, ..old(app).data }),
                app.mode == old(app).mode,
            decreases entries@.len() - k,
        {
            let e = &entries[k];
            let ghost prev = app.data.storage@;
            let step_changed = match &e.outcome {
                RespawnOutcome::Alive => normalize_tree_running(&mut app.data, e.root_id, e.session.as_str(), true),
                RespawnOutcome::NotRespawned => normalize_tree_running(
                    &mut app.data,
                    e.root_id,
                    e.session.as_str(),
                    false,
                ),
                RespawnOutcome::Respawned(rec) => {
                    normalize_tree_running(&mut app.data, e.root_id, e.session.as_str(), false);
                    mark_respawned_agents_running(&mut app.data, e.root_id, e.session.as_str(), rec);
                    count = count + 1;
                    true
                },
            };
            changed = changed || step_changed;
            proof {
                assert(prev == respawned(old(app).data.storage@, entries@, k as int));
            }
            k = k + 1;
        }
        finish_respawn_summary(&mut app.data, count);
        if changed {
            let ghost mid = app.data;
            app.data.validate_selection_in(sidebar);
            assert(before_validation(old(app).data, app.data) == mid);
        }
        RespawnSummary { changed, respawned_sessions: count }
    }
}

/// The window index an agent is ordered by when its windows are recreated; agents
/// without a window come last.
pub open spec fn window_key(g: AgentView) -> int {
    match g.window_index {
        Some(w) => w as int,
        None => u32::MAX as int,
    }
}

/// The agent at index `i` of `s` comes before the one at index `j`: by window index,
/// then by storage order.
pub open spec fn recreated_before(s: Seq<AgentView>, i: int, j: int) -> bool {
    window_key(s[i]) < window_key(s[j]) || (window_key(s[i]) == window_key(s[j]) && i < j)
}

/// `order` lists indices of `s` each before the next.
pub open spec fn in_recreation_order(s: Seq<AgentView>, order: Seq<usize>) -> bool {
    forall|a: int, b: int| 0 <= a < b < order.len() ==> recreated_before(s, order[a] as int, order[b] as int)
}

fn window_key_of(a: &Agent) -> (r: u32)
    ensures
        r as int == window_key(a@),
{
    match a.window_index {
        Some(w) => w,
        None => u32::MAX,
    }
}

proof fn lemma_insert_in_order(s: Seq<AgentView>, order: Seq<usize>, j: int, x: usize)
    requires
        in_recreation_order(s, order),
        0 <= j <= order.len(),
        forall|k: int| 0 <= k < order.len() ==> order[k] < x,
        forall|k: int| 0 <= k < j ==> window_key(s[order[k] as int]) <= window_key(s[x as int]),
        j < order.len() ==> window_key(s[order[j] as int]) > window_key(s[x as int]),
    ensures
        in_recreation_order(s, order.insert(j, x)),
{
    let v = order.insert(j, x);
    assert forall|a: int, b: int| 0 <= a < b < v.len() implies recreated_before(s, v[a] as int, v[b] as int) by {
        if b < j {
            assert(v[a] == order[a] && v[b] == order[b]);
        } else if a < j && b == j {
            assert(v[a] == order[a] && v[b] == x);
        } else if a < j {
            assert(v[a] == order[a] && v[b] == order[b - 1]);
        } else if a == j {
            assert(v[a] == x && v[b] == order[b - 1]);
            if b - 1 > j {
                assert(recreated_before(s, order[j] as int, order[b - 1] as int));
            }
        } else {
            assert(v[a] == order[a - 1] && v[b] == order[b - 1]);
        }
    }
}

/// The storage indices of the agents below `root_id` in the order their windows are
/// recreated: by window index (agents without one last), then by storage order.
pub fn sorted_descendants(app_data: &AppData, root_id: u128) -> (r: Vec<usize>)
    ensures
        in_recreation_order(app_data.storage@, r@),
        forall|k: int|
            0 <= k < r@.len() ==> r@[k] < app_data.storage@.len() && is_descendant(
                app_data.storage@,
                app_data.storage@[r@[k] as int].id,
                root_id,
            ),
        forall|i: int|
            0 <= i < app_data.storage@.len() && is_descendant(app_data.storage@, app_data.storage@[i].id, root_id)
                ==> r@.contains(i as usize),
{
    let ghost s = app_data.storage@;
    let below = app_data.storage.descendant_flags(root_id);
    let mut out: Vec<usize> = Vec::new();
    let mut i: usize = 0;
    while i < app_data.storage.agents.len()
        invariant
            s == app_data.storage@,
            below@.len() == s.len(),
            forall|k: int| 0 <= k < s.len() ==> below@[k] == is_descendant(s, s[k].id, root_id),
            i <= s.len(),
            in_recreation_order(s, out@),
            forall|k: int| 0 <= k < out@.len() ==> out@[k] < i && is_descendant(s, s[out@[k] as int].id, root_id),
            forall|k: int| 0 <= k < i && is_descendant(s, s[k].id, root_id) ==> out@.contains(k as usize),
        decreases s.len() - i,
    {
        if below[i] {
            let key = window_key_of(&app_data.storage.agents[i]);
            let mut j: usize = 0;
            while j < out.len() && window_key_of(&app_data.storage.agents[out[j]]) <= key
                invariant
                    s == app_data.storage@,
                    i < s.len(),
                    key as int == window_key(s[i as int]),
                    j <= out@.len(),
                    forall|k: int| 0 <= k < out@.len() ==> out@[k] < i,
                    forall|k: int| 0 <= k < j ==> window_key(s[out@[k] as int]) <= window_key(s[i as int]),
                decreases out@.len() - j,
            {
                j = j + 1;
            }
            let ghost before = out@;
            proof {
                lemma_insert_in_order(s, before, j as int, i);
            }
            out.insert(j, i);
            proof {
                assert forall|k: int| 0 <= k < out@.len() implies out@[k] < i + 1 && is_descendant(
                    s,
                    s[out@[k] as int].id,
                    root_id,
                ) by {
                    if k < j {
                        assert(out@[k] == before[k]);
                    } else if k > j {
                        assert(out@[k] == before[k - 1]);
                    }
                }
                assert forall|k: int| 0 <= k < i + 1 && is_descendant(s, s[k].id, root_id) implies out@.contains(
                    k as usize,
                ) by {
                    if k == i {
                        assert(out@[j as int] == i);
                    } else {
                        let m = choose|m: int| 0 <= m < before.len() && before[m] == k as usize;
                        if m < j {
                            assert(out@[m] == before[m]);
                        } else {
                            assert(out@[m + 1] == before[m]);
                        }
                    }
                }
            }
        }
        i = i + 1;
    }
    out
}

} // verus!
