//! Agents and the storage that holds the agent forest.

use vstd::prelude::*;

verus! {

broadcast use vstd::seq_lib::group_seq_properties;

/// Lifecycle status of an agent.
#[derive(Clone, Copy, Debug, PartialEq, Eq, Structural)]
pub enum Status {
    /// The agent's process is being started.
    Starting,
    /// The agent's process is running.
    Running,
}

/// What kind of directory an agent works in.
#[derive(Clone, Copy, Debug, PartialEq, Eq, Structural)]
pub enum WorkspaceKind {
    /// A git worktree of a repository.
    GitWorktree,
    /// A plain directory outside version control.
    PlainDir,
}

/// One agent: a root owns a multiplexer session and a workspace; a child runs in a
/// window of its root's session.
#[derive(Debug)]
pub struct Agent {
    pub id: u128,
    pub parent_id: Option<u128>,
    pub title: String,
    pub program: String,
    pub branch: String,
    pub worktree_path: String,
    pub repo_root: Option<String>,
    pub mux_session: String,
    pub window_index: Option<u32>,
    pub status: Status,
    pub collapsed: bool,
    pub is_terminal: bool,
    pub workspace_kind: WorkspaceKind,
}

/// The mathematical value of an agent: its strings as character sequences.
pub struct AgentView {
    pub id: u128,
    pub parent_id: Option<u128>,
    pub title: Seq<char>,
    pub program: Seq<char>,
    pub branch: Seq<char>,
    pub worktree_path: Seq<char>,
    pub repo_root: Option<Seq<char>>,
    pub mux_session: Seq<char>,
    pub window_index: Option<u32>,
    pub status: Status,
    pub collapsed: bool,
    pub is_terminal: bool,
    pub workspace_kind: WorkspaceKind,
}

/// The view of an optional string.
pub open spec fn opt_view(o: Option<String>) -> Option<Seq<char>> {
    match o {
        Some(s) => Some(s@),
        None => None,
    }
}

impl View for Agent {
    type V = AgentView;

    open spec fn view(&self) -> AgentView {
        AgentView {
            id: self.id,
            parent_id: self.parent_id,
            title: self.title@,
            program: self.program@,
            branch: self.branch@,
            worktree_path: self.worktree_path@,
            repo_root: opt_view(self.repo_root),
            mux_session: self.mux_session@,
            window_index: self.window_index,
            status: self.status,
            collapsed: self.collapsed,
            is_terminal: self.is_terminal,
            workspace_kind: self.workspace_kind,
        }
    }
}

/// The views of a sequence of agents.
pub open spec fn agent_views(v: Seq<Agent>) -> Seq<AgentView> {
    v.map_values(|a: Agent| a@)
}

impl Agent {
    /// A root agent has no parent.
    pub open spec fn is_root_spec(&self) -> bool {
        self.parent_id.is_none()
    }

    /// Whether this agent is a root.
    #[verifier::when_used_as_spec(is_root_spec)]
    pub fn is_root(&self) -> (r: bool)
        ensures
            r == self.parent_id.is_none(),
    {
        self.parent_id.is_none()
    }

    /// Whether this agent is a plain terminal rather than a coding agent.
    pub fn is_terminal_agent(&self) -> (r: bool)
        ensures
            r == self.is_terminal,
    {
        self.is_terminal
    }

    /// A field-by-field copy of this agent.
    pub fn duplicate(&self) -> (r: Agent)
        ensures
            r@ == self@,
    {
        Agent {
            id: self.id,
            parent_id: self.parent_id,
            title: self.title.clone(),
            program: self.program.clone(),
            branch: self.branch.clone(),
            worktree_path: self.worktree_path.clone(),
            repo_root: match &self.repo_root {
                Some(r) => Some(r.clone()),
                None => None,
            },
            mux_session: self.mux_session.clone(),
            window_index: self.window_index,
            status: self.status,
            collapsed: self.collapsed,
            is_terminal: self.is_terminal,
            workspace_kind: self.workspace_kind,
        }
    }
}

/// First index at or after `i` of an agent with id `id`, or -1.
pub open spec fn find_from(s: Seq<AgentView>, id: u128, i: int) -> int
    decreases s.len() - i,
{
    if i < 0 || i >= s.len() {
        -1
    } else if s[i].id == id {
        i
    } else {
        find_from(s, id, i + 1)
    }
}

/// Index of the first agent with id `id`, or -1.
pub open spec fn position(s: Seq<AgentView>, id: u128) -> int {
    find_from(s, id, 0)
}

pub proof fn lemma_find_from(s: Seq<AgentView>, id: u128, i: int)
    requires
        0 <= i,
    ensures
        find_from(s, id, i) == -1 || (i <= find_from(s, id, i) < s.len() && s[find_from(
            s,
            id,
            i,
        )].id == id),
        forall|k: int| i <= k < s.len() && (find_from(s, id, i) == -1 || k < find_from(s, id, i))
            ==> s[k].id != id,
    decreases s.len() - i,
{
    if i < s.len() && s[i].id != id {
        lemma_find_from(s, id, i + 1);
    }
}

pub proof fn lemma_position(s: Seq<AgentView>, id: u128)
    ensures
        position(s, id) == -1 || (0 <= position(s, id) < s.len() && s[position(s, id)].id == id),
        position(s, id) == -1 ==> forall|k: int| 0 <= k < s.len() ==> s[k].id != id,
        forall|k: int| 0 <= k < position(s, id) ==> s[k].id != id,
{
    lemma_find_from(s, id, 0);
}

/// The parent of the agent with id `id`, if that agent is stored and has one.
pub open spec fn parent_of(s: Seq<AgentView>, id: u128) -> Option<u128> {
    if position(s, id) >= 0 {
        s[position(s, id)].parent_id
    } else {
        None
    }
}

/// The id reached from `id` by following `k` parent links through stored agents.
pub open spec fn ancestor_at(s: Seq<AgentView>, id: u128, k: nat) -> Option<u128>
    decreases k,
{
    if k == 0 {
        Some(id)
    } else {
        match ancestor_at(s, id, (k - 1) as nat) {
            Some(y) => parent_of(s, y),
            None => None,
        }
    }
}

/// `x` lies below `a`: following parent links from `x` reaches `a` within as many
/// steps as there are agents.
pub open spec fn is_descendant(s: Seq<AgentView>, x: u128, a: u128) -> bool {
    exists|k: nat| 1 <= k <= s.len() && #[trigger] ancestor_at(s, x, k) == Some(a)
}

/// The agents below `a`, in storage order.
pub open spec fn descendants_spec(s: Seq<AgentView>, a: u128) -> Seq<AgentView> {
    s.filter(|g: AgentView| is_descendant(s, g.id, a))
}

/// The ids of a sequence of agents.
pub open spec fn ids(s: Seq<AgentView>) -> Seq<u128> {
    s.map_values(|g: AgentView| g.id)
}

/// Some stored agent has `id` as its parent.
pub open spec fn has_children_spec(s: Seq<AgentView>, id: u128) -> bool {
    exists|i: int| 0 <= i < s.len() && s[i].parent_id == Some(id)
}

/// Climb at most `fuel` parent links from `id`, stopping at an agent whose parent is
/// absent or not stored.
pub open spec fn climb(s: Seq<AgentView>, id: u128, fuel: nat) -> u128
    decreases fuel,
{
    if fuel == 0 {
        id
    } else {
        match parent_of(s, id) {
            Some(p) => if position(s, p) >= 0 {
                climb(s, p, (fuel - 1) as nat)
            } else {
                id
            },
            None => id,
        }
    }
}

/// Index of the root ancestor of `id` (the agent itself when it is a root), or -1
/// when `id` is not stored.
pub open spec fn root_position(s: Seq<AgentView>, id: u128) -> int {
    if position(s, id) >= 0 {
        position(s, climb(s, id, s.len()))
    } else {
        -1
    }
}

pub proof fn lemma_climb_stored(s: Seq<AgentView>, id: u128, fuel: nat)
    requires
        position(s, id) >= 0,
    ensures
        position(s, climb(s, id, fuel)) >= 0,
    decreases fuel,
{
    if fuel > 0 {
        match parent_of(s, id) {
            Some(p) => if position(s, p) >= 0 {
                lemma_climb_stored(s, p, (fuel - 1) as nat);
            },
            None => {},
        }
    }
}

pub proof fn lemma_ancestor_none_stays(s: Seq<AgentView>, id: u128, k: nat, m: nat)
    requires
        k <= m,
        ancestor_at(s, id, k).is_none(),
    ensures
        ancestor_at(s, id, m).is_none(),
    decreases m - k,
{
    if k < m {
        lemma_ancestor_none_stays(s, id, k, (m - 1) as nat);
    }
}

/// `s` with the collapsed flag of the first agent with id `id` set to `v`.
pub open spec fn with_collapsed(s: Seq<AgentView>, id: u128, v: bool) -> Seq<AgentView> {
    if position(s, id) >= 0 {
        s.update(position(s, id), AgentView { collapsed: v, ..s[position(s, id)] })
    } else {
        s
    }
}

/// The stored agents.
#[derive(Debug)]
pub struct Storage {
    pub agents: Vec<Agent>,
}

impl View for Storage {
    type V = Seq<AgentView>;

    open spec fn view(&self) -> Seq<AgentView> {
        agent_views(self.agents@)
    }
}

impl Storage {
    /// Empty storage.
    pub fn new() -> (r: Storage)
        ensures
            r@ == Seq::<AgentView>::empty(),
    {
        Storage { agents: Vec::new() }
    }

    /// Number of stored agents.
    pub fn len(&self) -> (r: usize)
        ensures
            r == self@.len(),
    {
        self.agents.len()
    }

    /// Whether no agent is stored.
    pub fn is_empty(&self) -> (r: bool)
        ensures
            r == (self@.len() == 0),
    {
        self.agents.len() == 0
    }

    /// Store one more agent, after the others.
    pub fn add(&mut self, agent: Agent)
        ensures
            final(self)@ == old(self)@.push(agent@),
    {
        self.agents.push(agent);
        assert(self@ =~= old(self)@.push(agent@));
    }

    /// Index of the first agent with id `id`.
    pub fn find_index(&self, id: u128) -> (r: Option<usize>)
        ensures
            match r {
                Some(i) => i as int == position(self@, id) && i < self@.len(),
                None => position(self@, id) == -1,
            },
    {
        proof {
            lemma_position(self@, id);
        }
        let mut i: usize = 0;
        while i < self.agents.len()
            invariant
                i <= self@.len(),
                find_from(self@, id, i as int) == position(self@, id),
            decreases self@.len() - i,
        {
            if self.agents[i].id == id {
                return Some(i);
            }
            i = i + 1;
        }
        None
    }

    /// The first agent with id `id`.
    pub fn get(&self, id: u128) -> (r: Option<&Agent>)
        ensures
            match r {
                Some(a) => position(self@, id) >= 0 && a@ == self@[position(self@, id)],
                None => position(self@, id) == -1,
            },
    {
        proof {
            lemma_position(self@, id);
        }
        match self.find_index(id) {
            Some(i) => Some(&self.agents[i]),
            None => None,
        }
    }

    /// The parent of the agent with id `id`.
    pub fn parent_of(&self, id: u128) -> (r: Option<u128>)
        ensures
            r == parent_of(self@, id),
    {
        proof {
            lemma_position(self@, id);
        }
        match self.find_index(id) {
            Some(i) => self.agents[i].parent_id,
            None => None,
        }
    }

    /// Whether the agent with id `x` lies below the agent with id `a`.
    pub fn is_descendant(&self, x: u128, a: u128) -> (r: bool)
        ensures
            r == is_descendant(self@, x, a),
    {
        let n = self.agents.len();
        let mut cur: Option<u128> = Some(x);
        let mut k: usize = 0;
        while k < n
            invariant
                n == self@.len(),
                k <= n,
                cur == ancestor_at(self@, x, k as nat),
                forall|j: nat| 1 <= j <= k ==> ancestor_at(self@, x, j) != Some(a),
            decreases n - k,
        {
            match cur {
                Some(y) => {
                    cur = self.parent_of(y);
                },
                None => {
                    proof {
                        assert forall|j: nat| 1 <= j <= n implies ancestor_at(self@, x, j) != Some(
                            a,
                        ) by {
                            if j > k {
                                lemma_ancestor_none_stays(self@, x, k as nat, j);
                            }
                        }
                    }
                    return false;
                },
            }
            k = k + 1;
            if cur == Some(a) {
                proof {
                    assert(ancestor_at(self@, x, k as nat) == Some(a));
                }
                return true;
            }
        }
        false
    }

    /// Whether some agent has the agent with id `id` as its parent.
    pub fn has_children(&self, id: u128) -> (r: bool)
        ensures
            r == has_children_spec(self@, id),
    {
        let mut i: usize = 0;
        while i < self.agents.len()
            invariant
                i <= self@.len(),
                forall|j: int| 0 <= j < i ==> self@[j].parent_id != Some(id),
            decreases self@.len() - i,
        {
            if self.agents[i].parent_id == Some(id) {
                assert(self@[i as int].parent_id == Some(id));
                return true;
            }
            i = i + 1;
        }
        false
    }

    /// Ids of the agents below the agent with id `a`, in storage order.
    pub fn descendant_ids(&self, a: u128) -> (r: Vec<u128>)
        ensures
            r@ == ids(descendants_spec(self@, a)),
    {
        let ghost s = self@;
        let ghost pred = |g: AgentView| is_descendant(s, g.id, a);
        let mut out: Vec<u128> = Vec::new();
        let mut i: usize = 0;
        while i < self.agents.len()
            invariant
                s == self@,
                pred == (|g: AgentView| is_descendant(s, g.id, a)),
                i <= s.len(),
                out@ == ids(s.take(i as int).filter(pred)),
            decreases s.len() - i,
        {
            let g = &self.agents[i];
            proof {
                s.take(i as int).lemma_filter_push(s[i as int], pred);
                assert(s.take(i + 1) =~= s.take(i as int).push(s[i as int]));
            }
            if self.is_descendant(g.id, a) {
                out.push(g.id);
                proof {
                    assert(ids(s.take(i + 1).filter(pred)) =~= ids(s.take(i as int).filter(pred)).push(
                        g.id,
                    ));
                }
            }
            i = i + 1;
        }
        proof {
            assert(s.take(s.len() as int) =~= s);
        }
        out
    }

    /// For each stored agent, in order, whether it lies below the agent with id `a`.
    pub fn descendant_flags(&self, a: u128) -> (r: Vec<bool>)
        ensures
            r@.len() == self@.len(),
            forall|j: int| 0 <= j < r@.len() ==> r@[j] == is_descendant(self@, self@[j].id, a),
    {
        let mut out: Vec<bool> = Vec::new();
        let mut i: usize = 0;
        while i < self.agents.len()
            invariant
                i <= self@.len(),
                out@.len() == i,
                forall|j: int| 0 <= j < i ==> out@[j] == is_descendant(self@, self@[j].id, a),
            decreases self@.len() - i,
        {
            let b = self.is_descendant(self.agents[i].id, a);
            out.push(b);
            i = i + 1;
        }
        out
    }

    /// Index of the root ancestor of the agent with id `id`.
    pub fn root_ancestor_index(&self, id: u128) -> (r: Option<usize>)
        ensures
            match r {
                Some(i) => i as int == root_position(self@, id) && i < self@.len(),
                None => root_position(self@, id) == -1,
            },
    {
        proof {
            lemma_position(self@, id);
        }
        if self.find_index(id).is_none() {
            return None;
        }
        let n = self.agents.len();
        let mut cur = id;
        let mut k: usize = 0;
        let mut done = false;
        while k < n && !done
            invariant
                n == self@.len(),
                k <= n,
                position(self@, cur) >= 0,
                climb(self@, id, n as nat) == (if done {
                    cur
                } else {
                    climb(self@, cur, (n - k) as nat)
                }),
            decreases n - k + (if done {
                0int
            } else {
                1int
            }),
        {
            proof {
                lemma_position(self@, cur);
            }
            match self.parent_of(cur) {
                Some(p) => {
                    proof {
                        lemma_position(self@, p);
                    }
                    if self.find_index(p).is_some() {
                        cur = p;
                        k = k + 1;
                    } else {
                        done = true;
                    }
                },
                None => {
                    done = true;
                },
            }
        }
        proof {
            lemma_position(self@, cur);
        }
        self.find_index(cur)
    }

    /// Remove the agent with id `id` and every agent below it.
    pub fn remove_with_descendants(&mut self, id: u128)
        ensures
            final(self)@ == old(self)@.filter(
                |g: AgentView| !(g.id == id || is_descendant(old(self)@, g.id, id)),
            ),
    {
        let ghost s = self@;
        let ghost keep = |g: AgentView| !(g.id == id || is_descendant(s, g.id, id));
        let mut out: Vec<Agent> = Vec::new();
        let mut i: usize = 0;
        while i < self.agents.len()
            invariant
                s == self@,
                keep == (|g: AgentView| !(g.id == id || is_descendant(s, g.id, id))),
                i <= s.len(),
                agent_views(out@) == s.take(i as int).filter(keep),
            decreases s.len() - i,
        {
            proof {
                s.take(i as int).lemma_filter_push(s[i as int], keep);
                assert(s.take(i + 1) =~= s.take(i as int).push(s[i as int]));
            }
            let gid = self.agents[i].id;
            if !(gid == id || self.is_descendant(gid, id)) {
                let ghost before = out@;
                out.push(self.agents[i].duplicate());
                proof {
                    assert(agent_views(out@) =~= agent_views(before).push(s[i as int]));
                }
            }
            i = i + 1;
        }
        proof {
            assert(s.take(s.len() as int) =~= s);
            assert(agent_views(out@) == s.filter(keep));
        }
        self.agents = out;
    }

    /// Set the collapsed flag of the agent with id `id`.
    pub fn set_collapsed(&mut self, id: u128, collapsed: bool)
        ensures
            final(self)@ == with_collapsed(old(self)@, id, collapsed),
    {
        match self.find_index(id) {
            Some(i) => {
                self.agents[i].collapsed = collapsed;
                assert(self@ =~= with_collapsed(old(self)@, id, collapsed));
            },
            None => {},
        }
    }
}

} // verus!
