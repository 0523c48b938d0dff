//! Synthesis: which descendants of an agent are captured and torn down when their
//! work is folded back into it, and the marks that choose them.

use vstd::prelude::*;
use std::collections::HashMap;
use crate::agent::{
    AgentView, Storage, ancestor_at, ids, is_descendant, lemma_ancestor_none_stays, lemma_position,
    position,
};
use crate::data::AppData;

verus! {

broadcast use {vstd::seq_lib::group_seq_properties, vstd::std_specs::hash::group_hash_axioms};

/// Whether `x` occurs in `v`.
pub fn contains_id(v: &Vec<u128>, x: u128) -> (r: bool)
    ensures
        r == v@.contains(x),
{
    let mut i: usize = 0;
    while i < v.len()
        invariant
            i <= v@.len(),
            forall|k: int| 0 <= k < i ==> v@[k] != x,
        decreases v@.len() - i,
    {
        if v[i] == x {
            assert(v@[i as int] == x);
            return true;
        }
        i = i + 1;
    }
    false
}

/// `g` can be synthesized into `parent`: it lies below it and is not a terminal.
pub open spec fn synthesis_candidate(s: Seq<AgentView>, parent: u128, g: AgentView) -> bool {
    is_descendant(s, g.id, parent) && !g.is_terminal
}

/// The marked candidates below `parent`, in storage order.
pub open spec fn marked_roots(s: Seq<AgentView>, parent: u128, marks: Seq<u128>) -> Seq<u128> {
    ids(s.filter(|g: AgentView| synthesis_candidate(s, parent, g) && marks.contains(g.id)))
}

/// All candidates below `parent`, in storage order.
pub open spec fn candidate_roots(s: Seq<AgentView>, parent: u128) -> Seq<u128> {
    ids(s.filter(|g: AgentView| synthesis_candidate(s, parent, g)))
}

/// The roots of the subtrees to synthesize: the marked candidates, or all candidates
/// when none is marked.
pub open spec fn target_roots(s: Seq<AgentView>, parent: u128, marks: Seq<u128>) -> Seq<u128> {
    if marked_roots(s, parent, marks).len() > 0 {
        marked_roots(s, parent, marks)
    } else {
        candidate_roots(s, parent)
    }
}

/// `g` is one of `roots` or lies below one of them.
pub open spec fn in_subtrees(s: Seq<AgentView>, roots: Seq<u128>, g: AgentView) -> bool {
    roots.contains(g.id) || exists|j: int| 0 <= j < roots.len() && is_descendant(s, g.id, #[trigger] roots[j])
}

/// The agents below `parent` in the subtrees of `roots`, in storage order.
pub open spec fn teardown_agents(s: Seq<AgentView>, parent: u128, roots: Seq<u128>) -> Seq<u128> {
    ids(s.filter(|g: AgentView| is_descendant(s, g.id, parent) && in_subtrees(s, roots, g)))
}

/// The agents whose output is captured: those torn down that are not terminals.
pub open spec fn capture_agents(s: Seq<AgentView>, parent: u128, roots: Seq<u128>) -> Seq<u128> {
    ids(s.filter(|g: AgentView| is_descendant(s, g.id, parent) && in_subtrees(s, roots, g) && !g.is_terminal))
}

/// Who takes part in a synthesis into a parent.
#[derive(Debug)]
pub struct SynthesisTargets {
    /// Whether the subtrees were chosen by marks.
    pub marked: bool,
    /// The agents whose output is captured.
    pub capture_agent_ids: Vec<u128>,
    /// The roots of the subtrees that are removed.
    pub teardown_root_ids: Vec<u128>,
    /// Every agent that is removed.
    pub teardown_agent_ids: Vec<u128>,
}

fn ids_where(storage: &Storage, flags: &Vec<bool>, Ghost(pred): Ghost<spec_fn(AgentView) -> bool>) -> (r: Vec<u128>)
    requires
        flags@.len() == storage@.len(),
        forall|i: int| 0 <= i < flags@.len() ==> flags@[i] == pred(storage@[i]),
    ensures
        r@ == ids(storage@.filter(pred)),
{
    let ghost s = storage@;
    let mut out: Vec<u128> = Vec::new();
    let mut i: usize = 0;
    while i < storage.agents.len()
        invariant
            s == storage@,
            flags@.len() == s.len(),
            forall|k: int| 0 <= k < flags@.len() ==> flags@[k] == pred(s[k]),
            i <= s.len(),
            out@ == ids(s.take(i as int).filter(pred)),
        decreases s.len() - i,
    {
        proof {
            s.take(i as int).lemma_filter_push(s[i as int], pred);
            assert(s.take(i + 1) =~= s.take(i as int).push(s[i as int]));
        }
        if flags[i] {
            out.push(storage.agents[i].id);
            proof {
                assert(out@ =~= ids(s.take(i as int).filter(pred)).push(s[i as int].id));
            }
        }
        i = i + 1;
    }
    proof {
        assert(s.take(s.len() as int) =~= s);
    }
    out
}

fn subtree_flag(storage: &Storage, roots: &Vec<u128>, id: u128) -> (r: bool)
    ensures
        r == (roots@.contains(id) || exists|j: int|
            0 <= j < roots@.len() && is_descendant(storage@, id, #[trigger] roots@[j])),
{
    if contains_id(roots, id) {
        return true;
    }
    let mut j: usize = 0;
    while j < roots.len()
        invariant
            j <= roots@.len(),
            forall|k: int| 0 <= k < j ==> !is_descendant(storage@, id, #[trigger] roots@[k]),
        decreases roots@.len() - j,
    {
        if storage.is_descendant(id, roots[j]) {
            return true;
        }
        j = j + 1;
    }
    false
}

impl AppData {
    /// Whether agent `agent_id` is marked for synthesis.
    pub fn is_synthesis_marked(&self, agent_id: u128) -> (r: bool)
        ensures
            r == self.synthesis_marks@.contains(agent_id),
    {
        contains_id(&self.synthesis_marks, agent_id)
    }

    /// Drop all synthesis marks.
    pub fn clear_synthesis_marks(&mut self)
        ensures
            final(self).synthesis_marks@ == Seq::<u128>::empty(),
            *final(self) == (AppData { synthesis_marks: final(self).synthesis_marks, ..*old(self) }),
    {
        self.synthesis_marks = Vec::new();
    }

    /// Who takes part in synthesizing the descendants of `parent_id` into it: the
    /// subtrees of the marked candidates, or of all candidates when none is marked.
    pub fn synthesis_targets_for(&self, parent_id: u128) -> (r: SynthesisTargets)
        ensures
            r.marked == (marked_roots(self.storage@, parent_id, self.synthesis_marks@).len() > 0),
            r.teardown_root_ids@ == target_roots(self.storage@, parent_id, self.synthesis_marks@),
            r.teardown_agent_ids@ == teardown_agents(
                self.storage@,
                parent_id,
                target_roots(self.storage@, parent_id, self.synthesis_marks@),
            ),
            r.capture_agent_ids@ == capture_agents(
                self.storage@,
                parent_id,
                target_roots(self.storage@, parent_id, self.synthesis_marks@),
            ),
    {
        let ghost s = self.storage@;
        let ghost marks = self.synthesis_marks@;
        let below = self.storage.descendant_flags(parent_id);
        let n = self.storage.agents.len();
        let mut cand: Vec<bool> = Vec::new();
        let mut marked: Vec<bool> = Vec::new();
        let mut i: usize = 0;
        while i < n
            invariant
                n == s.len(),
                s == self.storage@,
                marks == self.synthesis_marks@,
                below@.len() == n,
                forall|k: int| 0 <= k < n ==> below@[k] == is_descendant(s, s[k].id, parent_id),
                i <= n,
                cand@.len() == i,
                marked@.len() == i,
                forall|k: int| 0 <= k < i ==> cand@[k] == synthesis_candidate(s, parent_id, s[k]),
                forall|k: int| 0 <= k < i ==> marked@[k] == (synthesis_candidate(s, parent_id, s[k]) && marks.contains(s[k].id)),
            decreases n - i,
        {
            let a = &self.storage.agents[i];
            let c = below[i] && !a.is_terminal_agent();
            cand.push(c);
            marked.push(c && self.is_synthesis_marked(a.id));
            i = i + 1;
        }
        let marked_ids = ids_where(
            &self.storage,
            &marked,
            Ghost(|g: AgentView| synthesis_candidate(s, parent_id, g) && marks.contains(g.id)),
        );
        let is_marked = marked_ids.len() > 0;
        let roots = if is_marked {
            marked_ids
        } else {
            ids_where(&self.storage, &cand, Ghost(|g: AgentView| synthesis_candidate(s, parent_id, g)))
        };
        proof {
            assert(marked_ids@ == marked_roots(s, parent_id, marks));
        }
        let mut tear: Vec<bool> = Vec::new();
        let mut cap: Vec<bool> = Vec::new();
        let mut i: usize = 0;
        while i < n
            invariant
                n == s.len(),
                s == self.storage@,
                below@.len() == n,
                forall|k: int| 0 <= k < n ==> below@[k] == is_descendant(s, s[k].id, parent_id),
                i <= n,
                tear@.len() == i,
                cap@.len() == i,
                forall|k: int| 0 <= k < i ==> tear@[k] == (is_descendant(s, s[k].id, parent_id) && in_subtrees(s, roots@, s[k])),
                forall|k: int| 0 <= k < i ==> cap@[k] == (is_descendant(s, s[k].id, parent_id) && in_subtrees(s, roots@, s[k]) && !s[k].is_terminal),
            decreases n - i,
        {
            let a = &self.storage.agents[i];
            let t = below[i] && subtree_flag(&self.storage, &roots, a.id);
            tear.push(t);
            cap.push(t && !a.is_terminal_agent());
            i = i + 1;
        }
        let teardown_agent_ids = ids_where(
            &self.storage,
            &tear,
            Ghost(|g: AgentView| is_descendant(s, g.id, parent_id) && in_subtrees(s, roots@, g)),
        );
        let capture_agent_ids = ids_where(
            &self.storage,
            &cap,
            Ghost(|g: AgentView| is_descendant(s, g.id, parent_id) && in_subtrees(s, roots@, g) && !g.is_terminal),
        );
        SynthesisTargets { marked: is_marked, capture_agent_ids, teardown_root_ids: roots, teardown_agent_ids }
    }

    /// For each agent above an eligible marked agent, how many eligible marks lie below
    /// it (agents with none are absent).
    pub fn marked_synthesis_descendant_counts(&self) -> (r: HashMap<u128, usize>)
        requires
            self.synthesis_marks@.len() * self.storage@.len() <= usize::MAX,
        ensures
            forall|p: u128| #[trigger] r@.contains_key(p) == (marked_below(
                self.storage@,
                self.synthesis_marks@,
                p,
                self.synthesis_marks@.len() as int,
            ) > 0),
            forall|p: u128| #[trigger] r@.contains_key(p) ==> r@[p] == marked_below(
                self.storage@,
                self.synthesis_marks@,
                p,
                self.synthesis_marks@.len() as int,
            ),
    {
        let ghost s = self.storage@;
        let ghost marks = self.synthesis_marks@;
        let n = self.storage.agents.len();
        let mut counts: HashMap<u128, usize> = HashMap::new();
        let mut i: usize = 0;
        while i < self.synthesis_marks.len()
            invariant
                s == self.storage@,
                marks == self.synthesis_marks@,
                n == s.len(),
                marks.len() * n <= usize::MAX,
                i <= marks.len(),
                forall|p: u128| #[trigger] counts@.contains_key(p) == (marked_below(s, marks, p, i as int) > 0),
                forall|p: u128| #[trigger] counts@.contains_key(p) ==> counts@[p] == marked_below(s, marks, p, i as int),
            decreases marks.len() - i,
        {
            let m = self.synthesis_marks[i];
            if self.is_synthesis_mark_eligible(m) {
                let mut cur: Option<u128> = Some(m);
                let mut k: usize = 0;
                while k < n && cur.is_some()
                    invariant
                        s == self.storage@,
                        marks == self.synthesis_marks@,
                        n == s.len(),
                        marks.len() * n <= usize::MAX,
                        i < marks.len(),
                        m == marks[i as int],
                        k <= n,
                        cur == ancestor_at(s, m, k as nat),
                        forall|p: u128| #[trigger] counts@.contains_key(p) == (marked_below(s, marks, p, i as int)
                            + ancestor_hits(s, m, p, k as nat) > 0),
                        forall|p: u128| #[trigger] counts@.contains_key(p) ==> counts@[p] == marked_below(
                            s,
                            marks,
                            p,
                            i as int,
                        ) + ancestor_hits(s, m, p, k as nat),
                    decreases n - k,
                {
                    let y = cur.unwrap();
                    cur = self.storage.parent_of(y);
                    k = k + 1;
                    match cur {
                        Some(p) => {
                            proof {
                                lemma_marked_below_bound(s, marks, p, i as int);
                                lemma_hits_bound(s, m, p, k as nat);
                                assert(i * n + k <= marks.len() * n) by (nonlinear_arith)
                                    requires
                                        i < marks.len(),
                                        k <= n,
                                ;
                            }
                            let before: usize = match counts.get(&p) {
                                Some(c) => *c,
                                None => 0,
                            };
                            counts.insert(p, before + 1);
                        },
                        None => {},
                    }
                }
                proof {
                    if k < n {
                        assert forall|p: u128| ancestor_hits(s, m, p, n as nat) == ancestor_hits(s, m, p, k as nat) by {
                            lemma_hits_settle(s, m, p, k as nat, n as nat);
                        }
                    }
                }
            }
            i = i + 1;
        }
        counts
    }

    /// Whether agent `agent_id` may be marked for synthesis: it is stored, has a
    /// parent, and is a candidate below that parent.
    pub fn is_synthesis_mark_eligible(&self, agent_id: u128) -> (r: bool)
        ensures
            r == mark_eligible(self.storage@, agent_id),
    {
        proof {
            lemma_position(self.storage@, agent_id);
        }
        let parent = match self.storage.get(agent_id) {
            None => {
                return false;
            },
            Some(a) => match a.parent_id {
                None => {
                    return false;
                },
                Some(p) => p,
            },
        };
        let ghost s = self.storage@;
        let mut i: usize = 0;
        while i < self.storage.agents.len()
            invariant
                s == self.storage@,
                i <= s.len(),
                position(s, agent_id) >= 0,
                s[position(s, agent_id)].parent_id == Some(parent),
                forall|k: int| 0 <= k < i ==> !(synthesis_candidate(s, parent, s[k]) && s[k].id == agent_id),
            decreases s.len() - i,
        {
            let a = &self.storage.agents[i];
            assert(s[i as int] == self.storage.agents@[i as int]@);
            if a.id == agent_id && !a.is_terminal_agent() && self.storage.is_descendant(a.id, parent) {
                assert(synthesis_candidate(s, parent, s[i as int]) && s[i as int].id == agent_id);
                return true;
            }
            i = i + 1;
        }
        false
    }

    /// Mark agent `agent_id` for synthesis, or unmark it when it is marked; tell
    /// whether it was eligible (nothing changes when it is not).
    pub fn toggle_synthesis_mark(&mut self, agent_id: u128) -> (r: bool)
        ensures
            r == mark_eligible(old(self).storage@, agent_id),
            final(self).synthesis_marks@ == (if !r {
                old(self).synthesis_marks@
            } else {
                toggled_marks(old(self).synthesis_marks@, agent_id)
            }),
            *final(self) == (AppData { synthesis_marks: final(self).synthesis_marks, ..*old(self) }),
    {
        if !self.is_synthesis_mark_eligible(agent_id) {
            return false;
        }
        let mut i: usize = 0;
        while i < self.synthesis_marks.len()
            invariant
                *self == *old(self),
                mark_eligible(old(self).storage@, agent_id),
                i <= self.synthesis_marks@.len(),
                forall|k: int| 0 <= k < i ==> self.synthesis_marks@[k] != agent_id,
            decreases self.synthesis_marks@.len() - i,
        {
            if self.synthesis_marks[i] == agent_id {
                proof {
                    lemma_first_index(old(self).synthesis_marks@, agent_id, i as int);
                }
                self.synthesis_marks.remove(i);
                return true;
            }
            i = i + 1;
        }
        self.synthesis_marks.push(agent_id);
        true
    }
}

/// How often `p` is met climbing from `m` through its first `k` parent links.
pub open spec fn ancestor_hits(s: Seq<AgentView>, m: u128, p: u128, k: nat) -> nat
    decreases k,
{
    if k == 0 {
        0
    } else {
        ancestor_hits(s, m, p, (k - 1) as nat) + if ancestor_at(s, m, k) == Some(p) {
            1nat
        } else {
            0nat
        }
    }
}

/// How many of the first `i` marks are eligible and lie below `p`, each counted once per
/// time `p` is met climbing from it through as many parent links as there are agents.
pub open spec fn marked_below(s: Seq<AgentView>, marks: Seq<u128>, p: u128, i: int) -> nat
    decreases i,
{
    if i <= 0 {
        0
    } else {
        marked_below(s, marks, p, i - 1) + if mark_eligible(s, marks[i - 1]) {
            ancestor_hits(s, marks[i - 1], p, s.len())
        } else {
            0nat
        }
    }
}

proof fn lemma_hits_bound(s: Seq<AgentView>, m: u128, p: u128, k: nat)
    ensures
        ancestor_hits(s, m, p, k) <= k,
    decreases k,
{
    if k > 0 {
        lemma_hits_bound(s, m, p, (k - 1) as nat);
    }
}

proof fn lemma_hits_settle(s: Seq<AgentView>, m: u128, p: u128, k: nat, n: nat)
    requires
        k <= n,
        ancestor_at(s, m, k).is_none(),
    ensures
        ancestor_hits(s, m, p, n) == ancestor_hits(s, m, p, k),
    decreases n - k,
{
    if k < n {
        lemma_hits_settle(s, m, p, k, (n - 1) as nat);
        lemma_ancestor_none_stays(s, m, k, n);
    }
}

proof fn lemma_marked_below_bound(s: Seq<AgentView>, marks: Seq<u128>, p: u128, i: int)
    requires
        0 <= i,
    ensures
        marked_below(s, marks, p, i) <= i * s.len(),
    decreases i,
{
    if i > 0 {
        lemma_marked_below_bound(s, marks, p, i - 1);
        lemma_hits_bound(s, marks[i - 1], p, s.len());
        assert((i - 1) * s.len() + s.len() == i * s.len()) by (nonlinear_arith);
    }
}

/// Agent `agent_id` may be marked: it is stored, has a parent, and some stored
/// candidate below that parent has its id.
pub open spec fn mark_eligible(s: Seq<AgentView>, agent_id: u128) -> bool {
    position(s, agent_id) >= 0 && match s[position(s, agent_id)].parent_id {
        Some(p) => exists|k: int| 0 <= k < s.len() && synthesis_candidate(s, p, s[k]) && s[k].id == agent_id,
        None => false,
    }
}

/// The marks after toggling `id`: its first occurrence removed, or it appended.
pub open spec fn toggled_marks(marks: Seq<u128>, id: u128) -> Seq<u128> {
    if marks.contains(id) {
        marks.remove(first_index(marks, id))
    } else {
        marks.push(id)
    }
}

/// Index of the first `x` in `v` (meaningful when `v` contains it).
pub open spec fn first_index(v: Seq<u128>, x: u128) -> int {
    choose|i: int| 0 <= i < v.len() && v[i] == x && forall|k: int| 0 <= k < i ==> v[k] != x
}

pub proof fn lemma_first_index(v: Seq<u128>, x: u128, i: int)
    requires
        0 <= i < v.len(),
        v[i] == x,
        forall|k: int| 0 <= k < i ==> v[k] != x,
    ensures
        first_index(v, x) == i,
        v.contains(x),
{
    let j = first_index(v, x);
    assert(0 <= j < v.len() && v[j] == x && forall|k: int| 0 <= k < j ==> v[k] != x);
    if j < i {
        assert(v[j] != x);
    }
    if i < j {
        assert(v[i] != x);
    }
}

/// When `v` contains `x`, `first_index` names its first occurrence.
pub proof fn lemma_first_index_exists(v: Seq<u128>, x: u128)
    requires
        v.contains(x),
    ensures
        0 <= first_index(v, x) < v.len(),
        v[first_index(v, x)] == x,
        forall|k: int| 0 <= k < first_index(v, x) ==> v[k] != x,
    decreases v.len(),
{
    if v[0] == x {
        lemma_first_index(v, x, 0);
    } else {
        let rest = v.drop_first();
        let j = choose|j: int| 0 <= j < v.len() && v[j] == x;
        assert(rest[j - 1] == x);
        lemma_first_index_exists(rest, x);
        let i = first_index(rest, x) + 1;
        assert forall|k: int| 0 <= k < i implies v[k] != x by {
            if k > 0 {
                assert(v[k] == rest[k - 1]);
            }
        }
        lemma_first_index(v, x, i);
    }
}

} // verus!
