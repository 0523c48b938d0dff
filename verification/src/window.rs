//! Window bookkeeping: resize targets and window indices after windows are closed.

use vstd::prelude::*;
use crate::agent::{AgentView, Storage, climb, is_descendant, position, root_position, lemma_position, lemma_climb_stored};
use crate::actions::Actions;
use crate::data::{App, AppData, UiState};
use crate::git_flows::status_is;
use crate::mux::{window_target, window_target_spec};
use crate::text::{concat2, concat4, decimal, decimal_string};

verus! {

broadcast use vstd::seq_lib::group_seq_properties;

/// How many of the closed window indices lie below `w`.
pub open spec fn count_below(deleted: Seq<u32>, w: u32) -> nat {
    deleted.filter(|d: u32| d < w).len()
}

/// The window index that `w` becomes once the windows in `deleted` are closed and the
/// multiplexer renumbers the rest.
pub open spec fn shifted_index(deleted: Seq<u32>, w: u32) -> int {
    w - count_below(deleted, w)
}

/// The number of closed window indices below `w`.
pub fn count_deleted_below(deleted: &Vec<u32>, w: u32) -> (r: usize)
    ensures
        r == count_below(deleted@, w),
{
    let ghost pred = |d: u32| d < w;
    let mut c: usize = 0;
    let mut i: usize = 0;
    while i < deleted.len()
        invariant
            pred == (|d: u32| d < w),
            i <= deleted@.len(),
            c == deleted@.take(i as int).filter(pred).len(),
            c <= i,
        decreases deleted@.len() - i,
    {
        proof {
            deleted@.take(i as int).lemma_filter_push(deleted@[i as int], pred);
            assert(deleted@.take(i + 1) =~= deleted@.take(i as int).push(deleted@[i as int]));
        }
        if deleted[i] < w {
            c = c + 1;
        }
        i = i + 1;
    }
    proof {
        assert(deleted@.take(deleted@.len() as int) =~= deleted@);
    }
    c
}

/// The agent `g` is renumbered after closing windows under root `root`: it lies below
/// `root` and is neither closed nor below a closed agent.
pub open spec fn renumbered(s: Seq<AgentView>, root: u128, closed: Seq<u128>, g: AgentView) -> bool {
    is_descendant(s, g.id, root) && !closed.contains(g.id) && !(exists|j: int|
        0 <= j < closed.len() && is_descendant(s, g.id, #[trigger] closed[j]))
}

/// The agents after renumbering: each renumbered agent's window index shifts down by
/// the number of closed windows below it.
pub open spec fn renumber(s: Seq<AgentView>, root: u128, closed: Seq<u128>, deleted: Seq<u32>) -> Seq<AgentView> {
    Seq::new(
        s.len(),
        |i: int|
            if renumbered(s, root, closed, s[i]) && s[i].window_index.is_some() {
                AgentView {
                    window_index: Some(shifted_index(deleted, s[i].window_index.unwrap()) as u32),
                    ..s[i]
                }
            } else {
                s[i]
            },
    )
}

/// No renumbered agent's index falls below zero.
pub open spec fn renumber_fits(s: Seq<AgentView>, root: u128, closed: Seq<u128>, deleted: Seq<u32>) -> bool {
    forall|i: int|
        0 <= i < s.len() && renumbered(s, root, closed, s[i]) && s[i].window_index.is_some()
            ==> count_below(deleted, s[i].window_index.unwrap()) <= s[i].window_index.unwrap()
}

pub fn renumbered_flags(storage: &Storage, root_id: u128, closed: &Vec<u128>) -> (r: Vec<bool>)
    ensures
        r@.len() == storage@.len(),
        forall|i: int| 0 <= i < r@.len() ==> r@[i] == renumbered(storage@, root_id, closed@, storage@[i]),
        forall|i: int|
            0 <= i < r@.len() && #[trigger] r@[i] ==> is_descendant(storage@, storage@[i].id, root_id) && !closed@.contains(
                storage@[i].id,
            ),
{
    let mut out: Vec<bool> = Vec::new();
    let mut i: usize = 0;
    while i < storage.agents.len()
        invariant
            i <= storage@.len(),
            out@.len() == i,
            forall|k: int| 0 <= k < i ==> out@[k] == renumbered(storage@, root_id, closed@, storage@[k]),
        decreases storage@.len() - i,
    {
        let gid = storage.agents[i].id;
        let mut keep = storage.is_descendant(gid, root_id);
        let mut j: usize = 0;
        while j < closed.len()
            invariant
                i < storage@.len(),
                gid == storage@[i as int].id,
                j <= closed@.len(),
                keep == (is_descendant(storage@, gid, root_id) && forall|k: int|
                    0 <= k < j ==> closed@[k] != gid && !is_descendant(storage@, gid, closed@[k])),
            decreases closed@.len() - j,
        {
            if closed[j] == gid || storage.is_descendant(gid, closed[j]) {
                keep = false;
            }
            j = j + 1;
        }
        proof {
            let g = storage@[i as int];
            if keep {
                assert forall|k: int| 0 <= k < closed@.len() implies closed@[k] != gid by {}
                assert(!closed@.contains(gid));
            } else if is_descendant(storage@, gid, root_id) {
                let k = choose|k: int| 0 <= k < closed@.len() && !(closed@[k] != gid && !is_descendant(storage@, gid, closed@[k]));
                if closed@[k] == gid {
                    assert(closed@.contains(gid));
                }
            }
        }
        out.push(keep);
        i = i + 1;
    }
    out
}

/// Renumber the windows under root `root_id` after the windows with indices
/// `deleted_indices`, of the agents `deleted_agent_ids` and those below them, were
/// closed.
pub fn adjust_window_indices_after_deletions(
    app_data: &mut AppData,
    root_id: u128,
    deleted_agent_ids: &Vec<u128>,
    deleted_indices: &Vec<u32>,
)
    requires
        renumber_fits(old(app_data).storage@, root_id, deleted_agent_ids@, deleted_indices@),
    ensures
        deleted_indices@.len() == 0 ==> final(app_data).storage@ == old(app_data).storage@,
        deleted_indices@.len() > 0 ==> final(app_data).storage@ == renumber(
            old(app_data).storage@,
            root_id,
            deleted_agent_ids@,
            deleted_indices@,
        ),
        final(app_data).storage@.len() == old(app_data).storage@.len(),
        forall|i: int|
            0 <= i < old(app_data).storage@.len() && !is_descendant(
                old(app_data).storage@,
                old(app_data).storage@[i].id,
                root_id,
            ) ==> #[trigger] final(app_data).storage@[i] == old(app_data).storage@[i],
        *final(app_data) == (AppData { storage: final(app_data).storage, ..*old(app_data) }),
{
    if deleted_indices.len() == 0 {
        return;
    }
    let ghost s = app_data.storage@;
    let flags = renumbered_flags(&app_data.storage, root_id, deleted_agent_ids);
    let n = app_data.storage.agents.len();
    let mut i: usize = 0;
    while i < n
        invariant
            n == s.len(),
            app_data.storage@.len() == n,
            i <= n,
            flags@.len() == n,
            forall|k: int| 0 <= k < n ==> flags@[k] == renumbered(s, root_id, deleted_agent_ids@, s[k]),
            renumber_fits(s, root_id, deleted_agent_ids@, deleted_indices@),
            forall|k: int| 0 <= k < i ==> app_data.storage@[k] == renumber(s, root_id, deleted_agent_ids@, deleted_indices@)[k],
            forall|k: int| i <= k < n ==> app_data.storage@[k] == s[k],
            *app_data == (AppData { storage: app_data.storage, ..*old(app_data) }),
        decreases n - i,
    {
        let ghost prev = app_data.storage@;
        let ghost goal = renumber(s, root_id, deleted_agent_ids@, deleted_indices@);
        if flags[i] {
            match app_data.storage.agents[i].window_index {
                Some(cur) => {
                    let dec = count_deleted_below(deleted_indices, cur);
                    if dec > 0 {
                        assert(dec <= cur);
                        app_data.storage.agents[i].window_index = Some(cur - dec as u32);
                    }
                },
                None => {},
            }
        }
        proof {
            assert(app_data.storage@ =~= prev.update(i as int, goal[i as int]));
        }
        i = i + 1;
    }
    proof {
        assert(app_data.storage@ =~= renumber(s, root_id, deleted_agent_ids@, deleted_indices@));
    }
}

/// Renumber the windows under root `root_id` after the windows of agent
/// `deleted_agent_id` and the agents below it were closed.
pub fn adjust_window_indices_after_deletion(
    app_data: &mut AppData,
    root_id: u128,
    deleted_agent_id: u128,
    deleted_indices: &Vec<u32>,
)
    requires
        renumber_fits(old(app_data).storage@, root_id, seq![deleted_agent_id], deleted_indices@),
    ensures
        deleted_indices@.len() == 0 ==> final(app_data).storage@ == old(app_data).storage@,
        deleted_indices@.len() > 0 ==> final(app_data).storage@ == renumber(
            old(app_data).storage@,
            root_id,
            seq![deleted_agent_id],
            deleted_indices@,
        ),
        final(app_data).storage@.len() == old(app_data).storage@.len(),
        forall|i: int|
            0 <= i < old(app_data).storage@.len() && !is_descendant(
                old(app_data).storage@,
                old(app_data).storage@[i].id,
                root_id,
            ) ==> #[trigger] final(app_data).storage@[i] == old(app_data).storage@[i],
        *final(app_data) == (AppData { storage: final(app_data).storage, ..*old(app_data) }),
{
    let mut ids: Vec<u128> = Vec::new();
    ids.push(deleted_agent_id);
    assert(ids@ =~= seq![deleted_agent_id]);
    adjust_window_indices_after_deletions(app_data, root_id, &ids, deleted_indices);
}


/// A window to resize: `target` names it, and it exists only while `session` does.
#[derive(Debug)]
pub struct ResizeTarget {
    pub session: String,
    pub target: String,
}

/// Index of the agent whose session holds the window of the agent at index `i`: the
/// root reached by climbing stored parents.
pub open spec fn resize_root_index(s: Seq<AgentView>, i: int) -> int {
    match s[i].parent_id {
        Some(p) => if position(s, p) >= 0 {
            root_position(s, p)
        } else {
            i
        },
        None => i,
    }
}

/// What the agent at index `i` contributes: a root its session, a child with a window
/// that window in its root's session, another child nothing.
pub open spec fn resize_entry(s: Seq<AgentView>, i: int) -> Seq<(Seq<char>, Seq<char>)> {
    match s[i].parent_id {
        None => seq![(s[i].mux_session, s[i].mux_session)],
        Some(_) => match s[i].window_index {
            Some(w) => {
                let root = s[resize_root_index(s, i)];
                seq![(root.mux_session, window_target_spec(root.mux_session, w))]
            },
            None => Seq::empty(),
        },
    }
}

/// The resize candidates of the first `k` agents, in storage order.
pub open spec fn resize_candidates_spec(s: Seq<AgentView>, k: int) -> Seq<(Seq<char>, Seq<char>)>
    decreases k,
{
    if k <= 0 {
        Seq::empty()
    } else {
        resize_candidates_spec(s, k - 1) + resize_entry(s, k - 1)
    }
}

/// The views of resize targets.
pub open spec fn target_views(v: Seq<ResizeTarget>) -> Seq<(Seq<char>, Seq<char>)> {
    v.map_values(|t: ResizeTarget| (t.session@, t.target@))
}

/// The windows to resize to the preview's size, each with the session it needs.
pub fn resize_candidates(storage: &Storage) -> (r: Vec<ResizeTarget>)
    ensures
        target_views(r@) == resize_candidates_spec(storage@, storage@.len() as int),
{
    let mut out: Vec<ResizeTarget> = Vec::new();
    let mut i: usize = 0;
    while i < storage.agents.len()
        invariant
            i <= storage@.len(),
            target_views(out@) == resize_candidates_spec(storage@, i as int),
        decreases storage@.len() - i,
    {
        let ghost before = out@;
        let a = &storage.agents[i];
        match a.parent_id {
            None => {
                out.push(ResizeTarget { session: a.mux_session.clone(), target: a.mux_session.clone() });
                proof {
                    assert(target_views(out@) =~= target_views(before) + resize_entry(storage@, i as int));
                }
            },
            Some(p) => {
                match a.window_index {
                    Some(w) => {
                        proof {
                            lemma_position(storage@, p);
                            if position(storage@, p) >= 0 {
                                lemma_climb_stored(storage@, p, storage@.len());
                                lemma_position(storage@, climb(storage@, p, storage@.len()));
                            }
                        }
                        let ri = match storage.root_ancestor_index(p) {
                            Some(ri) => ri,
                            None => i,
                        };
                        let session = storage.agents[ri].mux_session.clone();
                        let target = window_target(session.as_str(), w);
                        out.push(ResizeTarget { session, target });
                        proof {
                            assert(target_views(out@) =~= target_views(before) + resize_entry(storage@, i as int));
                        }
                    },
                    None => {
                        proof {
                            assert(target_views(out@) =~= target_views(before) + resize_entry(storage@, i as int));
                        }
                    },
                }
            },
        }
        i = i + 1;
    }
    out
}

/// Check the preview size before resizing agent windows to it: an empty side is
/// refused with a status message.
pub fn check_resize_dimensions(app_data: &mut AppData, width: u16, height: u16) -> (r: bool)
    ensures
        r == (width != 0 && height != 0),
        !r ==> status_is(
            *final(app_data),
            "Preview is too small to resize agents: "@ + decimal(width as nat) + "x"@ + decimal(height as nat),
        ),
        r ==> *final(app_data) == *old(app_data),
        final(app_data).storage == old(app_data).storage,
{
    if width == 0 || height == 0 {
        let w = decimal_string(width as u64);
        let h = decimal_string(height as u64);
        let msg = concat4("Preview is too small to resize agents: ", w.as_str(), "x", h.as_str());
        app_data.set_status(msg);
        return false;
    }
    true
}

/// Report a failed resize of an agent window in the status line.
pub fn resize_failed(app_data: &mut AppData, error: &str)
    ensures
        status_is(*final(app_data), "Failed to resize agent preview: "@ + error@),
        final(app_data).storage == old(app_data).storage,
        *final(app_data) == (AppData {
            ui: UiState { status: final(app_data).ui.status, ..old(app_data).ui },
            ..*old(app_data)
        }),
{
    app_data.set_status(concat2("Failed to resize agent preview: ", error));
}

/// The error of the last failed resize among the first `i` results, if one failed.
pub open spec fn last_failure(results: Seq<Option<String>>, i: int) -> Option<Seq<char>>
    decreases i,
{
    if i <= 0 {
        None
    } else {
        match results[i - 1] {
            Some(e) => Some(e@),
            None => last_failure(results, i - 1),
        }
    }
}

/// Take the results of resizing each target (`None` when it succeeded, else the
/// error): each failure is reported in the status line, so the last one shows; whether
/// every target was resized.
pub fn finish_resize(app_data: &mut AppData, results: &Vec<Option<String>>) -> (r: bool)
    ensures
        r == last_failure(results@, results@.len() as int).is_none(),
        match last_failure(results@, results@.len() as int) {
            None => *final(app_data) == *old(app_data),
            Some(m) => status_is(*final(app_data), "Failed to resize agent preview: "@ + m)
                && *final(app_data) == (AppData {
                ui: UiState { status: final(app_data).ui.status, ..old(app_data).ui },
                ..*old(app_data)
            }),
        },
{
    let mut all = true;
    let mut i: usize = 0;
    while i < results.len()
        invariant
            i <= results@.len(),
            all == last_failure(results@, i as int).is_none(),
            match last_failure(results@, i as int) {
                None => *app_data == *old(app_data),
                Some(m) => status_is(*app_data, "Failed to resize agent preview: "@ + m) && *app_data == (AppData {
                    ui: UiState { status: app_data.ui.status, ..old(app_data).ui },
                    ..*old(app_data)
                }),
            },
        decreases results@.len() - i,
    {
        match &results[i] {
            Some(e) => {
                resize_failed(app_data, e.as_str());
                all = false;
            },
            None => {},
        }
        i = i + 1;
    }
    all
}

/// `v` is strictly decreasing (so no index occurs twice).
pub open spec fn strictly_decreasing(v: Seq<u32>) -> bool {
    forall|i: int, j: int| 0 <= i < j < v.len() ==> v[i] > v[j]
}

proof fn lemma_decreasing_len_below(v: Seq<u32>, b: int)
    requires
        b >= 0,
        strictly_decreasing(v),
        forall|i: int| 0 <= i < v.len() ==> v[i] < b,
    ensures
        v.len() <= b,
    decreases v.len(),
{
    if v.len() > 0 {
        let rest = v.drop_first();
        assert forall|i: int| 0 <= i < rest.len() implies rest[i] < v[0] by {
            assert(v[0] > v[i + 1]);
        }
        lemma_decreasing_len_below(rest, v[0] as int);
        assert(v[0] < b);
        assert(v.len() == rest.len() + 1);
    }
}

/// Distinct closed windows below `w` are at most `w` many.
pub proof fn lemma_count_below_distinct(v: Seq<u32>, w: u32)
    requires
        strictly_decreasing(v),
    ensures
        count_below(v, w) <= w,
    decreases v.len(),
{
    let pred = |d: u32| d < w;
    if v.len() > 0 {
        let rest = v.drop_first();
        assert(v =~= seq![v[0]] + rest);
        rest.lemma_filter_prepend(v[0], pred);
        assert(strictly_decreasing(rest));
        if v[0] < w {
            assert forall|i: int| 0 <= i < rest.len() implies rest[i] < v[0] by {
                assert(v[0] > v[i + 1]);
            }
            lemma_decreasing_len_below(rest, v[0] as int);
            rest.lemma_filter_len(pred);
            assert(count_below(v, w) == 1 + rest.filter(pred).len());
        } else {
            lemma_count_below_distinct(rest, w);
            assert(count_below(v, w) == count_below(rest, w));
        }
    }
}

/// Closing distinct windows never renumbers a window below zero: with strictly
/// decreasing closed indices, renumbering fits for every forest, root and set of closed
/// agents.
pub proof fn lemma_distinct_deletions_fit(s: Seq<AgentView>, root: u128, closed: Seq<u128>, deleted: Seq<u32>)
    requires
        strictly_decreasing(deleted),
    ensures
        renumber_fits(s, root, closed, deleted),
{
    assert forall|i: int|
        0 <= i < s.len() && renumbered(s, root, closed, s[i]) && s[i].window_index.is_some() implies count_below(
        deleted,
        s[i].window_index.unwrap(),
    ) <= s[i].window_index.unwrap() by {
        lemma_count_below_distinct(deleted, s[i].window_index.unwrap());
    }
}

/// The window indices of the stored agents named in `agent_ids`.
pub open spec fn window_indices_of(s: Seq<AgentView>, agent_ids: Seq<u128>) -> Set<u32> {
    Set::new(
        |w: u32|
            exists|k: int|
                0 <= k < agent_ids.len() && position(s, #[trigger] agent_ids[k]) >= 0 && s[position(
                    s,
                    agent_ids[k],
                )].window_index == Some(w),
    )
}

fn insert_decreasing(v: &mut Vec<u32>, w: u32)
    requires
        strictly_decreasing(old(v)@),
    ensures
        strictly_decreasing(final(v)@),
        final(v)@.to_set() == old(v)@.to_set().insert(w),
{
    let mut j: usize = 0;
    while j < v.len() && v[j] > w
        invariant
            j <= v@.len(),
            forall|k: int| 0 <= k < j ==> v@[k] > w,
        decreases v@.len() - j,
    {
        j = j + 1;
    }
    if j < v.len() && v[j] == w {
        proof {
            assert(old(v)@.to_set().insert(w) =~= old(v)@.to_set()) by {
                assert(old(v)@.contains(w));
            }
        }
        return;
    }
    proof {
        lemma_insert_decreasing(v@, j as int, w);
    }
    v.insert(j, w);
}

proof fn lemma_insert_decreasing(before: Seq<u32>, j: int, w: u32)
    requires
        strictly_decreasing(before),
        0 <= j <= before.len(),
        forall|k: int| 0 <= k < j ==> before[k] > w,
        j < before.len() ==> before[j] < w,
    ensures
        strictly_decreasing(before.insert(j, w)),
        before.insert(j, w).to_set() == before.to_set().insert(w),
{
    let v = before.insert(j, w);
    assert forall|a: int, b: int| 0 <= a < b < v.len() implies v[a] > v[b] by {
        if b < j {
            assert(v[a] == before[a] && v[b] == before[b]);
        } else if a < j && b == j {
            assert(v[a] == before[a]);
        } else if a < j && b > j {
            assert(v[a] == before[a]);
            assert(v[b] == before[b - 1]);
        } else if a == j {
            assert(v[b] == before[b - 1]);
            assert(before[j] >= before[b - 1]);
        } else {
            assert(v[a] == before[a - 1] && v[b] == before[b - 1]);
        }
    }
    assert forall|x: u32| v.contains(x) <==> before.contains(x) || x == w by {
        if v.contains(x) {
            let k = choose|k: int| 0 <= k < v.len() && v[k] == x;
            if k < j {
                assert(before[k] == x);
            } else if k > j {
                assert(before[k - 1] == x);
            }
        }
        if before.contains(x) {
            let k = choose|k: int| 0 <= k < before.len() && before[k] == x;
            if k < j {
                assert(v[k] == x);
            } else {
                assert(v[k + 1] == x);
            }
        }
        if x == w {
            assert(v[j] == w);
        }
    }
    assert(v.to_set() =~= before.to_set().insert(w));
}

proof fn lemma_window_indices_step(s: Seq<AgentView>, ids: Seq<u128>, i: int)
    requires
        0 <= i < ids.len(),
    ensures
        window_indices_of(s, ids.take(i + 1)) == (if position(s, ids[i]) >= 0 && s[position(
            s,
            ids[i],
        )].window_index is Some {
            window_indices_of(s, ids.take(i)).insert(s[position(s, ids[i])].window_index.unwrap())
        } else {
            window_indices_of(s, ids.take(i))
        }),
{
    let a = ids.take(i);
    let b = ids.take(i + 1);
    let rhs = if position(s, ids[i]) >= 0 && s[position(s, ids[i])].window_index is Some {
        window_indices_of(s, a).insert(s[position(s, ids[i])].window_index.unwrap())
    } else {
        window_indices_of(s, a)
    };
    assert forall|w: u32| window_indices_of(s, b).contains(w) <==> rhs.contains(w) by {
        if window_indices_of(s, b).contains(w) {
            let k = choose|k: int|
                0 <= k < b.len() && position(s, #[trigger] b[k]) >= 0 && s[position(s, b[k])].window_index
                    == Some(w);
            if k < i {
                assert(a[k] == b[k]);
                assert(window_indices_of(s, a).contains(w));
            } else {
                assert(b[k] == ids[i]);
            }
        }
        if window_indices_of(s, a).contains(w) {
            let k = choose|k: int|
                0 <= k < a.len() && position(s, #[trigger] a[k]) >= 0 && s[position(s, a[k])].window_index
                    == Some(w);
            assert(b[k] == a[k]);
            assert(window_indices_of(s, b).contains(w));
        }
        if position(s, ids[i]) >= 0 && s[position(s, ids[i])].window_index == Some(w) {
            assert(b[i] == ids[i]);
            assert(window_indices_of(s, b).contains(w));
        }
    }
    assert(window_indices_of(s, b) =~= rhs);
}

/// The window indices of the stored agents named in `agent_ids`, highest first and
/// each once: the order in which their windows are closed.
pub fn deleted_window_indices(storage: &Storage, agent_ids: &Vec<u128>) -> (r: Vec<u32>)
    ensures
        strictly_decreasing(r@),
        r@.to_set() == window_indices_of(storage@, agent_ids@),
{
    let mut out: Vec<u32> = Vec::new();
    let mut i: usize = 0;
    proof {
        assert(out@.to_set() =~= window_indices_of(storage@, agent_ids@.take(0)));
    }
    while i < agent_ids.len()
        invariant
            i <= agent_ids@.len(),
            strictly_decreasing(out@),
            out@.to_set() == window_indices_of(storage@, agent_ids@.take(i as int)),
        decreases agent_ids@.len() - i,
    {
        proof {
            lemma_position(storage@, agent_ids@[i as int]);
        }
        proof {
            lemma_window_indices_step(storage@, agent_ids@, i as int);
        }
        match storage.get(agent_ids[i]) {
            Some(a) => match a.window_index {
                Some(w) => {
                    insert_decreasing(&mut out, w);
                },
                None => {},
            },
            None => {},
        }
        i = i + 1;
    }
    proof {
        assert(agent_ids@.take(agent_ids@.len() as int) =~= agent_ids@);
    }
    out
}

/// The next step of resizing the agents' windows to the preview.
#[derive(Debug)]
pub enum ResizeStep {
    /// Nothing to resize; whether everything that had to be resized was.
    Done(bool),
    /// Resize each target whose session exists to `width` x `height`.
    Resize { width: u16, height: u16, targets: Vec<ResizeTarget> },
}

/// What resizing to `width` x `height` gives for storage `s`.
pub open spec fn resize_step_ok(s: Seq<AgentView>, width: u16, height: u16, r: ResizeStep) -> bool {
    if width == 0 || height == 0 {
        r == ResizeStep::Done(false)
    } else {
        r matches ResizeStep::Resize { width: w, height: h, targets } && w == width && h == height
            && target_views(targets@) == resize_candidates_spec(s, s.len() as int)
    }
}

impl Actions {
    /// Resize the agents' windows to the preview's size, once it is known.
    pub fn resize_agent_windows(self, app: &mut App) -> (r: ResizeStep)
        ensures
            final(app).mode == old(app).mode,
            final(app).data.storage == old(app).data.storage,
            match old(app).data.ui.preview_dimensions {
                None => r == ResizeStep::Done(true) && *final(app) == *old(app),
                Some((w, h)) => resize_step_ok(old(app).data.storage@, w, h, r) && ((w != 0 && h != 0)
                    ==> *final(app) == *old(app)) && (!(w != 0 && h != 0) ==> status_is(
                    final(app).data,
                    "Preview is too small to resize agents: "@ + decimal(w as nat) + "x"@ + decimal(h as nat),
                )),
            },
    {
        match app.data.ui.preview_dimensions {
            None => ResizeStep::Done(true),
            Some((w, h)) => self.resize_agent_windows_to_dimensions(app, w, h),
        }
    }

    /// Resize the agents' windows to `width` x `height`; an empty side is refused with
    /// a status message.
    pub fn resize_agent_windows_to_dimensions(self, app: &mut App, width: u16, height: u16) -> (r: ResizeStep)
        ensures
            final(app).mode == old(app).mode,
            final(app).data.storage == old(app).data.storage,
            resize_step_ok(old(app).data.storage@, width, height, r),
            (width != 0 && height != 0) ==> *final(app) == *old(app),
            !(width != 0 && height != 0) ==> status_is(
                final(app).data,
                "Preview is too small to resize agents: "@ + decimal(width as nat) + "x"@ + decimal(height as nat),
            ),
    {
        if !check_resize_dimensions(&mut app.data, width, height) {
            return ResizeStep::Done(false);
        }
        ResizeStep::Resize { width, height, targets: resize_candidates(&app.data.storage) }
    }
}

} // verus!
