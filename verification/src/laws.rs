//! Properties that hold across the operations of the library.

use vstd::prelude::*;
use crate::actions::{selected_index, selected_view, toggled};
use crate::agent::{AgentView, has_children_spec, is_descendant, position, lemma_position, with_collapsed};
use crate::broadcast::{broadcast_leaves, is_leaf};
use crate::data::{AppData, next_selection, prev_selection};
use crate::preview::{last_seen_spec, observed, other_agent, refreshed_scroll_spec, set_seen_spec, unseen_spec};
use crate::swarm::{max_title_number, next_child_number_spec, title_number_spec};
use crate::sync::{listed, lost_root, pruned, promoted, synced, title_for_branch_spec};
use crate::synthesis::{capture_agents, first_index, lemma_first_index, lemma_first_index_exists, teardown_agents, toggled_marks};
use crate::text::strip_prefix_spec;
use crate::window::{count_below, renumber, renumber_fits, shifted_index, strictly_decreasing};

verus! {

broadcast use vstd::seq_lib::group_seq_properties;

/// Recording a hash for one agent leaves the hash last seen for every other agent as
/// it was.
pub proof fn lemma_set_seen_keeps_others(table: Seq<(u128, u64)>, agent_id: u128, hash: u64, other: u128)
    requires
        other != agent_id,
    ensures
        last_seen_spec(set_seen_spec(table, agent_id, hash), other) == last_seen_spec(table, other),
    decreases table.len(),
{
    let rest = table.filter(other_agent(agent_id));
    assert(set_seen_spec(table, agent_id, hash).drop_first() =~= rest);
    lemma_filter_keeps_last_seen(table, agent_id, other);
}

proof fn lemma_filter_keeps_last_seen(table: Seq<(u128, u64)>, agent_id: u128, other: u128)
    requires
        other != agent_id,
    ensures
        last_seen_spec(table.filter(other_agent(agent_id)), other) == last_seen_spec(table, other),
    decreases table.len(),
{
    if table.len() > 0 {
        let rest = table.drop_first();
        assert(table =~= seq![table[0]] + rest);
        rest.lemma_filter_prepend(table[0], other_agent(agent_id));
        lemma_filter_keeps_last_seen(rest, agent_id, other);
        if table[0].0 == agent_id {
            assert(table.filter(other_agent(agent_id)) =~= rest.filter(other_agent(agent_id)));
        } else {
            let f = table.filter(other_agent(agent_id));
            assert(f =~= seq![table[0]] + rest.filter(other_agent(agent_id)));
            assert(f.drop_first() =~= rest.filter(other_agent(agent_id)));
        }
    }
}

/// Collapsing or expanding an agent twice in a row, each time to the opposite of
/// its current state, leaves the stored agents as they were.
pub proof fn lemma_toggle_twice(s: Seq<AgentView>, id: u128)
    ensures
        ({
            let once = with_collapsed(s, id, !s[position(s, id)].collapsed);
            with_collapsed(once, id, !once[position(once, id)].collapsed) == s
        }),
{
    lemma_position(s, id);
    if position(s, id) >= 0 {
        let p = position(s, id);
        let once = with_collapsed(s, id, !s[p].collapsed);
        assert forall|k: int| 0 <= k < once.len() implies once[k].id == s[k].id by {}
        lemma_same_ids_same_position(s, once, id);
        assert(with_collapsed(once, id, !once[p].collapsed) =~= s);
    }
}

proof fn lemma_same_ids_same_position(s: Seq<AgentView>, t: Seq<AgentView>, id: u128)
    requires
        s.len() == t.len(),
        forall|k: int| 0 <= k < s.len() ==> t[k].id == s[k].id,
    ensures
        position(t, id) == position(s, id),
{
    lemma_position(s, id);
    lemma_position(t, id);
    if position(s, id) >= 0 && position(t, id) >= 0 {
        if position(t, id) < position(s, id) {
            assert(s[position(t, id)].id == id);
        }
        if position(s, id) < position(t, id) {
            assert(t[position(s, id)].id == id);
        }
    } else if position(s, id) >= 0 {
        assert(t[position(s, id)].id == id);
    } else if position(t, id) >= 0 {
        assert(s[position(t, id)].id == id);
    }
}

/// After removing the tree of `id`, no stored agent is `id` or lies below it.
pub proof fn lemma_removed_tree_gone(s: Seq<AgentView>, id: u128)
    ensures
        ({
            let r = s.filter(|g: AgentView| !(g.id == id || is_descendant(s, g.id, id)));
            forall|k: int| 0 <= k < r.len() ==> r[k].id != id && !is_descendant(s, #[trigger] r[k].id, id)
        }),
{
    let pred = |g: AgentView| !(g.id == id || is_descendant(s, g.id, id));
    let r = s.filter(pred);
    assert forall|k: int| 0 <= k < r.len() implies r[k].id != id && !is_descendant(s, #[trigger] r[k].id, id) by {
        s.lemma_filter_pred(pred, k);
    }
}

/// After a sync with listed sessions, every stored root's session is listed.
pub proof fn lemma_synced_roots_listed(s: Seq<AgentView>, ss: Seq<String>)
    ensures
        forall|k: int|
            0 <= k < synced(s, ss).len() && (#[trigger] synced(s, ss)[k]).parent_id.is_none() ==> listed(
                ss,
                synced(s, ss)[k].mux_session,
            ),
{
    let keep = |g: AgentView| !pruned(s, ss, g);
    let f = s.filter(keep);
    assert forall|k: int|
        0 <= k < synced(s, ss).len() && (#[trigger] synced(s, ss)[k]).parent_id.is_none() implies listed(
        ss,
        synced(s, ss)[k].mux_session,
    ) by {
        s.lemma_filter_pred(keep, k);
        let g = f[k];
        assert(f.contains(g));
        s.lemma_filter_contains_rev(keep, g);
        assert(synced(s, ss)[k] == promoted(ss, g));
        let i = choose|i: int| 0 <= i < s.len() && s[i] == g;
        if !listed(ss, g.mux_session) {
            assert(lost_root(s, ss, i));
            assert(pruned(s, ss, g));
        }
    }
}

/// A branch that is not empty gives an agent title that is not empty.
pub proof fn lemma_branch_title_not_empty(branch: Seq<char>, prefix: Seq<char>)
    requires
        branch.len() > 0,
    ensures
        title_for_branch_spec(branch, prefix).len() > 0,
{
}

/// The number given to a new child is larger than the number of every child of the
/// same parent titled with the same prefix, unless the numbers ran out.
pub proof fn lemma_next_child_number_fresh(s: Seq<AgentView>, parent_id: u128, prefix: Seq<char>, k: int)
    requires
        0 <= k < s.len(),
        s[k].parent_id == Some(parent_id),
        title_number_spec(s[k].title, prefix) is Some,
        title_number_spec(s[k].title, prefix).unwrap() < usize::MAX,
    ensures
        next_child_number_spec(s, parent_id, prefix) > title_number_spec(s[k].title, prefix).unwrap(),
{
    lemma_max_title_number_covers(s, parent_id, prefix, s.len() as int, k);
}

proof fn lemma_max_title_number_covers(s: Seq<AgentView>, parent_id: u128, prefix: Seq<char>, n: int, k: int)
    requires
        0 <= k < n <= s.len(),
        s[k].parent_id == Some(parent_id),
        title_number_spec(s[k].title, prefix) is Some,
    ensures
        max_title_number(s, parent_id, prefix, n) >= title_number_spec(s[k].title, prefix).unwrap(),
    decreases n,
{
    if k < n - 1 {
        lemma_max_title_number_covers(s, parent_id, prefix, n - 1, k);
    }
}

/// Every agent whose output a synthesis captures is also torn down.
pub proof fn lemma_captured_are_torn_down(s: Seq<AgentView>, parent: u128, roots: Seq<u128>)
    ensures
        forall|k: int|
            0 <= k < capture_agents(s, parent, roots).len() ==> teardown_agents(s, parent, roots).contains(
                #[trigger] capture_agents(s, parent, roots)[k],
            ),
{
    let cap = |g: AgentView| is_descendant(s, g.id, parent) && crate::synthesis::in_subtrees(s, roots, g) && !g.is_terminal;
    let tear = |g: AgentView| is_descendant(s, g.id, parent) && crate::synthesis::in_subtrees(s, roots, g);
    assert forall|k: int| 0 <= k < capture_agents(s, parent, roots).len() implies teardown_agents(s, parent, roots).contains(
        #[trigger] capture_agents(s, parent, roots)[k],
    ) by {
        let fc = s.filter(cap);
        s.lemma_filter_pred(cap, k);
        let g = fc[k];
        assert(fc.contains(g));
        s.lemma_filter_contains_rev(cap, g);
        let i = choose|i: int| 0 <= i < s.len() && s[i] == g;
        s.lemma_filter_contains(tear, i);
        let ft = s.filter(tear);
        let j = choose|j: int| 0 <= j < ft.len() && ft[j] == g;
        assert(teardown_agents(s, parent, roots)[j] == g.id);
    }
}

/// A broadcast reaches only agents without children that are not terminals.
pub proof fn lemma_broadcast_reaches_leaves(s: Seq<AgentView>, a: AgentView)
    ensures
        forall|k: int|
            0 <= k < broadcast_leaves(s, a).len() ==> !has_children_spec(s, (#[trigger] broadcast_leaves(s, a)[k]).id)
                && !broadcast_leaves(s, a)[k].is_terminal,
{
    let leaf = |g: AgentView| is_leaf(s, g);
    assert forall|k: int| 0 <= k < broadcast_leaves(s, a).len() implies !has_children_spec(
        s,
        (#[trigger] broadcast_leaves(s, a)[k]).id,
    ) && !broadcast_leaves(s, a)[k].is_terminal by {
        (seq![a] + crate::agent::descendants_spec(s, a.id)).lemma_filter_pred(leaf, k);
    }
}

proof fn lemma_count_below_all(v: Seq<u32>, w: u32)
    requires
        forall|i: int| 0 <= i < v.len() ==> v[i] < w,
    ensures
        count_below(v, w) == v.len(),
    decreases v.len(),
{
    if v.len() > 0 {
        let rest = v.drop_first();
        assert(v =~= seq![v[0]] + rest);
        rest.lemma_filter_prepend(v[0], |d: u32| d < w);
        lemma_count_below_all(rest, w);
    }
}

proof fn lemma_count_between(d: Seq<u32>, w1: u32, w2: u32)
    requires
        strictly_decreasing(d),
        w1 < w2,
        !d.contains(w1),
    ensures
        count_below(d, w2) - count_below(d, w1) <= w2 - w1 - 1,
    decreases d.len(),
{
    if d.len() > 0 {
        let x = d[0];
        let rest = d.drop_first();
        assert(d =~= seq![x] + rest);
        rest.lemma_filter_prepend(x, |v: u32| v < w1);
        rest.lemma_filter_prepend(x, |v: u32| v < w2);
        assert(strictly_decreasing(rest));
        assert forall|i: int| 0 <= i < rest.len() implies rest[i] < x by {
            assert(d[0] > d[i + 1]);
        }
        assert(!rest.contains(w1)) by {
            if rest.contains(w1) {
                let i = choose|i: int| 0 <= i < rest.len() && rest[i] == w1;
                assert(d[i + 1] == w1);
            }
        }
        if x < w1 || x >= w2 {
            lemma_count_between(rest, w1, w2);
        } else {
            assert(x != w1) by {
                assert(d[0] == x);
            }
            lemma_count_between(rest, w1, x);
            lemma_count_below_all(rest, x);
            lemma_count_below_all(rest, w2);
        }
    }
}

/// Renumbering after closing distinct windows keeps the remaining windows in order
/// and distinct: a window below another stays below it.
pub proof fn lemma_renumber_keeps_order(deleted: Seq<u32>, w1: u32, w2: u32)
    requires
        strictly_decreasing(deleted),
        w1 < w2,
        !deleted.contains(w1),
    ensures
        shifted_index(deleted, w1) < shifted_index(deleted, w2),
{
    lemma_count_between(deleted, w1, w2);
}

/// A hash recorded while its tab was shown is not news afterwards: the same hash is
/// not unseen for that agent.
pub proof fn lemma_viewed_hash_is_seen(
    old_t: Seq<(u128, u64)>,
    new_t: Seq<(u128, u64)>,
    unseen: bool,
    agent_id: u128,
    hash: u64,
)
    requires
        observed(old_t, new_t, unseen, true, agent_id, hash),
    ensures
        !unseen,
        !unseen_spec(hash, last_seen_spec(new_t, agent_id)),
{
    crate::preview::lemma_set_seen_then_read(old_t, agent_id, hash);
}

/// When a refresh switches the preview from a short tail to the full history while
/// not following, the distance of the view from the bottom is kept, as far as the new
/// content is long enough for it.
pub proof fn lemma_full_history_keeps_distance(
    scroll: int,
    old_lines: int,
    old_scroll: int,
    new_lines: int,
    visible: int,
)
    requires
        0 <= old_scroll,
        0 <= old_lines,
        0 <= new_lines,
        0 <= visible,
    ensures
        ({
            let old_max = if old_lines > visible { old_lines - visible } else { 0 };
            let distance = old_max - if old_scroll < old_max { old_scroll } else { old_max };
            let new_max = if new_lines > visible { new_lines - visible } else { 0 };
            let r = refreshed_scroll_spec(false, true, scroll, old_lines, old_scroll, new_lines, visible);
            &&& distance <= new_max ==> new_max - r == distance
            &&& distance > new_max ==> r == 0
        }),
{
}

/// Marking and then unmarking an agent for synthesis, or the other way round, leaves
/// the same marks up to their order, when the agent was marked at most once.
pub proof fn lemma_toggle_mark_twice(marks: Seq<u128>, id: u128)
    requires
        marks.to_multiset().count(id) <= 1,
    ensures
        toggled_marks(toggled_marks(marks, id), id).to_multiset() == marks.to_multiset(),
{
    if marks.contains(id) {
        lemma_first_index_exists(marks, id);
        let i = first_index(marks, id);
        let once = marks.remove(i);
        vstd::seq_lib::to_multiset_remove(marks, i);
        vstd::seq_lib::to_multiset_contains(marks, id);
        assert(once.to_multiset().count(id) == 0);
        if once.contains(id) {
            vstd::seq_lib::to_multiset_contains(once, id);
        }
        assert(!once.contains(id));
        vstd::seq_lib::to_multiset_build(once, id);
        assert(toggled_marks(once, id) == once.push(id));
        assert(once.push(id).to_multiset() =~= marks.to_multiset());
    } else {
        let once = marks.push(id);
        assert forall|k: int| 0 <= k < marks.len() implies once[k] != id by {
            assert(once[k] == marks[k]);
        }
        lemma_first_index(once, id, marks.len() as int);
        assert(once.remove(marks.len() as int) =~= marks);
    }
}

/// Moving the sidebar selection down and then up, or up and then down, comes back to
/// the row it started on, when that row is in the list.
pub proof fn lemma_select_next_then_prev(selected: int, count: int)
    requires
        0 <= selected < count,
    ensures
        prev_selection(next_selection(selected, count), count) == selected,
        next_selection(prev_selection(selected, count), count) == selected,
{
    if selected + 1 < count {
        vstd::arithmetic::div_mod::lemma_small_mod((selected + 1) as nat, count as nat);
    } else {
        vstd::arithmetic::div_mod::lemma_mod_self_0(count);
    }
    if selected > 0 {
        vstd::arithmetic::div_mod::lemma_small_mod(selected as nat, count as nat);
    } else {
        vstd::arithmetic::div_mod::lemma_small_mod(0, count as nat);
    }
}

/// Highlighting the next command of the palette and then the previous one, or the
/// other way round, comes back to the command highlighted first, when it is listed.
pub proof fn lemma_palette_next_then_prev(selected: int, n: int)
    requires
        0 <= selected < n,
    ensures
        ({
            let down = (selected + 1) % n;
            (if down == 0 { n - 1 } else { down - 1 }) == selected
        }),
        ({
            let up = if selected == 0 { n - 1 } else { selected - 1 };
            (up + 1) % n == selected
        }),
{
    lemma_select_next_then_prev(selected, n);
}

/// Toggling the collapse of the selected agent twice in a row leaves the stored agents
/// as they were: the second toggle still finds the same agent selected, with the same
/// children, and flips it back.
pub proof fn lemma_toggle_collapse_twice(d: AppData, once: AppData)
    requires
        once.storage@ == toggled(d),
        once.selected_agent == d.selected_agent,
    ensures
        selected_index(once) == selected_index(d),
        selected_index(d) >= 0 ==> selected_view(once).id == selected_view(d).id && has_children_spec(
            once.storage@,
            selected_view(d).id,
        ) == has_children_spec(d.storage@, selected_view(d).id),
        toggled(once) == d.storage@,
{
    let s = d.storage@;
    let t = once.storage@;
    if selected_index(d) >= 0 && has_children_spec(s, selected_view(d).id) {
        let id = selected_view(d).id;
        lemma_position(s, id);
        assert(t == with_collapsed(s, id, !selected_view(d).collapsed));
        assert(t.len() == s.len());
    } else {
        assert(t == s);
    }
    assert forall|k: int| 0 <= k < s.len() implies t[k].id == s[k].id && t[k].parent_id == s[k].parent_id by {}
    if let Some(id) = d.selected_agent {
        lemma_same_ids_same_position(s, t, id);
        lemma_position(s, id);
        if position(s, id) >= 0 {
            if has_children_spec(s, id) {
                let i = choose|i: int| 0 <= i < s.len() && s[i].parent_id == Some(id);
                assert(t[i].parent_id == Some(id));
            }
            if has_children_spec(t, id) {
                let i = choose|i: int| 0 <= i < t.len() && t[i].parent_id == Some(id);
                assert(s[i].parent_id == Some(id));
            }
            lemma_toggle_twice(s, id);
        }
    }
}
proof fn lemma_count_below_remove(s: Seq<u32>, j: int, w: u32)
    requires
        0 <= j < s.len(),
    ensures
        count_below(s, w) == count_below(s.remove(j), w) + if s[j] < w {
            1int
        } else {
            0int
        },
{
    let pred = |d: u32| d < w;
    let a = s.take(j);
    let b = s.skip(j + 1);
    assert(s =~= a + seq![s[j]] + b);
    assert(s.remove(j) =~= a + b);
    Seq::filter_distributes_over_add(a + seq![s[j]], b, pred);
    Seq::filter_distributes_over_add(a, seq![s[j]], pred);
    Seq::filter_distributes_over_add(a, b, pred);
    assert(seq![s[j]].filter(pred).len() == if s[j] < w { 1int } else { 0int }) by {
        seq![s[j]].lemma_filter_len_push(pred, s[j]);
        Seq::<u32>::empty().lemma_filter_len_push(pred, s[j]);
        assert(Seq::<u32>::empty().push(s[j]) =~= seq![s[j]]);
        assert(Seq::<u32>::empty().filter(pred) =~= Seq::<u32>::empty());
    }
}

/// Renumbering after closing windows depends only on which windows were closed, not
/// on the order they are listed in: two lists with the same indices shift every
/// window alike.
pub proof fn lemma_renumber_order_free(d1: Seq<u32>, d2: Seq<u32>, w: u32)
    requires
        d1.to_multiset() == d2.to_multiset(),
    ensures
        count_below(d1, w) == count_below(d2, w),
        shifted_index(d1, w) == shifted_index(d2, w),
    decreases d1.len(),
{
    vstd::seq_lib::to_multiset_len(d1);
    vstd::seq_lib::to_multiset_len(d2);
    if d1.len() == 0 {
        assert(d2.len() == 0);
        assert(d1 =~= d2);
    } else {
        let x = d1[0];
        vstd::seq_lib::to_multiset_contains(d1, x);
        assert(d1.to_multiset().count(x) > 0);
        vstd::seq_lib::to_multiset_contains(d2, x);
        let j = choose|j: int| 0 <= j < d2.len() && d2[j] == x;
        vstd::seq_lib::to_multiset_remove(d1, 0);
        vstd::seq_lib::to_multiset_remove(d2, j);
        assert(d1.remove(0).to_multiset() =~= d2.remove(j).to_multiset());
        lemma_renumber_order_free(d1.remove(0), d2.remove(j), w);
        lemma_count_below_remove(d1, 0, w);
        lemma_count_below_remove(d2, j, w);
    }
}

/// The agents after renumbering are the same whichever order the closed windows are
/// listed in.
pub proof fn lemma_renumber_independent_of_order(
    s: Seq<AgentView>,
    root: u128,
    closed: Seq<u128>,
    d1: Seq<u32>,
    d2: Seq<u32>,
)
    requires
        d1.to_multiset() == d2.to_multiset(),
    ensures
        renumber(s, root, closed, d1) == renumber(s, root, closed, d2),
{
    assert forall|i: int| 0 <= i < s.len() && s[i].window_index.is_some() implies shifted_index(
        d1,
        s[i].window_index.unwrap(),
    ) == shifted_index(d2, s[i].window_index.unwrap()) by {
        lemma_renumber_order_free(d1, d2, s[i].window_index.unwrap());
    }
    assert(renumber(s, root, closed, d1) =~= renumber(s, root, closed, d2));
}


/// Renumbering after closing windows under root `root` touches only the window
/// indices of agents below `root`: every agent keeps its place, id, session and
/// everything but its window; an agent that is not below `root`, or that was closed,
/// or lies below a closed agent, is left exactly as it was; and every other agent
/// below `root` with a window moves down by the number of closed windows before it.
pub proof fn lemma_renumber_only_below_root(
    s: Seq<AgentView>,
    root: u128,
    closed: Seq<u128>,
    deleted: Seq<u32>,
    i: int,
)
    requires
        0 <= i < s.len(),
        renumber_fits(s, root, closed, deleted),
    ensures
        renumber(s, root, closed, deleted).len() == s.len(),
        renumber(s, root, closed, deleted)[i] == (AgentView {
            window_index: renumber(s, root, closed, deleted)[i].window_index,
            ..s[i]
        }),
        !is_descendant(s, s[i].id, root) ==> renumber(s, root, closed, deleted)[i] == s[i],
        closed.contains(s[i].id) ==> renumber(s, root, closed, deleted)[i] == s[i],
        (exists|j: int| 0 <= j < closed.len() && is_descendant(s, s[i].id, closed[j]))
            ==> renumber(s, root, closed, deleted)[i] == s[i],
        s[i].window_index.is_none() ==> renumber(s, root, closed, deleted)[i] == s[i],
        ({
            let w = s[i].window_index;
            &&& is_descendant(s, s[i].id, root)
            &&& !closed.contains(s[i].id)
            &&& forall|j: int| 0 <= j < closed.len() ==> !is_descendant(s, s[i].id, closed[j])
            &&& w.is_some()
        }) ==> ({
            let w = s[i].window_index.unwrap();
            &&& renumber(s, root, closed, deleted)[i].window_index matches Some(v)
            &&& v as int == w - deleted.filter(|d: u32| d < w).len()
            &&& v <= w
        }),
{
}

} // verus!
