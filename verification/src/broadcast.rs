//! Broadcasting a message to the leaf agents of the selected agent's tree.

use vstd::prelude::*;
use crate::actions::{Actions, selected_index, selected_view};
use crate::agent::{AgentView, descendants_spec, has_children_spec, is_descendant, lemma_position};
use crate::data::AppData;
use crate::git_flows::{error_mode, is_error, status_is};
use crate::mux::{window_target, window_target_spec};
use crate::state::AppMode;
use crate::text::{concat3, decimal, decimal_string, owned};

verus! {

broadcast use vstd::seq_lib::group_seq_properties;

/// The pane that shows agent `g`: its window in its session, or its session.
pub open spec fn agent_target_spec(g: AgentView) -> Seq<char> {
    match g.window_index {
        Some(w) => window_target_spec(g.mux_session, w),
        None => g.mux_session,
    }
}

/// `g` receives broadcasts: it has no children and is not a terminal.
pub open spec fn is_leaf(s: Seq<AgentView>, g: AgentView) -> bool {
    !has_children_spec(s, g.id) && !g.is_terminal
}

/// The leaf agents that a broadcast from `a` reaches: `a` itself and the agents below
/// it, in storage order, that have no children and are not terminals.
pub open spec fn broadcast_leaves(s: Seq<AgentView>, a: AgentView) -> Seq<AgentView> {
    (seq![a] + descendants_spec(s, a.id)).filter(|g: AgentView| is_leaf(s, g))
}

/// A pane to send the broadcast to.
#[derive(Debug)]
pub struct BroadcastTarget {
    pub agent_id: u128,
    pub target: String,
}

/// `t` sends to the leaves `leaves`, in order.
pub open spec fn targets_for(t: Seq<BroadcastTarget>, leaves: Seq<AgentView>) -> bool {
    &&& t.len() == leaves.len()
    &&& forall|k: int|
        0 <= k < t.len() ==> (#[trigger] t[k]).agent_id == leaves[k].id && t[k].target@ == agent_target_spec(
            leaves[k],
        )
}

impl Actions {
    /// The panes a broadcast from the selected agent goes to; without a selected agent
    /// the error modal to show.
    pub fn broadcast_to_leaves(self, app_data: &AppData) -> (r: Result<Vec<BroadcastTarget>, AppMode>)
        ensures
            selected_index(*app_data) < 0 ==> (r matches Err(m) && is_error(m, "No agent selected"@)),
            selected_index(*app_data) >= 0 ==> (r matches Ok(t) && targets_for(
                t@,
                broadcast_leaves(app_data.storage@, selected_view(*app_data)),
            )),
    {
        proof {
            if let Some(id) = app_data.selected_agent {
                lemma_position(app_data.storage@, id);
            }
        }
        let i = match app_data.selected_agent {
            Some(id) => match app_data.storage.find_index(id) {
                Some(i) => i,
                None => {
                    return Err(error_mode(owned("No agent selected")));
                },
            },
            None => {
                return Err(error_mode(owned("No agent selected")));
            },
        };
        let ghost s = app_data.storage@;
        let ghost a = s[i as int];
        let ghost leaf = |g: AgentView| is_leaf(s, g);
        let ghost below = |g: AgentView| is_descendant(s, g.id, a.id);
        let mut out: Vec<BroadcastTarget> = Vec::new();
        let first = &app_data.storage.agents[i];
        assert(a == first@);
        proof {
            assert(seq![a].filter(leaf) =~= if is_leaf(s, a) { seq![a] } else { Seq::empty() }) by {
                Seq::<AgentView>::empty().lemma_filter_push(a, leaf);
                assert(Seq::<AgentView>::empty().push(a) =~= seq![a]);
            }
        }
        if !app_data.storage.has_children(first.id) && !first.is_terminal_agent() {
            out.push(BroadcastTarget { agent_id: first.id, target: agent_target(first) });
        }
        let flags = app_data.storage.descendant_flags(first.id);
        let mut j: usize = 0;
        while j < app_data.storage.agents.len()
            invariant
                s == app_data.storage@,
                0 <= i < s.len(),
                a == s[i as int],
                leaf == (|g: AgentView| is_leaf(s, g)),
                below == (|g: AgentView| is_descendant(s, g.id, a.id)),
                flags@.len() == s.len(),
                forall|k: int| 0 <= k < s.len() ==> flags@[k] == is_descendant(s, s[k].id, a.id),
                j <= s.len(),
                targets_for(out@, (seq![a] + s.take(j as int).filter(below)).filter(leaf)),
            decreases s.len() - j,
        {
            let ghost prev = seq![a] + s.take(j as int).filter(below);
            proof {
                s.take(j as int).lemma_filter_push(s[j as int], below);
                assert(s.take(j + 1) =~= s.take(j as int).push(s[j as int]));
            }
            let g = &app_data.storage.agents[j];
            assert(s[j as int] == g@);
            if flags[j] {
                proof {
                    assert(seq![a] + s.take(j + 1).filter(below) =~= prev.push(g@));
                    prev.lemma_filter_push(g@, leaf);
                }
                if !app_data.storage.has_children(g.id) && !g.is_terminal_agent() {
                    out.push(BroadcastTarget { agent_id: g.id, target: agent_target(g) });
                }
            } else {
                proof {
                    assert(seq![a] + s.take(j + 1).filter(below) =~= prev);
                }
            }
            j = j + 1;
        }
        proof {
            assert(s.take(s.len() as int) =~= s);
        }
        Ok(out)
    }

    /// Finish a broadcast that reached `sent_count` agents.
    pub fn finish_broadcast(app_data: &mut AppData, sent_count: usize) -> (r: AppMode)
        ensures
            sent_count > 0 ==> r == AppMode::Normal && status_is(
                *final(app_data),
                "Broadcast sent to "@ + decimal(sent_count as nat) + " agent(s)"@,
            ),
            sent_count == 0 ==> is_error(r, "No leaf agents found to broadcast to"@) && *final(app_data)
                == *old(app_data),
            final(app_data).storage == old(app_data).storage,
    {
        if sent_count > 0 {
            let n = decimal_string(sent_count as u64);
            app_data.set_status(concat3("Broadcast sent to ", n.as_str(), " agent(s)"));
            return AppMode::Normal;
        }
        error_mode(owned("No leaf agents found to broadcast to"))
    }
}

fn agent_target(g: &crate::agent::Agent) -> (r: String)
    ensures
        r@ == agent_target_spec(g@),
{
    match g.window_index {
        Some(w) => window_target(g.mux_session.as_str(), w),
        None => g.mux_session.clone(),
    }
}

} // verus!
