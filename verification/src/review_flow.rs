//! Starting a `/review` in a Codex pane: the keys to send and the texts to wait for,
//! as a state machine. The caller sends the keys, captures the pane and keeps time;
//! this module decides what comes next and what the pane's answers mean.

use vstd::prelude::*;
use crate::swarm::{codex_review_base_branch_hint, review_hint_spec};
use crate::text::{contains, owned, seq_contains, string_views, trim, trim_spec};

verus! {

broadcast use vstd::seq_lib::group_seq_properties;

/// How the start of a review in a Codex pane came out.
#[derive(Clone, Copy, Debug, PartialEq, Eq, Structural)]
pub enum CodexReviewStart {
    /// A step was not seen in time; the agent is left for the user.
    NotObserved,
    /// The review started against the requested base branch.
    MatchedBaseBranch,
    /// The review started, but its confirmation names another base branch.
    BaseBranchMismatch,
}

/// What the caller observed after the last action.
#[derive(Debug)]
pub enum ReviewEvent {
    /// Keys were sent.
    Sent,
    /// Whether the pane settled in time.
    Settled(bool),
    /// The pane that showed one of the awaited texts in time, if one did.
    Seen(Option<String>),
}

/// What the caller does next.
#[derive(Debug)]
pub enum ReviewAction {
    /// Wait until the pane has not changed for `stable_ms`, for at most `timeout_ms`.
    WaitIdle { stable_ms: u64, timeout_ms: u64 },
    /// Type `text` without submitting it.
    SendKeys(String),
    /// Submit what was typed.
    Submit,
    /// Wait until the pane shows one of `needles`, for at most `timeout_ms`.
    WaitFor { needles: Vec<String>, timeout_ms: u64 },
    /// The flow is over.
    Finish(CodexReviewStart),
}

/// A review being started against `base_branch`; `step` is the action in progress.
#[derive(Debug)]
pub struct ReviewFlow {
    pub step: u8,
    pub base_branch: String,
}

/// Settling the pane: 200 ms without change, within 20 s.
pub open spec fn is_settle(a: ReviewAction) -> bool {
    a == (ReviewAction::WaitIdle { stable_ms: 200, timeout_ms: 20000 })
}

/// `a` waits for one of `texts` within `timeout_ms`.
pub open spec fn is_wait_for(a: ReviewAction, texts: Seq<Seq<char>>, timeout_ms: u64) -> bool {
    a matches ReviewAction::WaitFor { needles, timeout_ms: t } && string_views(needles@) == texts && t == timeout_ms
}

/// The action of step `step` of starting a review against `base`.
pub open spec fn step_action(step: int, base: Seq<char>, a: ReviewAction) -> bool {
    if step == 0 || step == 5 || step == 8 {
        is_settle(a)
    } else if step == 1 {
        a matches ReviewAction::SendKeys(t) && t@ == "/review"@
    } else if step == 2 {
        is_wait_for(a, seq!["review my current changes"@, "review current changes"@], 5000)
    } else if step == 3 || step == 6 || step == 10 {
        a is Submit
    } else if step == 4 {
        is_wait_for(a, seq!["review preset"@, "review mode"@], 20000)
    } else if step == 7 {
        is_wait_for(a, seq!["base branch"@], 20000)
    } else if step == 9 {
        a matches ReviewAction::SendKeys(t) && t@ == base
    } else {
        is_wait_for(a, seq!["review started"@, "Code review started"@, "Code Review Started"@], 20000)
    }
}

/// The steps whose wait must succeed for the flow to go on: the first settling, and the
/// waits for the preset menu, the base branch prompt and the start.
pub open spec fn must_succeed(step: int) -> bool {
    step == 0 || step == 4 || step == 7 || step == 11
}

/// `e` tells that the wait of step `step` succeeded.
pub open spec fn succeeded(step: int, e: ReviewEvent) -> bool {
    if step == 0 {
        e == ReviewEvent::Settled(true)
    } else {
        e matches ReviewEvent::Seen(Some(_))
    }
}

fn text_list2(a: &str, b: &str) -> (r: Vec<String>)
    ensures
        string_views(r@) == seq![a@, b@],
        r@.len() == 2,
        r@[0]@ == a@,
        r@[1]@ == b@,
{
    let mut v: Vec<String> = Vec::new();
    v.push(owned(a));
    v.push(owned(b));
    proof {
        assert(string_views(v@) =~= seq![a@, b@]);
    }
    v
}

fn settle() -> (r: ReviewAction)
    ensures
        is_settle(r),
{
    ReviewAction::WaitIdle { stable_ms: 200, timeout_ms: 20000 }
}

fn action_of(step: u8, base: &String) -> (r: ReviewAction)
    requires
        step <= 11,
    ensures
        step_action(step as int, base@, r),
{
    if step == 0 || step == 5 || step == 8 {
        settle()
    } else if step == 1 {
        ReviewAction::SendKeys(owned("/review"))
    } else if step == 2 {
        ReviewAction::WaitFor {
            needles: text_list2("review my current changes", "review current changes"),
            timeout_ms: 5000,
        }
    } else if step == 3 || step == 6 || step == 10 {
        ReviewAction::Submit
    } else if step == 4 {
        ReviewAction::WaitFor { needles: text_list2("review preset", "review mode"), timeout_ms: 20000 }
    } else if step == 7 {
        let mut v: Vec<String> = Vec::new();
        v.push(owned("base branch"));
        proof {
            assert(string_views(v@) =~= seq!["base branch"@]);
        }
        ReviewAction::WaitFor { needles: v, timeout_ms: 20000 }
    } else if step == 9 {
        ReviewAction::SendKeys(base.clone())
    } else {
        let mut v = text_list2("review started", "Code review started");
        v.push(owned("Code Review Started"));
        proof {
            assert(string_views(v@) =~= seq!["review started"@, "Code review started"@, "Code Review Started"@]);
        }
        ReviewAction::WaitFor { needles: v, timeout_ms: 20000 }
    }
}

impl ReviewFlow {
    /// The flow is in progress at a step of the script.
    pub open spec fn well_formed(self) -> bool {
        self.step <= 11
    }

    /// Begin starting a review against `base_branch` (trimmed), which must not be blank.
    pub fn start_codex_review_flow(base_branch: &str) -> (r: Result<(ReviewFlow, ReviewAction), String>)
        ensures
            trim_spec(base_branch@).len() == 0 ==> (r matches Err(e) && e@
                == "Base branch cannot be empty for Codex review flow"@),
            trim_spec(base_branch@).len() > 0 ==> (r matches Ok((f, a)) && f.step == 0 && f.base_branch@
                == trim_spec(base_branch@) && is_settle(a)),
    {
        let base = trim(base_branch);
        if base.unicode_len() == 0 {
            return Err(owned("Base branch cannot be empty for Codex review flow"));
        }
        Ok((ReviewFlow { step: 0, base_branch: owned(base) }, settle()))
    }

    /// Take what the caller observed for the current step and say what to do next.
    pub fn advance(&mut self, event: ReviewEvent) -> (r: ReviewAction)
        requires
            old(self).well_formed(),
        ensures
            final(self).base_branch == old(self).base_branch,
            ({
                let step = old(self).step as int;
                let base = old(self).base_branch@;
                if must_succeed(step) && !succeeded(step, event) {
                    r == ReviewAction::Finish(CodexReviewStart::NotObserved)
                } else if step == 11 {
                    event matches ReviewEvent::Seen(Some(text)) && r == ReviewAction::Finish(
                        if seq_contains(text@, review_hint_spec(base)) {
                            CodexReviewStart::MatchedBaseBranch
                        } else {
                            CodexReviewStart::BaseBranchMismatch
                        },
                    )
                } else {
                    final(self).step == step + 1 && step_action(step + 1, base, r)
                }
            }),
    {
        let step = self.step;
        let ok = match &event {
            ReviewEvent::Settled(b) => step == 0 && *b,
            ReviewEvent::Seen(Some(_)) => step != 0,
            _ => false,
        };
        if (step == 0 || step == 4 || step == 7 || step == 11) && !ok {
            return ReviewAction::Finish(CodexReviewStart::NotObserved);
        }
        if step == 11 {
            return match event {
                ReviewEvent::Seen(Some(text)) => {
                    let hint = codex_review_base_branch_hint(self.base_branch.as_str());
                    if contains(text.as_str(), hint.as_str()) {
                        ReviewAction::Finish(CodexReviewStart::MatchedBaseBranch)
                    } else {
                        ReviewAction::Finish(CodexReviewStart::BaseBranchMismatch)
                    }
                },
                _ => ReviewAction::Finish(CodexReviewStart::NotObserved),
            };
        }
        self.step = step + 1;
        action_of(self.step, &self.base_branch)
    }
}

/// Whether one of the started reviews runs against another base than requested.
pub fn review_mismatch_found(outcomes: &Vec<CodexReviewStart>) -> (r: bool)
    ensures
        r == outcomes@.contains(CodexReviewStart::BaseBranchMismatch),
{
    let mut i: usize = 0;
    while i < outcomes.len()
        invariant
            i <= outcomes@.len(),
            forall|k: int| 0 <= k < i ==> outcomes@[k] != CodexReviewStart::BaseBranchMismatch,
        decreases outcomes@.len() - i,
    {
        if outcomes[i] == CodexReviewStart::BaseBranchMismatch {
            assert(outcomes@[i as int] == CodexReviewStart::BaseBranchMismatch);
            return true;
        }
        i = i + 1;
    }
    false
}

/// The pane shows one of `needles`.
pub open spec fn shows_any(pane: Seq<char>, needles: Seq<Seq<char>>) -> bool {
    exists|k: int| 0 <= k < needles.len() && seq_contains(pane, needles[k])
}

/// Whether the pane shows one of `needles`.
pub fn pane_shows_any(pane: &str, needles: &Vec<String>) -> (r: bool)
    ensures
        r == shows_any(pane@, string_views(needles@)),
{
    let ghost ns = string_views(needles@);
    let mut i: usize = 0;
    while i < needles.len()
        invariant
            ns == string_views(needles@),
            i <= ns.len(),
            forall|k: int| 0 <= k < i ==> !seq_contains(pane@, ns[k]),
        decreases ns.len() - i,
    {
        if contains(pane, needles[i].as_str()) {
            assert(ns[i as int] == needles@[i as int]@);
            return true;
        }
        i = i + 1;
    }
    false
}

/// Watching a pane until it stops changing: the last capture seen and when it was
/// first seen (in milliseconds on the caller's clock).
#[derive(Debug)]
pub struct IdleWatch {
    pub baseline: String,
    pub changed_at_ms: u64,
}

impl IdleWatch {
    /// Begin watching at `now_ms`, with nothing seen yet.
    pub fn new(now_ms: u64) -> (r: IdleWatch)
        ensures
            r.baseline@.len() == 0,
            r.changed_at_ms == now_ms,
    {
        IdleWatch { baseline: String::new(), changed_at_ms: now_ms }
    }

    /// Take one capture of the pane (`None` when capturing failed) at `now_ms`; the pane
    /// is idle when it shows what it showed for at least `stable_ms`.
    pub fn observe(&mut self, capture: Option<String>, now_ms: u64, stable_ms: u64) -> (idle: bool)
        ensures
            match capture {
                None => !idle && *final(self) == *old(self),
                Some(p) => if p@ != old(self).baseline@ {
                    !idle && final(self).baseline@ == p@ && final(self).changed_at_ms == now_ms
                } else {
                    idle == (now_ms >= old(self).changed_at_ms && now_ms - old(self).changed_at_ms >= stable_ms)
                        && *final(self) == *old(self)
                },
            },
    {
        match capture {
            None => false,
            Some(p) => {
                if p != self.baseline {
                    self.baseline = p;
                    self.changed_at_ms = now_ms;
                    false
                } else {
                    now_ms >= self.changed_at_ms && now_ms - self.changed_at_ms >= stable_ms
                }
            },
        }
    }
}

} // verus!
