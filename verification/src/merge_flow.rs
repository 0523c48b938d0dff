//! Merging in the main repository when no worktree has the target branch checked out:
//! stash, check the target out, merge, and put the repository back, as a state
//! machine. The caller runs each git command and reports how it went.

use vstd::prelude::*;
use crate::actions::Actions;
use crate::data::AppData;
use crate::git_flows::{GitOutcome, MergeResult, flow_cleared, is_error, is_success, merge_commit_message, merge_result};
use crate::git_ops::{git_failure_message_spec, merge_conflict_spec, stash_created};
use crate::text::{concat2, owned, seq_contains, trim, trim_spec};

verus! {

/// A git command of the merge.
#[derive(Debug)]
pub enum MergeCmd {
    /// `git stash push -m tenex-merge-temp`.
    Stash,
    /// `git rev-parse --abbrev-ref HEAD`.
    CurrentBranch,
    /// `git checkout branch`; when `strict`, a failure to run it ends the merge.
    Checkout { branch: String, strict: bool },
    /// `git merge source -m message`.
    Merge { source: String, message: String },
    /// `git stash pop`.
    PopStash,
}

/// How the merge ended.
#[derive(Debug)]
pub enum MergeEnd {
    /// The merge ran (or could not run) with this result.
    Merged(MergeResult),
    /// The target branch could not be checked out.
    CheckoutFailed,
    /// A git command that had to run could not be run.
    Error(String),
}

/// What the caller does next.
#[derive(Debug)]
pub enum MergeAction {
    Run(MergeCmd),
    Finish(MergeEnd),
}

/// How the last command went.
#[derive(Debug)]
pub enum MergeEvent {
    /// It ran: whether it succeeded, and its output.
    Ran { ok: bool, stdout: String, stderr: String },
    /// It could not be run.
    Failed(String),
}

/// A merge of `source` into `target` in the main repository, in progress.
#[derive(Debug)]
pub struct MainRepoMerge {
    /// 0: stashing; 1: reading the current branch; 2: checking the target out;
    /// 3: merging; 4: putting the repository back.
    pub step: u8,
    pub source: String,
    pub target: String,
    pub did_stash: bool,
    pub original: String,
    /// The commands left for putting the repository back.
    pub pending: Vec<MergeCmd>,
    /// Whether a failure to run the command in progress ends the merge.
    pub strict: bool,
    /// How the merge ends once the repository is back.
    pub end: MergeEnd,
}

/// `c` is a checkout of `branch` (strict or not).
pub open spec fn is_checkout(c: MergeCmd, branch: Seq<char>, strict: bool) -> bool {
    c matches MergeCmd::Checkout { branch: b, strict: s } && b@ == branch && s == strict
}

/// `cmds` puts the repository back: for each entry of `checkouts`, a checkout of
/// `original` (strict as the entry says), followed by popping the stash when one was
/// made.
pub open spec fn restore_cmds(checkouts: Seq<bool>, original: Seq<char>, did_stash: bool, cmds: Seq<MergeCmd>) -> bool
    decreases checkouts.len(),
{
    if checkouts.len() == 0 {
        cmds.len() == 0
    } else {
        let per = if did_stash { 2int } else { 1int };
        &&& cmds.len() >= per
        &&& is_checkout(cmds[0], original, checkouts[0])
        &&& (did_stash ==> cmds[1] is PopStash)
        &&& restore_cmds(checkouts.drop_first(), original, did_stash, cmds.subrange(per, cmds.len() as int))
    }
}

/// After `g` answered `r`, the commands `r` runs and those `g` keeps put the repository
/// back by `checkouts`; the merge then ends with `end`.
pub open spec fn restoring(g: MainRepoMerge, r: MergeAction, checkouts: Seq<bool>, end: MergeEnd) -> bool {
    &&& g.step == 4
    &&& g.end == end
    &&& g.strict == checkouts[0]
    &&& r matches MergeAction::Run(c) && restore_cmds(checkouts, g.original@, g.did_stash, seq![c] + g.pending@)
}

/// The merge is at a command of its sequence.
pub open spec fn merge_well_formed(f: MainRepoMerge) -> bool {
    f.step <= 4
}

/// Once the repository is being put back, `r` is the next command left (and `g` keeps
/// the rest), or the end when none is left.
pub open spec fn restore_next(f: MainRepoMerge, g: MainRepoMerge, r: MergeAction) -> bool {
    &&& g.step == 4
    &&& if f.pending@.len() == 0 {
        r == MergeAction::Finish(f.end)
    } else {
        &&& r == MergeAction::Run(f.pending@[0])
        &&& g.pending@ == f.pending@.drop_first()
        &&& g.end == f.end
        &&& g.strict == (f.pending@[0] matches MergeCmd::Checkout { strict, .. } && strict)
    }
}

impl MainRepoMerge {
    /// Begin merging `source` into `target` in the main repository: stash first.
    pub fn start(source: &str, target: &str) -> (r: (MainRepoMerge, MergeAction))
        ensures
            r.0.step == 0,
            r.0.source@ == source@,
            r.0.target@ == target@,
            r.1 == MergeAction::Run(MergeCmd::Stash),
    {
        (
            MainRepoMerge {
                step: 0,
                source: owned(source),
                target: owned(target),
                did_stash: false,
                original: String::new(),
                pending: Vec::new(),
                strict: false,
                end: MergeEnd::CheckoutFailed,
            },
            MergeAction::Run(MergeCmd::Stash),
        )
    }

    /// Put the repository back: check the original branch out (strict as
    /// `first_strict` says), then again when `again` names how strict, popping the
    /// stash after each checkout where one was made; then end with `end`.
    fn restore(&mut self, first_strict: bool, again: Option<bool>, end: MergeEnd) -> (r: MergeAction)
        ensures
            final(self).source == old(self).source,
            final(self).target == old(self).target,
            final(self).did_stash == old(self).did_stash,
            final(self).original == old(self).original,
            restoring(
                *final(self),
                r,
                match again {
                    None => seq![first_strict],
                    Some(s) => seq![first_strict, s],
                },
                end,
            ),
    {
        let first = MergeCmd::Checkout { branch: self.original.clone(), strict: first_strict };
        let mut rest: Vec<MergeCmd> = Vec::new();
        if self.did_stash {
            rest.push(MergeCmd::PopStash);
        }
        if let Some(s) = again {
            rest.push(MergeCmd::Checkout { branch: self.original.clone(), strict: s });
            if self.did_stash {
                rest.push(MergeCmd::PopStash);
            }
        }
        self.step = 4;
        self.strict = first_strict;
        self.pending = rest;
        self.end = end;
        let r = MergeAction::Run(first);
        proof {
            let all = seq![first] + self.pending@;
            let per: int = if self.did_stash { 2 } else { 1 };
            let tail = all.subrange(per, all.len() as int);
            match again {
                None => {
                    assert(tail.len() == 0);
                    assert(restore_cmds(seq![first_strict].drop_first(), self.original@, self.did_stash, tail));
                },
                Some(s) => {
                    let cs = seq![first_strict, s];
                    assert(cs.drop_first() =~= seq![s]);
                    assert(tail[0] == all[per]);
                    if self.did_stash {
                        assert(tail[1] == all[per + 1]);
                    }
                    let tail2 = tail.subrange(per, tail.len() as int);
                    assert(tail2.len() == 0);
                    assert(seq![s].drop_first() =~= Seq::<bool>::empty());
                    assert(restore_cmds(seq![s].drop_first(), self.original@, self.did_stash, tail2));
                    assert(restore_cmds(cs.drop_first(), self.original@, self.did_stash, tail));
                },
            }
        }
        r
    }

    /// Take how the last command went and say what to do next.
    pub fn advance(&mut self, event: MergeEvent) -> (r: MergeAction)
        requires
            merge_well_formed(*old(self)),
        ensures
            merge_well_formed(*final(self)),
            final(self).source == old(self).source,
            final(self).target == old(self).target,
            ({
                let f = *old(self);
                let g = *final(self);
                match event {
                    MergeEvent::Failed(e) => if f.step == 0 {
                        r matches MergeAction::Finish(MergeEnd::Error(m)) && m@ == "Failed to stash changes: "@ + e@
                    } else if f.step == 1 {
                        r matches MergeAction::Finish(MergeEnd::Error(m)) && m@ == "Failed to get current branch: "@
                            + e@
                    } else if f.step == 2 {
                        r matches MergeAction::Finish(MergeEnd::Error(m)) && m@ == "Failed to checkout branch: "@
                            + e@
                    } else if f.step == 3 {
                        g.original == f.original && g.did_stash == f.did_stash && restoring(
                            g,
                            r,
                            seq![true],
                            MergeEnd::Merged(MergeResult::Failed(e)),
                        )
                    } else if f.strict {
                        r matches MergeAction::Finish(MergeEnd::Error(m)) && m@ == "Failed to checkout branch: "@
                            + e@
                    } else {
                        restore_next(f, g, r)
                    },
                    MergeEvent::Ran { ok, stdout, stderr } => if f.step == 0 {
                        &&& g.step == 1
                        &&& g.did_stash == seq_contains(stdout@, "Saved working"@)
                        &&& r == MergeAction::Run(MergeCmd::CurrentBranch)
                    } else if f.step == 1 {
                        &&& g.step == 2
                        &&& g.did_stash == f.did_stash
                        &&& g.original@ == trim_spec(stdout@)
                        &&& r matches MergeAction::Run(c) && is_checkout(c, f.target@, true)
                    } else if f.step == 2 && !ok {
                        if f.did_stash {
                            &&& g.step == 4
                            &&& g.pending@.len() == 0
                            &&& g.end == MergeEnd::CheckoutFailed
                            &&& !g.strict
                            &&& r == MergeAction::Run(MergeCmd::PopStash)
                        } else {
                            r == MergeAction::Finish(MergeEnd::CheckoutFailed)
                        }
                    } else if f.step == 2 {
                        &&& g.step == 3
                        &&& g.original == f.original
                        &&& g.did_stash == f.did_stash
                        &&& r matches MergeAction::Run(MergeCmd::Merge { source, message })
                        &&& source@ == f.source@
                        &&& message@ == "Merge "@ + f.source@ + " into "@ + f.target@
                    } else if f.step == 3 {
                        let conflict = merge_conflict_spec(stdout@ + stderr@);
                        &&& g.original == f.original
                        &&& g.did_stash == f.did_stash
                        &&& ok ==> restoring(g, r, seq![false], MergeEnd::Merged(MergeResult::Success))
                        &&& !ok && conflict ==> r == MergeAction::Finish(MergeEnd::Merged(MergeResult::Conflict))
                        &&& !ok && !conflict ==> (g.end matches MergeEnd::Merged(MergeResult::Failed(m)) && m@
                            == git_failure_message_spec(stdout@, stderr@) && restoring(
                            g,
                            r,
                            seq![false, true],
                            g.end,
                        ))
                    } else {
                        restore_next(f, g, r)
                    },
                }
            }),
    {
        let step = self.step;
        match event {
            MergeEvent::Failed(e) => {
                if step == 0 {
                    return MergeAction::Finish(MergeEnd::Error(concat2("Failed to stash changes: ", e.as_str())));
                }
                if step == 1 {
                    return MergeAction::Finish(MergeEnd::Error(concat2("Failed to get current branch: ", e.as_str())));
                }
                if step == 2 {
                    return MergeAction::Finish(MergeEnd::Error(concat2("Failed to checkout branch: ", e.as_str())));
                }
                if step == 3 {
                    return self.restore(true, None, MergeEnd::Merged(MergeResult::Failed(e)));
                }
                if self.strict {
                    return MergeAction::Finish(MergeEnd::Error(concat2("Failed to checkout branch: ", e.as_str())));
                }
                self.next_restore()
            },
            MergeEvent::Ran { ok, stdout, stderr } => {
                if step == 0 {
                    self.did_stash = stash_created(stdout.as_str());
                    self.step = 1;
                    return MergeAction::Run(MergeCmd::CurrentBranch);
                }
                if step == 1 {
                    self.original = owned(trim(stdout.as_str()));
                    self.step = 2;
                    return MergeAction::Run(MergeCmd::Checkout { branch: self.target.clone(), strict: true });
                }
                if step == 2 {
                    if !ok {
                        if self.did_stash {
                            self.step = 4;
                            self.pending = Vec::new();
                            self.end = MergeEnd::CheckoutFailed;
                            self.strict = false;
                            return MergeAction::Run(MergeCmd::PopStash);
                        }
                        return MergeAction::Finish(MergeEnd::CheckoutFailed);
                    }
                    self.step = 3;
                    return MergeAction::Run(
                        MergeCmd::Merge {
                            source: self.source.clone(),
                            message: merge_commit_message(self.source.as_str(), self.target.as_str()),
                        },
                    );
                }
                if step == 3 {
                    let res = merge_result(ok, stdout.as_str(), stderr.as_str());
                    return match res {
                        MergeResult::Conflict => MergeAction::Finish(MergeEnd::Merged(MergeResult::Conflict)),
                        MergeResult::Success => self.restore(false, None, MergeEnd::Merged(MergeResult::Success)),
                        MergeResult::Failed(m) => self.restore(false, Some(true), MergeEnd::Merged(MergeResult::Failed(m))),
                    };
                }
                self.next_restore()
            },
        }
    }

    /// The next command that puts the repository back, or the end.
    fn next_restore(&mut self) -> (r: MergeAction)
        requires
            old(self).step == 4,
        ensures
            restore_next(*old(self), *final(self), r),
            final(self).source == old(self).source,
            final(self).target == old(self).target,
            final(self).original == old(self).original,
            final(self).did_stash == old(self).did_stash,
    {
        if self.pending.len() == 0 {
            let mut end = MergeEnd::CheckoutFailed;
            std::mem::swap(&mut end, &mut self.end);
            return MergeAction::Finish(end);
        }
        let first = self.pending.remove(0);
        self.strict = match &first {
            MergeCmd::Checkout { strict, .. } => *strict,
            _ => false,
        };
        MergeAction::Run(first)
    }
}

/// How `finish_merge_in_main_repo` leaves the data and what it answers, for `res`.
pub open spec fn main_repo_merge_finished(old_d: AppData, new_d: AppData, res: MergeResult, o: GitOutcome) -> bool {
    match res {
        MergeResult::Success => o matches GitOutcome::Mode(m) && is_success(
            m,
            "Merged "@ + old_d.git_op.branch_name@ + " into "@ + old_d.git_op.target_branch@,
        ) && flow_cleared(old_d, new_d),
        MergeResult::Conflict => o matches GitOutcome::ConflictTerminal { title, command } && title@
            == "Merge Conflict: "@ + old_d.git_op.branch_name@ + " -> "@ + old_d.git_op.target_branch@
            && command@ == "git status"@ && new_d == old_d,
        MergeResult::Failed(msg) => o matches GitOutcome::Mode(m) && is_error(m, "Merge failed: "@ + msg@)
            && flow_cleared(old_d, new_d),
    }
}

impl Actions {
    /// Finish a merge in the main repository as it ended.
    pub fn finish_main_repo_merge(app_data: &mut AppData, end: MergeEnd) -> (r: Result<GitOutcome, String>)
        ensures
            match end {
                MergeEnd::Error(e) => r matches Err(m) && m@ == e@ && *final(app_data) == *old(app_data),
                MergeEnd::CheckoutFailed => r matches Ok(GitOutcome::Mode(m)) && is_error(
                    m,
                    "Failed to checkout "@ + old(app_data).git_op.target_branch@,
                ) && flow_cleared(*old(app_data), *final(app_data)),
                MergeEnd::Merged(res) => r matches Ok(o) && main_repo_merge_finished(
                    *old(app_data),
                    *final(app_data),
                    res,
                    o,
                ),
            },
    {
        match end {
            MergeEnd::Error(e) => Err(e),
            MergeEnd::CheckoutFailed => Ok(GitOutcome::Mode(Actions::checkout_failed(app_data))),
            MergeEnd::Merged(res) => Ok(Actions::finish_merge_in_main_repo(app_data, res)),
        }
    }
}

} // verus!
