//! Renaming a root agent: its branch, its worktree, its session and its remote branch,
//! as a state machine. The caller runs each command and reports how it went; this
//! module decides what comes next and updates the stored agents.

use vstd::prelude::*;
use crate::actions::Actions;
use crate::agent::position;
use crate::data::AppData;
use crate::git_flows::{remote_rename_status_spec, renamed_records, resessioned, status_is};
use crate::text::{concat2, owned, trim, trim_spec};

verus! {

/// A root rename in progress; `step` is the command being run.
#[derive(Debug)]
pub struct RootRename {
    pub step: u8,
    pub agent_id: u128,
    pub old_name: String,
    pub new_name: String,
    pub worktree_path: String,
    pub repo_root: String,
    pub old_branch: String,
    pub new_branch: String,
    pub new_worktree: String,
    pub old_session: String,
    pub new_session: String,
    /// Where the worktree is once it was moved (or was left).
    pub effective_worktree: String,
    /// Whether the old branch exists on the remote.
    pub remote_exists: bool,
}

/// What the caller does next.
#[derive(Debug)]
pub enum RootRenameAction {
    /// Check whether `branch` exists on the remote, from `worktree_path`.
    CheckRemote { worktree_path: String, branch: String },
    /// Rename the local branch `old_branch` to `new_branch`, in `worktree_path`.
    RenameBranch { worktree_path: String, old_branch: String, new_branch: String },
    /// Move the worktree of repository `repo_root` from `from` to `to`.
    MoveWorktree { repo_root: String, from: String, to: String },
    /// Rename the multiplexer session `from` to `to`.
    RenameSession { from: String, to: String },
    /// Push `branch` from `worktree_path` and track it.
    Push { worktree_path: String, branch: String },
    /// The rename is over: how it went.
    Finish(Result<(), String>),
}

/// How the last command went.
#[derive(Debug)]
pub enum RenameEvent {
    /// It ran; whether it succeeded (for the remote check: whether the branch exists),
    /// and its error output.
    Ran { ok: bool, stderr: String },
    /// It could not be run.
    Failed(String),
}

/// The root rename is at a command of its sequence.
pub open spec fn rename_well_formed(f: RootRename) -> bool {
    &&& f.step <= 4
    &&& f.step == 4 ==> f.remote_exists
}

/// `f` is the rename of stored root `a` (id `id`) from `old_name` to `new_name`, on
/// branch `new_branch` in `new_worktree` with session `new_session`, about to check the
/// remote.
pub open spec fn rename_started(
    f: RootRename,
    d: AppData,
    id: u128,
    old_name: Seq<char>,
    new_name: Seq<char>,
    new_branch: Seq<char>,
    new_worktree: Seq<char>,
    new_session: Seq<char>,
) -> bool {
    let a = d.storage@[position(d.storage@, id)];
    &&& f.step == 0
    &&& f.agent_id == id
    &&& f.old_name@ == old_name
    &&& f.new_name@ == new_name
    &&& f.worktree_path@ == a.worktree_path
    &&& f.repo_root@ == match a.repo_root {
        Some(r) => r,
        None => a.worktree_path,
    }
    &&& f.old_branch@ == a.branch
    &&& f.new_branch@ == new_branch
    &&& f.new_worktree@ == new_worktree
    &&& f.old_session@ == a.mux_session
    &&& f.new_session@ == new_session
    &&& f.effective_worktree@ == a.worktree_path
    &&& !f.remote_exists
}

/// `f` and `g` hold the same rename, apart from the step, the worktree in effect and
/// whether the remote branch exists.
pub open spec fn same_rename(f: RootRename, g: RootRename) -> bool {
    &&& g.agent_id == f.agent_id
    &&& g.old_name == f.old_name
    &&& g.new_name == f.new_name
    &&& g.worktree_path == f.worktree_path
    &&& g.repo_root == f.repo_root
    &&& g.old_branch == f.old_branch
    &&& g.new_branch == f.new_branch
    &&& g.new_worktree == f.new_worktree
    &&& g.old_session == f.old_session
    &&& g.new_session == f.new_session
}

/// `d2` is `d` with the records of the renamed root updated for the worktree `w`.
pub open spec fn records_updated(f: RootRename, d: AppData, d2: AppData, w: Seq<char>) -> bool {
    &&& d2.storage@ == renamed_records(d.storage@, f.agent_id, f.new_name@, f.new_branch@, w)
    &&& d2 == (AppData { storage: d2.storage, ..d })
}

impl RootRename {
    /// Begin renaming stored root `agent_id` from `old_name` to `new_name`, with the
    /// branch, worktree and session names that the new name gives.
    pub fn start(
        app_data: &AppData,
        agent_id: u128,
        old_name: &str,
        new_name: &str,
        new_branch: &str,
        new_worktree: &str,
        new_session: &str,
    ) -> (r: Result<(RootRename, RootRenameAction), String>)
        ensures
            position(app_data.storage@, agent_id) == -1 ==> (r matches Err(e) && e@ == "Agent not found"@),
            position(app_data.storage@, agent_id) >= 0 ==> (r matches Ok((f, a)) && rename_started(
                f,
                *app_data,
                agent_id,
                old_name@,
                new_name@,
                new_branch@,
                new_worktree@,
                new_session@,
            ) && (a matches RootRenameAction::CheckRemote { worktree_path, branch } && worktree_path@
                == f.worktree_path@ && branch@ == f.old_branch@)),
    {
        proof {
            crate::agent::lemma_position(app_data.storage@, agent_id);
        }
        let i = match app_data.storage.find_index(agent_id) {
            Some(i) => i,
            None => {
                return Err(owned("Agent not found"));
            },
        };
        let a = &app_data.storage.agents[i];
        let repo_root = match &a.repo_root {
            Some(r) => r.clone(),
            None => a.worktree_path.clone(),
        };
        let f = RootRename {
            step: 0,
            agent_id,
            old_name: owned(old_name),
            new_name: owned(new_name),
            worktree_path: a.worktree_path.clone(),
            repo_root,
            old_branch: a.branch.clone(),
            new_branch: owned(new_branch),
            new_worktree: owned(new_worktree),
            old_session: a.mux_session.clone(),
            new_session: owned(new_session),
            effective_worktree: a.worktree_path.clone(),
            remote_exists: false,
        };
        let action = RootRenameAction::CheckRemote { worktree_path: a.worktree_path.clone(), branch: a.branch.clone() };
        Ok((f, action))
    }

    /// Update the records for the worktree in effect and ask to rename the session.
    fn rename_records(&mut self, app_data: &mut AppData) -> (r: RootRenameAction)
        ensures
            same_rename(*old(self), *final(self)),
            final(self).step == 3,
            final(self).effective_worktree == old(self).effective_worktree,
            final(self).remote_exists == old(self).remote_exists,
            records_updated(*old(self), *old(app_data), *final(app_data), old(self).effective_worktree@),
            r matches RootRenameAction::RenameSession { from, to } && from@ == old(self).old_session@ && to@
                == old(self).new_session@,
    {
        Actions::update_agent_records(
            app_data,
            self.agent_id,
            self.new_name.as_str(),
            self.new_branch.as_str(),
            self.effective_worktree.as_str(),
        );
        self.step = 3;
        RootRenameAction::RenameSession { from: self.old_session.clone(), to: self.new_session.clone() }
    }

    /// Report the end of the rename in the status line and finish.
    fn finish_remote(&self, app_data: &mut AppData, push_succeeded: bool) -> (r: RootRenameAction)
        ensures
            status_is(
                *final(app_data),
                remote_rename_status_spec(
                    self.old_name@,
                    self.new_name@,
                    self.old_branch@,
                    self.remote_exists,
                    push_succeeded,
                ),
            ),
            *final(app_data) == (AppData {
                ui: crate::data::UiState { status: final(app_data).ui.status, ..old(app_data).ui },
                ..*old(app_data)
            }),
            r == RootRenameAction::Finish(Ok(())),
    {
        Actions::handle_remote_branch_rename(
            app_data,
            self.old_name.as_str(),
            self.new_name.as_str(),
            self.old_branch.as_str(),
            self.remote_exists,
            push_succeeded,
        );
        RootRenameAction::Finish(Ok(()))
    }

    /// Take how the last command went and say what to do next. A command that could
    /// not be run ends the rename with its error; a failed branch rename or worktree
    /// move ends it with git's error; a failed session rename is passed over.
    pub fn advance(&mut self, app_data: &mut AppData, event: RenameEvent) -> (r: RootRenameAction)
        requires
            rename_well_formed(*old(self)),
        ensures
            same_rename(*old(self), *final(self)),
            rename_well_formed(*final(self)),
            ({
                let f = *old(self);
                let d = *old(app_data);
                let n = *final(app_data);
                match event {
                    RenameEvent::Failed(e) => r == RootRenameAction::Finish(Err(e)) && n == d,
                    RenameEvent::Ran { ok, stderr } => if f.step == 0 {
                        &&& final(self).remote_exists == ok
                        &&& final(self).step == 1
                        &&& n == d
                        &&& r matches RootRenameAction::RenameBranch { worktree_path, old_branch, new_branch }
                        &&& worktree_path@ == f.worktree_path@
                        &&& old_branch@ == f.old_branch@
                        &&& new_branch@ == f.new_branch@
                    } else if f.step == 1 && !ok {
                        n == d && (r matches RootRenameAction::Finish(Err(e)) && e@ == "Failed to rename branch: "@
                            + trim_spec(stderr@))
                    } else if f.step == 1 && f.worktree_path@ != f.new_worktree@ {
                        &&& final(self).step == 2
                        &&& n == d
                        &&& r matches RootRenameAction::MoveWorktree { repo_root, from, to }
                        &&& repo_root@ == f.repo_root@
                        &&& from@ == f.worktree_path@
                        &&& to@ == f.new_worktree@
                    } else if f.step == 1 || (f.step == 2 && ok) {
                        let w = if f.step == 1 { f.worktree_path@ } else { f.new_worktree@ };
                        &&& final(self).step == 3
                        &&& final(self).effective_worktree@ == w
                        &&& records_updated(f, d, n, w)
                        &&& r matches RootRenameAction::RenameSession { from, to }
                        &&& from@ == f.old_session@
                        &&& to@ == f.new_session@
                    } else if f.step == 2 {
                        n == d && (r matches RootRenameAction::Finish(Err(e)) && e@ == "Failed to move worktree: "@
                            + trim_spec(stderr@))
                    } else if f.step == 3 {
                        let s1 = if ok {
                            resessioned(d.storage@, f.agent_id, f.new_session@)
                        } else {
                            d.storage@
                        };
                        &&& n.storage@ == s1
                        &&& if f.remote_exists {
                            &&& final(self).step == 4
                            &&& n == (AppData { storage: n.storage, ..d })
                            &&& r matches RootRenameAction::Push { worktree_path, branch }
                            &&& worktree_path@ == f.effective_worktree@
                            &&& branch@ == f.new_branch@
                        } else {
                            &&& r == RootRenameAction::Finish(Ok(()))
                            &&& status_is(n, remote_rename_status_spec(f.old_name@, f.new_name@, f.old_branch@, false, false))
                            &&& n == (AppData { storage: n.storage, ui: crate::data::UiState { status: n.ui.status, ..d.ui }, ..d })
                        }
                    } else {
                        &&& r == RootRenameAction::Finish(Ok(()))
                        &&& status_is(n, remote_rename_status_spec(f.old_name@, f.new_name@, f.old_branch@, f.remote_exists, ok))
                        &&& n == (AppData { ui: crate::data::UiState { status: n.ui.status, ..d.ui }, ..d })
                    },
                }
            }),
    {
        let (ok, stderr) = match event {
            RenameEvent::Failed(e) => {
                return RootRenameAction::Finish(Err(e));
            },
            RenameEvent::Ran { ok, stderr } => (ok, stderr),
        };
        if self.step == 0 {
            self.remote_exists = ok;
            self.step = 1;
            return RootRenameAction::RenameBranch {
                worktree_path: self.worktree_path.clone(),
                old_branch: self.old_branch.clone(),
                new_branch: self.new_branch.clone(),
            };
        }
        if self.step == 1 {
            if !ok {
                return RootRenameAction::Finish(Err(concat2("Failed to rename branch: ", trim(stderr.as_str()))));
            }
            if self.worktree_path != self.new_worktree {
                self.step = 2;
                return RootRenameAction::MoveWorktree {
                    repo_root: self.repo_root.clone(),
                    from: self.worktree_path.clone(),
                    to: self.new_worktree.clone(),
                };
            }
            self.effective_worktree = self.worktree_path.clone();
            return self.rename_records(app_data);
        }
        if self.step == 2 {
            if !ok {
                return RootRenameAction::Finish(Err(concat2("Failed to move worktree: ", trim(stderr.as_str()))));
            }
            self.effective_worktree = self.new_worktree.clone();
            return self.rename_records(app_data);
        }
        if self.step == 3 {
            if ok {
                Actions::rename_mux_session_records(app_data, self.agent_id, self.new_session.as_str());
            }
            if self.remote_exists {
                self.step = 4;
                return RootRenameAction::Push {
                    worktree_path: self.effective_worktree.clone(),
                    branch: self.new_branch.clone(),
                };
            }
            return self.finish_remote(app_data, false);
        }
        self.finish_remote(app_data, ok)
    }
}

} // verus!
