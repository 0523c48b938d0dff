//! Git flows: push, pull request, rename, rebase and merge. Running git is left to
//! the caller; this module decides what to run and what its output means.

use vstd::prelude::*;
use crate::actions::Actions;
use crate::text::{
    after_first, after_first_spec, after_last, after_last_spec, concat2, concat3, concat4,
    contains, first_word, first_word_spec, lines_spec, owned, parse_u64, parse_unsigned,
    seq_contains, split_lines, strip_prefix, strip_prefix_spec, trim, trim_end_char,
    trim_end_char_spec, trim_spec, views,
};

verus! {

/// Git's output tells of a rebase that stopped on conflicts.
pub open spec fn rebase_conflict_spec(out: Seq<char>) -> bool {
    seq_contains(out, "CONFLICT"@) || seq_contains(out, "could not apply"@)
}

/// Git's output tells of a merge that stopped on conflicts.
pub open spec fn merge_conflict_spec(out: Seq<char>) -> bool {
    seq_contains(out, "CONFLICT"@) || seq_contains(out, "Automatic merge failed"@)
}

/// Whether the combined output of a failed rebase reports conflicts.
pub fn output_indicates_rebase_conflict(combined_output: &str) -> (r: bool)
    ensures
        r == rebase_conflict_spec(combined_output@),
{
    contains(combined_output, "CONFLICT") || contains(combined_output, "could not apply")
}

/// Whether the combined output of a failed merge reports conflicts.
pub fn output_indicates_merge_conflict(combined_output: &str) -> (r: bool)
    ensures
        r == merge_conflict_spec(combined_output@),
{
    let has_conflict_marker = contains(combined_output, "CONFLICT");
    let has_automatic_failure = contains(combined_output, "Automatic merge failed");
    has_conflict_marker || has_automatic_failure
}

/// The message shown for a failed git command: its trimmed error output, else its
/// trimmed standard output, else a fixed text.
pub open spec fn git_failure_message_spec(stdout: Seq<char>, stderr: Seq<char>) -> Seq<char> {
    if trim_spec(stderr).len() > 0 {
        trim_spec(stderr)
    } else if trim_spec(stdout).len() > 0 {
        trim_spec(stdout)
    } else {
        "Unknown error"@
    }
}

/// The message for a failed git command.
pub fn git_failure_message(stdout: &str, stderr: &str) -> (r: String)
    ensures
        r@ == git_failure_message_spec(stdout@, stderr@),
{
    let stderr = trim(stderr);
    if stderr.unicode_len() > 0 {
        return owned(stderr);
    }
    let stdout = trim(stdout);
    if stdout.unicode_len() > 0 {
        return owned(stdout);
    }
    owned("Unknown error")
}

/// `branch.<branch>.<field>`.
pub open spec fn branch_config_key_spec(branch: Seq<char>, field: Seq<char>) -> Seq<char> {
    "branch."@ + branch + "."@ + field
}

/// The git config key of a branch setting.
pub fn branch_config_key(branch: &str, field: &str) -> (r: String)
    ensures
        r@ == branch_config_key_spec(branch@, field@),
{
    concat4("branch.", branch, ".", field)
}

/// The remote and merge ref configured as a branch's upstream.
#[derive(Debug)]
pub struct ConfiguredUpstream {
    pub remote: String,
    pub merge_ref: String,
}

impl ConfiguredUpstream {
    /// The refspec that pushes `branch_name` to the configured merge ref.
    pub fn refspec(&self, branch_name: &str) -> (r: String)
        ensures
            r@ == branch_name@ + ":"@ + self.merge_ref@,
    {
        concat3(branch_name, ":", self.merge_ref.as_str())
    }
}

/// The upstream of `branch_name` from its configured remote and merge ref: both or
/// neither must be set.
pub fn configured_upstream(
    branch_name: &str,
    remote: Option<String>,
    merge_ref: Option<String>,
) -> (r: Result<Option<ConfiguredUpstream>, String>)
    ensures
        match (remote, merge_ref) {
            (Some(rm), Some(mr)) => r matches Ok(Some(u)) && u.remote == rm && u.merge_ref == mr,
            (None, None) => r matches Ok(None),
            _ => r matches Err(e) && e@ == "Incomplete upstream config for branch '"@
                + branch_name@ + "'"@,
        },
{
    match (remote, merge_ref) {
        (Some(remote), Some(merge_ref)) => Ok(Some(ConfiguredUpstream { remote, merge_ref })),
        (None, None) => Ok(None),
        _ => Err(concat3("Incomplete upstream config for branch '", branch_name, "'")),
    }
}

/// What one `git config --get <key>` run says: exit status 1 means unset; any other
/// failure is an error; otherwise the output without trailing line breaks, which must
/// not be empty.
pub open spec fn git_config_get_spec(
    key: Seq<char>,
    exit_code: Option<i32>,
    success: bool,
    stdout: Seq<char>,
    stderr: Seq<char>,
) -> Result<Option<Seq<char>>, Seq<char>> {
    let value = trim_end_char_spec(trim_end_char_spec(stdout, '\n'), '\r');
    if exit_code == Some(1i32) {
        Ok(None)
    } else if !success {
        Err("Failed to read git config key '"@ + key + "': "@ + trim_spec(stderr))
    } else if value.len() == 0 {
        Err("Git config key '"@ + key + "' is empty"@)
    } else {
        Ok(Some(value))
    }
}

/// Interpret the result of `git config --get <key>`: its exit code (`None` when it
/// was ended by a signal), whether it succeeded, and its output.
pub fn git_config_get(
    key: &str,
    exit_code: Option<i32>,
    success: bool,
    stdout: &str,
    stderr: &str,
) -> (r: Result<Option<String>, String>)
    ensures
        match (r, git_config_get_spec(key@, exit_code, success, stdout@, stderr@)) {
            (Ok(Some(v)), Ok(Some(w))) => v@ == w,
            (Ok(None), Ok(None)) => true,
            (Err(e), Err(f)) => e@ == f,
            _ => false,
        },
{
    if exit_code == Some(1i32) {
        return Ok(None);
    }
    if !success {
        let msg = concat4("Failed to read git config key '", key, "': ", trim(stderr));
        return Err(msg);
    }
    let value = trim_end_char(trim_end_char(stdout, '\n'), '\r');
    if value.unicode_len() == 0 {
        return Err(concat3("Git config key '", key, "' is empty"));
    }
    Ok(Some(owned(value)))
}

/// The arguments of the push command: to the configured upstream when there is one,
/// else `push -u origin <branch>`.
pub open spec fn push_args_spec(branch: Seq<char>, upstream: Option<(Seq<char>, Seq<char>)>) -> Seq<
    Seq<char>,
> {
    match upstream {
        Some((remote, merge_ref)) => seq!["push"@, remote, branch + ":"@ + merge_ref],
        None => seq!["push"@, "-u"@, "origin"@, branch],
    }
}

/// The arguments of `git push` for `branch_name`.
pub fn command_args(branch_name: &str, upstream: Option<ConfiguredUpstream>) -> (r: Vec<String>)
    ensures
        crate::text::string_views(r@) == push_args_spec(
            branch_name@,
            match upstream {
                Some(u) => Some((u.remote@, u.merge_ref@)),
                None => None,
            },
        ),
{
    let mut v: Vec<String> = Vec::new();
    match upstream {
        Some(u) => {
            let refspec = u.refspec(branch_name);
            v.push(owned("push"));
            v.push(u.remote);
            v.push(refspec);
        },
        None => {
            v.push(owned("push"));
            v.push(owned("-u"));
            v.push(owned("origin"));
            v.push(owned(branch_name));
        },
    }
    proof {
        assert(crate::text::string_views(v@) =~= push_args_spec(
            branch_name@,
            match upstream {
                Some(u) => Some((u.remote@, u.merge_ref@)),
                None => None,
            },
        ));
    }
    v
}


/// Scan `git worktree list --porcelain` lines from `i` on, with `cur` the path of the
/// worktree whose entry is being read: the path of the worktree that has `branch`
/// checked out.
pub open spec fn worktree_scan(
    lines: Seq<Seq<char>>,
    i: int,
    cur: Option<Seq<char>>,
    branch: Seq<char>,
) -> Option<Seq<char>>
    decreases lines.len() - i,
{
    if i < 0 || i >= lines.len() {
        None
    } else {
        match strip_prefix_spec(lines[i], "worktree "@) {
            Some(path) => worktree_scan(lines, i + 1, Some(path), branch),
            None => match strip_prefix_spec(lines[i], "branch refs/heads/"@) {
                Some(b) => if b == branch {
                    cur
                } else {
                    worktree_scan(lines, i + 1, cur, branch)
                },
                None => worktree_scan(lines, i + 1, cur, branch),
            },
        }
    }
}

impl Actions {
    /// The path of the worktree that has `branch` checked out, read from the porcelain
    /// listing of worktrees (`git worktree list --porcelain`).
    pub fn find_worktree_for_branch(porcelain: &str, branch: &str) -> (r: Option<String>)
        ensures
            r.is_some() == worktree_scan(lines_spec(porcelain@), 0, None, branch@).is_some(),
            r.is_some() ==> r.unwrap()@ == worktree_scan(lines_spec(porcelain@), 0, None, branch@).unwrap(),
    {
        let lines = split_lines(porcelain);
        let ghost ls = lines_spec(porcelain@);
        let mut cur: Option<&str> = None;
        let mut i: usize = 0;
        while i < lines.len()
            invariant
                views(lines@) == ls,
                ls == lines_spec(porcelain@),
                i <= lines@.len(),
                worktree_scan(ls, 0, None, branch@) == worktree_scan(
                    ls,
                    i as int,
                    match cur {
                        Some(c) => Some(c@),
                        None => None,
                    },
                    branch@,
                ),
            decreases lines@.len() - i,
        {
            let line = lines[i];
            proof {
                assert(ls[i as int] == line@);
            }
            match strip_prefix(line, "worktree ") {
                Some(path) => {
                    cur = Some(path);
                },
                None => {
                    match strip_prefix(line, "branch refs/heads/") {
                        Some(b) => {
                            if owned(b) == owned(branch) {
                                return match cur {
                                    Some(c) => Some(owned(c)),
                                    None => None,
                                };
                            }
                        },
                        None => {},
                    }
                },
            }
            i = i + 1;
        }
        None
    }
}

/// Scan reflog lines from `i` on for the first `Created from <base>` entry; a marker
/// with no word after it means `main`.
pub open spec fn reflog_scan(lines: Seq<Seq<char>>, i: int) -> Option<Seq<char>>
    decreases lines.len() - i,
{
    if i < 0 || i >= lines.len() {
        None
    } else {
        match after_first_spec(lines[i], "Created from "@) {
            Some(rest) => match first_word_spec(rest) {
                Some(w) => Some(w),
                None => Some("main"@),
            },
            None => reflog_scan(lines, i + 1),
        }
    }
}

/// The branch that the reflog of a branch says it was created from.
pub fn base_branch_from_reflog(reflog: &str) -> (r: Option<String>)
    ensures
        r.is_some() == reflog_scan(lines_spec(reflog@), 0).is_some(),
        r.is_some() ==> r.unwrap()@ == reflog_scan(lines_spec(reflog@), 0).unwrap(),
{
    let lines = split_lines(reflog);
    let ghost ls = lines_spec(reflog@);
    let mut i: usize = 0;
    while i < lines.len()
        invariant
            views(lines@) == ls,
            ls == lines_spec(reflog@),
            i <= lines@.len(),
            reflog_scan(ls, 0) == reflog_scan(ls, i as int),
        decreases lines@.len() - i,
    {
        let line = lines[i];
        proof {
            assert(ls[i as int] == line@);
        }
        match after_first(line, "Created from ") {
            Some(rest) => {
                return match first_word(rest) {
                    Some(w) => Some(owned(w)),
                    None => Some(owned("main")),
                };
            },
            None => {},
        }
        i = i + 1;
    }
    None
}

/// The default branch named by `symbolic-ref refs/remotes/origin/HEAD` output: the
/// part of its trimmed first line after the last `/`, when not empty.
pub open spec fn symbolic_ref_base_spec(out: Seq<char>) -> Option<Seq<char>> {
    let ls = lines_spec(out);
    if ls.len() == 0 {
        None
    } else {
        match after_last_spec(trim_spec(ls[0]), '/') {
            Some(b) => if b.len() > 0 {
                Some(b)
            } else {
                None
            },
            None => None,
        }
    }
}

/// The remote default branch named by `symbolic-ref` output.
pub fn base_branch_from_symbolic_ref(out: &str) -> (r: Option<String>)
    ensures
        r.is_some() == symbolic_ref_base_spec(out@).is_some(),
        r.is_some() ==> r.unwrap()@ == symbolic_ref_base_spec(out@).unwrap(),
{
    let lines = split_lines(out);
    if lines.len() == 0 {
        return None;
    }
    let first = lines[0];
    match after_last(trim(first), '/') {
        Some(b) => {
            if b.unicode_len() > 0 {
                Some(owned(b))
            } else {
                None
            }
        },
        None => None,
    }
}

/// The ref that local commits are compared with: the upstream when one is configured,
/// else the branch of the same name on `origin`.
pub open spec fn unpushed_compare_ref_spec(branch: Seq<char>, has_upstream: bool) -> Seq<char> {
    if has_upstream {
        branch + "@{upstream}"@
    } else {
        "origin/"@ + branch
    }
}

/// The ref that local commits of `branch_name` are compared with.
pub fn unpushed_compare_ref(branch_name: &str, has_upstream: bool) -> (r: String)
    ensures
        r@ == unpushed_compare_ref_spec(branch_name@, has_upstream),
{
    if has_upstream {
        concat2(branch_name, "@{upstream}")
    } else {
        concat2("origin/", branch_name)
    }
}

/// `rev-list --count` output names at least one commit; unreadable output counts as
/// none.
pub open spec fn count_indicates_unpushed_spec(out: Seq<char>) -> bool {
    match parse_unsigned(trim_spec(out)) {
        Some(n) => n <= u32::MAX && n > 0,
        None => false,
    }
}

/// Whether `rev-list --count` output reports unpushed commits.
pub fn count_indicates_unpushed(out: &str) -> (r: bool)
    ensures
        r == count_indicates_unpushed_spec(out@),
{
    match parse_u64(trim(out)) {
        Some(n) => n <= 0xffff_ffffu64 && n > 0,
        None => false,
    }
}

impl Actions {
    /// Whether a branch has commits that its remote counterpart lacks, given whether
    /// the compared ref (see `unpushed_compare_ref`) resolved and the output of
    /// `rev-list --count <ref>..<branch>`: a missing remote ref means every commit is
    /// unpushed.
    pub fn has_unpushed_commits(remote_ref_exists: bool, count_output: &str) -> (r: bool)
        ensures
            r == (!remote_ref_exists || count_indicates_unpushed_spec(count_output@)),
    {
        if !remote_ref_exists {
            return true;
        }
        count_indicates_unpushed(count_output)
    }
}

/// `git stash push` output tells that a stash entry was made (there were changes).
pub fn stash_created(stash_output: &str) -> (r: bool)
    ensures
        r == seq_contains(stash_output@, "Saved working"@),
{
    contains(stash_output, "Saved working")
}

/// The default branch names tried, in order, when nothing else names the base.
pub open spec fn default_candidates() -> Seq<Seq<char>> {
    seq!["main"@, "master"@, "develop"@]
}

/// The first candidate whose flag among the first `k` is set, from index `i` on.
pub open spec fn first_existing(exists: Seq<bool>, i: int) -> Option<int>
    decreases 3 - i,
{
    if i < 0 || i >= 3 {
        None
    } else if i < exists.len() && exists[i] {
        Some(i)
    } else {
        first_existing(exists, i + 1)
    }
}

/// The base branch that a branch was created from: what its reflog says, else the
/// remote's default branch, else the first of `main`, `master`, `develop` that exists
/// locally or on the remote, else `main`.
pub open spec fn detect_base_spec(reflog: Option<Seq<char>>, origin_head: Option<Seq<char>>, exists: Seq<bool>) -> Seq<char> {
    let from_reflog = match reflog {
        Some(out) => reflog_scan(lines_spec(out), 0),
        None => None,
    };
    let from_head = match origin_head {
        Some(out) => symbolic_ref_base_spec(out),
        None => None,
    };
    match from_reflog {
        Some(b) => b,
        None => match from_head {
            Some(b) => b,
            None => match first_existing(exists, 0) {
                Some(i) => default_candidates()[i],
                None => "main"@,
            },
        },
    }
}

/// The default branch names tried when nothing else names the base.
pub fn default_branch_candidates() -> (r: Vec<String>)
    ensures
        r@.len() == 3,
        views_of(r@) == default_candidates(),
{
    let mut v: Vec<String> = Vec::new();
    v.push(owned("main"));
    v.push(owned("master"));
    v.push(owned("develop"));
    proof {
        assert(views_of(v@) =~= default_candidates());
    }
    v
}

/// The views of owned strings.
pub open spec fn views_of(v: Seq<String>) -> Seq<Seq<char>> {
    v.map_values(|s: String| s@)
}

impl Actions {
    /// The base branch that a branch was created from, given the output of its
    /// reflog and of `symbolic-ref refs/remotes/origin/HEAD` (each `None` when the
    /// command failed) and, for each default candidate in order, whether it exists.
    pub fn detect_base_branch(reflog: Option<&str>, origin_head: Option<&str>, default_exists: &Vec<bool>) -> (r: String)
        ensures
            r@ == detect_base_spec(
                match reflog {
                    Some(o) => Some(o@),
                    None => None,
                },
                match origin_head {
                    Some(o) => Some(o@),
                    None => None,
                },
                default_exists@,
            ),
    {
        let from_reflog = match reflog {
            Some(out) => base_branch_from_reflog(out),
            None => None,
        };
        if let Some(b) = from_reflog {
            return b;
        }
        let from_head = match origin_head {
            Some(out) => base_branch_from_symbolic_ref(out),
            None => None,
        };
        if let Some(b) = from_head {
            return b;
        }
        let candidates = default_branch_candidates();
        let ghost rv = match reflog {
            Some(o) => Some(o@),
            None => None,
        };
        let ghost hv = match origin_head {
            Some(o) => Some(o@),
            None => None,
        };
        assert(detect_base_spec(rv, hv, default_exists@) == match first_existing(default_exists@, 0) {
            Some(j) => default_candidates()[j],
            None => "main"@,
        });
        let mut i: usize = 0;
        while i < 3
            invariant
                detect_base_spec(rv, hv, default_exists@) == match first_existing(default_exists@, 0) {
                    Some(j) => default_candidates()[j],
                    None => "main"@,
                },
                rv == match reflog {
                    Some(o) => Some(o@),
                    None => None,
                },
                hv == match origin_head {
                    Some(o) => Some(o@),
                    None => None,
                },
                i <= 3,
                candidates@.len() == 3,
                views_of(candidates@) == default_candidates(),
                first_existing(default_exists@, i as int) == first_existing(default_exists@, 0),
            decreases 3 - i,
        {
            if i < default_exists.len() && default_exists[i] {
                assert(views_of(candidates@)[i as int] == candidates@[i as int]@);
                return candidates[i].clone();
            }
            i = i + 1;
        }
        owned("main")
    }
}

} // verus!
