//! The preview, diff and commit panes: what to show and when a change is unseen.

use vstd::prelude::*;
use std::collections::hash_map::DefaultHasher;
use std::hash::Hasher;
use vstd::std_specs::hash::DefaultHasherAdditionalSpecFns;
use vstd::utf8::encode_utf8;
use crate::agent::{AgentView, Storage, position, root_position, lemma_position, lemma_climb_stored, climb};
use crate::actions::{Actions, selected_index, selected_view};
use crate::data::{App, AppData, UiState};
use crate::git_flows::status_is;
use crate::mux::{window_target, window_target_spec};
use crate::state::Tab;
use crate::text::{
    concat2, concat3, concat4, decimal, decimal_string, join_lines, join_lines_spec, lines_spec,
    owned, split_char, split_from, split_lines, splitn_char, splitn_from, string_views,
    trim, trim_end, trim_end_spec, trim_spec, trim_start_breaks, trim_start_breaks_spec, views,
};

verus! {

/// The multiplexer target that shows the agent at index `i`: a window of its root's
/// session, or its own session when it has no window.
pub open spec fn preview_target_spec(s: Seq<AgentView>, i: int) -> Seq<char> {
    match s[i].window_index {
        Some(w) => {
            let r = if root_position(s, s[i].id) >= 0 {
                root_position(s, s[i].id)
            } else {
                i
            };
            window_target_spec(s[r].mux_session, w)
        },
        None => s[i].mux_session,
    }
}

/// The target that shows the agent at index `index`.
pub fn preview_target(storage: &Storage, index: usize) -> (r: String)
    requires
        index < storage@.len(),
    ensures
        r@ == preview_target_spec(storage@, index as int),
{
    let a = &storage.agents[index];
    match a.window_index {
        Some(w) => {
            proof {
                lemma_position(storage@, a.id);
                if position(storage@, a.id) >= 0 {
                    lemma_climb_stored(storage@, a.id, storage@.len());
                    lemma_position(storage@, climb(storage@, a.id, storage@.len()));
                }
            }
            let r = match storage.root_ancestor_index(a.id) {
                Some(r) => r,
                None => index,
            };
            window_target(storage.agents[r].mux_session.as_str(), w)
        },
        None => a.mux_session.clone(),
    }
}

/// The preview scroll after a refresh. When the refresh switched from a short tail to
/// the full history, the distance from the bottom is kept (as far as the new content
/// allows); when following, the view sticks to the bottom.
pub open spec fn refreshed_scroll_spec(
    follow: bool,
    switching: bool,
    scroll: int,
    old_lines: int,
    old_scroll: int,
    new_lines: int,
    visible: int,
) -> int {
    let old_max = if old_lines > visible { old_lines - visible } else { 0 };
    let clamped = if old_scroll < old_max { old_scroll } else { old_max };
    let distance = old_max - clamped;
    let new_max = if new_lines > visible { new_lines - visible } else { 0 };
    let after_switch = if switching {
        if new_max > distance { new_max - distance } else { 0 }
    } else {
        scroll
    };
    if follow {
        usize::MAX as int
    } else {
        after_switch
    }
}

/// Apply the scroll rules after the preview content was refreshed: `old_line_count`
/// and `old_scroll` are from before, `new_line_count` after.
pub fn finish_preview_refresh(
    ui: &mut UiState,
    old_line_count: usize,
    old_scroll: usize,
    new_line_count: usize,
)
    ensures
        final(ui).preview_scroll as int == refreshed_scroll_spec(
            old(ui).preview_follow,
            !old(ui).preview_follow && !old(ui).preview_using_full_history,
            old(ui).preview_scroll as int,
            old_line_count as int,
            old_scroll as int,
            new_line_count as int,
            match old(ui).preview_dimensions {
                Some((_, h)) => h as int,
                None => 20,
            },
        ),
        final(ui).preview_using_full_history == !old(ui).preview_follow,
        *final(ui) == (UiState {
            preview_scroll: final(ui).preview_scroll,
            preview_using_full_history: final(ui).preview_using_full_history,
            ..*old(ui)
        }),
{
    let visible: usize = match ui.preview_dimensions {
        Some((_, h)) => h as usize,
        None => 20,
    };
    let wants_full_history = !ui.preview_follow;
    let switching = wants_full_history && !ui.preview_using_full_history;
    if switching {
        let old_max = old_line_count.saturating_sub(visible);
        let clamped = if old_scroll < old_max { old_scroll } else { old_max };
        let distance = old_max - clamped;
        let new_max = new_line_count.saturating_sub(visible);
        ui.preview_scroll = new_max.saturating_sub(distance);
    }
    if ui.preview_follow {
        ui.preview_scroll = usize::MAX;
    }
    ui.preview_using_full_history = wants_full_history;
}

/// Show `message` in place of pane output; no cursor or pane size is known then.
pub fn set_preview_message(ui: &mut UiState, message: &str)
    ensures
        final(ui).preview_content@ == message@,
        *final(ui) == (UiState {
            preview_content: final(ui).preview_content,
            preview_cursor_position: None,
            preview_pane_size: None,
            ..*old(ui)
        }),
{
    ui.preview_content = owned(message);
    ui.preview_cursor_position = None;
    ui.preview_pane_size = None;
}

/// The hash last seen for `agent_id` in a table of (agent, hash), 0 when none.
pub open spec fn last_seen_spec(table: Seq<(u128, u64)>, agent_id: u128) -> u64
    decreases table.len(),
{
    if table.len() == 0 {
        0
    } else if table[0].0 == agent_id {
        table[0].1
    } else {
        last_seen_spec(table.drop_first(), agent_id)
    }
}

/// The hash last seen for `agent_id`.
pub fn last_seen(table: &Vec<(u128, u64)>, agent_id: u128) -> (r: u64)
    ensures
        r == last_seen_spec(table@, agent_id),
{
    let mut i: usize = 0;
    assert(table@.skip(0) =~= table@);
    while i < table.len()
        invariant
            i <= table@.len(),
            last_seen_spec(table@, agent_id) == last_seen_spec(table@.skip(i as int), agent_id),
        decreases table@.len() - i,
    {
        proof {
            assert(table@.skip(i as int).drop_first() =~= table@.skip(i + 1));
        }
        if table[i].0 == agent_id {
            return table[i].1;
        }
        i = i + 1;
    }
    0
}

/// Entries for agents other than `agent_id`.
pub open spec fn other_agent(agent_id: u128) -> spec_fn((u128, u64)) -> bool {
    |e: (u128, u64)| e.0 != agent_id
}

/// The table with the hash last seen for `agent_id` set to `hash`.
pub open spec fn set_seen_spec(table: Seq<(u128, u64)>, agent_id: u128, hash: u64) -> Seq<(u128, u64)> {
    seq![(agent_id, hash)] + table.filter(other_agent(agent_id))
}

/// Record `hash` as the last one seen for `agent_id`.
pub fn set_last_seen(table: &mut Vec<(u128, u64)>, agent_id: u128, hash: u64)
    ensures
        final(table)@ == set_seen_spec(old(table)@, agent_id, hash),
{
    let ghost t = table@;
    let ghost pred = other_agent(agent_id);
    let mut out: Vec<(u128, u64)> = Vec::new();
    out.push((agent_id, hash));
    let mut i: usize = 0;
    while i < table.len()
        invariant
            t == table@,
            pred == other_agent(agent_id),
            i <= t.len(),
            out@ == seq![(agent_id, hash)] + t.take(i as int).filter(pred),
        decreases t.len() - i,
    {
        proof {
            t.take(i as int).lemma_filter_push(t[i as int], pred);
            assert(t.take(i + 1) =~= t.take(i as int).push(t[i as int]));
        }
        if table[i].0 != agent_id {
            out.push(table[i]);
            proof {
                assert(out@ =~= seq![(agent_id, hash)] + t.take(i + 1).filter(pred));
            }
        }
        i = i + 1;
    }
    proof {
        assert(t.take(t.len() as int) =~= t);
        assert(out@ == set_seen_spec(t, agent_id, hash));
    }
    *table = out;
}

pub proof fn lemma_set_seen_then_read(table: Seq<(u128, u64)>, agent_id: u128, hash: u64)
    ensures
        last_seen_spec(set_seen_spec(table, agent_id, hash), agent_id) == hash,
{
}

/// A change with hash `hash` is unseen for an agent whose last seen hash is `seen`:
/// it is a real change (not 0) that differs from the last one seen.
pub open spec fn unseen_spec(hash: u64, seen: u64) -> bool {
    hash != 0 && hash != seen
}

/// What the program observed of the selected agent's worktree for the diff digest.
#[derive(Debug)]
pub enum DigestObservation {
    /// The worktree does not exist.
    NoWorktree,
    /// The change marker of the worktree.
    Hash(u64),
    /// Opening the repository or reading the marker failed with this error.
    Failed(String),
}

/// The ui of `new_d` differs from that of `old_d` at most in the diff digest, and
/// nothing else of the data changed.
pub open spec fn only_diff_digest_changed(old_d: AppData, new_d: AppData) -> bool {
    new_d == (AppData {
        ui: UiState {
            diff_hash: new_d.ui.diff_hash,
            diff_has_unseen_changes: new_d.ui.diff_has_unseen_changes,
            ..old_d.ui
        },
        ..old_d
    })
}

/// The hash last seen for the selected agent of `d` in `table`.
pub open spec fn selected_last_seen(d: AppData, table: Seq<(u128, u64)>) -> u64 {
    last_seen_spec(table, selected_view(d).id)
}

impl Actions {
    /// Update the diff digest (hash and unseen flag) without rebuilding the diff.
    pub fn update_diff_digest(self, app: &mut App, observation: DigestObservation) -> (r: Result<(), String>)
        ensures
            final(app).mode == old(app).mode,
            selected_index(old(app).data) < 0 ==> r is Ok && final(app).data.ui.diff_hash == 0
                && !final(app).data.ui.diff_has_unseen_changes && only_diff_digest_changed(
                old(app).data,
                final(app).data,
            ),
            selected_index(old(app).data) >= 0 ==> match observation {
                DigestObservation::NoWorktree => r is Ok && final(app).data.ui.diff_hash == 0
                    && !final(app).data.ui.diff_has_unseen_changes && only_diff_digest_changed(
                    old(app).data,
                    final(app).data,
                ),
                DigestObservation::Hash(h) => {
                    &&& r is Ok
                    &&& final(app).data.ui.diff_hash == h
                    &&& final(app).data.ui.diff_has_unseen_changes == unseen_spec(
                        h,
                        selected_last_seen(old(app).data, old(app).data.ui.diff_last_seen@),
                    )
                    &&& only_diff_digest_changed(old(app).data, final(app).data)
                },
                DigestObservation::Failed(e) => r == Err::<(), String>(e) && *final(app) == *old(app),
            },
    {
        proof {
            if let Some(id) = app.data.selected_agent {
                lemma_position(app.data.storage@, id);
            }
        }
        let agent_id: u128 = match app.data.selected_agent() {
            Some(a) => a.id,
            None => {
                app.data.ui.diff_hash = 0;
                app.data.ui.diff_has_unseen_changes = false;
                return Ok(());
            },
        };
        match observation {
            DigestObservation::Hash(h) => {
                let seen = last_seen(&app.data.ui.diff_last_seen, agent_id);
                app.data.ui.diff_hash = h;
                app.data.ui.diff_has_unseen_changes = h != 0 && h != seen;
                Ok(())
            },
            DigestObservation::NoWorktree => {
                app.data.ui.diff_hash = 0;
                app.data.ui.diff_has_unseen_changes = false;
                Ok(())
            },
            DigestObservation::Failed(e) => Err(e),
        }
    }
}

/// How the last-seen table `new_t` and the unseen flag follow from a fresh hash for
/// agent `agent_id`: when its tab is shown the hash becomes the one last seen and is
/// not news; otherwise the table stays and the hash is news when it is unseen.
pub open spec fn observed(
    old_t: Seq<(u128, u64)>,
    new_t: Seq<(u128, u64)>,
    unseen: bool,
    tab_shown: bool,
    agent_id: u128,
    hash: u64,
) -> bool {
    if tab_shown {
        new_t == set_seen_spec(old_t, agent_id, hash) && !unseen
    } else {
        new_t == old_t && unseen == unseen_spec(hash, last_seen_spec(old_t, agent_id))
    }
}

/// Record a freshly computed diff or commit hash `hash` for agent `agent_id`: when its
/// tab is shown the hash becomes the one last seen; otherwise the unseen flag tells
/// whether it is news.
pub fn observe_hash(
    table: &mut Vec<(u128, u64)>,
    tab_shown: bool,
    agent_id: u128,
    hash: u64,
) -> (unseen: bool)
    ensures
        observed(old(table)@, final(table)@, unseen, tab_shown, agent_id, hash),
{
    if tab_shown {
        set_last_seen(table, agent_id, hash);
        false
    } else {
        let seen = last_seen(table, agent_id);
        hash != 0 && hash != seen
    }
}


/// The commit ids in `git log --format=%H` output: each line without trailing
/// whitespace, empty lines dropped.
pub open spec fn commit_ids_spec(out: Seq<char>) -> Seq<Seq<char>> {
    lines_spec(out).map_values(|l: Seq<char>| trim_end_spec(l)).filter(|l: Seq<char>| l.len() > 0)
}

/// At most `max` items of `s`, and whether some were cut off.
pub open spec fn capped<A>(s: Seq<A>, max: int) -> (Seq<A>, bool) {
    if s.len() > max {
        (s.take(max), true)
    } else {
        (s, false)
    }
}

/// The first `max_commits` commit ids in `git log` output, and whether there were
/// more.
pub fn git_log_commit_ids(out: &str, max_commits: usize) -> (r: (Vec<String>, bool))
    ensures
        string_views(r.0@) == capped(commit_ids_spec(out@), max_commits as int).0,
        r.1 == capped(commit_ids_spec(out@), max_commits as int).1,
{
    let lines = split_lines(out);
    let ghost ls = lines_spec(out@);
    let ghost mapped = ls.map_values(|l: Seq<char>| trim_end_spec(l));
    let ghost pred = |l: Seq<char>| l.len() > 0;
    let mut ids: Vec<String> = Vec::new();
    let mut i: usize = 0;
    while i < lines.len()
        invariant
            views(lines@) == ls,
            ls == lines_spec(out@),
            mapped == ls.map_values(|l: Seq<char>| trim_end_spec(l)),
            pred == (|l: Seq<char>| l.len() > 0),
            i <= lines@.len(),
            string_views(ids@) == mapped.take(i as int).filter(pred),
        decreases lines@.len() - i,
    {
        let t = trim_end(lines[i]);
        proof {
            assert(mapped[i as int] == t@);
            mapped.take(i as int).lemma_filter_push(mapped[i as int], pred);
            assert(mapped.take(i + 1) =~= mapped.take(i as int).push(mapped[i as int]));
        }
        let ghost before = ids@;
        if t.unicode_len() > 0 {
            ids.push(owned(t));
            proof {
                assert(string_views(ids@) =~= string_views(before).push(t@));
            }
        }
        i = i + 1;
    }
    proof {
        assert(mapped.take(lines@.len() as int) =~= mapped);
        assert(string_views(ids@) == commit_ids_spec(out@));
    }
    let truncated = ids.len() > max_commits;
    if truncated {
        let ghost full = string_views(ids@);
        ids.truncate(max_commits);
        proof {
            assert(string_views(ids@) =~= full.take(max_commits as int));
        }
    }
    (ids, truncated)
}

/// The value of a commit, as read from `git log`.
pub struct CommitView {
    pub id: Seq<char>,
    pub short_id: Seq<char>,
    pub date: Seq<char>,
    pub author: Seq<char>,
    pub subject: Seq<char>,
    pub decorations: Seq<char>,
    pub body: Seq<char>,
}

/// One commit from `git log`.
#[derive(Debug)]
pub struct CommitInfo {
    pub id: String,
    pub short_id: String,
    pub date: String,
    pub author: String,
    pub subject: String,
    pub decorations: String,
    pub body: String,
}

impl View for CommitInfo {
    type V = CommitView;

    open spec fn view(&self) -> CommitView {
        CommitView {
            id: self.id@,
            short_id: self.short_id@,
            date: self.date@,
            author: self.author@,
            subject: self.subject@,
            decorations: self.decorations@,
            body: self.body@,
        }
    }
}

/// A `git log` record: trimmed, then split into at most seven fields at the unit
/// separator; the first five must be present and not empty, the last two default to
/// empty.
pub open spec fn parse_record(rec: Seq<char>) -> Option<CommitView> {
    let r = trim_spec(rec);
    let p = splitn_from(r, '\u{1f}', 0, 7);
    if r.len() > 0 && p.len() >= 5 && p[0].len() > 0 && p[1].len() > 0 && p[2].len() > 0
        && p[3].len() > 0 && p[4].len() > 0 {
        Some(
            CommitView {
                id: p[0],
                short_id: p[1],
                date: p[2],
                author: p[3],
                subject: p[4],
                decorations: if p.len() > 5 {
                    p[5]
                } else {
                    Seq::empty()
                },
                body: if p.len() > 6 {
                    p[6]
                } else {
                    Seq::empty()
                },
            },
        )
    } else {
        None
    }
}

/// The commits of the first `k` records, skipping records that do not parse.
pub open spec fn parsed_records(recs: Seq<Seq<char>>, k: int) -> Seq<CommitView>
    decreases k,
{
    if k <= 0 {
        Seq::empty()
    } else {
        match parse_record(recs[k - 1]) {
            Some(c) => parsed_records(recs, k - 1).push(c),
            None => parsed_records(recs, k - 1),
        }
    }
}

/// The commits in `git log` output whose records end with the record separator.
pub open spec fn git_log_spec(out: Seq<char>) -> Seq<CommitView> {
    let recs = split_from(out, '\u{1e}', 0);
    parsed_records(recs, recs.len() as int)
}

/// The views of commits.
pub open spec fn commit_views(v: Seq<CommitInfo>) -> Seq<CommitView> {
    v.map_values(|c: CommitInfo| c@)
}

fn parse_one(rec: &str) -> (r: Option<CommitInfo>)
    ensures
        match parse_record(rec@) {
            Some(c) => r.is_some() && r.unwrap()@ == c,
            None => r.is_none(),
        },
{
    let r = trim(rec);
    if r.unicode_len() == 0 {
        return None;
    }
    let p = splitn_char(r, '\u{1f}', 7);
    proof {
        assert(views(p@).len() == p@.len());
    }
    if p.len() < 5 {
        return None;
    }
    proof {
        assert forall|k: int| 0 <= k < p@.len() implies views(p@)[k] == p@[k]@ by {}
    }
    if p[0].unicode_len() == 0 || p[1].unicode_len() == 0 || p[2].unicode_len() == 0
        || p[3].unicode_len() == 0 || p[4].unicode_len() == 0 {
        return None;
    }
    let decorations = if p.len() > 5 { owned(p[5]) } else { String::new() };
    let body = if p.len() > 6 { owned(p[6]) } else { String::new() };
    Some(CommitInfo {
        id: owned(p[0]),
        short_id: owned(p[1]),
        date: owned(p[2]),
        author: owned(p[3]),
        subject: owned(p[4]),
        decorations,
        body,
    })
}

/// The first `max_commits` commits in `git log` output, and whether there were more.
pub fn git_log_rich(out: &str, max_commits: usize) -> (r: (Vec<CommitInfo>, bool))
    ensures
        commit_views(r.0@) == capped(git_log_spec(out@), max_commits as int).0,
        r.1 == capped(git_log_spec(out@), max_commits as int).1,
{
    let recs = split_char(out, '\u{1e}');
    let ghost rv = split_from(out@, '\u{1e}', 0);
    let mut commits: Vec<CommitInfo> = Vec::new();
    let mut i: usize = 0;
    while i < recs.len()
        invariant
            views(recs@) == rv,
            rv == split_from(out@, '\u{1e}', 0),
            i <= recs@.len(),
            commit_views(commits@) == parsed_records(rv, i as int),
        decreases recs@.len() - i,
    {
        proof {
            assert(rv[i as int] == recs@[i as int]@);
        }
        let ghost before = commits@;
        match parse_one(recs[i]) {
            Some(c) => {
                commits.push(c);
                proof {
                    assert(commit_views(commits@) =~= commit_views(before).push(commits@.last()@));
                }
            },
            None => {},
        }
        i = i + 1;
    }
    let truncated = commits.len() > max_commits;
    if truncated {
        let ghost full = commit_views(commits@);
        commits.truncate(max_commits);
        proof {
            assert(commit_views(commits@) =~= full.take(max_commits as int));
        }
    }
    (commits, truncated)
}

/// The bytes that hashing the string `s` feeds a hasher: its UTF-8 encoding, then the
/// byte `0xff` that ends every string.
pub open spec fn str_hash_feed(s: Seq<char>) -> Seq<Seq<u8>> {
    seq![encode_utf8(s), seq![0xffu8]]
}

/// What hashing each id in turn feeds a fresh hasher.
pub open spec fn ids_hash_feed(ids: Seq<Seq<char>>) -> Seq<Seq<u8>>
    decreases ids.len(),
{
    if ids.len() == 0 {
        Seq::empty()
    } else {
        ids_hash_feed(ids.drop_last()) + str_hash_feed(ids.last())
    }
}

/// The hash of a list of commit ids: 0 for no ids, else the hash of the ids in order.
pub open spec fn commit_ids_hash(ids: Seq<Seq<char>>) -> u64 {
    if ids.len() == 0 {
        0
    } else {
        DefaultHasher::spec_finish(ids_hash_feed(ids))
    }
}

/// Feed the string `s` to `hasher` as hashing a string does.
fn hash_str_into(hasher: &mut DefaultHasher, s: &str)
    ensures
        final(hasher)@ == old(hasher)@ + str_hash_feed(s@),
{
    hasher.write(s.as_bytes());
    let end: [u8; 1] = [0xff];
    hasher.write(end.as_slice());
    proof {
        assert(end@ =~= seq![0xffu8]);
        assert(final(hasher)@ =~= old(hasher)@ + str_hash_feed(s@));
    }
}

/// The hash of the commit ids shown for an agent; 0 when there are none.
pub fn hash_commit_ids(ids: &Vec<String>) -> (r: u64)
    ensures
        r == commit_ids_hash(string_views(ids@)),
{
    let mut hasher = DefaultHasher::new();
    let mut i: usize = 0;
    while i < ids.len()
        invariant
            i <= ids@.len(),
            hasher@ == ids_hash_feed(string_views(ids@.take(i as int))),
        decreases ids@.len() - i,
    {
        hash_str_into(&mut hasher, ids[i].as_str());
        proof {
            let t = string_views(ids@.take(i + 1));
            assert(t.drop_last() =~= string_views(ids@.take(i as int)));
            assert(t.last() == ids@[i as int]@);
        }
        i = i + 1;
    }
    proof {
        assert(ids@.take(ids@.len() as int) =~= ids@);
    }
    if ids.len() == 0 {
        return 0;
    }
    hasher.finish()
}

/// The hash of a text, as hashing a string gives it.
pub open spec fn text_hash(text: Seq<char>) -> u64 {
    DefaultHasher::spec_finish(str_hash_feed(text))
}

/// The hash of a text.
pub fn hash_text(text: &str) -> (r: u64)
    ensures
        r == text_hash(text@),
{
    let mut hasher = DefaultHasher::new();
    hash_str_into(&mut hasher, text);
    proof {
        assert(hasher@ =~= str_hash_feed(text@));
    }
    hasher.finish()
}

/// The metadata line of a commit: date, author and, when there are any, its
/// decorations.
pub open spec fn meta_line(c: CommitView) -> Seq<char> {
    let d = trim_spec(c.decorations);
    "  "@ + c.date + " • "@ + c.author + if d.len() > 0 {
        " • "@ + d
    } else {
        Seq::empty()
    }
}

/// The part of a commit body that is shown: without trailing whitespace and leading
/// line breaks.
pub open spec fn shown_body(body: Seq<char>) -> Seq<char> {
    trim_start_breaks_spec(trim_end_spec(body))
}

/// The indented body lines of a commit: none for a blank body, else at most forty
/// lines and an ellipsis line when there were more.
pub open spec fn body_lines(body: Seq<char>) -> Seq<Seq<char>> {
    let b = shown_body(body);
    let ls = lines_spec(b);
    if trim_spec(b).len() == 0 {
        Seq::empty()
    } else if ls.len() > 40 {
        ls.take(40).map_values(|l: Seq<char>| "    "@ + l) + seq!["    …"@]
    } else {
        ls.map_values(|l: Seq<char>| "    "@ + l)
    }
}

/// The lines that show one commit.
pub open spec fn commit_block(c: CommitView) -> Seq<Seq<char>> {
    seq![c.short_id + "  "@ + c.subject, meta_line(c)] + body_lines(c.body)
}

/// The lines that show a list of commits.
pub open spec fn commit_blocks(cs: Seq<CommitView>) -> Seq<Seq<char>>
    decreases cs.len(),
{
    if cs.len() == 0 {
        Seq::empty()
    } else {
        commit_blocks(cs.drop_last()) + commit_block(cs.last())
    }
}

/// The commits pane for `branch`: the branch, the range and count shown, then the
/// commits.
pub open spec fn commits_report(
    branch: Seq<char>,
    base: Seq<char>,
    used_range: bool,
    cs: Seq<CommitView>,
    truncated: bool,
) -> Seq<Seq<char>> {
    let suffix = if truncated {
        " (truncated)"@
    } else {
        Seq::empty()
    };
    let n = decimal(cs.len());
    let header = if used_range {
        "Commits: "@ + base + "..HEAD ("@ + n + " shown)"@ + suffix
    } else {
        "Commits: HEAD history ("@ + n + " shown)"@ + suffix
    };
    seq!["Branch: "@ + branch, header] + if cs.len() == 0 {
        seq!["(No commits)"@]
    } else {
        commit_blocks(cs)
    }
}

fn push_body_lines(out: &mut Vec<String>, body: &str)
    ensures
        string_views(final(out)@) == string_views(old(out)@) + body_lines(body@),
{
    let b = trim_start_breaks(trim_end(body));
    let ghost ls = lines_spec(b@);
    if trim(b).unicode_len() == 0 {
        assert(string_views(out@) =~= string_views(out@) + body_lines(body@));
        return;
    }
    let lines = split_lines(b);
    let n: usize = if lines.len() > 40 { 40 } else { lines.len() };
    let ghost start = string_views(out@);
    let ghost shown = ls.take(n as int).map_values(|l: Seq<char>| "    "@ + l);
    let mut i: usize = 0;
    while i < n
        invariant
            n <= lines@.len(),
            views(lines@) == ls,
            ls == lines_spec(b@),
            i <= n,
            string_views(out@) == start + ls.take(i as int).map_values(|l: Seq<char>| "    "@ + l),
        decreases n - i,
    {
        let ghost before = string_views(out@);
        out.push(concat2("    ", lines[i]));
        proof {
            assert(ls[i as int] == lines@[i as int]@);
            assert(ls.take(i + 1).map_values(|l: Seq<char>| "    "@ + l) =~= ls.take(i as int).map_values(
                |l: Seq<char>| "    "@ + l,
            ).push("    "@ + ls[i as int]));
            assert(string_views(out@) =~= before.push(out@.last()@));
        }
        i = i + 1;
    }
    if lines.len() > 40 {
        let ghost before = string_views(out@);
        out.push(owned("    …"));
        proof {
            assert(string_views(out@) =~= before.push(out@.last()@));
            assert(string_views(out@) =~= start + body_lines(body@));
        }
    } else {
        proof {
            assert(ls.take(n as int) =~= ls);
            assert(string_views(out@) =~= start + body_lines(body@));
        }
    }
}

fn push_commit_block(out: &mut Vec<String>, c: &CommitInfo)
    ensures
        string_views(final(out)@) == string_views(old(out)@) + commit_block(c@),
{
    let ghost start = string_views(out@);
    out.push(concat3(c.short_id.as_str(), "  ", c.subject.as_str()));
    let mut meta = concat4("  ", c.date.as_str(), " • ", c.author.as_str());
    let decorations = trim(c.decorations.as_str());
    if decorations.unicode_len() > 0 {
        meta.append(" • ");
        meta.append(decorations);
    }
    proof {
        assert(meta@ =~= meta_line(c@));
    }
    out.push(meta);
    proof {
        assert(string_views(out@) =~= start + seq![c@.short_id + "  "@ + c@.subject, meta_line(c@)]);
    }
    push_body_lines(out, c.body.as_str());
    proof {
        assert(string_views(out@) =~= start + commit_block(c@));
    }
}

/// The lines of the commits pane for `branch` with the commits read from `git log`.
pub fn commits_report_lines(
    branch: &str,
    base: &str,
    used_range: bool,
    commits: &Vec<CommitInfo>,
    truncated: bool,
) -> (r: Vec<String>)
    ensures
        string_views(r@) == commits_report(branch@, base@, used_range, commit_views(commits@), truncated),
{
    let mut out: Vec<String> = Vec::new();
    out.push(concat2("Branch: ", branch));
    let n = decimal_string(commits.len() as u64);
    let suffix = if truncated { " (truncated)" } else { "" };
    proof {
        if !truncated {
            assert(suffix@ =~= Seq::<char>::empty()) by {
                reveal_strlit("");
            }
        }
    }
    let mut header = if used_range {
        concat4("Commits: ", base, "..HEAD (", n.as_str())
    } else {
        concat2("Commits: HEAD history (", n.as_str())
    };
    header.append(" shown)");
    header.append(suffix);
    out.push(header);
    let ghost cs = commit_views(commits@);
    let ghost start = string_views(out@);
    proof {
        assert(start =~= seq![
            "Branch: "@ + branch@,
            if used_range {
                "Commits: "@ + base@ + "..HEAD ("@ + decimal(cs.len()) + " shown)"@ + suffix@
            } else {
                "Commits: HEAD history ("@ + decimal(cs.len()) + " shown)"@ + suffix@
            },
        ]);
    }
    if commits.len() == 0 {
        out.push(owned("(No commits)"));
        proof {
            assert(string_views(out@) =~= commits_report(branch@, base@, used_range, cs, truncated));
        }
        return out;
    }
    let mut i: usize = 0;
    while i < commits.len()
        invariant
            i <= commits@.len(),
            cs == commit_views(commits@),
            string_views(out@) == start + commit_blocks(cs.take(i as int)),
        decreases commits@.len() - i,
    {
        push_commit_block(&mut out, &commits[i]);
        proof {
            assert(cs.take(i + 1).drop_last() =~= cs.take(i as int));
            assert(cs.take(i + 1).last() == commits@[i as int]@);
        }
        i = i + 1;
    }
    proof {
        assert(cs.take(cs.len() as int) =~= cs);
        assert(string_views(out@) =~= commits_report(branch@, base@, used_range, cs, truncated));
    }
    out
}

/// What the program observed of the selected agent's worktree for the commits pane.
#[derive(Debug)]
pub enum CommitsObservation {
    /// The worktree does not exist.
    NoWorktree,
    /// The worktree is not a git repository.
    NotRepository,
    /// `git log` printed `output`; `used_range` tells whether it was limited to the
    /// commits after `base_branch` (else it listed the whole history).
    Log { base_branch: String, used_range: bool, output: String },
    /// `git log` failed with this error.
    Failed(String),
}

/// The ui of `new_d` differs from that of `old_d` at most in the commits pane, and
/// nothing else of the data changed.
pub open spec fn only_commits_changed(old_d: AppData, new_d: AppData) -> bool {
    new_d == (AppData {
        ui: UiState {
            commits_content: new_d.ui.commits_content,
            commits_hash: new_d.ui.commits_hash,
            commits_has_unseen_changes: new_d.ui.commits_has_unseen_changes,
            commits_last_seen: new_d.ui.commits_last_seen,
            ..old_d.ui
        },
        ..old_d
    })
}

/// The commits pane shows `msg` and no digest.
pub open spec fn commits_cleared(d: AppData, msg: Seq<char>) -> bool {
    &&& d.ui.commits_hash == 0
    &&& !d.ui.commits_has_unseen_changes
    &&& d.ui.commits_content@ == msg
}

/// The ids of commits.
pub open spec fn commit_ids_of(cs: Seq<CommitView>) -> Seq<Seq<char>> {
    cs.map_values(|c: CommitView| c.id)
}

/// The commits shown for `git log` output read with a limit of `max_commits`, and
/// whether some were left out.
pub open spec fn shown_commits(output: Seq<char>, max_commits: int) -> (Seq<CommitView>, bool) {
    capped(git_log_spec(output), if max_commits < 1 { 1 } else { max_commits })
}

/// The commits pane of `new_d` shows the commits of the selected agent of `old_d`
/// read from `output`, and its digest follows them.
pub open spec fn commits_shown(
    old_d: AppData,
    new_d: AppData,
    base: Seq<char>,
    used_range: bool,
    output: Seq<char>,
    max_commits: int,
) -> bool {
    let a = selected_view(old_d);
    let (cs, truncated) = shown_commits(output, max_commits);
    let hash = commit_ids_hash(commit_ids_of(cs));
    &&& new_d.ui.commits_hash == hash
    &&& new_d.ui.commits_content@ == join_lines_spec(commits_report(a.branch, base, used_range, cs, truncated))
    &&& observed(
        old_d.ui.commits_last_seen@,
        new_d.ui.commits_last_seen@,
        new_d.ui.commits_has_unseen_changes,
        old_d.active_tab == Tab::Commits,
        a.id,
        hash,
    )
}

fn clear_commits(app: &mut App, msg: &str)
    ensures
        commits_cleared(final(app).data, msg@),
        only_commits_changed(old(app).data, final(app).data),
        final(app).mode == old(app).mode,
{
    app.data.ui.commits_hash = 0;
    app.data.ui.commits_has_unseen_changes = false;
    app.data.ui.commits_content = owned(msg);
}

fn commit_id_list(commits: &Vec<CommitInfo>) -> (r: Vec<String>)
    ensures
        string_views(r@) == commit_ids_of(commit_views(commits@)),
{
    let mut out: Vec<String> = Vec::new();
    let mut i: usize = 0;
    while i < commits.len()
        invariant
            i <= commits@.len(),
            string_views(out@) == commit_ids_of(commit_views(commits@)).take(i as int),
        decreases commits@.len() - i,
    {
        let ghost before = string_views(out@);
        out.push(commits[i].id.clone());
        proof {
            assert(string_views(out@) =~= before.push(commits@[i as int].id@));
            assert(commit_views(commits@)[i as int].id == commits@[i as int].id@);
            assert(string_views(out@) =~= commit_ids_of(commit_views(commits@)).take(i + 1));
        }
        i = i + 1;
    }
    proof {
        assert(commit_ids_of(commit_views(commits@)).take(commits@.len() as int) =~= commit_ids_of(
            commit_views(commits@),
        ));
    }
    out
}

impl Actions {
    /// Update the commits pane of the selected agent, with at most 200 commits.
    pub fn update_commits(self, app: &mut App, observation: CommitsObservation) -> (r: Result<(), String>)
        ensures
            commits_updated(*old(app), *final(app), observation, 200, r),
    {
        Self::update_commits_with_limit(app, observation, 200)
    }

    /// Update the commits pane of the selected agent, with at most `max_commits`
    /// commits (at least one).
    pub fn update_commits_with_limit(
        app: &mut App,
        observation: CommitsObservation,
        max_commits: usize,
    ) -> (r: Result<(), String>)
        ensures
            commits_updated(*old(app), *final(app), observation, max_commits as int, r),
    {
        let max_commits = if max_commits < 1 { 1 } else { max_commits };
        proof {
            if let Some(id) = app.data.selected_agent {
                lemma_position(app.data.storage@, id);
            }
        }
        let (agent_id, branch) = match app.data.selected_agent() {
            Some(a) => (a.id, a.branch.clone()),
            None => {
                clear_commits(app, "(No agent selected)");
                return Ok(());
            },
        };
        match observation {
            CommitsObservation::NoWorktree => {
                clear_commits(app, "(Worktree not found)");
                Ok(())
            },
            CommitsObservation::NotRepository => {
                clear_commits(app, "(Not a git repository)");
                Ok(())
            },
            CommitsObservation::Failed(e) => Err(e),
            CommitsObservation::Log { base_branch, used_range, output } => {
                let (commits, truncated) = git_log_rich(output.as_str(), max_commits);
                let ids = commit_id_list(&commits);
                let hash = hash_commit_ids(&ids);
                let lines = commits_report_lines(
                    branch.as_str(),
                    base_branch.as_str(),
                    used_range,
                    &commits,
                    truncated,
                );
                app.data.ui.commits_hash = hash;
                app.data.ui.commits_content = join_lines(&lines);
                let tab_shown = app.data.active_tab == Tab::Commits;
                let unseen = observe_hash(&mut app.data.ui.commits_last_seen, tab_shown, agent_id, hash);
                app.data.ui.commits_has_unseen_changes = unseen;
                Ok(())
            },
        }
    }
}

/// What the program observed of the selected agent's commits for the commits digest.
#[derive(Debug)]
pub enum CommitsDigestObservation {
    /// The worktree does not exist or is not a git repository.
    Unavailable,
    /// `git log --format=%H` printed `output` (limited to the commits after the base
    /// branch, or the whole history when that range could not be read).
    Log(String),
    /// `git log` failed with this error.
    Failed(String),
}

/// The ui of `new_d` differs from that of `old_d` at most in the commits digest, and
/// nothing else of the data changed.
pub open spec fn only_commits_digest_changed(old_d: AppData, new_d: AppData) -> bool {
    new_d == (AppData {
        ui: UiState {
            commits_hash: new_d.ui.commits_hash,
            commits_has_unseen_changes: new_d.ui.commits_has_unseen_changes,
            ..old_d.ui
        },
        ..old_d
    })
}

/// The digest of the first 200 commit ids in `git log --format=%H` output.
pub open spec fn commits_digest_spec(output: Seq<char>) -> u64 {
    commit_ids_hash(capped(commit_ids_spec(output), 200).0)
}

impl Actions {
    /// Update the commits digest (hash and unseen flag) without rebuilding the commits
    /// pane; at most 200 commits count.
    pub fn update_commits_digest(self, app: &mut App, observation: CommitsDigestObservation) -> (r: Result<(), String>)
        ensures
            final(app).mode == old(app).mode,
            (selected_index(old(app).data) < 0 || observation is Unavailable) ==> r is Ok
                && final(app).data.ui.commits_hash == 0 && !final(app).data.ui.commits_has_unseen_changes
                && only_commits_digest_changed(old(app).data, final(app).data),
            selected_index(old(app).data) >= 0 ==> match observation {
                CommitsDigestObservation::Unavailable => true,
                CommitsDigestObservation::Log(out) => {
                    let h = commits_digest_spec(out@);
                    &&& r is Ok
                    &&& final(app).data.ui.commits_hash == h
                    &&& final(app).data.ui.commits_has_unseen_changes == unseen_spec(
                        h,
                        selected_last_seen(old(app).data, old(app).data.ui.commits_last_seen@),
                    )
                    &&& only_commits_digest_changed(old(app).data, final(app).data)
                },
                CommitsDigestObservation::Failed(e) => r == Err::<(), String>(e) && *final(app) == *old(app),
            },
    {
        proof {
            if let Some(id) = app.data.selected_agent {
                lemma_position(app.data.storage@, id);
            }
        }
        let agent_id: u128 = match app.data.selected_agent() {
            Some(a) => a.id,
            None => {
                app.data.ui.commits_hash = 0;
                app.data.ui.commits_has_unseen_changes = false;
                return Ok(());
            },
        };
        match observation {
            CommitsDigestObservation::Unavailable => {
                app.data.ui.commits_hash = 0;
                app.data.ui.commits_has_unseen_changes = false;
                Ok(())
            },
            CommitsDigestObservation::Failed(e) => Err(e),
            CommitsDigestObservation::Log(out) => {
                let (ids, _truncated) = git_log_commit_ids(out.as_str(), 200);
                let h = hash_commit_ids(&ids);
                let seen = last_seen(&app.data.ui.commits_last_seen, agent_id);
                app.data.ui.commits_hash = h;
                app.data.ui.commits_has_unseen_changes = h != 0 && h != seen;
                Ok(())
            },
        }
    }
}

/// What updating the commits pane of `old_app` with `observation` does.
pub open spec fn commits_updated(
    old_app: App,
    new_app: App,
    observation: CommitsObservation,
    max_commits: int,
    r: Result<(), String>,
) -> bool {
    let d = old_app.data;
    if selected_index(d) < 0 {
        r is Ok && commits_cleared(new_app.data, "(No agent selected)"@) && only_commits_changed(d, new_app.data)
            && new_app.mode == old_app.mode
    } else {
        match observation {
            CommitsObservation::NoWorktree => r is Ok && commits_cleared(new_app.data, "(Worktree not found)"@)
                && only_commits_changed(d, new_app.data) && new_app.mode == old_app.mode,
            CommitsObservation::NotRepository => r is Ok && commits_cleared(
                new_app.data,
                "(Not a git repository)"@,
            ) && only_commits_changed(d, new_app.data) && new_app.mode == old_app.mode,
            CommitsObservation::Failed(e) => r == Err::<(), String>(e) && new_app == old_app,
            CommitsObservation::Log { base_branch, used_range, output } => {
                &&& r is Ok
                &&& commits_shown(d, new_app.data, base_branch@, used_range, output@, max_commits)
                &&& only_commits_changed(d, new_app.data)
                &&& new_app.mode == old_app.mode
            },
        }
    }
}

/// What the program observed of the selected agent's worktree for the diff pane.
#[derive(Debug)]
pub enum DiffObservation {
    /// The worktree does not exist.
    NoWorktree,
    /// The worktree is not a git repository.
    NotRepository,
    /// Generating the diff failed with this error.
    Failed(String),
    /// The rendered diff and the worktree's change marker.
    Built { content: String, marker: u64 },
}

/// The ui of `new_d` differs from that of `old_d` at most in the diff pane, and
/// nothing else of the data changed.
pub open spec fn only_diff_changed(old_d: AppData, new_d: AppData) -> bool {
    new_d == (AppData {
        ui: UiState {
            diff_content: new_d.ui.diff_content,
            diff_hash: new_d.ui.diff_hash,
            diff_has_unseen_changes: new_d.ui.diff_has_unseen_changes,
            diff_last_seen: new_d.ui.diff_last_seen,
            ..old_d.ui
        },
        ..old_d
    })
}

/// The diff pane shows `msg` and no digest.
pub open spec fn diff_cleared(d: AppData, msg: Seq<char>) -> bool {
    &&& d.ui.diff_hash == 0
    &&& !d.ui.diff_has_unseen_changes
    &&& d.ui.diff_content@ == msg
}

/// What updating the diff pane of `old_app` with `observation` does.
pub open spec fn diff_updated(old_app: App, new_app: App, observation: DiffObservation) -> bool {
    let d = old_app.data;
    &&& new_app.mode == old_app.mode
    &&& only_diff_changed(d, new_app.data)
    &&& if selected_index(d) < 0 {
        diff_cleared(new_app.data, "(No agent selected)"@)
    } else {
        match observation {
            DiffObservation::NoWorktree => diff_cleared(new_app.data, "(Worktree not found)"@),
            DiffObservation::NotRepository => diff_cleared(new_app.data, "(Not a git repository)"@),
            DiffObservation::Failed(e) => diff_cleared(
                new_app.data,
                "(Failed to generate diff: "@ + e@ + ")"@,
            ),
            DiffObservation::Built { content, marker } => {
                &&& new_app.data.ui.diff_hash == marker
                &&& new_app.data.ui.diff_content@ == content@
                &&& observed(
                    d.ui.diff_last_seen@,
                    new_app.data.ui.diff_last_seen@,
                    new_app.data.ui.diff_has_unseen_changes,
                    d.active_tab == Tab::Diff,
                    selected_view(d).id,
                    marker,
                )
            },
        }
    }
}

fn clear_diff(app: &mut App, msg: String)
    ensures
        diff_cleared(final(app).data, msg@),
        only_diff_changed(old(app).data, final(app).data),
        final(app).mode == old(app).mode,
{
    app.data.ui.diff_hash = 0;
    app.data.ui.diff_has_unseen_changes = false;
    app.data.ui.diff_content = msg;
}

/// What the program observed of the selected agent's session for the preview.
#[derive(Debug)]
pub enum PreviewObservation {
    /// The agent's session is not running.
    SessionNotRunning,
    /// The captured pane output, with the pane's cursor position and size where they
    /// could be read.
    Captured { text: String, cursor: Option<(u16, u16)>, pane_size: Option<(u16, u16)> },
}

impl Actions {
    /// Update the diff pane of the selected agent.
    pub fn update_diff(self, app: &mut App, observation: DiffObservation)
        ensures
            diff_updated(*old(app), *final(app), observation),
    {
        proof {
            if let Some(id) = app.data.selected_agent {
                lemma_position(app.data.storage@, id);
            }
        }
        let agent_id: u128 = match app.data.selected_agent() {
            Some(a) => a.id,
            None => {
                clear_diff(app, owned("(No agent selected)"));
                return;
            },
        };
        match observation {
            DiffObservation::NoWorktree => clear_diff(app, owned("(Worktree not found)")),
            DiffObservation::NotRepository => clear_diff(app, owned("(Not a git repository)")),
            DiffObservation::Failed(e) => clear_diff(
                app,
                concat3("(Failed to generate diff: ", e.as_str(), ")"),
            ),
            DiffObservation::Built { content, marker } => {
                app.data.ui.diff_hash = marker;
                app.data.ui.diff_content = content;
                let tab_shown = app.data.active_tab == Tab::Diff;
                let unseen = observe_hash(&mut app.data.ui.diff_last_seen, tab_shown, agent_id, marker);
                app.data.ui.diff_has_unseen_changes = unseen;
            },
        }
    }

    /// Update the preview of the selected agent; `old_line_count` and
    /// `new_line_count` are the rendered line counts of the preview before and after.
    pub fn update_preview(
        self,
        app: &mut App,
        observation: PreviewObservation,
        old_line_count: usize,
        new_line_count: usize,
    )
        ensures
            final(app).mode == old(app).mode,
            final(app).data == (AppData { ui: final(app).data.ui, ..old(app).data }),
            final(app).data.ui.status == old(app).data.ui.status,
            final(app).data.ui.preview_content@ == (if selected_index(old(app).data) < 0 {
                "(No agent selected)"@
            } else {
                match observation {
                    PreviewObservation::SessionNotRunning => "(Session not running)"@,
                    PreviewObservation::Captured { text, .. } => text@,
                }
            }),
            (final(app).data.ui.preview_cursor_position, final(app).data.ui.preview_pane_size) == (if selected_index(
                old(app).data,
            ) < 0 {
                (None, None)
            } else {
                match observation {
                    PreviewObservation::SessionNotRunning => (None, None),
                    PreviewObservation::Captured { cursor, pane_size, .. } => (cursor, pane_size),
                }
            }),
            final(app).data.ui.preview_scroll as int == refreshed_scroll_spec(
                old(app).data.ui.preview_follow,
                !old(app).data.ui.preview_follow && !old(app).data.ui.preview_using_full_history,
                old(app).data.ui.preview_scroll as int,
                old_line_count as int,
                old(app).data.ui.preview_scroll as int,
                new_line_count as int,
                match old(app).data.ui.preview_dimensions {
                    Some((_, h)) => h as int,
                    None => 20,
                },
            ),
            final(app).data.ui.preview_using_full_history == !old(app).data.ui.preview_follow,
    {
        let old_scroll = app.data.ui.preview_scroll;
        proof {
            if let Some(id) = app.data.selected_agent {
                lemma_position(app.data.storage@, id);
            }
        }
        if app.data.selected_agent().is_none() {
            set_preview_message(&mut app.data.ui, "(No agent selected)");
        } else {
            match observation {
                PreviewObservation::SessionNotRunning => {
                    set_preview_message(&mut app.data.ui, "(Session not running)");
                },
                PreviewObservation::Captured { text, cursor, pane_size } => {
                    app.data.ui.preview_content = text;
                    app.data.ui.preview_cursor_position = cursor;
                    app.data.ui.preview_pane_size = pane_size;
                },
            }
        }
        finish_preview_refresh(&mut app.data.ui, old_line_count, old_scroll, new_line_count);
    }
}

} // verus!
