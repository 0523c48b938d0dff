//! The slash-command palette: which commands match what was typed, the highlighted
//! command, and what a typed command resolves to.

use vstd::prelude::*;
use crate::data::AppData;
use crate::git_flows::status_is;
use crate::state::AppMode;
use crate::text::{
    chars_of, concat2, first_word, first_word_spec, owned, push_char, strip_prefix, strip_prefix_spec,
    string_views, trim, trim_spec,
};

verus! {

broadcast use vstd::seq_lib::group_seq_properties;

/// `c` in lower case when it is an ASCII capital letter.
pub open spec fn lower_char(c: char) -> char {
    if 'A' <= c && c <= 'Z' {
        ((c as u32) + 32) as char
    } else {
        c
    }
}

/// `s` with its ASCII capital letters in lower case.
pub open spec fn ascii_lower(s: Seq<char>) -> Seq<char> {
    s.map_values(|c: char| lower_char(c))
}

fn lower(c: char) -> (r: char)
    ensures
        r == lower_char(c),
{
    if 'A' <= c && c <= 'Z' {
        let b = c as u8;
        (b + 32) as char
    } else {
        c
    }
}

/// `s` with its ASCII capital letters in lower case.
pub fn to_ascii_lower(s: &str) -> (r: String)
    ensures
        r@ == ascii_lower(s@),
{
    let v = chars_of(s);
    let mut out = String::new();
    let mut i: usize = 0;
    proof {
        reveal_strlit("");
    }
    while i < v.len()
        invariant
            v@ == s@,
            i <= v@.len(),
            out@ == ascii_lower(v@.take(i as int)),
        decreases v@.len() - i,
    {
        push_char(&mut out, lower(v[i]));
        proof {
            assert(ascii_lower(v@.take(i + 1)) =~= ascii_lower(v@.take(i as int)).push(lower_char(v@[i as int])));
        }
        i = i + 1;
    }
    proof {
        assert(v@.take(v@.len() as int) =~= v@);
    }
    out
}

/// `s` without its leading slashes.
pub open spec fn without_slashes(s: Seq<char>) -> Seq<char>
    decreases s.len(),
{
    if s.len() > 0 && s[0] == '/' {
        without_slashes(s.drop_first())
    } else {
        s
    }
}

/// `s` without its leading slashes.
pub fn trim_slashes(s: &str) -> (r: &str)
    ensures
        r@ == without_slashes(s@),
{
    let v = chars_of(s);
    let n = v.len();
    let mut i: usize = 0;
    proof {
        assert(v@.subrange(0, n as int) =~= v@);
    }
    while i < n && v[i] == '/'
        invariant
            n == v@.len(),
            v@ == s@,
            i <= n,
            without_slashes(v@.subrange(i as int, n as int)) == without_slashes(v@),
        decreases n - i,
    {
        proof {
            assert(v@.subrange(i as int, n as int).drop_first() =~= v@.subrange(i + 1, n as int));
        }
        i = i + 1;
    }
    s.substring_char(i, n)
}

/// The word the palette filters by: the first word of the trimmed input after one
/// leading `/`, in lower case; empty when there is none.
pub open spec fn palette_query(input: Seq<char>) -> Seq<char> {
    let t = trim_spec(input);
    let rest = match strip_prefix_spec(t, "/"@) {
        Some(r) => r,
        None => t,
    };
    match first_word_spec(rest) {
        Some(w) => ascii_lower(w),
        None => Seq::empty(),
    }
}

/// Command `name` is offered for `query`: every command is for an empty query, else
/// those whose name, without leading slashes and in lower case, begins with it.
pub open spec fn offered(query: Seq<char>, name: Seq<char>) -> bool {
    query.len() == 0 || query.is_prefix_of(ascii_lower(without_slashes(name)))
}

/// The commands the palette lists for `input`, in their order.
pub open spec fn palette_commands(input: Seq<char>, commands: Seq<Seq<char>>) -> Seq<Seq<char>> {
    commands.filter(|c: Seq<char>| offered(palette_query(input), c))
}

fn palette_query_exec(input: &str) -> (r: String)
    ensures
        r@ == palette_query(input@),
{
    let t = trim(input);
    let rest = match strip_prefix(t, "/") {
        Some(r) => r,
        None => t,
    };
    match first_word(rest) {
        Some(w) => to_ascii_lower(w),
        None => {
            proof {
                reveal_strlit("");
            }
            String::new()
        },
    }
}

/// Whether `p` begins `s`.
fn is_prefix(p: &str, s: &str) -> (r: bool)
    ensures
        r == p@.is_prefix_of(s@),
{
    crate::text::starts_with(s, p)
}

fn offered_exec(query: &String, name: &String) -> (r: bool)
    ensures
        r == offered(query@, name@),
{
    if query.unicode_len() == 0 {
        return true;
    }
    let lowered = to_ascii_lower(trim_slashes(name.as_str()));
    is_prefix(query.as_str(), lowered.as_str())
}

/// Commands of `commands` that `keep` accepts, in order.
fn filter_commands(commands: &Vec<String>, query: &String, Ghost(keep): Ghost<spec_fn(Seq<char>) -> bool>) -> (r: Vec<String>)
    requires
        forall|c: Seq<char>| #[trigger] keep(c) == offered(query@, c),
    ensures
        string_views(r@) == string_views(commands@).filter(keep),
{
    let ghost cs = string_views(commands@);
    let mut out: Vec<String> = Vec::new();
    let mut i: usize = 0;
    while i < commands.len()
        invariant
            cs == string_views(commands@),
            forall|c: Seq<char>| #[trigger] keep(c) == offered(query@, c),
            i <= cs.len(),
            string_views(out@) == cs.take(i as int).filter(keep),
        decreases cs.len() - i,
    {
        proof {
            cs.take(i as int).lemma_filter_push(cs[i as int], keep);
            assert(cs.take(i + 1) =~= cs.take(i as int).push(cs[i as int]));
        }
        let ghost before = out@;
        if offered_exec(query, &commands[i]) {
            out.push(commands[i].clone());
            proof {
                assert(string_views(out@) =~= string_views(before).push(cs[i as int]));
            }
        }
        i = i + 1;
    }
    proof {
        assert(cs.take(cs.len() as int) =~= cs);
    }
    out
}

impl AppData {
    /// The commands that the palette lists for the current input, in order.
    pub fn filtered_slash_commands(&self, commands: &Vec<String>) -> (r: Vec<String>)
        ensures
            string_views(r@) == palette_commands(self.input@, string_views(commands@)),
    {
        let query = palette_query_exec(self.input.as_str());
        filter_commands(commands, &query, Ghost(|c: Seq<char>| offered(palette_query(self.input@), c)))
    }

    /// Highlight the next listed command (wrapping), or the first when none is listed.
    pub fn select_next_slash_command(&mut self, commands: &Vec<String>)
        requires
            old(self).palette_selected < usize::MAX,
        ensures
            ({
                let n = palette_commands(old(self).input@, string_views(commands@)).len();
                final(self).palette_selected == (if n > 0 {
                    (old(self).palette_selected + 1) % (n as int)
                } else {
                    0
                })
            }),
            *final(self) == (AppData { palette_selected: final(self).palette_selected, ..*old(self) }),
    {
        let count = self.filtered_slash_commands(commands).len();
        if count > 0 {
            self.palette_selected = (self.palette_selected + 1) % count;
        } else {
            self.palette_selected = 0;
        }
    }

    /// Highlight the previous listed command (wrapping), or the first when none is listed.
    pub fn select_prev_slash_command(&mut self, commands: &Vec<String>)
        ensures
            ({
                let n = palette_commands(old(self).input@, string_views(commands@)).len();
                final(self).palette_selected == (if n == 0 {
                    0
                } else if old(self).palette_selected == 0 {
                    n - 1
                } else {
                    old(self).palette_selected - 1
                })
            }),
            *final(self) == (AppData { palette_selected: final(self).palette_selected, ..*old(self) }),
    {
        let count = self.filtered_slash_commands(commands).len();
        if count > 0 {
            self.palette_selected = if self.palette_selected == 0 {
                count - 1
            } else {
                self.palette_selected - 1
            };
        } else {
            self.palette_selected = 0;
        }
    }
}

/// The word typed into the palette: the first word of the input, or empty.
pub open spec fn typed_word(input: Seq<char>) -> Seq<char> {
    match first_word_spec(input) {
        Some(w) => w,
        None => Seq::empty(),
    }
}

/// The typed word as a command name: with a leading `/`, in lower case.
pub open spec fn normalized_command(typed: Seq<char>) -> Seq<char> {
    if "/"@.is_prefix_of(typed) {
        ascii_lower(typed)
    } else {
        ascii_lower("/"@ + typed)
    }
}

/// Index of the first command, from index `i` on, whose name equals `name` when ASCII
/// case is ignored.
pub open spec fn first_same_name(cmds: Seq<Seq<char>>, name: Seq<char>, i: int) -> Option<int>
    decreases cmds.len() - i,
{
    if i < 0 || i >= cmds.len() {
        None
    } else if ascii_lower(cmds[i]) == ascii_lower(name) {
        Some(i)
    } else {
        first_same_name(cmds, name, i + 1)
    }
}

/// The commands whose name, without leading slashes and in lower case, begins with
/// `query`.
pub open spec fn prefix_matches(cmds: Seq<Seq<char>>, query: Seq<char>) -> Seq<Seq<char>> {
    cmds.filter(|c: Seq<char>| query.is_prefix_of(ascii_lower(without_slashes(c))))
}

/// What a typed command resolves to.
#[derive(Debug)]
pub enum SlashResolution {
    /// Nothing was typed (or only `/`).
    Nothing,
    /// No command matches.
    Unknown,
    /// Several commands begin with what was typed.
    Ambiguous,
    /// This command.
    Command(String),
}

/// `r` is what `input` resolves to among `cmds`: the command of the same name
/// (ignoring ASCII case), else the only command that begins with it.
pub open spec fn resolution_ok(input: Seq<char>, cmds: Seq<Seq<char>>, r: SlashResolution) -> bool {
    let typed = typed_word(input);
    let norm = normalized_command(typed);
    if typed.len() == 0 || typed == "/"@ {
        r is Nothing
    } else {
        match first_same_name(cmds, norm, 0) {
            Some(k) => r matches SlashResolution::Command(n) && n@ == cmds[k],
            None => {
                let m = prefix_matches(cmds, without_slashes(norm));
                if m.len() == 0 {
                    r is Unknown
                } else if m.len() == 1 {
                    r matches SlashResolution::Command(n) && n@ == m[0]
                } else {
                    r is Ambiguous
                }
            },
        }
    }
}

fn normalized_exec(typed: &str) -> (r: String)
    ensures
        r@ == normalized_command(typed@),
{
    if crate::text::starts_with(typed, "/") {
        to_ascii_lower(typed)
    } else {
        let slashed = concat2("/", typed);
        to_ascii_lower(slashed.as_str())
    }
}

proof fn lemma_first_same_name(cmds: Seq<Seq<char>>, name: Seq<char>, i: int)
    requires
        0 <= i,
    ensures
        first_same_name(cmds, name, i) matches Some(k) ==> i <= k < cmds.len() && ascii_lower(cmds[k])
            == ascii_lower(name),
    decreases cmds.len() - i,
{
    if i < cmds.len() && ascii_lower(cmds[i]) != ascii_lower(name) {
        lemma_first_same_name(cmds, name, i + 1);
    }
}

fn first_same_name_exec(commands: &Vec<String>, name: &String) -> (r: Option<usize>)
    ensures
        r matches Some(k) ==> first_same_name(string_views(commands@), name@, 0) == Some(k as int)
            && k < commands@.len(),
        r is None ==> first_same_name(string_views(commands@), name@, 0) is None,
{
    proof {
        lemma_first_same_name(string_views(commands@), name@, 0);
    }
    let ghost cs = string_views(commands@);
    let target = to_ascii_lower(name.as_str());
    let mut i: usize = 0;
    while i < commands.len()
        invariant
            cs == string_views(commands@),
            target@ == ascii_lower(name@),
            i <= cs.len(),
            first_same_name(cs, name@, 0) == first_same_name(cs, name@, i as int),
        decreases cs.len() - i,
    {
        let lowered = to_ascii_lower(commands[i].as_str());
        if lowered == target {
            return Some(i);
        }
        i = i + 1;
    }
    None
}

fn prefix_matches_exec(commands: &Vec<String>, query: &str) -> (r: Vec<String>)
    ensures
        string_views(r@) == prefix_matches(string_views(commands@), query@),
{
    let ghost cs = string_views(commands@);
    let ghost keep = |c: Seq<char>| query@.is_prefix_of(ascii_lower(without_slashes(c)));
    let mut out: Vec<String> = Vec::new();
    let mut i: usize = 0;
    while i < commands.len()
        invariant
            cs == string_views(commands@),
            keep == (|c: Seq<char>| query@.is_prefix_of(ascii_lower(without_slashes(c)))),
            i <= cs.len(),
            string_views(out@) == cs.take(i as int).filter(keep),
        decreases cs.len() - i,
    {
        proof {
            cs.take(i as int).lemma_filter_push(cs[i as int], keep);
            assert(cs.take(i + 1) =~= cs.take(i as int).push(cs[i as int]));
        }
        let ghost before = out@;
        let lowered = to_ascii_lower(trim_slashes(commands[i].as_str()));
        if is_prefix(query, lowered.as_str()) {
            out.push(commands[i].clone());
            proof {
                assert(string_views(out@) =~= string_views(before).push(cs[i as int]));
            }
        }
        i = i + 1;
    }
    proof {
        assert(cs.take(cs.len() as int) =~= cs);
    }
    out
}

/// What the command typed into `input` resolves to among `commands`.
pub fn resolve_typed_slash_command(input: &str, commands: &Vec<String>) -> (r: SlashResolution)
    ensures
        resolution_ok(input@, string_views(commands@), r),
{
    let typed = match first_word(input) {
        Some(w) => w,
        None => {
            return SlashResolution::Nothing;
        },
    };
    proof {
        reveal_strlit("/");
    }
    if typed.unicode_len() == 0 || owned(typed) == owned("/") {
        return SlashResolution::Nothing;
    }
    let norm = normalized_exec(typed);
    match first_same_name_exec(commands, &norm) {
        Some(k) => {
            proof {
                assert(string_views(commands@)[k as int] == commands@[k as int]@);
            }
            SlashResolution::Command(commands[k].clone())
        },
        None => {
            let m = prefix_matches_exec(commands, trim_slashes(norm.as_str()));
            proof {
                assert(string_views(m@).len() == m@.len());
            }
            if m.len() == 0 {
                SlashResolution::Unknown
            } else if m.len() == 1 {
                proof {
                    assert(string_views(m@)[0] == m@[0]@);
                }
                SlashResolution::Command(m[0].clone())
            } else {
                SlashResolution::Ambiguous
            }
        },
    }
}

/// What running a palette command leads to.
#[derive(Debug)]
pub enum SlashStep {
    /// Show this mode.
    Mode(AppMode),
    /// Toggle Docker for new root agents (the caller inspects and prepares the
    /// runtime and saves the setting).
    ToggleDocker,
    /// Show the changelog of the running version (the caller loads it).
    Changelog,
}

/// What running the command typed into the palette of `old_d` among `cmds` does,
/// giving `new_d` and `r`.
pub open spec fn typed_run(old_d: AppData, new_d: AppData, cmds: Seq<Seq<char>>, r: SlashStep) -> bool {
    let typed = typed_word(old_d.input@);
    let norm = normalized_command(typed);
    if typed.len() == 0 || typed == "/"@ {
        r == SlashStep::Mode(AppMode::Normal) && new_d == old_d
    } else {
        match first_same_name(cmds, norm, 0) {
            Some(k) => command_run(old_d, new_d, cmds[k], r),
            None => {
                let m = prefix_matches(cmds, without_slashes(norm));
                if m.len() == 1 {
                    command_run(old_d, new_d, m[0], r)
                } else {
                    &&& r == SlashStep::Mode(AppMode::Normal)
                    &&& status_is(
                        new_d,
                        (if m.len() == 0 {
                            "Unknown command: "@
                        } else {
                            "Ambiguous command: "@
                        }) + typed,
                    )
                    &&& new_d.storage == old_d.storage
                    &&& new_d.input == old_d.input
                }
            },
        }
    }
}

/// What running the command `name` does to `old_d`, giving `new_d` and `r`.
pub open spec fn command_run(old_d: AppData, new_d: AppData, name: Seq<char>, r: SlashStep) -> bool {
    if name == "/agents"@ {
        r == SlashStep::Mode(AppMode::SettingsMenu) && new_d == (AppData { input: new_d.input, ..old_d })
            && new_d.input@.len() == 0
    } else if name == "/toggle_docker"@ {
        r is ToggleDocker && new_d == old_d
    } else if name == "/changelog"@ {
        r is Changelog && new_d == (AppData { input: new_d.input, ..old_d }) && new_d.input@.len() == 0
    } else if name == "/help"@ {
        r == SlashStep::Mode(AppMode::Help) && new_d == old_d
    } else {
        r == SlashStep::Mode(AppMode::Normal) && status_is(new_d, "Unknown command: "@ + name)
            && new_d.storage == old_d.storage && new_d.input == old_d.input
    }
}

impl AppData {
    /// Run the palette command named `name`.
    pub fn run_slash_command_by_name(&mut self, name: &str) -> (r: SlashStep)
        ensures
            command_run(*old(self), *final(self), name@, r),
    {
        proof {
            reveal_strlit("/agents");
            reveal_strlit("/toggle_docker");
            reveal_strlit("/changelog");
            reveal_strlit("/help");
        }
        let n = owned(name);
        if n == owned("/agents") {
            self.input = String::new();
            SlashStep::Mode(AppMode::SettingsMenu)
        } else if n == owned("/toggle_docker") {
            SlashStep::ToggleDocker
        } else if n == owned("/changelog") {
            self.input = String::new();
            SlashStep::Changelog
        } else if n == owned("/help") {
            SlashStep::Mode(AppMode::Help)
        } else {
            self.set_status(concat2("Unknown command: ", name));
            SlashStep::Mode(AppMode::Normal)
        }
    }

    /// Run the command typed into the palette: the one it resolves to, or report that
    /// none or several match.
    pub fn run_typed_slash_command(&mut self, commands: &Vec<String>) -> (r: SlashStep)
        ensures
            typed_run(*old(self), *final(self), string_views(commands@), r),
    {
        match resolve_typed_slash_command(self.input.as_str(), commands) {
            SlashResolution::Nothing => SlashStep::Mode(AppMode::Normal),
            SlashResolution::Unknown => {
                let typed = match first_word(self.input.as_str()) {
                    Some(w) => owned(w),
                    None => String::new(),
                };
                self.set_status(concat2("Unknown command: ", typed.as_str()));
                SlashStep::Mode(AppMode::Normal)
            },
            SlashResolution::Ambiguous => {
                let typed = match first_word(self.input.as_str()) {
                    Some(w) => owned(w),
                    None => String::new(),
                };
                self.set_status(concat2("Ambiguous command: ", typed.as_str()));
                SlashStep::Mode(AppMode::Normal)
            },
            SlashResolution::Command(name) => self.run_slash_command_by_name(name.as_str()),
        }
    }
}

impl AppData {
    /// Run the highlighted command of the palette, or, when none is highlighted, the
    /// command typed into it.
    pub fn confirm_slash_command_selection(&mut self, commands: &Vec<String>) -> (r: SlashStep)
        ensures
            ({
                let listed = palette_commands(old(self).input@, string_views(commands@));
                if old(self).palette_selected < listed.len() {
                    command_run(*old(self), *final(self), listed[old(self).palette_selected as int], r)
                } else {
                    typed_run(*old(self), *final(self), string_views(commands@), r)
                }
            }),
    {
        let listed = self.filtered_slash_commands(commands);
        if self.palette_selected < listed.len() {
            proof {
                assert(string_views(listed@)[self.palette_selected as int] == listed@[self.palette_selected as int]@);
            }
            let name = listed[self.palette_selected].clone();
            self.run_slash_command_by_name(name.as_str())
        } else {
            self.run_typed_slash_command(commands)
        }
    }

    /// Run the command typed into the palette, whatever is highlighted.
    pub fn submit_slash_command_palette(&mut self, commands: &Vec<String>) -> (r: SlashStep)
        ensures
            typed_run(*old(self), *final(self), string_views(commands@), r),
    {
        self.run_typed_slash_command(commands)
    }
}

} // verus!
