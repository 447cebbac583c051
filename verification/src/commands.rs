//! The interactive session's command grammar. One line of input either
//! addresses the session itself — quitting, clearing or switching history,
//! changing the system prompt, model, streaming mode or tools mode — or is
//! a plain message for the model. Parsing is pure and specified exactly;
//! the read-print loop around it stays outside.
use vstd::prelude::*;
use vstd::string::*;

use crate::strutil::{starts_with, spec_starts_with, str_eq, string_from_chars};

verus! {

/// What one line of input asks for.
pub enum ChatCommand {
    /// End the session.
    Quit,
    /// Clear the in-memory history.
    Clear,
    /// Start a new session, under the given identifier if one was named.
    NewSession { id: Option<String> },
    /// Switch to the named session; without a name the line is incomplete
    /// and only usage help is owed.
    SwitchSession { id: Option<String> },
    /// Show the current session, model and streaming mode.
    Status,
    /// Replace the system prompt.
    SetSystem { prompt: String },
    /// List the registered tools.
    ToolsList,
    /// Enter tools mode.
    ToolsOn,
    /// Show tool usage examples.
    ToolsHelp,
    /// List the provider's models.
    ListModels,
    /// Bind another model, by menu number or name; without an argument
    /// the line is incomplete and only usage help is owed.
    SetModel { arg: Option<String> },
    /// Turn streaming on or off.
    SetStream { on: bool },
    /// Prompt for provider credentials.
    Keys,
    /// A plain message for the model.
    Say { text: String },
}

/// Whether `b` is `a` lowered: the same character, or `a` is an upper-case
/// letter and `b` its lower-case form.
pub open spec fn spec_lower_pair(a: char, b: char) -> bool {
    a == b || (65 <= a as u32 <= 90 && b as u32 == a as u32 + 32)
}

/// Whether `s` spells `t` up to letter case, `t` given lower-case.
pub open spec fn spec_eq_lowered(s: Seq<char>, t: Seq<char>) -> bool {
    s.len() == t.len() && forall|i: int| 0 <= i < s.len() ==> spec_lower_pair(s[i], #[trigger] t[i])
}

/// Whether `s` spells the lower-case word `t` up to letter case.
pub fn eq_lowered(s: &str, t: &str) -> (r: bool)
    ensures
        r == spec_eq_lowered(s@, t@),
{
    let ns = s.unicode_len();
    let nt = t.unicode_len();
    if ns != nt {
        return false;
    }
    let mut i: usize = 0;
    while i < ns
        invariant
            ns == s@.len(),
            ns == t@.len(),
            i <= ns,
            forall|j: int| 0 <= j < i ==> spec_lower_pair(s@[j], #[trigger] t@[j]),
        decreases ns - i,
    {
        let a = s.get_char(i);
        let b = t.get_char(i);
        let pair = a == b || (65 <= a as u32 && a as u32 <= 90 && b as u32 == a as u32 + 32);
        if !pair {
            proof {
                assert(!spec_lower_pair(s@[i as int], t@[i as int]));
            }
            return false;
        }
        i = i + 1;
    }
    true
}

/// Whether a character separates tokens.
pub open spec fn spec_is_ws(c: char) -> bool {
    c == ' ' || c == '\t' || c == '\n' || c == '\r'
}

fn is_ws(c: char) -> (r: bool)
    ensures
        r == spec_is_ws(c),
{
    c == ' ' || c == '\t' || c == '\n' || c == '\r'
}

/// The first position at or after `i` holding a non-separator, or the end.
pub open spec fn spec_skip_ws(s: Seq<char>, i: int) -> int
    decreases s.len() - i,
{
    if i < 0 || i >= s.len() || !spec_is_ws(s[i]) {
        i
    } else {
        spec_skip_ws(s, i + 1)
    }
}

/// The first position at or after `i` holding a separator, or the end.
pub open spec fn spec_skip_token(s: Seq<char>, i: int) -> int
    decreases s.len() - i,
{
    if i < 0 || i >= s.len() || spec_is_ws(s[i]) {
        i
    } else {
        spec_skip_token(s, i + 1)
    }
}

/// The second whitespace-separated token of `s`, if `s` has one.
pub open spec fn spec_second_token(s: Seq<char>) -> Option<Seq<char>> {
    let a = spec_skip_ws(s, 0);
    let b = spec_skip_token(s, a);
    let c = spec_skip_ws(s, b);
    let d = spec_skip_token(s, c);
    if c >= s.len() {
        None
    } else {
        Some(s.subrange(c, d))
    }
}

proof fn lemma_skip_ws_bounds(s: Seq<char>, i: int)
    requires
        0 <= i <= s.len(),
    ensures
        i <= spec_skip_ws(s, i) <= s.len(),
    decreases s.len() - i,
{
    if i < s.len() && spec_is_ws(s[i]) {
        lemma_skip_ws_bounds(s, i + 1);
    }
}

proof fn lemma_skip_token_bounds(s: Seq<char>, i: int)
    requires
        0 <= i <= s.len(),
    ensures
        i <= spec_skip_token(s, i) <= s.len(),
    decreases s.len() - i,
{
    if i < s.len() && !spec_is_ws(s[i]) {
        lemma_skip_token_bounds(s, i + 1);
    }
}

fn skip_ws(s: &str, from: usize) -> (r: usize)
    requires
        from <= s@.len(),
    ensures
        r as int == spec_skip_ws(s@, from as int),
        from <= r <= s@.len(),
{
    let n = s.unicode_len();
    let mut i: usize = from;
    while i < n
        invariant
            n == s@.len(),
            from <= i <= n,
            spec_skip_ws(s@, from as int) == spec_skip_ws(s@, i as int),
        decreases n - i,
    {
        if !is_ws(s.get_char(i)) {
            return i;
        }
        i = i + 1;
    }
    i
}

fn skip_token(s: &str, from: usize) -> (r: usize)
    requires
        from <= s@.len(),
    ensures
        r as int == spec_skip_token(s@, from as int),
        from <= r <= s@.len(),
{
    let n = s.unicode_len();
    let mut i: usize = from;
    while i < n
        invariant
            n == s@.len(),
            from <= i <= n,
            spec_skip_token(s@, from as int) == spec_skip_token(s@, i as int),
        decreases n - i,
    {
        if is_ws(s.get_char(i)) {
            return i;
        }
        i = i + 1;
    }
    i
}

/// The characters of `s` from `from` up to `to`, as a `String`.
fn substring(s: &str, from: usize, to: usize) -> (r: String)
    requires
        from <= to <= s@.len(),
    ensures
        r@ == s@.subrange(from as int, to as int),
{
    let mut out: Vec<char> = Vec::new();
    let mut i: usize = from;
    while i < to
        invariant
            from <= i <= to <= s@.len(),
            out@ == s@.subrange(from as int, i as int),
        decreases to - i,
    {
        out.push(s.get_char(i));
        proof {
            assert(out@ =~= s@.subrange(from as int, i as int + 1));
        }
        i = i + 1;
    }
    string_from_chars(&out)
}

/// The second whitespace-separated token of `s`, if `s` has one.
pub fn second_token(s: &str) -> (r: Option<String>)
    ensures
        match r {
            Some(t) => spec_second_token(s@) == Some(t@),
            None => spec_second_token(s@) is None,
        },
{
    let a = skip_ws(s, 0);
    let b = skip_token(s, a);
    let c = skip_ws(s, b);
    let d = skip_token(s, c);
    if c >= s.unicode_len() {
        None
    } else {
        Some(substring(s, c, d))
    }
}

/// Everything after the leading word `prefix`, which `s` must start with.
fn after_prefix(s: &str, prefix: &str) -> (r: String)
    requires
        spec_starts_with(s@, prefix@),
    ensures
        r@ == s@.skip(prefix@.len() as int),
{
    let n = s.unicode_len();
    let p = prefix.unicode_len();
    let r = substring(s, p, n);
    proof {
        assert(s@.subrange(p as int, n as int) =~= s@.skip(p as int));
    }
    r
}

/// Whether a `:stream` argument turns streaming on: the words `on`,
/// `true` or `1`, up to letter case.
pub open spec fn spec_stream_on(t: Option<Seq<char>>) -> bool {
    match t {
        Some(v) => spec_eq_lowered(v, "on"@) || spec_eq_lowered(v, "true"@) || spec_eq_lowered(
            v,
            "1"@,
        ),
        None => false,
    }
}

pub ghost enum ChatCommandView {
    Quit,
    Clear,
    NewSession { id: Option<Seq<char>> },
    SwitchSession { id: Option<Seq<char>> },
    Status,
    SetSystem { prompt: Seq<char> },
    ToolsList,
    ToolsOn,
    ToolsHelp,
    ListModels,
    SetModel { arg: Option<Seq<char>> },
    SetStream { on: bool },
    Keys,
    Say { text: Seq<char> },
}

impl View for ChatCommand {
    type V = ChatCommandView;

    open spec fn view(&self) -> ChatCommandView {
        match self {
            ChatCommand::Quit => ChatCommandView::Quit,
            ChatCommand::Clear => ChatCommandView::Clear,
            ChatCommand::NewSession { id } => ChatCommandView::NewSession {
                id: match id {
                    Some(v) => Some(v@),
                    None => None,
                },
            },
            ChatCommand::SwitchSession { id } => ChatCommandView::SwitchSession {
                id: match id {
                    Some(v) => Some(v@),
                    None => None,
                },
            },
            ChatCommand::Status => ChatCommandView::Status,
            ChatCommand::SetSystem { prompt } => ChatCommandView::SetSystem { prompt: prompt@ },
            ChatCommand::ToolsList => ChatCommandView::ToolsList,
            ChatCommand::ToolsOn => ChatCommandView::ToolsOn,
            ChatCommand::ToolsHelp => ChatCommandView::ToolsHelp,
            ChatCommand::ListModels => ChatCommandView::ListModels,
            ChatCommand::SetModel { arg } => ChatCommandView::SetModel {
                arg: match arg {
                    Some(v) => Some(v@),
                    None => None,
                },
            },
            ChatCommand::SetStream { on } => ChatCommandView::SetStream { on: *on },
            ChatCommand::Keys => ChatCommandView::Keys,
            ChatCommand::Say { text } => ChatCommandView::Say { text: text@ },
        }
    }
}

/// What one line of input asks for — the session commands in their fixed
/// precedence, and everything else a plain message. The line arrives
/// already trimmed; an empty line never reaches the parser.
pub open spec fn spec_parse_command(s: Seq<char>) -> ChatCommandView {
    if spec_eq_lowered(s, "exit"@) || spec_eq_lowered(s, "quit"@) {
        ChatCommandView::Quit
    } else if spec_eq_lowered(s, "clear"@) {
        ChatCommandView::Clear
    } else if spec_starts_with(s, ":new"@) {
        ChatCommandView::NewSession { id: spec_second_token(s) }
    } else if spec_starts_with(s, ":session "@) {
        ChatCommandView::SwitchSession { id: spec_second_token(s) }
    } else if s == ":status"@ {
        ChatCommandView::Status
    } else if spec_starts_with(s, "system "@) {
        ChatCommandView::SetSystem { prompt: s.skip("system "@.len() as int) }
    } else if s == ":tools list"@ {
        ChatCommandView::ToolsList
    } else if spec_starts_with(s, ":model "@) {
        ChatCommandView::SetModel { arg: spec_second_token(s) }
    } else if s == ":models"@ {
        ChatCommandView::ListModels
    } else if s == ":tools on"@ {
        ChatCommandView::ToolsOn
    } else if s == ":keys"@ {
        ChatCommandView::Keys
    } else if s == ":tools help"@ {
        ChatCommandView::ToolsHelp
    } else if spec_starts_with(s, ":stream "@) {
        ChatCommandView::SetStream { on: spec_stream_on(spec_second_token(s)) }
    } else {
        ChatCommandView::Say { text: s }
    }
}

/// Parse one trimmed input line.
pub fn parse_command(s: &str) -> (c: ChatCommand)
    ensures
        c@ == spec_parse_command(s@),
{
    if eq_lowered(s, "exit") || eq_lowered(s, "quit") {
        ChatCommand::Quit
    } else if eq_lowered(s, "clear") {
        ChatCommand::Clear
    } else if starts_with(s, ":new") {
        ChatCommand::NewSession { id: second_token(s) }
    } else if starts_with(s, ":session ") {
        ChatCommand::SwitchSession { id: second_token(s) }
    } else if str_eq(s, ":status") {
        ChatCommand::Status
    } else if starts_with(s, "system ") {
        ChatCommand::SetSystem { prompt: after_prefix(s, "system ") }
    } else if str_eq(s, ":tools list") {
        ChatCommand::ToolsList
    } else if starts_with(s, ":model ") {
        ChatCommand::SetModel { arg: second_token(s) }
    } else if str_eq(s, ":models") {
        ChatCommand::ListModels
    } else if str_eq(s, ":tools on") {
        ChatCommand::ToolsOn
    } else if str_eq(s, ":keys") {
        ChatCommand::Keys
    } else if str_eq(s, ":tools help") {
        ChatCommand::ToolsHelp
    } else if starts_with(s, ":stream ") {
        let on = match second_token(s) {
            Some(v) => eq_lowered(v.as_str(), "on") || eq_lowered(v.as_str(), "true")
                || eq_lowered(v.as_str(), "1"),
            None => false,
        };
        ChatCommand::SetStream { on }
    } else {
        ChatCommand::Say { text: String::from_str(s) }
    }
}

} // verus!
