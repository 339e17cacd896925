//! The terminal that shows an SSH session: the script handed to Terminal on
//! macOS, and the emulators tried in turn on Linux.

use vstd::prelude::*;
use crate::model::strings_view;
use crate::text::{concat2, owned};

verus! {

// ---------------------------------------------------------------- macOS

/// The hexadecimal digit for `d`, in lower case.
pub open spec fn hex_digit(d: int) -> char {
    if d < 10 {
        (48 + d) as char
    } else {
        (87 + d) as char
    }
}

/// How one character is written inside a JSON string literal: the quote
/// and the backslash behind a backslash, the control characters with a
/// short escape where JSON has one and as `\u00xx` otherwise, every other
/// character as itself.
pub open spec fn json_escape_char(c: char) -> Seq<char> {
    if c == '"' {
        seq!['\\', '"']
    } else if c == '\\' {
        seq!['\\', '\\']
    } else if c == '\u{8}' {
        seq!['\\', 'b']
    } else if c == '\t' {
        seq!['\\', 't']
    } else if c == '\n' {
        seq!['\\', 'n']
    } else if c == '\u{c}' {
        seq!['\\', 'f']
    } else if c == '\r' {
        seq!['\\', 'r']
    } else if (c as u32) < 0x20 {
        seq!['\\', 'u', '0', '0', hex_digit((c as u32) as int / 16), hex_digit((c as u32) as int % 16)]
    } else {
        seq![c]
    }
}

/// The characters of `s`, each written as in a JSON string literal.
pub open spec fn json_escaped(s: Seq<char>) -> Seq<char>
    decreases s.len(),
{
    if s.len() == 0 {
        Seq::empty()
    } else {
        json_escaped(s.drop_last()) + json_escape_char(s.last())
    }
}

/// The JSON string literal of `s`.
pub open spec fn json_quoted(s: Seq<char>) -> Seq<char> {
    seq!['"'] + json_escaped(s) + seq!['"']
}

/// `serde_json::to_string` on a string slice: its JSON string literal, with
/// the escapes of serde_json's escape table. Writing into a `Vec` cannot
/// fail, so neither can this.
#[verifier::external_body]
fn encode_json_string(value: &str) -> (r: Option<String>)
    ensures
        r is Some,
        r is Some ==> r->0@ == json_quoted(value@),
{
    serde_json::to_string(value).ok()
}

/// The JSON literal of `value` (the empty literal `""` should serde_json
/// ever fail).
pub fn json_string(value: &str) -> (r: String)
    ensures
        r@ == json_quoted(value@),
{
    match encode_json_string(value) {
        Some(s) => s,
        None => owned("\"\""),
    }
}

/// The AppleScript that makes Terminal run `command`.
pub fn macos_terminal_script(command: &str) -> (r: String)
    ensures
        r@ == "tell application \"Terminal\" to do script "@ + json_quoted(command@),
{
    let quoted = json_string(command);
    concat2("tell application \"Terminal\" to do script ", quoted.as_str())
}

// ---------------------------------------------------------------- Linux

/// The shell script a Linux terminal runs: `command`, then a prompt that
/// keeps the window open.
pub fn linux_shell_command(command: &str) -> (r: String)
    ensures
        r@ == command@ + "; printf '\\nCommand finished. Press Enter to close.'; read _"@,
{
    concat2(command, "; printf '\\nCommand finished. Press Enter to close.'; read _")
}

/// A terminal emulator and the arguments before the script it runs.
#[derive(Debug, Clone)]
pub struct TerminalCandidate {
    pub program: String,
    pub args: Vec<String>,
}

fn candidate(program: &str, a: &str, b: &str, c: &str) -> (r: TerminalCandidate)
    ensures
        r.program@ == program@,
        strings_view(r.args@) == seq![a@, b@, c@],
{
    let mut args: Vec<String> = Vec::new();
    args.push(owned(a));
    args.push(owned(b));
    args.push(owned(c));
    assert(strings_view(args@) =~= seq![a@, b@, c@]);
    TerminalCandidate { program: owned(program), args }
}

/// The terminal emulators tried on Linux, in order.
pub fn linux_terminals() -> (r: Vec<TerminalCandidate>)
    ensures
        r@.len() == 5,
        r@[0].program@ == "x-terminal-emulator"@,
        strings_view(r@[0].args@) == seq!["-e"@, "sh"@, "-lc"@],
        r@[1].program@ == "gnome-terminal"@,
        strings_view(r@[1].args@) == seq!["--"@, "sh"@, "-lc"@],
        r@[2].program@ == "kgx"@,
        strings_view(r@[2].args@) == seq!["--"@, "sh"@, "-lc"@],
        r@[3].program@ == "konsole"@,
        strings_view(r@[3].args@) == seq!["-e"@, "sh"@, "-lc"@],
        r@[4].program@ == "xterm"@,
        strings_view(r@[4].args@) == seq!["-e"@, "sh"@, "-lc"@],
{
    let mut r: Vec<TerminalCandidate> = Vec::new();
    r.push(candidate("x-terminal-emulator", "-e", "sh", "-lc"));
    r.push(candidate("gnome-terminal", "--", "sh", "-lc"));
    r.push(candidate("kgx", "--", "sh", "-lc"));
    r.push(candidate("konsole", "-e", "sh", "-lc"));
    r.push(candidate("xterm", "-e", "sh", "-lc"));
    r
}

/// How starting a terminal emulator went.
#[derive(Debug, Clone, Copy, PartialEq, Eq)]
pub enum SpawnOutcome {
    Spawned,
    NotFound,
    Failed,
}

/// What to do after trying a terminal emulator.
#[derive(Debug, Clone, Copy, PartialEq, Eq)]
pub enum TerminalStep {
    /// The session is open.
    Opened,
    /// Try the emulator at this index.
    Try(usize),
    /// Report the error of the last attempt.
    Fail,
    /// No emulator is installed.
    NoneFound,
}

/// The first step of the search among `count` emulators.
pub fn first_terminal_step(count: usize) -> (r: TerminalStep)
    ensures
        r == if count > 0 {
            TerminalStep::Try(0)
        } else {
            TerminalStep::NoneFound
        },
{
    if count > 0 {
        TerminalStep::Try(0)
    } else {
        TerminalStep::NoneFound
    }
}

/// The step after trying emulator `tried` of `count`: a missing emulator
/// moves on to the next, any other error ends the search.
pub fn next_terminal_step(tried: usize, count: usize, outcome: SpawnOutcome) -> (r: TerminalStep)
    requires
        tried < count,
    ensures
        r == match outcome {
            SpawnOutcome::Spawned => TerminalStep::Opened,
            SpawnOutcome::Failed => TerminalStep::Fail,
            SpawnOutcome::NotFound => if tried + 1 < count {
                TerminalStep::Try((tried + 1) as usize)
            } else {
                TerminalStep::NoneFound
            },
        },
{
    match outcome {
        SpawnOutcome::Spawned => TerminalStep::Opened,
        SpawnOutcome::Failed => TerminalStep::Fail,
        SpawnOutcome::NotFound => if tried + 1 < count {
            TerminalStep::Try(tried + 1)
        } else {
            TerminalStep::NoneFound
        },
    }
}

/// The error when no terminal emulator is installed.
pub fn no_terminal_message() -> (r: String)
    ensures
        r@ == "No supported terminal emulator found. Install x-terminal-emulator, gnome-terminal, kgx, konsole, xfce4-terminal, or xterm."@,
{
    owned(
        "No supported terminal emulator found. Install x-terminal-emulator, gnome-terminal, kgx, konsole, xfce4-terminal, or xterm.",
    )
}

} // verus!
