//! The shell's decisions: how one decoded key edits the input line, and
//! what a completed command line asks the shell to do. The suspend/resume
//! loop around these decisions lives with the task scheduler, outside this
//! library.

use vstd::prelude::*;

use crate::keys::KeyPress;

verus! {

/// What the shell does with one decoded key.
#[derive(Debug, Clone, Copy, PartialEq, Eq, Structural)]
pub enum LineAction {
    /// The character was appended to the line and should be echoed.
    Echoed(char),
    /// The last character was erased and the console cell blanked.
    Erased,
    /// The line is complete and should be dispatched.
    Submitted,
    /// The key changed nothing.
    Ignored,
}

/// Applies one decoded key to the input line: backspace erases the last
/// character when there is one, a newline submits the line, any other
/// character is appended and echoed, and named keys are ignored.
pub fn line_step(line: &mut Vec<char>, key: KeyPress) -> (r: LineAction)
    ensures
        match key {
            KeyPress::Char(c) => {
                if c == '\u{8}' {
                    if old(line)@.len() > 0 {
                        final(line)@ == old(line)@.drop_last() && r == LineAction::Erased
                    } else {
                        final(line)@ == old(line)@ && r == LineAction::Ignored
                    }
                } else if c == '\n' {
                    final(line)@ == old(line)@ && r == LineAction::Submitted
                } else {
                    final(line)@ == old(line)@.push(c) && r == LineAction::Echoed(c)
                }
            },
            KeyPress::Raw(_) => final(line)@ == old(line)@ && r == LineAction::Ignored,
        },
{
    match key {
        KeyPress::Char(c) => {
            if c == '\u{8}' {
                if line.len() > 0 {
                    line.pop();
                    LineAction::Erased
                } else {
                    LineAction::Ignored
                }
            } else if c == '\n' {
                LineAction::Submitted
            } else {
                line.push(c);
                LineAction::Echoed(c)
            }
        },
        KeyPress::Raw(_) => LineAction::Ignored,
    }
}

/// What the shell answers to a completed command line.
#[derive(Debug, Clone, Copy, PartialEq, Eq, Structural)]
pub enum ShellReply {
    /// An empty line: nothing to do.
    Empty,
    /// The command list should be printed.
    Help,
    /// The console should be cleared.
    Clear,
    /// The command is unknown and should be reported as not found.
    NotFound,
}

/// The shell's answer to a command line: the empty line does nothing,
/// `help` and `clear` are the two known commands, and anything else is not
/// found.
pub open spec fn dispatch_spec(command: Seq<char>) -> ShellReply {
    if command.len() == 0 {
        ShellReply::Empty
    } else if command == "help"@ {
        ShellReply::Help
    } else if command == "clear"@ {
        ShellReply::Clear
    } else {
        ShellReply::NotFound
    }
}

/// Whether a line of characters spells exactly the given string.
fn chars_eq(line: &Vec<char>, s: &str) -> (r: bool)
    ensures
        r == (line@ == s@),
{
    let n = s.unicode_len();
    if line.len() != n {
        proof {
            assert(line@.len() != s@.len());
        }
        return false;
    }
    let mut i: usize = 0;
    while i < n
        invariant
            i <= n,
            n == s@.len(),
            line@.len() == n,
            forall|j: int| 0 <= j < i ==> line@[j] == s@[j],
        decreases n - i,
    {
        if line[i] != s.get_char(i) {
            return false;
        }
        i = i + 1;
    }
    proof {
        assert(line@ =~= s@);
    }
    true
}

/// Decides what a completed command line asks for.
pub fn dispatch(command: &Vec<char>) -> (r: ShellReply)
    ensures
        r == dispatch_spec(command@),
{
    if command.len() == 0 {
        ShellReply::Empty
    } else if chars_eq(command, "help") {
        ShellReply::Help
    } else if chars_eq(command, "clear") {
        ShellReply::Clear
    } else {
        ShellReply::NotFound
    }
}

} // verus!
