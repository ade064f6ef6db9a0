use vstd::prelude::*;

use crate::text::{spec_trim, str_eq, trim};

verus! {

/// The keyword that ends an interactive session, compared exactly after
/// trimming white-space.
pub open spec fn exit_word() -> Seq<char> {
    "exit"@
}

/// The two states of the interactive loop: waiting for a command, or done.
#[derive(Debug, Clone, Copy, PartialEq, Eq, Structural)]
pub enum ShellState {
    Prompting,
    Terminated,
}

/// The loop's transition on one line of input. The next state depends on
/// the line alone — never on whether the command the line named succeeded —
/// so a failing command leaves the session prompting, and only the exit
/// keyword ends it.
pub open spec fn spec_shell_step(st: ShellState, line: Seq<char>) -> ShellState {
    match st {
        ShellState::Terminated => ShellState::Terminated,
        ShellState::Prompting => if spec_trim(line) == exit_word() {
            ShellState::Terminated
        } else {
            ShellState::Prompting
        },
    }
}

/// Reads one line of input: hands back the next state and, when the session
/// goes on, the trimmed selector token to run.
pub fn shell_step<'a>(st: ShellState, line: &'a str) -> (r: (ShellState, Option<&'a str>))
    ensures
        r.0 == spec_shell_step(st, line@),
        match r.1 {
            Some(t) => st is Prompting && spec_trim(line@) != exit_word() && t@ == spec_trim(
                line@,
            ),
            None => st is Terminated || spec_trim(line@) == exit_word(),
        },
{
    match st {
        ShellState::Terminated => (ShellState::Terminated, None),
        ShellState::Prompting => {
            let t = trim(line);
            if str_eq(t, "exit") {
                (ShellState::Terminated, None)
            } else {
                (ShellState::Prompting, Some(t))
            }
        },
    }
}

/// Entering an invalid token twice in a row does not terminate the session:
/// any two lines that do not trim to the exit keyword — whatever their
/// commands then do — leave the shell prompting.
pub proof fn lemma_bad_input_keeps_prompting(l1: Seq<char>, l2: Seq<char>)
    requires
        spec_trim(l1) != exit_word(),
        spec_trim(l2) != exit_word(),
    ensures
        spec_shell_step(spec_shell_step(ShellState::Prompting, l1), l2) is Prompting,
{
}

/// Entering the exit keyword terminates the session cleanly: the shell
/// stops, and no later line brings it back.
pub proof fn lemma_exit_terminates(l: Seq<char>, later: Seq<char>)
    requires
        spec_trim(l) == exit_word(),
    ensures
        spec_shell_step(ShellState::Prompting, l) is Terminated,
        spec_shell_step(spec_shell_step(ShellState::Prompting, l), later) is Terminated,
{
}

} // verus!
