//! The shell that runs a command line, and what its exit status means.

use vstd::prelude::*;
use vstd::string::*;
use crate::failure::{Failure, EXIT_SIGNAL, EXIT_SUCCESS};
use crate::invocation::ResolvedInvocation;
use crate::text::texts;

verus! {

/// The two shells that can run a script.
#[derive(Debug, Clone, Copy, PartialEq, Eq, Structural)]
pub enum ShellKind {
    /// `sh -c`
    Posix,
    /// `cmd /C`
    Windows,
}

/// The words that start `kind` on `command_line`: the program, the switch
/// that makes it run one command, and the command as one word.
pub open spec fn shell_words(kind: ShellKind, command_line: Seq<char>) -> Seq<Seq<char>> {
    match kind {
        ShellKind::Posix => seq!["sh"@, "-c"@, command_line],
        ShellKind::Windows => seq!["cmd"@, "/C"@, command_line],
    }
}

/// The program and arguments that run `invocation` in a shell of `kind`.
/// The whole command line is the one and last argument.
pub fn shell_command(kind: ShellKind, invocation: &ResolvedInvocation) -> (words: Vec<String>)
    ensures
        texts(words@) == shell_words(kind, invocation.shell_command_line@),
{
    let mut words: Vec<String> = Vec::new();
    match kind {
        ShellKind::Posix => {
            words.push(String::from_str("sh"));
            words.push(String::from_str("-c"));
        },
        ShellKind::Windows => {
            words.push(String::from_str("cmd"));
            words.push(String::from_str("/C"));
        },
    }
    words.push(invocation.shell_command_line.clone());
    assert(texts(words@) =~= shell_words(kind, invocation.shell_command_line@));
    words
}

/// How a child process ended.
#[derive(Debug, Clone, Copy, PartialEq, Eq, Structural)]
pub enum ExitOutcome {
    /// it exited with code zero
    Success,
    /// it exited with this code, which is not zero
    FailureCode(i32),
    /// a signal ended it
    TerminatedBySignal,
}

/// The outcome that an exit code stands for; a process that a signal ended
/// has no code.
pub open spec fn exit_outcome(code: Option<i32>) -> ExitOutcome {
    match code {
        Some(c) => if c == 0 {
            ExitOutcome::Success
        } else {
            ExitOutcome::FailureCode(c)
        },
        None => ExitOutcome::TerminatedBySignal,
    }
}

/// The result of a run whose child ended with `outcome`.
pub open spec fn verdict(outcome: ExitOutcome) -> Result<(), Failure> {
    match outcome {
        ExitOutcome::Success => Ok(()),
        ExitOutcome::FailureCode(code) => Err(Failure::ScriptExecutionFailed { code }),
        ExitOutcome::TerminatedBySignal => Err(Failure::ScriptTerminatedBySignal),
    }
}

/// The exit code of a run with this result.
pub open spec fn exit_status(result: Result<(), Failure>) -> i32 {
    match result {
        Ok(_) => EXIT_SUCCESS,
        Err(failure) => failure.exit_code_spec(),
    }
}

/// Tells how a child ended from the exit code that the system reports.
pub fn outcome_of(code: Option<i32>) -> (outcome: ExitOutcome)
    ensures
        outcome == exit_outcome(code),
{
    match code {
        Some(c) => if c == 0 {
            ExitOutcome::Success
        } else {
            ExitOutcome::FailureCode(c)
        },
        None => ExitOutcome::TerminatedBySignal,
    }
}

/// Turns the end of the child into the result of the run: a code other
/// than zero and an end by signal are failures of their own kinds.
pub fn judge(outcome: ExitOutcome) -> (r: Result<(), Failure>)
    ensures
        r == verdict(outcome),
{
    match outcome {
        ExitOutcome::Success => Ok(()),
        ExitOutcome::FailureCode(code) => Err(Failure::ScriptExecutionFailed { code }),
        ExitOutcome::TerminatedBySignal => Err(Failure::ScriptTerminatedBySignal),
    }
}

/// The exit code with which the tool reports `result`.
pub fn exit_code_of(result: Result<(), Failure>) -> (code: i32)
    ensures
        code == exit_status(result),
{
    match result {
        Ok(_) => EXIT_SUCCESS,
        Err(failure) => failure.exit_code(),
    }
}

/// The tool ends as its child did: with zero exactly where the child
/// exited with zero, with the child's own code where that is not zero, and
/// with the code for signals where the child has none.
pub proof fn lemma_exit_code_is_propagated(code: Option<i32>)
    ensures
        exit_status(verdict(exit_outcome(code))) == (match code {
            Some(c) => c,
            None => EXIT_SIGNAL,
        }),
        exit_status(verdict(exit_outcome(code))) == 0 <==> code == Some(0i32),
{
}

} // verus!
