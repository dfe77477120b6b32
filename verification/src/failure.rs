//! The ways in which a run fails, with the message and the exit code of each.

use vstd::prelude::*;

verus! {

/// Exit code of a run that succeeded.
pub const EXIT_SUCCESS: i32 = 0;

/// Exit code for a manifest that is missing or malformed.
pub const EXIT_MANIFEST: i32 = 78;

/// Exit code for a script name that the manifest does not declare.
pub const EXIT_SCRIPT_NOT_FOUND: i32 = 127;

/// Exit code for a script that a signal ended.
pub const EXIT_SIGNAL: i32 = 128;

/// Why a run failed.
#[derive(Debug, Clone, Copy, PartialEq, Eq, Structural)]
pub enum Failure {
    /// no manifest file at the expected path
    ManifestNotFound,
    /// the manifest is no valid document, or declares no table of scripts
    ManifestMalformed,
    /// the manifest declares no script of the name that was asked for
    ScriptNotFound,
    /// the script ran and ended with a code other than zero
    ScriptExecutionFailed { code: i32 },
    /// a signal ended the script, so that it has no exit code
    ScriptTerminatedBySignal,
}

impl Failure {
    /// The exit code that reports this failure: the script's own code where
    /// it has one, and a fixed code for each other failure.
    pub open spec fn exit_code_spec(self) -> i32 {
        match self {
            Failure::ManifestNotFound => EXIT_MANIFEST,
            Failure::ManifestMalformed => EXIT_MANIFEST,
            Failure::ScriptNotFound => EXIT_SCRIPT_NOT_FOUND,
            Failure::ScriptExecutionFailed { code } => code,
            Failure::ScriptTerminatedBySignal => EXIT_SIGNAL,
        }
    }

    /// The message that describes this failure.
    pub open spec fn message_spec(self) -> Seq<char> {
        match self {
            Failure::ManifestNotFound => "manifest not found"@,
            Failure::ManifestMalformed =>
                "expected the manifest to contain a package.metadata.scripts or workspace.metadata.scripts table"@,
            Failure::ScriptNotFound => "script name is invalid"@,
            Failure::ScriptExecutionFailed { code } => "script ended with error code"@,
            Failure::ScriptTerminatedBySignal => "script ended with exit signal"@,
        }
    }

    /// The exit code that reports this failure.
    #[verifier::when_used_as_spec(exit_code_spec)]
    pub fn exit_code(self) -> (code: i32)
        ensures
            code == self.exit_code_spec(),
    {
        match self {
            Failure::ManifestNotFound => EXIT_MANIFEST,
            Failure::ManifestMalformed => EXIT_MANIFEST,
            Failure::ScriptNotFound => EXIT_SCRIPT_NOT_FOUND,
            Failure::ScriptExecutionFailed { code } => code,
            Failure::ScriptTerminatedBySignal => EXIT_SIGNAL,
        }
    }

    /// The message that describes this failure.
    pub fn message(self) -> (text: &'static str)
        ensures
            text@ == self.message_spec(),
    {
        match self {
            Failure::ManifestNotFound => "manifest not found",
            Failure::ManifestMalformed =>
                "expected the manifest to contain a package.metadata.scripts or workspace.metadata.scripts table",
            Failure::ScriptNotFound => "script name is invalid",
            Failure::ScriptExecutionFailed { code } => "script ended with error code",
            Failure::ScriptTerminatedBySignal => "script ended with exit signal",
        }
    }
}

/// No failure is reported with the code of success, but a script that is
/// said to have failed with code zero; and a missing script, a bad
/// manifest and an end by signal are told apart by their codes.
pub proof fn lemma_failure_codes(failure: Failure)
    ensures
        failure.exit_code_spec() == EXIT_SUCCESS <==> failure == (Failure::ScriptExecutionFailed {
            code: 0,
        }),
        EXIT_MANIFEST != EXIT_SCRIPT_NOT_FOUND,
        EXIT_MANIFEST != EXIT_SIGNAL,
        EXIT_SCRIPT_NOT_FOUND != EXIT_SIGNAL,
{
}

} // verus!
