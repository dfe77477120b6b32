use cargo_run_script::failure::{
    Failure, EXIT_MANIFEST, EXIT_SCRIPT_NOT_FOUND, EXIT_SIGNAL, EXIT_SUCCESS,
};
use cargo_run_script::invocation::ResolvedInvocation;
use cargo_run_script::manifest::parse_toml;
use cargo_run_script::runner::{plan, Step};
use cargo_run_script::script_table::ScriptTable;
use cargo_run_script::shell::{
    exit_code_of, judge, outcome_of, shell_command, ExitOutcome, ShellKind,
};

fn strings(items: &[&str]) -> Vec<String> {
    items.iter().map(|s| s.to_string()).collect()
}

fn table(pairs: &[(&str, &str)]) -> ScriptTable {
    let mut table = ScriptTable::new();
    for (name, body) in pairs {
        table.insert(name.to_string(), body.to_string());
    }
    table
}

fn command_line(step: Step) -> String {
    match step {
        Step::Run { invocation } => invocation.shell_command_line,
        other => panic!("expected a script to run, got {:?}", other),
    }
}

#[test]
fn plan_runs_hello_with_world() {
    let scripts = table(&[("hello", "echo hi $1")]);
    let step = plan(&scripts, &strings(&["tool", "hello", "world"]));
    assert_eq!(step.settled_exit(), None);
    assert_eq!(command_line(step), "echo hi world");
    assert_eq!(exit_code_of(judge(outcome_of(Some(0)))), 0);
}

#[test]
fn plan_runs_the_same_when_delegated() {
    let scripts = table(&[("hello", "echo hi $1")]);
    let step = plan(&scripts, &strings(&["tool", "run-script", "hello", "world"]));
    assert_eq!(command_line(step), "echo hi world");
}

#[test]
fn plan_skips_a_missing_script_if_present() {
    let scripts = ScriptTable::new();
    let step = plan(&scripts, &strings(&["tool", "missing", "--if-present"]));
    assert!(matches!(step, Step::Skip));
    assert_eq!(step.settled_exit(), Some(0));
}

#[test]
fn plan_propagates_the_exit_code_of_fail() {
    let scripts = table(&[("fail", "exit 3")]);
    let step = plan(&scripts, &strings(&["tool", "fail"]));
    assert_eq!(command_line(step), "exit 3");
    let result = judge(outcome_of(Some(3)));
    assert_eq!(result, Err(Failure::ScriptExecutionFailed { code: 3 }));
    assert_eq!(exit_code_of(result), 3);
}

#[test]
fn plan_lists_nothing_for_an_empty_table() {
    let scripts = ScriptTable::new();
    let step = plan(&scripts, &strings(&["tool"]));
    match &step {
        Step::List { names } => assert!(names.is_empty()),
        other => panic!("expected a list, got {:?}", other),
    }
    assert_eq!(step.settled_exit(), Some(EXIT_SUCCESS));
}

#[test]
fn plan_fails_on_an_empty_table_with_a_name() {
    let scripts = ScriptTable::new();
    let step = plan(&scripts, &strings(&["tool", "run-script", "hello", "x"]));
    match &step {
        Step::Missing { name, names } => {
            assert_eq!(name, "hello");
            assert!(names.is_empty());
        }
        other => panic!("expected a miss, got {:?}", other),
    }
    assert_eq!(step.settled_exit(), Some(EXIT_SCRIPT_NOT_FOUND));
}

#[test]
fn plan_lists_the_names_without_a_script_name() {
    let scripts = table(&[("build", "cargo build"), ("test", "cargo test")]);
    for raw in [strings(&["tool"]), strings(&["tool", "run-script"])] {
        let step = plan(&scripts, &raw);
        match &step {
            Step::List { names } => assert_eq!(names, &strings(&["build", "test"])),
            other => panic!("expected a list, got {:?}", other),
        }
        assert_eq!(step.settled_exit(), Some(0));
    }
}

#[test]
fn plan_reports_a_missing_script_with_all_names() {
    let scripts = table(&[("build", "cargo build"), ("test", "cargo test")]);
    let step = plan(&scripts, &strings(&["tool", "deploy", "now"]));
    match &step {
        Step::Missing { name, names } => {
            assert_eq!(name, "deploy");
            assert_eq!(names, &strings(&["build", "test"]));
        }
        other => panic!("expected a miss, got {:?}", other),
    }
    assert_eq!(step.settled_exit(), Some(127));
}

#[test]
fn plan_runs_a_script_that_is_there_despite_the_flag() {
    let scripts = table(&[("hello", "echo hi $1")]);
    let step = plan(&scripts, &strings(&["tool", "hello", "--if-present"]));
    assert_eq!(command_line(step), "echo hi --if-present");
}

#[test]
fn plan_takes_the_flag_only_after_the_script_name() {
    let scripts = table(&[("hello", "echo hi")]);
    let step = plan(&scripts, &strings(&["tool", "--if-present", "missing"]));
    match &step {
        Step::Missing { name, .. } => assert_eq!(name, "--if-present"),
        other => panic!("expected a miss, got {:?}", other),
    }
}

#[test]
fn plan_without_arguments_changes_only_the_binary_path() {
    let scripts = table(&[("where", "echo $0 $1 $2")]);
    let step = plan(&scripts, &strings(&["/bin/tool", "where"]));
    assert_eq!(command_line(step), "echo /bin/tool $1 $2");
}

#[test]
fn plan_on_a_manifest_that_was_read() {
    let scripts = parse_toml("[package.metadata.scripts]\nhello = \"echo hi $1\"\n").unwrap();
    let step = plan(&scripts, &strings(&["tool", "hello", "world"]));
    assert_eq!(command_line(step), "echo hi world");
}

#[test]
fn shell_command_posix() {
    let invocation = ResolvedInvocation { shell_command_line: "echo hi world".to_string() };
    assert_eq!(shell_command(ShellKind::Posix, &invocation), strings(&["sh", "-c", "echo hi world"]));
}

#[test]
fn shell_command_windows() {
    let invocation = ResolvedInvocation { shell_command_line: "echo hi world".to_string() };
    assert_eq!(
        shell_command(ShellKind::Windows, &invocation),
        strings(&["cmd", "/C", "echo hi world"])
    );
}

#[test]
fn outcome_of_exit_codes() {
    assert_eq!(outcome_of(Some(0)), ExitOutcome::Success);
    assert_eq!(outcome_of(Some(3)), ExitOutcome::FailureCode(3));
    assert_eq!(outcome_of(Some(-1)), ExitOutcome::FailureCode(-1));
    assert_eq!(outcome_of(None), ExitOutcome::TerminatedBySignal);
}

#[test]
fn judge_outcomes() {
    assert_eq!(judge(ExitOutcome::Success), Ok(()));
    assert_eq!(
        judge(ExitOutcome::FailureCode(7)),
        Err(Failure::ScriptExecutionFailed { code: 7 })
    );
    assert_eq!(judge(ExitOutcome::TerminatedBySignal), Err(Failure::ScriptTerminatedBySignal));
}

#[test]
fn exit_codes_of_results() {
    assert_eq!(exit_code_of(Ok(())), 0);
    assert_eq!(exit_code_of(Err(Failure::ScriptExecutionFailed { code: 3 })), 3);
    assert_eq!(exit_code_of(Err(Failure::ScriptTerminatedBySignal)), EXIT_SIGNAL);
    assert_eq!(exit_code_of(Err(Failure::ScriptNotFound)), EXIT_SCRIPT_NOT_FOUND);
    assert_eq!(exit_code_of(Err(Failure::ManifestNotFound)), EXIT_MANIFEST);
    assert_eq!(exit_code_of(Err(Failure::ManifestMalformed)), EXIT_MANIFEST);
    assert_eq!(exit_code_of(judge(outcome_of(None))), 128);
}

#[test]
fn failure_exit_codes_are_not_zero() {
    assert_eq!(Failure::ManifestNotFound.exit_code(), 78);
    assert_eq!(Failure::ManifestMalformed.exit_code(), 78);
    assert_eq!(Failure::ScriptNotFound.exit_code(), 127);
    assert_eq!(Failure::ScriptTerminatedBySignal.exit_code(), 128);
    assert_eq!(Failure::ScriptExecutionFailed { code: 42 }.exit_code(), 42);
}

#[test]
fn failure_messages() {
    assert_eq!(Failure::ManifestNotFound.message(), "manifest not found");
    assert_eq!(
        Failure::ManifestMalformed.message(),
        "expected the manifest to contain a package.metadata.scripts or workspace.metadata.scripts table"
    );
    assert_eq!(Failure::ScriptNotFound.message(), "script name is invalid");
    assert_eq!(
        Failure::ScriptExecutionFailed { code: 3 }.message(),
        "script ended with error code"
    );
    assert_eq!(Failure::ScriptTerminatedBySignal.message(), "script ended with exit signal");
}
