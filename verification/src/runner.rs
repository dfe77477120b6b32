//! What the tool does with a command line and a scripts table.

use vstd::prelude::*;
use vstd::string::*;
use crate::arg_parse::{forwarded_of, marker, normalize, script_name_of};
use crate::failure::{EXIT_SCRIPT_NOT_FOUND, EXIT_SUCCESS};
use crate::invocation::{build, expansion, ResolvedInvocation};
use crate::invocation_laws::{binary_path_inserted, lemma_no_arguments};
use crate::script_table::{lists_keys, ScriptTable};
use crate::text::texts;

verus! {

/// The flag that turns a missing script into a run that does nothing.
pub open spec fn if_present_flag() -> Seq<char> {
    "--if-present"@
}

/// What is to be done, over character sequences.
pub enum Decision {
    /// no script was named: print the names, and succeed
    List { names: Seq<Seq<char>> },
    /// the script is missing and may be: do nothing, and succeed
    Skip,
    /// the script is missing: print the names, and fail
    Missing { name: Seq<char>, names: Seq<Seq<char>> },
    /// run this command line in a shell
    Run { command_line: Seq<char> },
}

/// What is to be done.
#[derive(Debug)]
pub enum Step {
    /// no script was named: print the names, and succeed
    List { names: Vec<String> },
    /// the script is missing and may be: do nothing, and succeed
    Skip,
    /// the script is missing: print the names, and fail
    Missing { name: String, names: Vec<String> },
    /// run this command line in a shell
    Run { invocation: ResolvedInvocation },
}

impl View for Step {
    type V = Decision;

    open spec fn view(&self) -> Decision {
        match *self {
            Step::List { names } => Decision::List { names: texts(names@) },
            Step::Skip => Decision::Skip,
            Step::Missing { name, names } => Decision::Missing {
                name: name@,
                names: texts(names@),
            },
            Step::Run { invocation } => Decision::Run {
                command_line: invocation.shell_command_line@,
            },
        }
    }
}

/// The decision for a table with these scripts and names and a raw
/// argument list. Without a script name the names are listed. A script
/// that the table holds is run, its body expanded with the binary path and
/// the forwarded arguments. A script that it does not hold is a failure,
/// unless the flag stands among the forwarded arguments.
pub open spec fn decision(
    scripts: Map<Seq<char>, Seq<char>>,
    names: Seq<Seq<char>>,
    raw: Seq<Seq<char>>,
) -> Decision {
    match script_name_of(raw) {
        None => Decision::List { names },
        Some(name) => if scripts.contains_key(name) {
            Decision::Run { command_line: expansion(scripts[name], raw[0], forwarded_of(raw)) }
        } else if forwarded_of(raw).contains(if_present_flag()) {
            Decision::Skip
        } else {
            Decision::Missing { name, names }
        },
    }
}

/// The exit code of a decision that runs no script; `None` for one that
/// runs a script, whose end decides.
pub open spec fn settled_exit(decision: Decision) -> Option<i32> {
    match decision {
        Decision::List { names } => Some(EXIT_SUCCESS),
        Decision::Skip => Some(EXIT_SUCCESS),
        Decision::Missing { name, names } => Some(EXIT_SCRIPT_NOT_FOUND),
        Decision::Run { command_line } => None,
    }
}

/// Whether `wanted` is one of `items`.
fn holds_text(items: &Vec<String>, wanted: &str) -> (b: bool)
    ensures
        b == texts(items@).contains(wanted@),
{
    let sought = String::from_str(wanted);
    let mut i: usize = 0;
    while i < items.len()
        invariant
            i <= items.len(),
            sought@ == wanted@,
            forall|k: int| 0 <= k < i ==> items[k]@ != wanted@,
        decreases items.len() - i,
    {
        if items[i] == sought {
            assert(texts(items@)[i as int] == wanted@);
            return true;
        }
        i += 1;
    }
    assert forall|k: int| 0 <= k < texts(items@).len() implies texts(items@)[k] != wanted@ by {
        assert(texts(items@)[k] == items[k]@);
    }
    false
}

/// Decides what to do for the raw argument list of the process, whose
/// element 0 is the binary path.
pub fn plan(table: &ScriptTable, raw: &Vec<String>) -> (step: Step)
    requires
        raw.len() >= 1,
    ensures
        step@ == decision(table@, table.name_list(), texts(raw@)),
        lists_keys(table.name_list(), table@),
{
    let normal = normalize(raw);
    let names = table.names();
    match normal.script_name {
        None => Step::List { names },
        Some(name) => match table.resolve(name.as_str()) {
            Ok(body) => Step::Run {
                invocation: build(
                    body.as_str(),
                    normal.binary_path.as_str(),
                    &normal.forwarded_args,
                ),
            },
            Err(miss) => if holds_text(&normal.forwarded_args, "--if-present") {
                Step::Skip
            } else {
                Step::Missing { name: miss.name, names }
            },
        },
    }
}

impl Step {
    /// The exit code of a step that runs no script; `None` for one that
    /// runs a script.
    pub fn settled_exit(&self) -> (code: Option<i32>)
        ensures
            code == settled_exit(self@),
    {
        match self {
            Step::List { names } => Some(EXIT_SUCCESS),
            Step::Skip => Some(EXIT_SUCCESS),
            Step::Missing { name, names } => Some(EXIT_SCRIPT_NOT_FOUND),
            Step::Run { invocation } => None,
        }
    }
}

/// A script that the table holds, run without forwarded arguments, gives
/// its body as it was declared, with the binary path in place of every
/// `$0` and nothing else changed. The name must not be the marker, which
/// would be taken for the delegation token.
pub proof fn lemma_run_without_arguments(
    scripts: Map<Seq<char>, Seq<char>>,
    names: Seq<Seq<char>>,
    binary_path: Seq<char>,
    name: Seq<char>,
)
    requires
        scripts.contains_key(name),
        name != marker(),
    ensures
        decision(scripts, names, seq![binary_path, name]) == (Decision::Run {
            command_line: binary_path_inserted(scripts[name], binary_path),
        }),
{
    let raw = seq![binary_path, name];
    assert(raw[1] == name);
    assert(forwarded_of(raw) =~= Seq::<Seq<char>>::empty());
    lemma_no_arguments(scripts[name], binary_path);
}

/// With an empty table, a command line without a script name lists no
/// name and succeeds, and one with a script name fails as not found and
/// lists no name. The flag that excuses a missing script must not stand
/// among the forwarded arguments.
pub proof fn lemma_empty_table(raw: Seq<Seq<char>>)
    requires
        !forwarded_of(raw).contains(if_present_flag()),
    ensures
        decision(Map::empty(), Seq::empty(), raw) == (match script_name_of(raw) {
            None => Decision::List { names: Seq::empty() },
            Some(name) => Decision::Missing { name, names: Seq::empty() },
        }),
        settled_exit(decision(Map::empty(), Seq::empty(), raw)) == (match script_name_of(raw) {
            None => Some(EXIT_SUCCESS),
            Some(name) => Some(EXIT_SCRIPT_NOT_FOUND),
        }),
{
}

/// A missing script is excused exactly by the flag: with it the tool does
/// nothing and succeeds, whatever the table holds.
pub proof fn lemma_missing_script_is_excused(
    scripts: Map<Seq<char>, Seq<char>>,
    names: Seq<Seq<char>>,
    raw: Seq<Seq<char>>,
)
    requires
        script_name_of(raw) is Some,
        !scripts.contains_key(script_name_of(raw)->0),
    ensures
        decision(scripts, names, raw) == Decision::Skip <==> forwarded_of(raw).contains(
            if_present_flag(),
        ),
        forwarded_of(raw).contains(if_present_flag()) ==> settled_exit(
            decision(scripts, names, raw),
        ) == Some(EXIT_SUCCESS),
{
}

} // verus!
