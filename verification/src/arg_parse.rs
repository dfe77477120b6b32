//! Normalization of the raw command line.
//!
//! The tool is started either directly (`tool <script> [args...]`) or by a
//! host build tool that inserts a marker token after the binary path
//! (`tool run-script <script> [args...]`). Both forms are reduced to the
//! same record.

use vstd::prelude::*;
use vstd::string::*;
use crate::text::texts;

verus! {

/// The token a host build tool inserts when it delegates to this tool.
pub open spec fn marker() -> Seq<char> {
    "run-script"@
}

/// Index of the token that names the script: the one after the binary path,
/// or after the marker where the marker stands at index 1.
pub open spec fn name_position(raw: Seq<Seq<char>>) -> int {
    if raw.len() > 1 && raw[1] == marker() {
        2
    } else {
        1
    }
}

/// The script name of a raw argument list, if it has one.
pub open spec fn script_name_of(raw: Seq<Seq<char>>) -> Option<Seq<char>> {
    if name_position(raw) < raw.len() {
        Some(raw[name_position(raw)])
    } else {
        None
    }
}

/// The tokens after the script name, in the order in which they were given.
pub open spec fn forwarded_of(raw: Seq<Seq<char>>) -> Seq<Seq<char>> {
    if name_position(raw) < raw.len() {
        raw.subrange(name_position(raw) + 1, raw.len() as int)
    } else {
        Seq::empty()
    }
}

/// A normalized command line.
#[derive(Debug)]
pub struct InvocationArgs {
    /// path of the running binary
    pub binary_path: String,
    /// name of the script to run; `None` where the command line names none
    pub script_name: Option<String>,
    /// tokens after the script name, in order
    pub forwarded_args: Vec<String>,
}

/// A command line that names a script.
#[derive(Debug)]
pub struct Args {
    /// binary path to this executable
    pub binary_path: String,
    /// name of the script to be executed as specified in the manifest
    pub script_name: String,
    /// arguments to be passed to the script
    pub script_arguments: Vec<String>,
}

/// Copies `items[from..]`.
fn tail(items: &Vec<String>, from: usize) -> (r: Vec<String>)
    requires
        from <= items.len(),
    ensures
        texts(r@) == texts(items@).subrange(from as int, items.len() as int),
{
    let mut out: Vec<String> = Vec::new();
    let mut i: usize = from;
    while i < items.len()
        invariant
            from <= i <= items.len(),
            out.len() == i - from,
            forall|k: int| 0 <= k < out.len() ==> out[k]@ == items[from + k]@,
        decreases items.len() - i,
    {
        let item = items[i].clone();
        out.push(item);
        i += 1;
    }
    assert(texts(out@) =~= texts(items@).subrange(from as int, items.len() as int));
    out
}

/// Splits the raw argument list into binary path, script name and
/// forwarded arguments. Element 0 is the binary path; a marker at index 1
/// is skipped; the next token, if any, is the script name.
pub fn normalize(raw: &Vec<String>) -> (r: InvocationArgs)
    requires
        raw.len() >= 1,
    ensures
        r.binary_path@ == raw[0]@,
        match r.script_name {
            Some(name) => script_name_of(texts(raw@)) == Some(name@),
            None => script_name_of(texts(raw@)) is None,
        },
        texts(r.forwarded_args@) == forwarded_of(texts(raw@)),
{
    let marker = String::from_str("run-script");
    let binary_path = raw[0].clone();
    let at: usize = if raw.len() > 1 && raw[1] == marker {
        2
    } else {
        1
    };
    assert(at == name_position(texts(raw@)));
    if at < raw.len() {
        let forwarded_args = tail(raw, at + 1);
        InvocationArgs { binary_path, script_name: Some(raw[at].clone()), forwarded_args }
    } else {
        let forwarded_args: Vec<String> = Vec::new();
        assert(texts(forwarded_args@) =~= Seq::<Seq<char>>::empty());
        InvocationArgs { binary_path, script_name: None, forwarded_args }
    }
}

/// Normalizes the raw argument list and insists on a script name.
pub fn parse(args: Vec<String>) -> (r: Result<Args, &'static str>)
    requires
        args.len() >= 1,
    ensures
        match r {
            Ok(a) => {
                &&& a.binary_path@ == args[0]@
                &&& script_name_of(texts(args@)) == Some(a.script_name@)
                &&& texts(a.script_arguments@) == forwarded_of(texts(args@))
            },
            Err(message) => {
                &&& script_name_of(texts(args@)) is None
                &&& message@ == "script name not specified"@
            },
        },
{
    let normal = normalize(&args);
    match normal.script_name {
        Some(script_name) => Ok(
            Args {
                binary_path: normal.binary_path,
                script_name,
                script_arguments: normal.forwarded_args,
            },
        ),
        None => Err("script name not specified"),
    }
}

/// Direct and delegated invocation agree: a command line with the marker
/// after the binary path names the same script and forwards the same
/// arguments as the command line without it. The binary paths may differ.
/// The tail must not itself begin with the marker, which a direct
/// invocation would take for the delegation token.
pub proof fn lemma_marker_is_transparent(
    direct_binary: Seq<char>,
    delegated_binary: Seq<char>,
    rest: Seq<Seq<char>>,
)
    requires
        rest.len() == 0 || rest[0] != marker(),
    ensures
        script_name_of(seq![delegated_binary, marker()] + rest) == script_name_of(
            seq![direct_binary] + rest,
        ),
        forwarded_of(seq![delegated_binary, marker()] + rest) == forwarded_of(
            seq![direct_binary] + rest,
        ),
        script_name_of(seq![direct_binary] + rest) == (if rest.len() == 0 {
            None
        } else {
            Some(rest[0])
        }),
        forwarded_of(seq![direct_binary] + rest) == (if rest.len() == 0 {
            rest
        } else {
            rest.subrange(1, rest.len() as int)
        }),
{
    let direct = seq![direct_binary] + rest;
    let delegated = seq![delegated_binary, marker()] + rest;
    assert(delegated[1] == marker());
    if rest.len() > 0 {
        assert(direct[1] == rest[0]);
        assert(delegated[2] == rest[0]);
        assert(direct.subrange(2, direct.len() as int) =~= rest.subrange(1, rest.len() as int));
        assert(delegated.subrange(3, delegated.len() as int) =~= rest.subrange(
            1,
            rest.len() as int,
        ));
    } else {
        assert(forwarded_of(direct) =~= rest);
    }
}

} // verus!
