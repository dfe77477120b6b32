//! Positional placeholders in a script body.
//!
//! A placeholder is a `$` followed by a decimal numeral without leading
//! zeros: `$0`, `$1`, `$12`. The numeral is the longest one that starts
//! after the `$`, so `$12` is placeholder twelve and never placeholder one
//! followed by `2`, while `$01` is placeholder zero followed by `1`.
//! `$0` stands for the binary path and `$i` for the `i`-th forwarded
//! argument. A placeholder without an argument stays as it is written.
//! The body is read once from left to right; text that was put in is not
//! read again.

use vstd::prelude::*;
use vstd::string::*;
use crate::text::{texts, to_chars};

verus! {

/// An ASCII decimal digit.
pub open spec fn is_digit(c: char) -> bool {
    '0' <= c && c <= '9'
}

/// The number a digit stands for.
pub open spec fn digit_value(c: char) -> nat {
    (c as u32 - '0' as u32) as nat
}

/// The number that a sequence of digits denotes in base ten.
pub open spec fn numeral_value(digits: Seq<char>) -> nat
    decreases digits.len(),
{
    if digits.len() == 0 {
        0
    } else {
        numeral_value(digits.drop_last()) * 10 + digit_value(digits.last())
    }
}

/// End of the run of digits that starts at `from`; `from` itself where no
/// digit stands there.
pub open spec fn run_end(body: Seq<char>, from: int) -> int
    decreases body.len() - from,
{
    if 0 <= from < body.len() && is_digit(body[from]) {
        run_end(body, from + 1)
    } else {
        from
    }
}

/// End of the placeholder whose `$` stands at `at`: one past its numeral.
/// It is `at + 1` where no numeral follows the `$`.
pub open spec fn token_end(body: Seq<char>, at: int) -> int {
    if at + 1 < body.len() && body[at + 1] == '0' {
        at + 2
    } else {
        run_end(body, at + 1)
    }
}

/// Whether a placeholder starts at `at`.
pub open spec fn placeholder_at(body: Seq<char>, at: int) -> bool {
    0 <= at < body.len() && body[at] == '$' && token_end(body, at) > at + 1
}

/// What stands in place of placeholder `index`, written as `token`.
pub open spec fn replacement(
    index: nat,
    token: Seq<char>,
    binary_path: Seq<char>,
    args: Seq<Seq<char>>,
) -> Seq<char> {
    if index == 0 {
        binary_path
    } else if index <= args.len() {
        args[index - 1]
    } else {
        token
    }
}

/// The expansion of `body[at..]`.
pub open spec fn expansion_from(
    body: Seq<char>,
    at: int,
    binary_path: Seq<char>,
    args: Seq<Seq<char>>,
) -> Seq<char>
    decreases body.len() - at,
    via expansion_terminates
{
    if at < 0 || at >= body.len() {
        Seq::empty()
    } else if placeholder_at(body, at) {
        let end = token_end(body, at);
        replacement(
            numeral_value(body.subrange(at + 1, end)),
            body.subrange(at, end),
            binary_path,
            args,
        ) + expansion_from(body, end, binary_path, args)
    } else {
        seq![body[at]] + expansion_from(body, at + 1, binary_path, args)
    }
}

#[via_fn]
proof fn expansion_terminates(
    body: Seq<char>,
    at: int,
    binary_path: Seq<char>,
    args: Seq<Seq<char>>,
) {
    if 0 <= at < body.len() {
        lemma_run_end_bounds(body, at + 1);
    }
}

/// The script body with every placeholder replaced.
pub open spec fn expansion(body: Seq<char>, binary_path: Seq<char>, args: Seq<Seq<char>>) -> Seq<
    char,
> {
    expansion_from(body, 0, binary_path, args)
}

/// The command text that is handed to the shell.
#[derive(Debug)]
pub struct ResolvedInvocation {
    /// the script body with its placeholders replaced
    pub shell_command_line: String,
}

/// A run of digits ends inside the text, at or after its start.
pub proof fn lemma_run_end_bounds(body: Seq<char>, from: int)
    requires
        0 <= from <= body.len(),
    ensures
        from <= run_end(body, from) <= body.len(),
        forall|k: int| from <= k < run_end(body, from) ==> is_digit(#[trigger] body[k]),
        run_end(body, from) < body.len() ==> !is_digit(body[run_end(body, from)]),
    decreases body.len() - from,
{
    if from < body.len() && is_digit(body[from]) {
        lemma_run_end_bounds(body, from + 1);
    }
}

/// Appending a digit multiplies the value by ten and adds the digit.
proof fn lemma_numeral_step(body: Seq<char>, from: int, to: int)
    requires
        0 <= from <= to < body.len(),
    ensures
        numeral_value(body.subrange(from, to + 1)) == numeral_value(body.subrange(from, to)) * 10
            + digit_value(body[to]),
{
    let longer = body.subrange(from, to + 1);
    assert(longer.drop_last() =~= body.subrange(from, to));
    assert(longer.last() == body[to]);
}

/// Reads the numeral after the `$` at `at`. Returns where the placeholder
/// ends and the number it names, or `None` for a number too large for
/// `usize`.
fn scan_placeholder(body: &Vec<char>, at: usize) -> (r: (usize, Option<usize>))
    requires
        at < body.len(),
    ensures
        r.0 == token_end(body@, at as int),
        at < r.0 <= body.len(),
        match r.1 {
            Some(index) => index == numeral_value(body@.subrange(at + 1, r.0 as int)),
            None => numeral_value(body@.subrange(at + 1, r.0 as int)) > usize::MAX,
        },
{
    let first: usize = at + 1;
    if first < body.len() && body[first] == '0' {
        proof {
            lemma_numeral_step(body@, first as int, first as int);
            assert(body@.subrange(first as int, first as int).len() == 0);
        }
        return (first + 1, Some(0));
    }
    let mut end: usize = first;
    let mut value: usize = 0;
    let mut fits: bool = true;
    proof {
        lemma_run_end_bounds(body@, first as int);
        assert(body@.subrange(first as int, first as int).len() == 0);
    }
    while end < body.len() && body[end] >= '0' && body[end] <= '9'
        invariant
            first == at + 1,
            first <= end <= body.len(),
            run_end(body@, end as int) == run_end(body@, first as int),
            fits ==> value == numeral_value(body@.subrange(first as int, end as int)),
            !fits ==> numeral_value(body@.subrange(first as int, end as int)) > usize::MAX,
        decreases body.len() - end,
    {
        let digit: usize = (body[end] as u32 - '0' as u32) as usize;
        proof {
            lemma_numeral_step(body@, first as int, end as int);
        }
        if fits && value <= (usize::MAX - digit) / 10 {
            value = value * 10 + digit;
        } else {
            fits = false;
        }
        end += 1;
    }
    if fits {
        (end, Some(value))
    } else {
        (end, None)
    }
}

/// Appends `body[from..to]` to `out`.
fn push_range(out: &mut String, body: &Vec<char>, from: usize, to: usize)
    requires
        from <= to <= body.len(),
    ensures
        final(out)@ == old(out)@ + body@.subrange(from as int, to as int),
{
    let mut k: usize = from;
    while k < to
        invariant
            from <= k <= to <= body.len(),
            out@ =~= old(out)@ + body@.subrange(from as int, k as int),
        decreases to - k,
    {
        out.push(body[k]);
        k += 1;
    }
}

/// Replaces the placeholders of `script_body`: `$0` by `binary_path`, `$i`
/// by the `i`-th of `forwarded_args`, counted from one. A placeholder whose
/// number is larger than the number of arguments is left as it is.
pub fn build(script_body: &str, binary_path: &str, forwarded_args: &Vec<String>) -> (r:
    ResolvedInvocation)
    ensures
        r.shell_command_line@ == expansion(script_body@, binary_path@, texts(forwarded_args@)),
{
    let body = to_chars(script_body);
    let ghost path = binary_path@;
    let ghost args = texts(forwarded_args@);
    let mut out = String::new();
    let mut i: usize = 0;
    while i < body.len()
        invariant
            i <= body.len(),
            body@ == script_body@,
            path == binary_path@,
            args == texts(forwarded_args@),
            out@ + expansion_from(body@, i as int, path, args) == expansion(body@, path, args),
        decreases body.len() - i,
    {
        let ghost before = out@;
        if body[i] != '$' {
            out.push(body[i]);
            assert(out@ + expansion_from(body@, i + 1, path, args) =~= before + expansion_from(
                body@,
                i as int,
                path,
                args,
            ));
            i += 1;
        } else {
            let (end, index) = scan_placeholder(&body, i);
            let ghost token = body@.subrange(i as int, end as int);
            let ghost number = numeral_value(body@.subrange(i + 1, end as int));
            if end == i + 1 {
                out.push(body[i]);
                assert(!placeholder_at(body@, i as int));
                assert(out@ == before + seq![body@[i as int]]);
            } else {
                assert(placeholder_at(body@, i as int));
                match index {
                    Some(n) => {
                        if n == 0 {
                            out.append(binary_path);
                        } else if n <= forwarded_args.len() {
                            assert(args[n - 1] == forwarded_args@[n - 1]@);
                            out.append(forwarded_args[n - 1].as_str());
                        } else {
                            push_range(&mut out, &body, i, end);
                        }
                    },
                    None => {
                        push_range(&mut out, &body, i, end);
                        assert(args.len() == forwarded_args.len());
                    },
                }
                assert(out@ == before + replacement(number, token, path, args));
            }
            assert(out@ + expansion_from(body@, end as int, path, args) =~= before
                + expansion_from(body@, i as int, path, args));
            i = end;
        }
    }
    assert(out@ =~= out@ + expansion_from(body@, i as int, path, args));
    ResolvedInvocation { shell_command_line: out }
}

} // verus!
