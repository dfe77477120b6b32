//! What holds of every expansion: plain text is kept, a placeholder is
//! replaced where it stands, and text can be expanded piece by piece.

use vstd::prelude::*;
use crate::invocation::{
    digit_value, expansion, expansion_from, is_digit, lemma_run_end_bounds, numeral_value,
    placeholder_at, replacement, run_end, token_end,
};

verus! {

/// The character that stands for a number below ten.
pub open spec fn digit_char(d: nat) -> char {
    if d == 0 {
        '0'
    } else if d == 1 {
        '1'
    } else if d == 2 {
        '2'
    } else if d == 3 {
        '3'
    } else if d == 4 {
        '4'
    } else if d == 5 {
        '5'
    } else if d == 6 {
        '6'
    } else if d == 7 {
        '7'
    } else if d == 8 {
        '8'
    } else {
        '9'
    }
}

/// The decimal numeral of `n`, without leading zeros.
pub open spec fn decimal(n: nat) -> Seq<char>
    decreases n,
{
    if n < 10 {
        seq![digit_char(n)]
    } else {
        decimal(n / 10).push(digit_char(n % 10))
    }
}

/// The placeholder for position `n` as it is written in a script body.
pub open spec fn placeholder(n: nat) -> Seq<char> {
    seq!['$'] + decimal(n)
}

/// `body[at..]` with every `$0` replaced by `binary_path` and nothing else
/// changed.
pub open spec fn binary_path_inserted_from(body: Seq<char>, at: int, binary_path: Seq<char>) -> Seq<
    char,
>
    decreases body.len() - at,
{
    if at < 0 || at >= body.len() {
        Seq::empty()
    } else if body[at] == '$' && at + 1 < body.len() && body[at + 1] == '0' {
        binary_path + binary_path_inserted_from(body, at + 2, binary_path)
    } else {
        seq![body[at]] + binary_path_inserted_from(body, at + 1, binary_path)
    }
}

/// `body` with every `$0` replaced by `binary_path` and nothing else changed.
pub open spec fn binary_path_inserted(body: Seq<char>, binary_path: Seq<char>) -> Seq<char> {
    binary_path_inserted_from(body, 0, binary_path)
}

/// A stretch of digits that is followed by no further digit is one run.
proof fn lemma_run_of_digits(body: Seq<char>, from: int, to: int)
    requires
        0 <= from <= to <= body.len(),
        forall|k: int| from <= k < to ==> is_digit(#[trigger] body[k]),
        to == body.len() || !is_digit(body[to]),
    ensures
        run_end(body, from) == to,
    decreases to - from,
{
    if from < to {
        assert(is_digit(body[from]));
        lemma_run_of_digits(body, from + 1, to);
    }
}

proof fn lemma_run_end_prefix(a: Seq<char>, b: Seq<char>, from: int)
    requires
        0 <= from <= a.len(),
        b.len() == 0 || !is_digit(b[0]),
    ensures
        run_end(a + b, from) == run_end(a, from),
    decreases a.len() - from,
{
    let whole = a + b;
    if from < a.len() {
        assert(whole[from] == a[from]);
        if is_digit(a[from]) {
            lemma_run_end_prefix(a, b, from + 1);
        }
    } else if b.len() > 0 {
        assert(whole[from] == b[0]);
    }
}

proof fn lemma_run_end_suffix(a: Seq<char>, b: Seq<char>, from: int)
    requires
        0 <= from <= b.len(),
    ensures
        run_end(a + b, a.len() + from) == a.len() + run_end(b, from),
    decreases b.len() - from,
{
    let whole = a + b;
    if from < b.len() {
        assert(whole[a.len() + from] == b[from]);
        if is_digit(b[from]) {
            lemma_run_end_suffix(a, b, from + 1);
        }
    }
}

/// The expansion of the end of a text does not depend on what stands
/// before it.
pub proof fn lemma_expansion_suffix(
    a: Seq<char>,
    b: Seq<char>,
    from: int,
    binary_path: Seq<char>,
    args: Seq<Seq<char>>,
)
    requires
        0 <= from <= b.len(),
    ensures
        expansion_from(a + b, a.len() + from, binary_path, args) == expansion_from(
            b,
            from,
            binary_path,
            args,
        ),
    decreases b.len() - from,
{
    let whole = a + b;
    let at = a.len() + from;
    if from < b.len() {
        assert(whole[at] == b[from]);
        lemma_run_end_suffix(a, b, from + 1);
        lemma_run_end_bounds(b, from + 1);
        if from + 1 < b.len() {
            assert(whole[at + 1] == b[from + 1]);
        }
        assert(token_end(whole, at) == a.len() + token_end(b, from));
        if placeholder_at(b, from) {
            let end = token_end(b, from);
            assert(placeholder_at(whole, at));
            assert(whole.subrange(at + 1, a.len() + end) =~= b.subrange(from + 1, end));
            assert(whole.subrange(at, a.len() + end) =~= b.subrange(from, end));
            lemma_expansion_suffix(a, b, end, binary_path, args);
        } else {
            assert(!placeholder_at(whole, at));
            lemma_expansion_suffix(a, b, from + 1, binary_path, args);
        }
    }
}

proof fn lemma_expansion_prefix(
    a: Seq<char>,
    b: Seq<char>,
    from: int,
    binary_path: Seq<char>,
    args: Seq<Seq<char>>,
)
    requires
        0 <= from <= a.len(),
        b.len() == 0 || !is_digit(b[0]),
    ensures
        expansion_from(a + b, from, binary_path, args) == expansion_from(
            a,
            from,
            binary_path,
            args,
        ) + expansion(b, binary_path, args),
    decreases a.len() - from,
{
    let whole = a + b;
    if from == a.len() {
        lemma_expansion_suffix(a, b, 0, binary_path, args);
        assert(expansion_from(a, from, binary_path, args) + expansion(b, binary_path, args)
            =~= expansion(b, binary_path, args));
    } else {
        assert(whole[from] == a[from]);
        lemma_run_end_prefix(a, b, from + 1);
        lemma_run_end_bounds(a, from + 1);
        if from + 1 < a.len() {
            assert(whole[from + 1] == a[from + 1]);
        } else if b.len() > 0 {
            assert(whole[from + 1] == b[0]);
        }
        assert(token_end(whole, from) == token_end(a, from));
        if placeholder_at(a, from) {
            let end = token_end(a, from);
            assert(whole.subrange(from + 1, end) =~= a.subrange(from + 1, end));
            assert(whole.subrange(from, end) =~= a.subrange(from, end));
            lemma_expansion_prefix(a, b, end, binary_path, args);
            let put = replacement(
                numeral_value(a.subrange(from + 1, end)),
                a.subrange(from, end),
                binary_path,
                args,
            );
            assert(put + (expansion_from(a, end, binary_path, args) + expansion(
                b,
                binary_path,
                args,
            )) =~= (put + expansion_from(a, end, binary_path, args)) + expansion(
                b,
                binary_path,
                args,
            ));
        } else {
            lemma_expansion_prefix(a, b, from + 1, binary_path, args);
            assert(seq![a[from]] + (expansion_from(a, from + 1, binary_path, args) + expansion(
                b,
                binary_path,
                args,
            )) =~= (seq![a[from]] + expansion_from(a, from + 1, binary_path, args)) + expansion(
                b,
                binary_path,
                args,
            ));
        }
    }
}

/// A text can be expanded in two pieces, wherever the second piece does
/// not begin with a digit: the expansion of `a + b` is the expansion of
/// `a` followed by the expansion of `b`.
pub proof fn lemma_expansion_split(
    a: Seq<char>,
    b: Seq<char>,
    binary_path: Seq<char>,
    args: Seq<Seq<char>>,
)
    requires
        b.len() == 0 || !is_digit(b[0]),
    ensures
        expansion(a + b, binary_path, args) == expansion(a, binary_path, args) + expansion(
            b,
            binary_path,
            args,
        ),
{
    lemma_expansion_prefix(a, b, 0, binary_path, args);
}

proof fn lemma_plain_from(body: Seq<char>, from: int, binary_path: Seq<char>, args: Seq<Seq<char>>)
    requires
        0 <= from <= body.len(),
        forall|k: int| 0 <= k < body.len() ==> #[trigger] body[k] != '$',
    ensures
        expansion_from(body, from, binary_path, args) == body.subrange(from, body.len() as int),
    decreases body.len() - from,
{
    if from < body.len() {
        assert(body[from] != '$');
        lemma_plain_from(body, from + 1, binary_path, args);
        assert(seq![body[from]] + body.subrange(from + 1, body.len() as int) =~= body.subrange(
            from,
            body.len() as int,
        ));
    } else {
        assert(body.subrange(from, body.len() as int) =~= Seq::<char>::empty());
    }
}

/// A text without `$` is its own expansion.
pub proof fn lemma_plain_text_is_kept(
    body: Seq<char>,
    binary_path: Seq<char>,
    args: Seq<Seq<char>>,
)
    requires
        forall|k: int| 0 <= k < body.len() ==> #[trigger] body[k] != '$',
    ensures
        expansion(body, binary_path, args) == body,
{
    lemma_plain_from(body, 0, binary_path, args);
    assert(body.subrange(0, body.len() as int) =~= body);
}

/// A decimal numeral is made of digits, begins with `0` only where it is
/// `0`, and denotes its number.
pub proof fn lemma_decimal(n: nat)
    ensures
        decimal(n).len() >= 1,
        forall|k: int| 0 <= k < decimal(n).len() ==> is_digit(#[trigger] decimal(n)[k]),
        decimal(n)[0] == '0' <==> n == 0,
        n == 0 ==> decimal(n).len() == 1,
        numeral_value(decimal(n)) == n,
    decreases n,
{
    let last = if n < 10 {
        n
    } else {
        n % 10
    };
    assert(is_digit(digit_char(last)) && digit_value(digit_char(last)) == last);
    assert(digit_char(last) == '0' <==> last == 0);
    if n < 10 {
        let one = seq![digit_char(n)];
        assert(one.drop_last() =~= Seq::<char>::empty());
        assert(numeral_value(one.drop_last()) == 0);
        assert(numeral_value(one) == numeral_value(one.drop_last()) * 10 + digit_value(
            one.last(),
        ));
    } else {
        lemma_decimal(n / 10);
        let front = decimal(n / 10);
        let all = front.push(digit_char(last));
        assert(all.drop_last() =~= front);
        assert(all[0] == front[0]);
        assert forall|k: int| 0 <= k < all.len() implies is_digit(#[trigger] all[k]) by {
            if k < front.len() {
                assert(all[k] == front[k]);
            }
        }
    }
}

/// A placeholder is replaced where it stands: the expansion of `$n`
/// followed by `rest` is the binary path for `n == 0`, the `n`-th argument
/// for `1 <= n <= args.len()` and `$n` itself for a larger `n`, followed by
/// the expansion of `rest`. After a numeral other than `0` the rest must
/// not go on with a digit, which would belong to the numeral.
pub proof fn lemma_placeholder_is_replaced(
    n: nat,
    rest: Seq<char>,
    binary_path: Seq<char>,
    args: Seq<Seq<char>>,
)
    requires
        n == 0 || rest.len() == 0 || !is_digit(rest[0]),
    ensures
        expansion(placeholder(n) + rest, binary_path, args) == replacement(
            n,
            placeholder(n),
            binary_path,
            args,
        ) + expansion(rest, binary_path, args),
        n == 0 ==> replacement(n, placeholder(n), binary_path, args) == binary_path,
        1 <= n <= args.len() ==> replacement(n, placeholder(n), binary_path, args) == args[n - 1],
        n > args.len() ==> replacement(n, placeholder(n), binary_path, args) == placeholder(n),
{
    lemma_decimal(n);
    let token = placeholder(n);
    let body = token + rest;
    let end = token.len() as int;
    assert(body[0] == '$');
    assert(body[1] == decimal(n)[0]);
    assert forall|k: int| 1 <= k < end implies is_digit(#[trigger] body[k]) by {
        assert(body[k] == decimal(n)[k - 1]);
    }
    if n != 0 {
        if rest.len() > 0 {
            assert(body[end] == rest[0]);
        }
        lemma_run_of_digits(body, 1, end);
    }
    assert(token_end(body, 0) == end);
    assert(placeholder_at(body, 0));
    assert(body.subrange(1, end) =~= decimal(n));
    assert(body.subrange(0, end) =~= token);
    lemma_expansion_suffix(token, rest, 0, binary_path, args);
}

/// A placeholder is replaced wherever it stands in a text: the expansion
/// of `before`, `$n` and `after` in a row is the expansion of `before`,
/// then what stands for `$n`, then the expansion of `after`. What stands
/// for `$n` is put in as it is and not expanded again. After a numeral
/// other than `0`, `after` must not go on with a digit.
pub proof fn lemma_placeholder_in_text(
    before: Seq<char>,
    n: nat,
    after: Seq<char>,
    binary_path: Seq<char>,
    args: Seq<Seq<char>>,
)
    requires
        n == 0 || after.len() == 0 || !is_digit(after[0]),
    ensures
        expansion(before + placeholder(n) + after, binary_path, args) == expansion(
            before,
            binary_path,
            args,
        ) + replacement(n, placeholder(n), binary_path, args) + expansion(
            after,
            binary_path,
            args,
        ),
{
    let token = placeholder(n);
    lemma_placeholder_is_replaced(n, after, binary_path, args);
    assert((token + after)[0] == '$');
    lemma_expansion_split(before, token + after, binary_path, args);
    assert(before + token + after =~= before + (token + after));
    assert(expansion(before, binary_path, args) + replacement(n, token, binary_path, args)
        + expansion(after, binary_path, args) =~= expansion(before, binary_path, args) + (
    replacement(n, token, binary_path, args) + expansion(after, binary_path, args)));
}

proof fn lemma_numeral_positive(digits: Seq<char>)
    requires
        digits.len() >= 1,
        forall|k: int| 0 <= k < digits.len() ==> is_digit(#[trigger] digits[k]),
        digits[0] != '0',
    ensures
        numeral_value(digits) >= 1,
    decreases digits.len(),
{
    if digits.len() == 1 {
        assert(digits.drop_last() =~= Seq::<char>::empty());
        assert(numeral_value(digits.drop_last()) == 0);
        assert(is_digit(digits[0]));
    } else {
        let front = digits.drop_last();
        assert(front[0] == digits[0]);
        assert forall|k: int| 0 <= k < front.len() implies is_digit(#[trigger] front[k]) by {
            assert(front[k] == digits[k]);
        }
        lemma_numeral_positive(front);
    }
}

proof fn lemma_inserted_over_plain(body: Seq<char>, from: int, to: int, binary_path: Seq<char>)
    requires
        0 <= from <= to <= body.len(),
        forall|k: int| from <= k < to ==> #[trigger] body[k] != '$',
    ensures
        binary_path_inserted_from(body, from, binary_path) == body.subrange(from, to)
            + binary_path_inserted_from(body, to, binary_path),
    decreases to - from,
{
    if from < to {
        assert(body[from] != '$');
        lemma_inserted_over_plain(body, from + 1, to, binary_path);
        assert(seq![body[from]] + (body.subrange(from + 1, to) + binary_path_inserted_from(
            body,
            to,
            binary_path,
        )) =~= body.subrange(from, to) + binary_path_inserted_from(body, to, binary_path));
    } else {
        assert(body.subrange(from, to) + binary_path_inserted_from(body, to, binary_path)
            =~= binary_path_inserted_from(body, to, binary_path));
    }
}

proof fn lemma_no_arguments_from(body: Seq<char>, at: int, binary_path: Seq<char>)
    requires
        0 <= at <= body.len(),
    ensures
        expansion_from(body, at, binary_path, Seq::empty()) == binary_path_inserted_from(
            body,
            at,
            binary_path,
        ),
    decreases body.len() - at,
{
    let none = Seq::<Seq<char>>::empty();
    if at < body.len() {
        lemma_run_end_bounds(body, at + 1);
        if placeholder_at(body, at) {
            let end = token_end(body, at);
            let digits = body.subrange(at + 1, end);
            lemma_no_arguments_from(body, end, binary_path);
            if body[at + 1] == '0' {
                assert(digits.drop_last() =~= Seq::<char>::empty());
                assert(numeral_value(digits.drop_last()) == 0);
                assert(numeral_value(digits) == 0);
            } else {
                assert forall|k: int| 0 <= k < digits.len() implies is_digit(
                    #[trigger] digits[k],
                ) by {
                    assert(digits[k] == body[at + 1 + k]);
                }
                lemma_numeral_positive(digits);
                assert forall|k: int| at + 1 <= k < end implies #[trigger] body[k] != '$' by {
                    assert(is_digit(body[k]));
                }
                lemma_inserted_over_plain(body, at + 1, end, binary_path);
                assert(seq![body[at]] + (body.subrange(at + 1, end) + binary_path_inserted_from(
                    body,
                    end,
                    binary_path,
                )) =~= body.subrange(at, end) + binary_path_inserted_from(
                    body,
                    end,
                    binary_path,
                ));
            }
        } else {
            lemma_no_arguments_from(body, at + 1, binary_path);
        }
    }
}

/// Without forwarded arguments the expansion changes nothing but `$0`:
/// it is the body with the binary path in place of every `$0`.
pub proof fn lemma_no_arguments(body: Seq<char>, binary_path: Seq<char>)
    ensures
        expansion(body, binary_path, Seq::empty()) == binary_path_inserted(body, binary_path),
{
    lemma_no_arguments_from(body, 0, binary_path);
}

} // verus!
