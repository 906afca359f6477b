//! Message text: decimal numbers spliced between literals.
use vstd::prelude::*;

verus! {

/// The decimal digit `d`.
pub open spec fn digit(d: nat) -> char {
    (48 + d) as char
}

/// The decimal digits of `n`, without leading zeros.
pub open spec fn decimal(n: nat) -> Seq<char>
    decreases n,
{
    if n < 10 {
        seq![digit(n)]
    } else {
        decimal(n / 10).push(digit(n % 10))
    }
}

fn digit_text(d: usize) -> (text: &'static str)
    requires
        d < 10,
    ensures
        text@ == seq![digit(d as nat)],
{
    proof {
        reveal_strlit("0");
        reveal_strlit("1");
        reveal_strlit("2");
        reveal_strlit("3");
        reveal_strlit("4");
        reveal_strlit("5");
        reveal_strlit("6");
        reveal_strlit("7");
        reveal_strlit("8");
        reveal_strlit("9");
    }
    if d == 0 {
        "0"
    } else if d == 1 {
        "1"
    } else if d == 2 {
        "2"
    } else if d == 3 {
        "3"
    } else if d == 4 {
        "4"
    } else if d == 5 {
        "5"
    } else if d == 6 {
        "6"
    } else if d == 7 {
        "7"
    } else if d == 8 {
        "8"
    } else {
        "9"
    }
}

/// Appends the decimal digits of `n`.
pub fn append_decimal(text: &mut String, n: usize)
    ensures
        final(text)@ == old(text)@ + decimal(n as nat),
    decreases n,
{
    if n >= 10 {
        append_decimal(text, n / 10);
    }
    text.append(digit_text(n % 10));
}

/// The number that decimal digits spell.
pub open spec fn spelled(text: Seq<char>) -> nat
    decreases text.len(),
{
    if text.len() == 0 {
        0
    } else {
        spelled(text.drop_last()) * 10 + (text.last() as nat - '0' as nat) as nat
    }
}

/// The decimal text of a number is made of digits, has no leading zero, and spells the
/// number.
pub proof fn law_decimal_reads_back(n: nat)
    ensures
        decimal(n).len() > 0,
        forall|i: int| 0 <= i < decimal(n).len() ==> '0' <= #[trigger] decimal(n)[i] <= '9',
        decimal(n).len() > 1 ==> decimal(n)[0] != '0',
        spelled(decimal(n)) == n,
    decreases n,
{
    reveal_with_fuel(spelled, 2);
    if n < 10 {
        assert(decimal(n).drop_last() =~= Seq::empty());
    } else {
        law_decimal_reads_back(n / 10);
        assert(decimal(n).drop_last() =~= decimal(n / 10));
        if n / 10 < 10 {
            assert(decimal(n / 10) == seq![digit(n / 10)]);
        }
    }
}

/// What a call of [`append_decimal`] does: behind the text as it was stand digits that spell
/// the number.
pub proof fn law_calls_of_append_decimal(text: &mut String, n: usize)
    requires
        call_ensures(append_decimal, (text, n), ()),
    ensures
        final(text)@.len() > old(text)@.len(),
        final(text)@.take(old(text)@.len() as int) == old(text)@,
        spelled(final(text)@.skip(old(text)@.len() as int)) == n,
{
    law_decimal_reads_back(n as nat);
    assert(final(text)@.take(old(text)@.len() as int) =~= old(text)@);
    assert(final(text)@.skip(old(text)@.len() as int) =~= decimal(n as nat));
}

} // verus!
