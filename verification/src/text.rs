//! Decimal figures as text.
use vstd::arithmetic::div_mod::lemma_div_denominator;
use vstd::arithmetic::power::{lemma_pow0, lemma_pow_positive, pow};
use vstd::prelude::*;

verus! {

/// The ten decimal digits, each at its own index.
pub open spec fn digits() -> Seq<char> {
    "0123456789"@
}

/// The usual decimal notation of `n`: most significant digit first, no leading zero.
pub open spec fn decimal(n: nat) -> Seq<char>
    decreases n,
{
    if n < 10 {
        seq![digits()[n as int]]
    } else {
        decimal(n / 10).push(digits()[(n % 10) as int])
    }
}

/// The number that a run of decimal digits stands for.
pub open spec fn decimal_value(text: Seq<char>) -> nat
    decreases text.len(),
{
    if text.len() == 0 {
        0
    } else {
        10 * decimal_value(text.drop_last()) + digits().index_of(text.last()) as nat
    }
}

/// No two digits are the same character.
proof fn lemma_digits()
    ensures
        digits().len() == 10,
        forall|d: int| 0 <= d < 10 ==> digits().index_of(#[trigger] digits()[d]) == d,
{
    reveal_strlit("0123456789");
    assert forall|d: int| 0 <= d < 10 implies digits().index_of(#[trigger] digits()[d]) == d by {
        let found = digits().index_of(digits()[d]);
        assert(digits().contains(digits()[d]));
    }
}

/// Reading the decimal notation of a number back gives the number.
pub proof fn decimal_reads_back(n: nat)
    ensures
        decimal_value(decimal(n)) == n,
    decreases n,
{
    lemma_digits();
    reveal_with_fuel(decimal_value, 2);
    if n < 10 {
        assert(decimal(n).drop_last() =~= Seq::<char>::empty());
    } else {
        decimal_reads_back(n / 10);
        assert(decimal(n).drop_last() =~= decimal(n / 10));
    }
}

/// A number of at most twenty digits, as every 64-bit integer is, has at most that many.
pub proof fn decimal_is_short(n: nat)
    requires
        n < 1_0000_0000_0000_0000_0000,
    ensures
        1 <= decimal(n).len() <= 20,
{
    reveal_with_fuel(decimal, 20);
}

/// Decimal notation is made of digits, of one at least.
pub proof fn decimal_is_made_of_digits(n: nat)
    ensures
        decimal(n).len() >= 1,
        forall|i: int| 0 <= i < decimal(n).len() ==> '0' <= #[trigger] decimal(n)[i] <= '9',
    decreases n,
{
    reveal_strlit("0123456789");
    if n >= 10 {
        decimal_is_made_of_digits(n / 10);
    }
}

/// Positional notation: the digit that `i` digits follow counts the powers `10^i`, and there are
/// no more digits than the number needs.
pub proof fn decimal_shows_each_digit(n: nat, i: nat)
    ensures
        decimal(n).len() >= 1,
        n < pow(10, decimal(n).len()),
        decimal(n).len() > 1 ==> pow(10, (decimal(n).len() - 1) as nat) <= n,
        i < decimal(n).len() ==> decimal(n)[decimal(n).len() - 1 - i] as int == '0' as int + (
        n as int / pow(10, i)) % 10,
    decreases n,
{
    reveal_strlit("0123456789");
    reveal(pow);
    lemma_pow0(10);
    if n < 10 {
        assert(pow(10, 1) == 10 * pow(10, 0));
    } else {
        let len = decimal(n).len();
        decimal_shows_each_digit(n / 10, 0);
        assert(pow(10, len) == 10 * pow(10, (len - 1) as nat));
        assert(pow(10, (len - 1) as nat) == 10 * pow(10, (len - 2) as nat));
        if 0 < i < len {
            let above = (i - 1) as nat;
            decimal_shows_each_digit(n / 10, above);
            lemma_pow_positive(10, above);
            lemma_div_denominator(n as int, 10, pow(10, above));
        }
    }
}

/// A digit behind a number makes ten times the number and the digit.
pub proof fn decimal_value_is_positional(text: Seq<char>, digit: char)
    requires
        '0' <= digit <= '9',
    ensures
        decimal_value(Seq::empty()) == 0,
        decimal_value(text.push(digit)) == 10 * decimal_value(text) + (digit as int - '0' as int),
{
    lemma_digits();
    reveal_strlit("0123456789");
    let d = digit as int - '0' as int;
    assert(digits()[d] == digit);
    assert(text.push(digit).drop_last() =~= text);
}

/// Appends the decimal notation of `n` to `out`.
pub fn push_decimal(out: &mut String, n: u64)
    ensures
        final(out)@ == old(out)@ + decimal(n as nat),
    decreases n,
{
    proof {
        reveal_strlit("0123456789");
    }
    let all: &str = "0123456789";
    if n >= 10 {
        push_decimal(out, n / 10);
    }
    let d: usize = (n % 10) as usize;
    let digit = all.substring_char(d, d + 1);
    out.append(digit);
    proof {
        assert(digit@ =~= seq![digits()[d as int]]);
        assert(out@ =~= old(out)@ + decimal(n as nat));
    }
}

} // verus!
