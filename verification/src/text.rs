//! Building text: decimal notation, and appending to a string.

use vstd::prelude::*;

verus! {

/// The ten decimal digits, in order of their value.
pub open spec fn decimal_digits() -> Seq<char> {
    seq!['0', '1', '2', '3', '4', '5', '6', '7', '8', '9']
}

/// A number in decimal notation, without leading zeros.
pub open spec fn decimal_text(n: nat) -> Seq<char>
    decreases n,
{
    if n < 10 {
        seq![decimal_digits()[n as int]]
    } else {
        decimal_text(n / 10).push(decimal_digits()[(n % 10) as int])
    }
}

/// The digits that stand before the last digits of a number when `n` is what
/// is left of it: none where nothing is left.
spec fn leading_text(n: nat) -> Seq<char> {
    if n == 0 {
        Seq::empty()
    } else {
        decimal_text(n)
    }
}

/// A number is written as what is left without its last digit, then that digit.
proof fn lemma_last_digit(n: nat)
    requires
        n > 0,
    ensures
        decimal_text(n) == leading_text(n / 10).push(decimal_digits()[(n % 10) as int]),
{
    if n < 10 {
        assert(decimal_text(n) =~= Seq::<char>::empty().push(decimal_digits()[(n % 10) as int]));
    }
}

/// Trusted: `String::push` of the standard library, which appends one
/// character to the end of the string.
#[verifier::external_body]
pub(crate) fn push_char(text: &mut String, c: char)
    ensures
        final(text)@ == old(text)@.push(c),
{
    text.push(c)
}

/// The character of a decimal digit.
fn digit(d: usize) -> (c: char)
    requires
        d < 10,
    ensures
        c == decimal_digits()[d as int],
{
    match d {
        0 => '0',
        1 => '1',
        2 => '2',
        3 => '3',
        4 => '4',
        5 => '5',
        6 => '6',
        7 => '7',
        8 => '8',
        _ => '9',
    }
}

/// A number in decimal notation.
pub fn decimal(n: usize) -> (text: String)
    ensures
        text@ == decimal_text(n as nat),
{
    let mut digits: Vec<char> = Vec::new();
    digits.push(digit(n % 10));
    let mut rest: usize = n / 10;
    proof {
        if n > 0 {
            lemma_last_digit(n as nat);
        }
        assert(decimal_text(n as nat) =~= leading_text(rest as nat) + digits@.reverse());
    }
    while rest > 0
        invariant
            decimal_text(n as nat) == leading_text(rest as nat) + digits@.reverse(),
        decreases rest,
    {
        let ghost before = digits@;
        proof {
            lemma_last_digit(rest as nat);
        }
        digits.push(digit(rest % 10));
        proof {
            assert(digits@.reverse() =~= seq![decimal_digits()[(rest % 10) as int]]
                + before.reverse());
            assert(leading_text(rest as nat) + before.reverse() =~= leading_text(
                (rest / 10) as nat,
            ) + digits@.reverse());
        }
        rest = rest / 10;
    }
    let mut text = String::new();
    let mut i: usize = digits.len();
    assert(digits@.reverse().take(0) =~= text@);
    while i > 0
        invariant
            i <= digits.len(),
            text@ == digits@.reverse().take(digits.len() - i),
        decreases i,
    {
        i -= 1;
        push_char(&mut text, digits[i]);
        assert(text@ =~= digits@.reverse().take(digits.len() - i));
    }
    assert(digits@.reverse().take(digits.len() as int) =~= digits@.reverse());
    text
}

} // verus!
