use vstd::prelude::*;
use crate::uint256::Uint256;

verus! {

/// The character of a decimal digit below ten.
pub open spec fn digit_char(d: nat) -> char {
    seq!['0', '1', '2', '3', '4', '5', '6', '7', '8', '9'][d as int]
}

pub open spec fn is_digit(c: char) -> bool {
    '0' <= c && c <= '9'
}

/// The number a decimal digit character stands for.
pub open spec fn digit_value(c: char) -> nat {
    (c as u32 - '0' as u32) as nat
}

/// The decimal digits of `n`, most significant first, without leading zeros
/// (zero itself is the single digit `0`).
pub open spec fn decimal_digits(n: nat) -> Seq<char>
    decreases n,
{
    if n < 10 {
        seq![digit_char(n)]
    } else {
        decimal_digits(n / 10).push(digit_char(n % 10))
    }
}

/// The number that a string of decimal digits reads as.
pub open spec fn digits_value(s: Seq<char>) -> nat
    decreases s.len(),
{
    if s.len() == 0 {
        0
    } else {
        digits_value(s.drop_last()) * 10 + digit_value(s.last())
    }
}

proof fn lemma_digit_char(d: nat)
    requires
        d < 10,
    ensures
        is_digit(digit_char(d)),
        digit_value(digit_char(d)) == d,
        digit_char(d) == '0' <==> d == 0,
{
}

/// Decimal rendering reads back as the number it renders, uses digit
/// characters only, and starts with `0` only when it is the single digit of
/// zero.
pub proof fn lemma_decimal_round_trip(n: nat)
    ensures
        digits_value(decimal_digits(n)) == n,
        decimal_digits(n).len() >= 1,
        forall|i: int| 0 <= i < decimal_digits(n).len() ==> is_digit(#[trigger] decimal_digits(n)[i]),
        decimal_digits(n)[0] == '0' ==> n == 0 && decimal_digits(n).len() == 1,
    decreases n,
{
    if n < 10 {
        lemma_digit_char(n);
        assert(decimal_digits(n).drop_last() =~= Seq::<char>::empty());
        assert(digits_value(Seq::<char>::empty()) == 0);
    } else {
        let q = n / 10;
        let r = n % 10;
        lemma_decimal_round_trip(q);
        lemma_digit_char(r);
        let s = decimal_digits(n);
        assert(s.drop_last() =~= decimal_digits(q));
        assert(s.last() == digit_char(r));
        assert(n == q * 10 + r);
        assert(digits_value(s) == digits_value(decimal_digits(q)) * 10 + r);
        assert forall|i: int| 0 <= i < s.len() implies is_digit(#[trigger] s[i]) by {
            if i < s.len() - 1 {
                assert(s[i] == decimal_digits(q)[i]);
            }
        }
        assert(s[0] == decimal_digits(q)[0]);
    }
}

/// Relies on the `Display` impl of `U256` (uint crate, through web3's
/// re-export): it writes the decimal digits of the number without leading
/// zeros, and `0` for zero.
#[verifier::external_body]
fn u256_to_decimal(x: &Uint256) -> (r: String)
    ensures
        r@ == decimal_digits(x.value()),
{
    web3::types::U256([x.w0, x.w1, x.w2, x.w3]).to_string()
}

impl Uint256 {
    /// The decimal digits of the number, as a CSV cell holds it.
    pub fn to_decimal(&self) -> (r: String)
        ensures
            r@ == decimal_digits(self.value()),
    {
        u256_to_decimal(self)
    }
}

} // verus!
