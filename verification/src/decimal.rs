//! Decimal rendering of unsigned integers, for error messages.

use vstd::prelude::*;

verus! {

/// The character for a single decimal digit.
pub open spec fn decimal_digit(d: nat) -> char {
    if d == 0 {
        '0'
    } else if d == 1 {
        '1'
    } else if d == 2 {
        '2'
    } else if d == 3 {
        '3'
    } else if d == 4 {
        '4'
    } else if d == 5 {
        '5'
    } else if d == 6 {
        '6'
    } else if d == 7 {
        '7'
    } else if d == 8 {
        '8'
    } else {
        '9'
    }
}

/// The decimal rendering of `n`, most significant digit first, without
/// leading zeroes (except for `n == 0` itself).
pub open spec fn spec_decimal(n: nat) -> Seq<char>
    decreases n,
{
    if n < 10 {
        seq![decimal_digit(n)]
    } else {
        spec_decimal(n / 10).push(decimal_digit(n % 10))
    }
}

/// Every character of a decimal rendering is a digit, so in particular it is
/// never a newline.
pub proof fn lemma_decimal_digits_only(n: nat)
    ensures
        forall|i: int| 0 <= i < spec_decimal(n).len() ==> #[trigger] spec_decimal(n)[i] != '\n',
    decreases n,
{
    if n < 10 {
        assert(spec_decimal(n) =~= seq![decimal_digit(n)]);
        assert(spec_decimal(n)[0] == decimal_digit(n));
    } else {
        lemma_decimal_digits_only(n / 10);
        assert forall|i: int| 0 <= i < spec_decimal(n).len() implies #[trigger] spec_decimal(n)[i]
            != '\n' by {
            if i < spec_decimal(n / 10).len() {
                assert(spec_decimal(n)[i] == spec_decimal(n / 10)[i]);
            } else {
                assert(spec_decimal(n)[i] == decimal_digit(n % 10));
            }
        }
    }
}

fn decimal_digit_str(d: u128) -> (r: &'static str)
    requires
        d < 10,
    ensures
        r@ =~= seq![decimal_digit(d as nat)],
{
    proof {
        reveal_strlit("0");
        reveal_strlit("1");
        reveal_strlit("2");
        reveal_strlit("3");
        reveal_strlit("4");
        reveal_strlit("5");
        reveal_strlit("6");
        reveal_strlit("7");
        reveal_strlit("8");
        reveal_strlit("9");
    }
    if d == 0 {
        "0"
    } else if d == 1 {
        "1"
    } else if d == 2 {
        "2"
    } else if d == 3 {
        "3"
    } else if d == 4 {
        "4"
    } else if d == 5 {
        "5"
    } else if d == 6 {
        "6"
    } else if d == 7 {
        "7"
    } else if d == 8 {
        "8"
    } else {
        "9"
    }
}

/// Renders `n` in decimal.
pub fn u128_to_decimal(n: u128) -> (s: String)
    ensures
        s@ == spec_decimal(n as nat),
    decreases n,
{
    if n < 10 {
        let s = String::from_str(decimal_digit_str(n));
        proof {
            assert(s@ =~= spec_decimal(n as nat));
        }
        s
    } else {
        let mut s = u128_to_decimal(n / 10);
        let d = decimal_digit_str(n % 10);
        s.append(d);
        proof {
            assert((n / 10) as nat == n as nat / 10);
            assert((n % 10) as nat == n as nat % 10);
            assert(s@ =~= spec_decimal(n as nat));
        }
        s
    }
}

/// Renders `n` in decimal.
pub fn u64_to_decimal(n: u64) -> (s: String)
    ensures
        s@ == spec_decimal(n as nat),
{
    u128_to_decimal(n as u128)
}

} // verus!
