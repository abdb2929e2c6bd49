//! Decimal notation in ASCII: what a run of digits denotes, how a number is
//! written, and that the two agree.

use vstd::prelude::*;
use vstd::string::*;
use crate::ascii::{all_ascii, as_chars};

verus! {

/// `0`, the first of the ASCII digits.
pub const DIGIT_ZERO: u8 = 48;

/// `9`, the last of the ASCII digits.
pub const DIGIT_NINE: u8 = 57;

/// Whether `b` is one of the ASCII digits `0` to `9`.
pub open spec fn is_digit(b: u8) -> bool {
    DIGIT_ZERO <= b && b <= DIGIT_NINE
}

/// Whether every byte of `s` is an ASCII digit.
pub open spec fn all_digits(s: Seq<u8>) -> bool {
    forall|i: int| 0 <= i < s.len() ==> is_digit(#[trigger] s[i])
}

/// The number that a run of ASCII digits denotes, most significant digit
/// first. Leading zeros are allowed and the run may be of any length.
pub open spec fn decimal_value(s: Seq<u8>) -> nat
    recommends
        all_digits(s),
    decreases s.len(),
{
    if s.len() == 0 {
        0
    } else {
        (10 * decimal_value(s.drop_last()) + (s.last() - DIGIT_ZERO)) as nat
    }
}

/// The shortest decimal notation of `n`: no leading zero, and `0` for zero.
pub open spec fn decimal_text(n: nat) -> Seq<u8>
    decreases n,
{
    if n < 10 {
        seq![(DIGIT_ZERO + n) as u8]
    } else {
        decimal_text(n / 10).push((DIGIT_ZERO + n % 10) as u8)
    }
}

/// The notation of a number is a non-empty run of digits.
pub proof fn lemma_decimal_text_digits(n: nat)
    ensures
        decimal_text(n).len() >= 1,
        all_digits(decimal_text(n)),
    decreases n,
{
    if n >= 10 {
        lemma_decimal_text_digits(n / 10);
    }
}

/// The notation of a number is plain ASCII.
pub proof fn lemma_decimal_text_ascii(n: nat)
    ensures
        all_ascii(decimal_text(n)),
{
    lemma_decimal_text_digits(n);
    let t = decimal_text(n);
    assert forall|i: int| 0 <= i < t.len() implies #[trigger] t[i] < 128 by {
        assert(is_digit(t[i]));
    }
}

/// Reading back the notation of a number gives the number.
pub proof fn lemma_decimal_round_trip(n: nat)
    ensures
        decimal_value(decimal_text(n)) == n,
    decreases n,
{
    let t = decimal_text(n);
    if n < 10 {
        assert(t.drop_last() =~= Seq::<u8>::empty());
        assert(decimal_value(t.drop_last()) == 0);
    } else {
        lemma_decimal_round_trip(n / 10);
        assert(t.drop_last() =~= decimal_text(n / 10));
    }
}

/// A run of digits extended by one digit denotes ten times as much, plus
/// the digit.
pub proof fn lemma_decimal_value_push(s: Seq<u8>, d: u8)
    requires
        all_digits(s),
        is_digit(d),
    ensures
        all_digits(s.push(d)),
        decimal_value(s.push(d)) == 10 * decimal_value(s) + (d - DIGIT_ZERO),
{
    assert(s.push(d).drop_last() =~= s);
    assert(s.push(d).last() == d);
}

/// The one-character string of a decimal digit.
fn digit_str(d: u8) -> (s: &'static str)
    requires
        d < 10,
    ensures
        s@ == seq![((DIGIT_ZERO + d) as u8) as char],
{
    proof {
        reveal_strlit("0");
        reveal_strlit("1");
        reveal_strlit("2");
        reveal_strlit("3");
        reveal_strlit("4");
        reveal_strlit("5");
        reveal_strlit("6");
        reveal_strlit("7");
        reveal_strlit("8");
        reveal_strlit("9");
    }
    let s = match d {
        0 => "0",
        1 => "1",
        2 => "2",
        3 => "3",
        4 => "4",
        5 => "5",
        6 => "6",
        7 => "7",
        8 => "8",
        _ => "9",
    };
    assert(s@ =~= seq![((DIGIT_ZERO + d) as u8) as char]);
    s
}

/// Appends the decimal notation of `n` to `out`.
pub fn append_decimal(out: &mut String, n: u64)
    ensures
        final(out)@ == old(out)@ + as_chars(decimal_text(n as nat)),
    decreases n,
{
    if n >= 10 {
        append_decimal(out, n / 10);
    }
    out.append(digit_str((n % 10) as u8));
    proof {
        let t = decimal_text(n as nat);
        if n >= 10 {
            let h = decimal_text((n / 10) as nat);
            assert(as_chars(t) =~= as_chars(h).push(((DIGIT_ZERO + n % 10) as u8) as char));
            assert(out@ =~= old(out)@ + as_chars(t));
        } else {
            assert(as_chars(t) =~= seq![((DIGIT_ZERO + n) as u8) as char]);
            assert(out@ =~= old(out)@ + as_chars(t));
        }
    }
}

} // verus!
