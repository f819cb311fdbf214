//! What decimal notations denote.

use super::decimal::{decimal_number, fraction_run, parse_number, scaled_decimal};
use super::double::double_int;
use super::model::{double_format, rounded, Format};
use crate::text::digits::{
    all_digits, decimal_digits, decimal_text, digit_run, digits_value, is_digit,
    lemma_digits_round_trip, tens,
};
use crate::text::words::spells;
use vstd::arithmetic::power2::pow2;
use vstd::prelude::*;

verus! {

proof fn lemma_run_to(s: Seq<char>, i: int, end: int)
    requires
        0 <= i <= end <= s.len(),
        forall|k: int| i <= k < end ==> is_digit(#[trigger] s[k]),
        end < s.len() ==> !is_digit(s[end]),
    ensures
        digit_run(s, i) == end - i,
    decreases end - i,
{
    if i < end {
        assert(is_digit(s[i]));
        lemma_run_to(s, i + 1, end);
    }
}

/// What starts with a digit spells no word.
proof fn lemma_digits_spell_nothing(t: Seq<char>)
    requires
        t.len() > 0,
        is_digit(t[0]),
    ensures
        !spells(t, "inf"@),
        !spells(t, "infinity"@),
        !spells(t, "nan"@),
{
    reveal_strlit("inf");
    reveal_strlit("infinity");
    reveal_strlit("nan");
    assert("inf"@[0] == 'i' && "infinity"@[0] == 'i' && "nan"@[0] == 'n');
    assert(crate::text::words::ascii_lower(t[0]) == t[0]);
}

/// A row of digits denotes its value.
pub proof fn law_digits_are_parsed(f: Format, x: Seq<char>)
    requires
        x.len() > 0,
        all_digits(x),
    ensures
        parse_number(f, x) == Some(rounded(f, false, digits_value(x) * pow2(f.scale), 1)),
        parse_number(f, seq!['-'] + x) == Some(
            rounded(f, true, digits_value(x) * pow2(f.scale), 1),
        ),
{
    assert(is_digit(x[0]));
    lemma_digits_spell_nothing(x);
    lemma_run_to(x, 0, x.len() as int);
    let n = digits_value(x);
    let a = digit_run(x, 0);
    assert(a == x.len());
    assert(fraction_run(x, a) == 0);
    assert(x.take(a as int) =~= x);
    assert(x.subrange(a as int, a as int) =~= Seq::<char>::empty());
    assert(digits_value(Seq::<char>::empty()) == 0);
    assert(tens(0) == 1);
    assert(n * tens(0) + 0 == n) by (nonlinear_arith)
        requires
            tens(0) == 1,
    ;
    assert(decimal_number(f, false, x) == Some(scaled_decimal(f, false, n, 0)));
    assert(decimal_number(f, true, x) == Some(scaled_decimal(f, true, n, 0)));
    assert(n * tens(0) * pow2(f.scale) == n * pow2(f.scale)) by (nonlinear_arith)
        requires
            tens(0) == 1,
    ;
    let s = seq!['-'] + x;
    assert(s.skip(1) =~= x);
}

/// The decimal notation of an integer denotes the number nearest to it.
pub proof fn law_integers_are_parsed(v: nat)
    ensures
        parse_number(double_format(), decimal_text(v as int)) == Some(double_int(v as int)),
{
    reveal(double_int);
    lemma_digits_round_trip(v);
    law_digits_are_parsed(double_format(), decimal_digits(v));
}

/// Digits before and behind a point denote their value in units of the last digit.
pub proof fn law_fractions_are_parsed(f: Format, x: Seq<char>, y: Seq<char>)
    requires
        x.len() > 0,
        all_digits(x),
        all_digits(y),
    ensures
        y.len() > 0 ==> parse_number(f, x + seq!['.'] + y) == Some(
            rounded(
                f,
                false,
                (digits_value(x) * tens(y.len()) + digits_value(y)) * pow2(f.scale),
                tens(y.len()),
            ),
        ),
{
    let t = x + seq!['.'] + y;
    let a = x.len();
    let b = y.len();
    if b > 0 {
        assert(t[0] == x[0]);
        assert(is_digit(x[0]));
        lemma_digits_spell_nothing(t);
        assert forall|k: int| 0 <= k < a implies is_digit(#[trigger] t[k]) by {
            assert(t[k] == x[k]);
        }
        assert(t[a as int] == '.');
        lemma_run_to(t, 0, a as int);
        assert forall|k: int| a + 1 <= k < t.len() implies is_digit(#[trigger] t[k]) by {
            assert(t[k] == y[k - a - 1]);
        }
        lemma_run_to(t, (a + 1) as int, t.len() as int);
        assert(fraction_run(t, a) == b);
        assert(t.take(a as int) =~= x);
        assert(t.subrange((a + 1) as int, (a + 1 + b) as int) =~= y);
        let n = digits_value(x) * tens(b) + digits_value(y);
        assert(decimal_number(f, false, t) == Some(scaled_decimal(f, false, n, -(b as int))));
    }
}

} // verus!
