//! Settings out of environment variables: each is a text that may be missing.

use crate::num::decimal::parse_number;
use crate::num::model::{double_format, single_format, Num};
use crate::num::{Double, Single};
use crate::text::digits::{
    decimal_text, law_decimal_round_trip, parse_size, parse_unsigned, parse_unsigned_32,
    unsigned_value,
};
use crate::text::words::{bool_value, parse_bool};
use vstd::prelude::*;

verus! {

/// The truth value of a variable, or the default where it is unset or not one.
pub open spec fn flag_or(var: Option<String>, default: bool) -> bool {
    match var {
        Some(s) => match bool_value(s@) {
            Some(b) => b,
            None => default,
        },
        None => default,
    }
}

/// The integer of a variable, or the default where it is unset, not one or above `max`.
pub open spec fn integer_or(var: Option<String>, max: nat, default: nat) -> nat {
    match var {
        Some(s) => match unsigned_value(s@) {
            Some(v) => if v <= max {
                v
            } else {
                default
            },
            None => default,
        },
        None => default,
    }
}

/// The single-precision number of a variable, or the default where it is unset or not one.
pub open spec fn single_or(var: Option<String>, default: Num) -> Num {
    match var {
        Some(s) => match parse_number(single_format(), s@) {
            Some(x) => x,
            None => default,
        },
        None => default,
    }
}

pub fn read_flag(var: &Option<String>, default: bool) -> (r: bool)
    ensures
        r == flag_or(*var, default),
{
    match var {
        Some(s) => match parse_bool(s.as_str()) {
            Some(b) => b,
            None => default,
        },
        None => default,
    }
}

pub fn read_u32(var: &Option<String>, default: u32) -> (r: u32)
    ensures
        r == integer_or(*var, u32::MAX as nat, default as nat),
{
    match var {
        Some(s) => match parse_unsigned_32(s.as_str()) {
            Some(v) => v,
            None => default,
        },
        None => default,
    }
}

pub fn read_u64(var: &Option<String>, default: u64) -> (r: u64)
    ensures
        r == integer_or(*var, u64::MAX as nat, default as nat),
{
    match var {
        Some(s) => match parse_unsigned(s.as_str()) {
            Some(v) => v,
            None => default,
        },
        None => default,
    }
}

pub fn read_single(var: &Option<String>, default: Single) -> (r: Single)
    ensures
        r@ == single_or(*var, default@),
{
    match var {
        Some(s) => match Single::parse(s.as_str()) {
            Some(v) => v,
            None => default,
        },
        None => default,
    }
}

/// The double of a variable, or the default where it is unset or not one.
pub open spec fn double_or(var: Option<String>, default: Num) -> Num {
    match var {
        Some(s) => match parse_number(double_format(), s@) {
            Some(x) => x,
            None => default,
        },
        None => default,
    }
}

/// The text of a variable, or the default where it is unset.
pub open spec fn text_or(var: Option<String>, default: Seq<char>) -> Seq<char> {
    match var {
        Some(s) => s@,
        None => default,
    }
}

pub fn read_usize(var: &Option<String>, default: usize) -> (r: usize)
    ensures
        r == integer_or(*var, usize::MAX as nat, default as nat),
{
    match var {
        Some(s) => match parse_size(s.as_str()) {
            Some(v) => v,
            None => default,
        },
        None => default,
    }
}

pub fn read_double(var: &Option<String>, default: Double) -> (r: Double)
    ensures
        r@ == double_or(*var, default@),
{
    match var {
        Some(s) => match Double::parse(s.as_str()) {
            Some(v) => v,
            None => default,
        },
        None => default,
    }
}

pub fn read_text(var: &Option<String>, default: &str) -> (r: String)
    ensures
        r@ == text_or(*var, default@),
{
    match var {
        Some(s) => s.clone(),
        None => default.to_string(),
    }
}

/// A variable that is not set leaves the default; one that holds a number in decimal notation
/// within the limit gives that number, and one above the limit the default.
pub proof fn law_integers_override_the_default(s: String, v: nat, max: nat, default: nat)
    requires
        s@ == decimal_text(v as int),
    ensures
        integer_or(None, max, default) == default,
        v <= max ==> integer_or(Some(s), max, default) == v,
        v > max ==> integer_or(Some(s), max, default) == default,
{
    law_decimal_round_trip(v as int);
}

/// A variable that is not set leaves the default; `true` and `false` give themselves, and any
/// other text leaves the default.
pub proof fn law_flags_override_the_default(s: String, default: bool)
    ensures
        flag_or(None, default) == default,
        s@ == "true"@ ==> flag_or(Some(s), default),
        s@ == "false"@ ==> !flag_or(Some(s), default),
        s@ != "true"@ && s@ != "false"@ ==> flag_or(Some(s), default) == default,
{
    reveal_strlit("true");
    reveal_strlit("false");
    assert("true"@.len() == 4 && "false"@.len() == 5);
}

/// A variable that is not set leaves the default; a text that denotes a number gives that number.
pub proof fn law_numbers_override_the_default(s: String, default: Num)
    ensures
        double_or(None, default) == default,
        single_or(None, default) == default,
        parse_number(double_format(), s@) matches Some(x) ==> double_or(Some(s), default) == x,
        parse_number(double_format(), s@) is None ==> double_or(Some(s), default) == default,
        parse_number(single_format(), s@) matches Some(x) ==> single_or(Some(s), default) == x,
        parse_number(single_format(), s@) is None ==> single_or(Some(s), default) == default,
{
}

/// A variable that is set gives its text, else the default stays.
pub proof fn law_texts_override_the_default(s: String, default: Seq<char>)
    ensures
        text_or(None, default) == default,
        text_or(Some(s), default) == s@,
{
}

} // verus!
