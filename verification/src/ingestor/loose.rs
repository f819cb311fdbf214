//! Fields that the exchange sends in more than one JSON type.

use crate::json::Json;
use crate::text::digits::{parse_signed, parse_unsigned, signed_value, unsigned_value};
use vstd::prelude::*;

verus! {

/// An unsigned number or a string.
#[derive(Debug)]
pub enum NumOrStr {
    Num(u64),
    Str(String),
}

/// A signed or unsigned number, or a string.
#[derive(Debug)]
pub enum SignedOrStr {
    Signed(i64),
    Unsigned(u64),
    Str(String),
}

/// A truth value or a small number.
#[derive(Clone, Copy, Debug, PartialEq, Eq, Structural)]
pub enum BoolOrNum {
    Bool(bool),
    Num(u8),
}

pub open spec fn as_u64(v: Option<nat>) -> Option<u64> {
    match v {
        Some(n) => if n <= u64::MAX {
            Some(n as u64)
        } else {
            None
        },
        None => None,
    }
}

pub open spec fn as_i64(v: Option<int>) -> Option<i64> {
    match v {
        Some(n) => if i64::MIN <= n <= i64::MAX {
            Some(n as i64)
        } else {
            None
        },
        None => None,
    }
}

/// The unsigned integer of a number or string; `None` where a string denotes none.
pub fn u64_number_or_string(v: &NumOrStr) -> (r: Option<u64>)
    ensures
        r == (match *v {
            NumOrStr::Num(n) => Some(n),
            NumOrStr::Str(s) => as_u64(unsigned_value(s@)),
        }),
{
    match v {
        NumOrStr::Num(n) => Some(*n),
        NumOrStr::Str(s) => parse_unsigned(s.as_str()),
    }
}

/// The same of a field that may be missing or null; the outer `None` is a malformed field.
pub fn option_u64_number_or_string(v: &Option<NumOrStr>) -> (r: Option<Option<u64>>)
    ensures
        r == (match *v {
            None => Some(None::<u64>),
            Some(NumOrStr::Num(n)) => Some(Some(n)),
            Some(NumOrStr::Str(s)) => match as_u64(unsigned_value(s@)) {
                Some(n) => Some(Some(n)),
                None => None,
            },
        }),
{
    match v {
        None => Some(None),
        Some(w) => match u64_number_or_string(w) {
            Some(n) => Some(Some(n)),
            None => None,
        },
    }
}

/// A truth value, or 0 or 1 for one; the number itself where it is neither.
pub fn bool_number_or_bool(v: BoolOrNum) -> (r: Result<bool, u8>)
    ensures
        r == (match v {
            BoolOrNum::Bool(b) => Ok::<bool, u8>(b),
            BoolOrNum::Num(n) => if n == 0 {
                Ok(false)
            } else if n == 1 {
                Ok(true)
            } else {
                Err(n)
            },
        }),
{
    match v {
        BoolOrNum::Bool(b) => Ok(b),
        BoolOrNum::Num(n) => if n == 0 {
            Ok(false)
        } else if n == 1 {
            Ok(true)
        } else {
            Err(n)
        },
    }
}

/// The signed integer of a number or string; `None` where it does not fit or denotes none.
pub fn i64_loose(v: &SignedOrStr) -> (r: Option<i64>)
    ensures
        r == (match *v {
            SignedOrStr::Signed(n) => Some(n),
            SignedOrStr::Unsigned(u) => as_i64(Some(u as int)),
            SignedOrStr::Str(s) => as_i64(signed_value(s@)),
        }),
{
    match v {
        SignedOrStr::Signed(n) => Some(*n),
        SignedOrStr::Unsigned(u) => if *u <= 0x7fff_ffff_ffff_ffff {
            Some(*u as i64)
        } else {
            None
        },
        SignedOrStr::Str(s) => parse_signed(s.as_str()),
    }
}

/// The signed integer of a field that may be missing or null; the outer `None` is a malformed
/// field.
pub fn option_i64_loose(v: &Option<Json>) -> (r: Option<Option<i64>>)
    ensures
        r == (match *v {
            None => Some(None::<i64>),
            Some(Json::Null) => Some(None),
            Some(j) => match j.loose_i64() {
                Some(n) => Some(Some(n)),
                None => None,
            },
        }),
{
    match v {
        None => Some(None),
        Some(j) => match j {
            Json::Null => Some(None),
            _ => match j.as_i64() {
                Some(n) => Some(Some(n)),
                None => None,
            },
        },
    }
}

} // verus!
