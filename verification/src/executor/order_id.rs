//! Identifiers of orders.

use crate::text::digits::{decimal_text, signed_text};
use vstd::prelude::*;
use vstd::string::*;

verus! {

/// A lower-case hexadecimal digit.
pub open spec fn is_hex(c: char) -> bool {
    48 <= c as int <= 57 || 97 <= c as int <= 102
}

/// The hyphenated form of a random (version 4) UUID.
pub open spec fn is_random_uuid(s: Seq<char>) -> bool {
    &&& s.len() == 36
    &&& forall|i: int|
        0 <= i < 36 ==> if i == 8 || i == 13 || i == 18 || i == 23 {
            #[trigger] s[i] == '-'
        } else {
            is_hex(s[i])
        }
    &&& s[14] == '4'
    &&& s[19] == '8' || s[19] == '9' || s[19] == 'a' || s[19] == 'b'
}

/// Draws an identifier with [`uuid::Uuid::new_v4`] and gives its display form. Two calls may
/// differ; every outcome is a hyphenated version 4 UUID in lower case.
#[verifier::external_body]
fn random_uuid() -> (s: String)
    ensures
        is_random_uuid(s@),
{
    uuid::Uuid::new_v4().to_string()
}

/// The text was drawn.
pub closed spec fn is_drawn(token: Seq<char>) -> bool {
    exists|s: String| #[trigger] call_ensures(random_uuid, (), s) && s@ == token
}

/// The identifier of an order at `ts` with the random part `token`.
pub open spec fn order_id_text(ts: i64, token: Seq<char>) -> Seq<char> {
    decimal_text(ts as int) + "-"@ + token
}

/// The identifier of an order at `ts` with the given random part.
pub fn order_id_with(ts: i64, token: &str) -> (s: String)
    ensures
        s@ == order_id_text(ts, token@),
{
    let mut s = signed_text(ts);
    s.append("-");
    s.append(token);
    s
}

/// The identifier of an order at `ts` with a drawn random part.
pub open spec fn is_fresh_order_id(ts: i64, id: Seq<char>) -> bool {
    exists|token: Seq<char>| #[trigger]
        is_drawn(token) && is_random_uuid(token) && id == order_id_text(ts, token)
}

/// A fresh identifier of an order at `ts`.
pub fn new_order_id(ts: i64) -> (s: String)
    ensures
        is_fresh_order_id(ts, s@),
{
    let token = random_uuid();
    proof {
        assert(call_ensures(random_uuid, (), token));
        assert(is_drawn(token@));
    }
    order_id_with(ts, token.as_str())
}

/// The identifier of an order is its moment in decimal notation, a hyphen and what was drawn: 36
/// characters, hexadecimal but for the hyphens.
pub proof fn law_order_ids_tell_the_moment(ts: i64, id: Seq<char>) -> (token: Seq<char>)
    requires
        is_fresh_order_id(ts, id),
    ensures
        is_drawn(token),
        token.len() == 36,
        id == decimal_text(ts as int) + "-"@ + token,
        token[8] == '-' && token[13] == '-' && token[18] == '-' && token[23] == '-',
        token[14] == '4',
{
    choose|token: Seq<char>| #[trigger]
        is_drawn(token) && is_random_uuid(token) && id == order_id_text(ts, token)
}

} // verus!
