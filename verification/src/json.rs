//! JSON documents as trees of plain values.

use crate::num::decimal::parse_number;
use crate::num::decimal_laws::law_integers_are_parsed;
use crate::num::double::double_int;
use crate::num::model::{double_format, Num};
use crate::num::Double;
use crate::text::digits::{
    decimal_text, law_decimal_round_trip, parse_signed, parse_unsigned, signed_value,
    unsigned_value,
};
use crate::text::words::same_text;
use vstd::prelude::*;

verus! {

/// A JSON number: what it is as an unsigned and as a signed integer, and as a double.
#[derive(Clone, Copy, Debug, PartialEq, Eq, Structural)]
pub struct JsonNumber {
    pub unsigned: Option<u64>,
    pub signed: Option<i64>,
    pub double: Option<Double>,
}

/// A JSON document.
#[derive(Debug)]
pub enum Json {
    Null,
    Bool(bool),
    Number(JsonNumber),
    Text(String),
    List(Vec<Json>),
    Object(Vec<(String, Json)>),
}

/// The value type of `serde_json`, opaque here.
#[verifier::external_type_specification]
#[verifier::external_body]
pub struct ExValue(serde_json::Value);

/// Takes a [`serde_json::Value`] over one for one: a number by `as_u64`, `as_i64` and `as_f64`,
/// an object as the list of its entries.
#[verifier::external_body]
fn from_value(v: serde_json::Value) -> (r: Json) {
    match v {
        serde_json::Value::Null => Json::Null,
        serde_json::Value::Bool(b) => Json::Bool(b),
        serde_json::Value::Number(n) => Json::Number(JsonNumber {
            unsigned: n.as_u64(),
            signed: n.as_i64(),
            double: n.as_f64().map(|x| Double::from_bits(x.to_bits())),
        }),
        serde_json::Value::String(s) => Json::Text(s),
        serde_json::Value::Array(a) => Json::List(a.into_iter().map(from_value).collect()),
        serde_json::Value::Object(m) => {
            Json::Object(m.into_iter().map(|(k, w)| (k, from_value(w))).collect())
        }
    }
}

/// The document that `serde_json` reads from these bytes, where they hold one.
pub uninterp spec fn json_document(bytes: Seq<u8>) -> Option<Json>;

/// Reads a document with [`serde_json::from_slice`]; `None` where that fails. Which bytes it
/// accepts and what tree they give is left to the name. The document is read before anything is
/// known of its fields: of a repeated key the last value counts, and the values under keys that
/// nobody asks for must be well formed too, numbers within the range of a double included.
#[verifier::external_body]
pub(crate) fn parse_json(bytes: &[u8]) -> (r: Option<Json>)
    ensures
        r == json_document(bytes@),
{
    serde_json::from_slice(bytes).ok().map(from_value)
}

/// The value of the first entry with this key.
pub open spec fn lookup(entries: Seq<(String, Json)>, key: Seq<char>) -> Option<Json>
    decreases entries.len(),
{
    if entries.len() == 0 {
        None
    } else if entries[0].0@ == key {
        Some(entries[0].1)
    } else {
        lookup(entries.drop_first(), key)
    }
}

fn entry_place(entries: &Vec<(String, Json)>, key: &str) -> (r: Option<usize>)
    ensures
        match r {
            Some(i) => i < entries@.len() && lookup(entries@, key@) == Some(
                entries@[i as int].1,
            ),
            None => lookup(entries@, key@) is None,
        },
{
    let mut i: usize = 0;
    proof {
        assert(entries@.skip(0) =~= entries@);
    }
    while i < entries.len()
        invariant
            i <= entries@.len(),
            lookup(entries@, key@) == lookup(entries@.skip(i as int), key@),
        decreases entries@.len() - i,
    {
        proof {
            assert(entries@.skip(i as int).drop_first() =~= entries@.skip(i + 1));
        }
        if same_text(entries[i].0.as_str(), key) {
            return Some(i);
        }
        i = i + 1;
    }
    None
}

impl Json {
    /// The value under a key of an object.
    pub open spec fn field(self, key: Seq<char>) -> Option<Json> {
        match self {
            Json::Object(entries) => lookup(entries@, key),
            _ => None,
        }
    }

    /// The value under the first key that is there.
    pub open spec fn field_or(self, key: Seq<char>, other: Seq<char>) -> Option<Json> {
        match self.field(key) {
            Some(v) => Some(v),
            None => self.field(other),
        }
    }

    pub open spec fn text(self) -> Option<Seq<char>> {
        match self {
            Json::Text(s) => Some(s@),
            _ => None,
        }
    }

    pub open spec fn list(self) -> Option<Seq<Json>> {
        match self {
            Json::List(v) => Some(v@),
            _ => None,
        }
    }

    /// The text under a key.
    pub open spec fn text_at(self, key: Seq<char>) -> Option<Seq<char>> {
        match self.field(key) {
            Some(v) => v.text(),
            None => None,
        }
    }

    /// A field of a record of `n` fields: the value under its key in an object, or the value at
    /// its place in a list of exactly all fields.
    pub open spec fn part(self, key: Seq<char>, place: int, n: nat) -> Option<Json> {
        match self {
            Json::Object(entries) => lookup(entries@, key),
            Json::List(v) => if v@.len() == n {
                Some(v@[place])
            } else {
                None
            },
            _ => None,
        }
    }

    /// A field that is a text.
    pub open spec fn text_part(self, key: Seq<char>, place: int, n: nat) -> Option<Seq<char>> {
        match self.part(key, place, n) {
            Some(v) => v.text(),
            None => None,
        }
    }

    /// A field that is a text, missing or null; the outer `None` is another value.
    pub open spec fn optional_part(self, key: Seq<char>, place: int, n: nat) -> Option<
        Option<Seq<char>>,
    > {
        match self.part(key, place, n) {
            None => Some(None),
            Some(Json::Null) => Some(None),
            Some(Json::Text(s)) => Some(Some(s@)),
            Some(_) => None,
        }
    }

    /// A number, or a string that denotes one, as a double.
    pub open spec fn loose_double(self) -> Option<Num> {
        match self {
            Json::Number(n) => match n.double {
                Some(x) => Some(x@),
                None => None,
            },
            Json::Text(s) => parse_number(double_format(), s@),
            _ => None,
        }
    }

    /// A number, or a string that denotes one, as a signed integer.
    pub open spec fn loose_i64(self) -> Option<i64> {
        match self {
            Json::Number(n) => match (n.signed, n.unsigned) {
                (Some(i), _) => Some(i),
                (None, Some(u)) => if u <= i64::MAX {
                    Some(u as i64)
                } else {
                    None
                },
                (None, None) => None,
            },
            Json::Text(s) => match signed_value(s@) {
                Some(v) => if i64::MIN <= v <= i64::MAX {
                    Some(v as i64)
                } else {
                    None
                },
                None => None,
            },
            _ => None,
        }
    }

    /// A number, or a string that denotes one, as an unsigned integer.
    pub open spec fn loose_u64(self) -> Option<u64> {
        match self {
            Json::Number(n) => match (n.unsigned, n.signed) {
                (Some(u), _) => Some(u),
                (None, Some(i)) => if i >= 0 {
                    Some(i as u64)
                } else {
                    None
                },
                (None, None) => None,
            },
            Json::Text(s) => match unsigned_value(s@) {
                Some(v) => if v <= u64::MAX {
                    Some(v as u64)
                } else {
                    None
                },
                None => None,
            },
            _ => None,
        }
    }

    pub fn get(&self, key: &str) -> (r: Option<&Json>)
        ensures
            match r {
                Some(v) => self.field(key@) == Some(*v),
                None => self.field(key@) is None,
            },
    {
        match self {
            Json::Object(entries) => match entry_place(entries, key) {
                Some(i) => Some(&entries[i].1),
                None => None,
            },
            _ => None,
        }
    }

    pub fn get_or(&self, key: &str, other: &str) -> (r: Option<&Json>)
        ensures
            match r {
                Some(v) => self.field_or(key@, other@) == Some(*v),
                None => self.field_or(key@, other@) is None,
            },
    {
        match self.get(key) {
            Some(v) => Some(v),
            None => self.get(other),
        }
    }

    pub fn as_str(&self) -> (r: Option<&str>)
        ensures
            match r {
                Some(s) => self.text() == Some(s@),
                None => self.text() is None,
            },
    {
        match self {
            Json::Text(s) => Some(s.as_str()),
            _ => None,
        }
    }

    pub fn as_list(&self) -> (r: Option<&Vec<Json>>)
        ensures
            match r {
                Some(v) => self.list() == Some(v@),
                None => self.list() is None,
            },
    {
        match self {
            Json::List(v) => Some(v),
            _ => None,
        }
    }

    pub fn get_text(&self, key: &str) -> (r: Option<String>)
        ensures
            match r {
                Some(s) => self.text_at(key@) == Some(s@),
                None => self.text_at(key@) is None,
            },
    {
        match self.get(key) {
            Some(v) => match v.as_str() {
                Some(s) => Some(s.to_string()),
                None => None,
            },
            None => None,
        }
    }

    pub fn get_part(&self, key: &str, place: usize, n: usize) -> (r: Option<&Json>)
        requires
            place < n,
        ensures
            match r {
                Some(v) => self.part(key@, place as int, n as nat) == Some(*v),
                None => self.part(key@, place as int, n as nat) is None,
            },
    {
        match self {
            Json::Object(entries) => match entry_place(entries, key) {
                Some(i) => Some(&entries[i].1),
                None => None,
            },
            Json::List(v) => if v.len() == n {
                Some(&v[place])
            } else {
                None
            },
            _ => None,
        }
    }

    pub fn get_text_part(&self, key: &str, place: usize, n: usize) -> (r: Option<String>)
        requires
            place < n,
        ensures
            match r {
                Some(s) => self.text_part(key@, place as int, n as nat) == Some(s@),
                None => self.text_part(key@, place as int, n as nat) is None,
            },
    {
        match self.get_part(key, place, n) {
            Some(v) => match v.as_str() {
                Some(s) => Some(s.to_string()),
                None => None,
            },
            None => None,
        }
    }

    pub fn get_optional_part(&self, key: &str, place: usize, n: usize) -> (r: Option<
        Option<String>,
    >)
        requires
            place < n,
        ensures
            match r {
                Some(Some(s)) => self.optional_part(key@, place as int, n as nat) == Some(
                    Some(s@),
                ),
                Some(None) => self.optional_part(key@, place as int, n as nat) == Some(
                    None::<Seq<char>>,
                ),
                None => self.optional_part(key@, place as int, n as nat) is None,
            },
    {
        match self.get_part(key, place, n) {
            None => Some(None),
            Some(v) => match v {
                Json::Null => Some(None),
                Json::Text(s) => Some(Some(s.clone())),
                _ => None,
            },
        }
    }

    /// Takes a field out of a record.
    pub fn into_part(self, key: &str, place: usize, n: usize) -> (r: Option<Json>)
        requires
            place < n,
        ensures
            r == self.part(key@, place as int, n as nat),
    {
        match self {
            Json::Object(entries) => match entry_place(&entries, key) {
                Some(i) => {
                    let mut entries = entries;
                    let entry = entries.remove(i);
                    Some(entry.1)
                },
                None => None,
            },
            Json::List(v) => if v.len() == n {
                let mut v = v;
                Some(v.remove(place))
            } else {
                None
            },
            _ => None,
        }
    }

    pub fn as_double(&self) -> (r: Option<Double>)
        ensures
            match r {
                Some(x) => self.loose_double() == Some(x@),
                None => self.loose_double() is None,
            },
    {
        match self {
            Json::Number(n) => n.double,
            Json::Text(s) => Double::parse(s.as_str()),
            _ => None,
        }
    }

    pub fn as_i64(&self) -> (r: Option<i64>)
        ensures
            r == self.loose_i64(),
    {
        match self {
            Json::Number(n) => match n.signed {
                Some(i) => Some(i),
                None => match n.unsigned {
                    Some(u) => if u <= 0x7fff_ffff_ffff_ffff {
                        Some(u as i64)
                    } else {
                        None
                    },
                    None => None,
                },
            },
            Json::Text(s) => parse_signed(s.as_str()),
            _ => None,
        }
    }

    pub fn as_u64(&self) -> (r: Option<u64>)
        ensures
            r == self.loose_u64(),
    {
        match self {
            Json::Number(n) => match n.unsigned {
                Some(u) => Some(u),
                None => match n.signed {
                    Some(i) => if i >= 0 {
                        Some(i as u64)
                    } else {
                        None
                    },
                    None => None,
                },
            },
            Json::Text(s) => parse_unsigned(s.as_str()),
            _ => None,
        }
    }
}

/// A key is found under its first entry, whatever follows; without an entry nothing is found.
pub proof fn law_first_entry_is_found(entries: Seq<(String, Json)>, i: int, key: Seq<char>)
    requires
        0 <= i < entries.len(),
        entries[i].0@ == key,
        forall|j: int| 0 <= j < i ==> (#[trigger] entries[j]).0@ != key,
    ensures
        lookup(entries, key) == Some(entries[i].1),
    decreases entries.len(),
{
    if i > 0 {
        assert(entries[0].0@ != key);
        let rest = entries.drop_first();
        assert forall|j: int| 0 <= j < i - 1 implies (#[trigger] rest[j]).0@ != key by {
            assert(rest[j] == entries[j + 1]);
        }
        law_first_entry_is_found(rest, i - 1, key);
    }
}

/// Where no entry has the key nothing is found.
pub proof fn law_missing_key_is_not_found(entries: Seq<(String, Json)>, key: Seq<char>)
    requires
        forall|j: int| 0 <= j < entries.len() ==> (#[trigger] entries[j]).0@ != key,
    ensures
        lookup(entries, key) is None,
    decreases entries.len(),
{
    if entries.len() > 0 {
        assert(entries[0].0@ != key);
        let rest = entries.drop_first();
        assert forall|j: int| 0 <= j < rest.len() implies (#[trigger] rest[j]).0@ != key by {
            assert(rest[j] == entries[j + 1]);
        }
        law_missing_key_is_not_found(rest, key);
    }
}

/// A number counts as what it is, and as well where it comes as a text in decimal notation.
pub proof fn law_numbers_may_come_as_texts(v: i64, s: String)
    requires
        s@ == decimal_text(v as int),
    ensures
        Json::Text(s).loose_i64() == Some(v),
        v >= 0 ==> Json::Text(s).loose_u64() == Some(v as u64),
        v >= 0 ==> Json::Text(s).loose_double() == Some(double_int(v as int)),
{
    law_decimal_round_trip(v as int);
    if v >= 0 {
        law_integers_are_parsed(v as nat);
    }
}

/// A number counts as the integer that it is, where that is in range, and as its double.
pub proof fn law_numbers_count_as_they_are(n: JsonNumber)
    ensures
        n.signed matches Some(i) ==> Json::Number(n).loose_i64() == Some(i),
        n.unsigned matches Some(u) ==> Json::Number(n).loose_u64() == Some(u),
        n.double matches Some(x) ==> Json::Number(n).loose_double() == Some(x@),
        n.signed is None ==> (n.unsigned matches Some(u) ==> (u <= i64::MAX
            ==> Json::Number(n).loose_i64() == Some(u as i64)) && (u > i64::MAX
            ==> Json::Number(n).loose_i64() is None)),
        n.unsigned is None ==> (n.signed matches Some(i) ==> (i >= 0
            ==> Json::Number(n).loose_u64() == Some(i as u64)) && (i < 0
            ==> Json::Number(n).loose_u64() is None)),
        Json::Null.loose_i64() is None,
        Json::Null.loose_u64() is None,
        Json::Null.loose_double() is None,
{
}

/// A record may come as an object, by its keys, or as a list of exactly its fields, by their
/// places.
pub proof fn law_records_come_as_objects_or_lists(
    entries: Vec<(String, Json)>,
    list: Vec<Json>,
    key: Seq<char>,
    place: int,
    n: nat,
)
    requires
        0 <= place < n,
    ensures
        Json::Object(entries).part(key, place, n) == lookup(entries@, key),
        list@.len() == n ==> Json::List(list).part(key, place, n) == Some(list@[place]),
        list@.len() != n ==> Json::List(list).part(key, place, n) is None,
        Json::Object(entries).field(key) == lookup(entries@, key),
        Json::List(list).field(key) is None,
        Json::Null.part(key, place, n) is None,
{
}

} // verus!
