//! Comparison of words and letter case.

use super::digits::chars_of;
use vstd::prelude::*;

verus! {

/// The characters of an optional string.
pub open spec fn text_of(s: Option<String>) -> Option<Seq<char>> {
    match s {
        Some(t) => Some(t@),
        None => None,
    }
}

/// Whether two strings hold the same characters.
pub fn same_text(a: &str, b: &str) -> (r: bool)
    ensures
        r == (a@ == b@),
{
    let x = chars_of(a);
    let y = chars_of(b);
    if x.len() != y.len() {
        return false;
    }
    let mut i: usize = 0;
    while i < x.len()
        invariant
            i <= x@.len(),
            x@.len() == y@.len(),
            x@ == a@,
            y@ == b@,
            forall|j: int| 0 <= j < i ==> x@[j] == y@[j],
        decreases x@.len() - i,
    {
        if x[i] != y[i] {
            return false;
        }
        i = i + 1;
    }
    proof {
        assert(x@ =~= y@);
    }
    true
}

/// The lower-case form of an ASCII letter; other characters stay.
pub open spec fn ascii_lower(c: char) -> char {
    if 65 <= c as int <= 90 {
        (c as int + 32) as char
    } else {
        c
    }
}

/// Whether `s` spells `word` when the case of ASCII letters is ignored.
pub open spec fn spells(s: Seq<char>, word: Seq<char>) -> bool {
    &&& s.len() == word.len()
    &&& forall|i: int| 0 <= i < s.len() ==> ascii_lower(#[trigger] s[i]) == word[i]
}

pub fn lower_char(c: char) -> (r: char)
    ensures
        r == ascii_lower(c),
{
    if 65 <= c as u32 && c as u32 <= 90 {
        (c as u8 + 32) as char
    } else {
        c
    }
}

/// Whether the characters from `from` on spell the lower-case word, whatever their case.
pub fn spells_at(v: &Vec<char>, from: usize, word: &str) -> (r: bool)
    requires
        from <= v@.len(),
    ensures
        r == spells(v@.skip(from as int), word@),
{
    let w = chars_of(word);
    let ghost t = v@.skip(from as int);
    if w.len() != v.len() - from {
        return false;
    }
    let n: usize = v.len();
    let mut i: usize = 0;
    while i < w.len()
        invariant
            i <= w@.len(),
            w@ == word@,
            from <= v@.len(),
            n == v@.len(),
            w@.len() == n - from,
            t == v@.skip(from as int),
            forall|j: int| 0 <= j < i ==> ascii_lower(#[trigger] t[j]) == w@[j],
        decreases w@.len() - i,
    {
        let c = v[from + i];
        proof {
            assert(t[i as int] == c);
        }
        if lower_char(c) != w[i] {
            return false;
        }
        i = i + 1;
    }
    true
}

/// The truth value that a word denotes.
pub open spec fn bool_value(s: Seq<char>) -> Option<bool> {
    if s == "true"@ {
        Some(true)
    } else if s == "false"@ {
        Some(false)
    } else {
        None
    }
}

/// Reads `true` or `false`.
pub fn parse_bool(s: &str) -> (r: Option<bool>)
    ensures
        r == bool_value(s@),
{
    proof {
        reveal_strlit("true");
        reveal_strlit("false");
    }
    if same_text(s, "true") {
        Some(true)
    } else if same_text(s, "false") {
        Some(false)
    } else {
        None
    }
}

/// Every character is an ASCII one.
pub open spec fn is_ascii_text(s: Seq<char>) -> bool {
    forall|i: int| 0 <= i < s.len() ==> (#[trigger] s[i]) as u32 <= 127
}

/// The upper-case form of an ASCII letter; other characters stay.
pub open spec fn ascii_upper(c: char) -> char {
    if 97 <= c as int <= 122 {
        (c as int - 32) as char
    } else {
        c
    }
}

/// An ASCII text with its letters in upper case.
pub open spec fn ascii_upper_text(s: Seq<char>) -> Seq<char> {
    s.map_values(|c: char| ascii_upper(c))
}

/// An ASCII text with its letters in lower case.
pub open spec fn ascii_lower_text(s: Seq<char>) -> Seq<char> {
    s.map_values(|c: char| ascii_lower(c))
}

/// What [`str::to_uppercase`] makes of a text.
pub uninterp spec fn unicode_upper(s: Seq<char>) -> Seq<char>;

/// What [`str::to_lowercase`] makes of a text.
pub uninterp spec fn unicode_lower(s: Seq<char>) -> Seq<char>;

/// Upper-cases with [`str::to_uppercase`]: in an ASCII text the letters `a` to `z` become `A` to
/// `Z` and the rest stays. Beyond ASCII the case tables are left to the name.
#[verifier::external_body]
fn to_unicode_upper(s: &str) -> (r: String)
    ensures
        r@ == unicode_upper(s@),
        is_ascii_text(s@) ==> r@ == ascii_upper_text(s@),
{
    s.to_uppercase()
}

/// Lower-cases with [`str::to_lowercase`]: in an ASCII text the letters `A` to `Z` become `a` to
/// `z` and the rest stays. Beyond ASCII the case tables are left to the name.
#[verifier::external_body]
fn to_unicode_lower(s: &str) -> (r: String)
    ensures
        r@ == unicode_lower(s@),
        is_ascii_text(s@) ==> r@ == ascii_lower_text(s@),
{
    s.to_lowercase()
}

/// The upper-case form of a text; that of letters beyond ASCII is Unicode's.
pub open spec fn uppercase(s: Seq<char>) -> Seq<char> {
    if is_ascii_text(s) {
        ascii_upper_text(s)
    } else {
        unicode_upper(s)
    }
}

/// The lower-case form of a text; that of letters beyond ASCII is Unicode's.
pub open spec fn lowercase(s: Seq<char>) -> Seq<char> {
    if is_ascii_text(s) {
        ascii_lower_text(s)
    } else {
        unicode_lower(s)
    }
}

/// The upper-case form of a text.
pub(crate) fn to_upper(s: &str) -> (r: String)
    ensures
        r@ == uppercase(s@),
{
    to_unicode_upper(s)
}

/// The lower-case form of a text.
pub(crate) fn to_lower(s: &str) -> (r: String)
    ensures
        r@ == lowercase(s@),
{
    to_unicode_lower(s)
}

/// ASCII texts that differ in the case of letters alone have the same upper-case form and the
/// same lower-case form.
pub proof fn law_case_forms_ignore_case(a: Seq<char>, b: Seq<char>)
    requires
        is_ascii_text(a),
        is_ascii_text(b),
        a.len() == b.len(),
        forall|i: int|
            0 <= i < a.len() ==> (#[trigger] a[i] == b[i] || ascii_upper(a[i]) == b[i]
                || a[i] == ascii_upper(b[i])),
    ensures
        uppercase(a) == uppercase(b),
        lowercase(a) == lowercase(b),
{
    assert forall|i: int| 0 <= i < a.len() implies ascii_upper_text(a)[i] == ascii_upper_text(b)[i]
        && ascii_lower_text(a)[i] == ascii_lower_text(b)[i] by {
        assert(a[i] == b[i] || ascii_upper(a[i]) == b[i] || a[i] == ascii_upper(b[i]));
        assert(a[i] as u32 <= 127 && b[i] as u32 <= 127);
    }
    assert(ascii_upper_text(a) =~= ascii_upper_text(b));
    assert(ascii_lower_text(a) =~= ascii_lower_text(b));
}

/// The upper-case form of an ASCII text is its own upper-case form, and the lower-case form its
/// own lower-case form.
pub proof fn law_case_forms_are_idempotent(s: Seq<char>)
    requires
        is_ascii_text(s),
    ensures
        uppercase(uppercase(s)) == uppercase(s),
        lowercase(lowercase(s)) == lowercase(s),
{
    assert forall|i: int| 0 <= i < s.len() implies (#[trigger] ascii_upper_text(s)[i]) as u32 <= 127 by {
        assert(s[i] as u32 <= 127);
    }
    assert forall|i: int| 0 <= i < s.len() implies (#[trigger] ascii_lower_text(s)[i]) as u32 <= 127 by {
        assert(s[i] as u32 <= 127);
    }
    assert(ascii_upper_text(ascii_upper_text(s)) =~= ascii_upper_text(s));
    assert(ascii_lower_text(ascii_lower_text(s)) =~= ascii_lower_text(s));
}

/// Whether `s` ends with `suffix`.
pub open spec fn has_suffix(s: Seq<char>, suffix: Seq<char>) -> bool {
    s.len() >= suffix.len() && s.skip(s.len() - suffix.len()) == suffix
}

pub fn ends_with(s: &str, suffix: &str) -> (r: bool)
    ensures
        r == has_suffix(s@, suffix@),
{
    let v = chars_of(s);
    let w = chars_of(suffix);
    if v.len() < w.len() {
        return false;
    }
    let n: usize = v.len();
    let from: usize = n - w.len();
    let mut i: usize = 0;
    while i < w.len()
        invariant
            i <= w@.len(),
            n == v@.len(),
            from + w@.len() == n,
            v@ == s@,
            w@ == suffix@,
            forall|j: int| 0 <= j < i ==> v@[from + j] == w@[j],
        decreases w@.len() - i,
    {
        if v[from + i] != w[i] {
            proof {
                assert(s@.skip(from as int)[i as int] != suffix@[i as int]);
            }
            return false;
        }
        i = i + 1;
    }
    proof {
        assert(s@.skip(from as int) =~= suffix@);
    }
    true
}

/// The part of `s` before the first `c`, or all of it.
pub open spec fn before_char(s: Seq<char>, c: char) -> Seq<char>
    decreases s.len(),
{
    if s.len() == 0 || s[0] == c {
        Seq::empty()
    } else {
        seq![s[0]] + before_char(s.drop_first(), c)
    }
}

/// A string of these characters, as [`String::from_iter`] builds it.
#[verifier::external_body]
pub(crate) fn string_of(v: &Vec<char>) -> (s: String)
    ensures
        s@ == v@,
{
    String::from_iter(v)
}

/// The part of `s` before the first `c`, or all of it.
pub fn split_first(s: &str, c: char) -> (r: String)
    ensures
        r@ == before_char(s@, c),
{
    let v = chars_of(s);
    let mut out: Vec<char> = Vec::new();
    let mut i: usize = 0;
    proof {
        assert(s@.skip(0) =~= s@);
        assert(out@ + before_char(s@, c) =~= before_char(s@, c));
    }
    while i < v.len() && v[i] != c
        invariant
            i <= v@.len(),
            v@ == s@,
            out@ + before_char(s@.skip(i as int), c) == before_char(s@, c),
        decreases v@.len() - i,
    {
        proof {
            let rest = s@.skip(i as int);
            assert(rest.drop_first() =~= s@.skip(i + 1));
            assert(out@.push(v@[i as int]) + before_char(s@.skip(i + 1), c) =~= out@ + (
            seq![rest[0]] + before_char(s@.skip(i + 1), c)));
        }
        out.push(v[i]);
        i = i + 1;
    }
    proof {
        assert(before_char(s@.skip(i as int), c) =~= Seq::<char>::empty());
        assert(out@ + Seq::<char>::empty() =~= out@);
    }
    string_of(&out)
}

/// Whether `a` comes before `b` in the order of code points, the order of the strings' bytes.
pub open spec fn text_less(a: Seq<char>, b: Seq<char>) -> bool
    decreases a.len(),
{
    if b.len() == 0 {
        false
    } else if a.len() == 0 {
        true
    } else if a[0] != b[0] {
        (a[0] as int) < b[0] as int
    } else {
        text_less(a.drop_first(), b.drop_first())
    }
}

fn char_below(a: char, b: char) -> (r: bool)
    ensures
        r == ((a as int) < b as int),
{
    (a as u32) < b as u32
}

pub fn text_below(a: &str, b: &str) -> (r: bool)
    ensures
        r == text_less(a@, b@),
{
    let x = chars_of(a);
    let y = chars_of(b);
    let mut i: usize = 0;
    proof {
        assert(a@.skip(0) =~= a@);
        assert(b@.skip(0) =~= b@);
    }
    while i < x.len() && i < y.len()
        invariant
            i <= x@.len(),
            i <= y@.len(),
            x@ == a@,
            y@ == b@,
            text_less(a@, b@) == text_less(a@.skip(i as int), b@.skip(i as int)),
        decreases x@.len() - i,
    {
        if x[i] != y[i] {
            return char_below(x[i], y[i]);
        }
        proof {
            assert(a@.skip(i as int).drop_first() =~= a@.skip(i + 1));
            assert(b@.skip(i as int).drop_first() =~= b@.skip(i + 1));
        }
        i = i + 1;
    }
    i < y.len()
}

/// Exactly one of `a < b`, `a == b` and `b < a` holds.
pub proof fn law_text_order_is_total(a: Seq<char>, b: Seq<char>)
    ensures
        text_less(a, b) || text_less(b, a) || a == b,
        !(text_less(a, b) && text_less(b, a)),
        !text_less(a, a),
    decreases a.len(),
{
    if a.len() > 0 && b.len() > 0 && a[0] == b[0] {
        law_text_order_is_total(a.drop_first(), b.drop_first());
        if a.drop_first() == b.drop_first() {
            assert(a =~= seq![a[0]] + a.drop_first());
            assert(b =~= seq![b[0]] + b.drop_first());
        }
    }
    if a.len() == 0 && b.len() == 0 {
        assert(a =~= b);
    }
    if a.len() > 0 {
        law_text_order_is_total(a.drop_first(), a.drop_first());
    }
}

/// The order of texts is transitive.
pub proof fn law_text_order_is_transitive(a: Seq<char>, b: Seq<char>, c: Seq<char>)
    requires
        text_less(a, b),
        text_less(b, c),
    ensures
        text_less(a, c),
    decreases a.len(),
{
    if a.len() > 0 && b.len() > 0 && c.len() > 0 && a[0] == b[0] && b[0] == c[0] {
        law_text_order_is_transitive(a.drop_first(), b.drop_first(), c.drop_first());
    }
}

/// A text ends with another exactly where it is something followed by that other.
pub proof fn law_suffixes_can_be_cut_off(s: Seq<char>, suffix: Seq<char>)
    ensures
        has_suffix(s, suffix) <==> exists|a: Seq<char>| s == #[trigger] (a + suffix),
{
    if has_suffix(s, suffix) {
        let n = s.len() - suffix.len();
        assert(s =~= s.take(n) + suffix);
    }
    if exists|a: Seq<char>| s == #[trigger] (a + suffix) {
        let a = choose|a: Seq<char>| s == #[trigger] (a + suffix);
        assert(s.skip(s.len() - suffix.len()) =~= suffix);
    }
}

/// Of two texts that begin alike, the one with the smaller next character comes first, and a text
/// comes before its continuations.
pub proof fn law_first_difference_decides(
    begin: Seq<char>,
    a: Seq<char>,
    b: Seq<char>,
)
    requires
        b.len() > 0,
        a.len() > 0 ==> (a[0] as int) < b[0] as int,
    ensures
        text_less(begin + a, begin + b),
    decreases begin.len(),
{
    let (x, y) = (begin + a, begin + b);
    if begin.len() > 0 {
        law_first_difference_decides(begin.drop_first(), a, b);
        assert(x.drop_first() =~= begin.drop_first() + a);
        assert(y.drop_first() =~= begin.drop_first() + b);
    } else {
        assert(x =~= a && y =~= b);
    }
}

} // verus!
