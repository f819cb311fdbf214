//! Parts of texts.

use super::digits::{chars_of, digit_at, digit_run, lemma_digit_run_bounds};
use super::words::string_of;
use vstd::prelude::*;

verus! {

/// `s` without the characters `c` at its end.
pub open spec fn trimmed_end(s: Seq<char>, c: char) -> Seq<char>
    decreases s.len(),
{
    if s.len() > 0 && s.last() == c {
        trimmed_end(s.drop_last(), c)
    } else {
        s
    }
}

pub fn trim_end(s: &str, c: char) -> (r: String)
    ensures
        r@ == trimmed_end(s@, c),
{
    let mut v = chars_of(s);
    while v.len() > 0 && v[v.len() - 1] == c
        invariant
            trimmed_end(v@, c) == trimmed_end(s@, c),
        decreases v@.len(),
    {
        v.pop();
    }
    string_of(&v)
}

/// Whether `part` stands in `s` at place `i`.
pub open spec fn stands_at(s: Seq<char>, part: Seq<char>, i: int) -> bool {
    0 <= i && i + part.len() <= s.len() && s.subrange(i, i + part.len()) == part
}

/// Whether `part` stands somewhere in `s`.
pub open spec fn has_part(s: Seq<char>, part: Seq<char>) -> bool {
    exists|i: int| stands_at(s, part, i)
}

fn found_at(v: &Vec<char>, w: &Vec<char>, i: usize) -> (r: bool)
    requires
        i + w@.len() <= v@.len(),
    ensures
        r == stands_at(v@, w@, i as int),
{
    let n: usize = v.len();
    let mut k: usize = 0;
    while k < w.len()
        invariant
            n == v@.len(),
            k <= w@.len(),
            i + w@.len() <= v@.len(),
            forall|j: int| 0 <= j < k ==> v@[i + j] == w@[j],
        decreases w@.len() - k,
    {
        if v[i + k] != w[k] {
            proof {
                assert(v@.subrange(i as int, i + w@.len())[k as int] != w@[k as int]);
            }
            return false;
        }
        k = k + 1;
    }
    proof {
        assert(v@.subrange(i as int, i + w@.len()) =~= w@);
    }
    true
}

pub fn contains_text(s: &str, part: &str) -> (r: bool)
    ensures
        r == has_part(s@, part@),
{
    let v = chars_of(s);
    let w = chars_of(part);
    if v.len() < w.len() {
        return false;
    }
    let last: usize = v.len() - w.len();
    let mut i: usize = 0;
    while i <= last
        invariant
            v@ == s@,
            w@ == part@,
            last + w@.len() == v@.len(),
            i <= last + 1,
            forall|j: int| 0 <= j < i ==> !stands_at(s@, part@, j),
        decreases last + 1 - i,
    {
        if found_at(&v, &w, i) {
            return true;
        }
        if i == last {
            return false;
        }
        i = i + 1;
    }
    false
}

/// `s` with every `c` written twice.
pub open spec fn doubled(s: Seq<char>, c: char) -> Seq<char>
    decreases s.len(),
{
    if s.len() == 0 {
        Seq::empty()
    } else if s.last() == c {
        doubled(s.drop_last(), c).push(c).push(c)
    } else {
        doubled(s.drop_last(), c).push(s.last())
    }
}

pub fn double_char(s: &str, c: char) -> (r: String)
    ensures
        r@ == doubled(s@, c),
{
    let v = chars_of(s);
    let mut out: Vec<char> = Vec::new();
    let mut i: usize = 0;
    proof {
        assert(v@.take(0) =~= Seq::<char>::empty());
    }
    while i < v.len()
        invariant
            i <= v@.len(),
            v@ == s@,
            out@ == doubled(v@.take(i as int), c),
        decreases v@.len() - i,
    {
        proof {
            assert(v@.take(i + 1).drop_last() =~= v@.take(i as int));
        }
        out.push(v[i]);
        if v[i] == c {
            out.push(c);
        }
        i = i + 1;
    }
    proof {
        assert(v@.take(v@.len() as int) =~= v@);
    }
    string_of(&out)
}

/// The place of the last `c` in `s`.
pub open spec fn last_place(s: Seq<char>, c: char) -> Option<int>
    decreases s.len(),
{
    if s.len() == 0 {
        None
    } else if s.last() == c {
        Some(s.len() - 1)
    } else {
        last_place(s.drop_last(), c)
    }
}

/// The digits right behind the last `c` of `s`; `None` without a `c`.
pub open spec fn digits_after(s: Seq<char>, c: char) -> Option<Seq<char>> {
    match last_place(s, c) {
        Some(i) => Some(s.subrange(i + 1, i + 1 + digit_run(s, i + 1))),
        None => None,
    }
}

pub fn digits_behind(s: &str, c: char) -> (r: Option<String>)
    ensures
        match r {
            Some(d) => digits_after(s@, c) == Some(d@),
            None => digits_after(s@, c) is None,
        },
{
    let v = chars_of(s);
    let mut n: usize = v.len();
    proof {
        assert(v@.take(n as int) =~= v@);
    }
    while n > 0 && v[n - 1] != c
        invariant
            n <= v@.len(),
            v@ == s@,
            last_place(v@.take(n as int), c) == last_place(v@, c),
        decreases n,
    {
        n = n - 1;
        proof {
            assert(v@.take(n + 1).drop_last() =~= v@.take(n as int));
            assert(v@.take(n + 1).last() == v@[n as int]);
        }
    }
    if n == 0 {
        return None;
    }
    proof {
        assert(v@.take(n as int).last() == c);
        assert(last_place(v@, c) == Some(n - 1));
        lemma_digit_run_bounds(v@, n as int);
    }
    let mut out: Vec<char> = Vec::new();
    let len: usize = v.len();
    let mut i: usize = n;
    while digit_at(&v, i)
        invariant
            len == v@.len(),
            n <= i <= v@.len(),
            v@ == s@,
            out@ == v@.subrange(n as int, i as int),
            i + digit_run(v@, i as int) == n + digit_run(v@, n as int),
        decreases v@.len() - i,
    {
        out.push(v[i]);
        i = i + 1;
        proof {
            assert(out@ =~= v@.subrange(n as int, i as int));
        }
    }
    Some(string_of(&out))
}

/// A text has a part exactly where it can be cut into something, the part and something.
pub proof fn law_parts_can_be_cut_out(s: Seq<char>, part: Seq<char>)
    ensures
        has_part(s, part) <==> exists|a: Seq<char>, b: Seq<char>| s == #[trigger] (a + part + b),
{
    if has_part(s, part) {
        let i = choose|i: int| stands_at(s, part, i);
        let a = s.take(i);
        let b = s.skip(i + part.len());
        assert(s =~= a + part + b);
    }
    if exists|a: Seq<char>, b: Seq<char>| s == #[trigger] (a + part + b) {
        let (a, b) = choose|a: Seq<char>, b: Seq<char>| s == #[trigger] (a + part + b);
        let i = a.len() as int;
        assert(s.subrange(i, i + part.len()) =~= part);
        assert(stands_at(s, part, i));
    }
}

/// Only occurrences of the character at the end are cut off, and all of them.
pub proof fn law_trimming_cuts_the_end(s: Seq<char>, c: char)
    ensures
        trimmed_end(s, c).len() <= s.len(),
        s.take(trimmed_end(s, c).len() as int) == trimmed_end(s, c),
        trimmed_end(s, c).len() > 0 ==> trimmed_end(s, c).last() != c,
        forall|i: int| trimmed_end(s, c).len() <= i < s.len() ==> #[trigger] s[i] == c,
    decreases s.len(),
{
    if s.len() > 0 && s.last() == c {
        let t = s.drop_last();
        law_trimming_cuts_the_end(t, c);
        let n = trimmed_end(s, c).len() as int;
        assert(s.take(n) =~= t.take(n));
        assert forall|i: int| n <= i < s.len() implies #[trigger] s[i] == c by {
            if i < t.len() {
                assert(t[i] == s[i]);
            }
        }
    } else {
        assert(s.take(s.len() as int) =~= s);
    }
}

/// Doubling goes through a text piece by piece: the character comes twice, any other once.
pub proof fn law_doubling_is_piecewise(s: Seq<char>, d: char, c: char)
    ensures
        doubled(Seq::empty(), c) == Seq::<char>::empty(),
        d == c ==> doubled(s.push(d), c) == doubled(s, c) + seq![c, c],
        d != c ==> doubled(s.push(d), c) == doubled(s, c) + seq![d],
{
    assert(s.push(d).drop_last() =~= s);
    assert(doubled(s, c).push(c).push(c) =~= doubled(s, c) + seq![c, c]);
    assert(doubled(s, c).push(d) =~= doubled(s, c) + seq![d]);
}

} // verus!
