//! Sorted lists of texts.

use super::words::{
    law_text_order_is_total, law_text_order_is_transitive, same_text, text_below, text_less,
};
use crate::common::events::texts;
use vstd::prelude::*;

verus! {

/// In alphabetical order, without repetition.
pub open spec fn strictly_sorted(s: Seq<Seq<char>>) -> bool {
    forall|a: int, b: int| 0 <= a < b < s.len() ==> text_less(#[trigger] s[a], #[trigger] s[b])
}

/// Puts a text into a sorted list that lacks repetitions.
pub fn insert_sorted(list: &mut Vec<String>, word: String)
    requires
        strictly_sorted(texts(old(list)@)),
    ensures
        strictly_sorted(texts(final(list)@)),
        forall|s: Seq<char>| #[trigger]
            texts(final(list)@).contains(s) <==> texts(old(list)@).contains(s) || s == word@,
        final(list)@.len() <= old(list)@.len() + 1,
{
    let ghost before = texts(list@);
    let mut p: usize = 0;
    while p < list.len() && text_below(list[p].as_str(), word.as_str())
        invariant
            p <= list@.len(),
            before == texts(list@),
            forall|a: int| 0 <= a < p ==> text_less(#[trigger] before[a], word@),
        decreases list@.len() - p,
    {
        p = p + 1;
    }
    if p < list.len() && same_text(list[p].as_str(), word.as_str()) {
        proof {
            assert(before[p as int] == word@);
        }
        return;
    }
    let ghost w = word@;
    list.insert(p, word);
    proof {
        let after = texts(list@);
        assert(after =~= before.insert(p as int, w));
        assert forall|a: int| p <= a < before.len() implies text_less(w, #[trigger] before[a]) by {
            law_text_order_is_total(before[p as int], w);
            if a > p {
                assert(text_less(before[p as int], before[a]));
                law_text_order_is_transitive(w, before[p as int], before[a]);
            }
        }
        assert forall|a: int, b: int| 0 <= a < b < after.len() implies text_less(
            #[trigger] after[a],
            #[trigger] after[b],
        ) by {
            if b == p {
                assert(after[a] == before[a]);
            } else if a == p {
                assert(after[b] == before[b - 1]);
            } else {
                let a0 = if a < p {
                    a
                } else {
                    a - 1
                };
                let b0 = if b < p {
                    b
                } else {
                    b - 1
                };
                assert(after[a] == before[a0] && after[b] == before[b0]);
            }
        }
        assert forall|s: Seq<char>| #[trigger] after.contains(s) <==> before.contains(s) || s == w by {
            if before.contains(s) {
                let a = choose|a: int| 0 <= a < before.len() && before[a] == s;
                let a1 = if a < p {
                    a
                } else {
                    a + 1
                };
                assert(after[a1] == s);
            }
            if s == w {
                assert(after[p as int] == s);
            }
            if after.contains(s) {
                let a = choose|a: int| 0 <= a < after.len() && after[a] == s;
                if a != p {
                    let a0 = if a < p {
                        a
                    } else {
                        a - 1
                    };
                    assert(before[a0] == s);
                }
            }
        }
    }
}

/// A sorted list is determined by the texts that it holds.
pub proof fn law_sorted_list_is_determined(a: Seq<Seq<char>>, b: Seq<Seq<char>>)
    requires
        strictly_sorted(a),
        strictly_sorted(b),
        forall|s: Seq<char>| #[trigger] a.contains(s) <==> b.contains(s),
    ensures
        a == b,
    decreases a.len(),
{
    if a.len() == 0 {
        if b.len() > 0 {
            assert(b.contains(b[0]));
            assert(a.contains(b[0]));
        }
        assert(a =~= b);
    } else {
        assert(a.contains(a[0]));
        assert(b.contains(a[0]));
        let j = choose|j: int| 0 <= j < b.len() && b[j] == a[0];
        assert(b.contains(b[0]));
        assert(a.contains(b[0]));
        let i = choose|i: int| 0 <= i < a.len() && a[i] == b[0];
        if j > 0 {
            assert(text_less(b[0], b[j]));
            if i > 0 {
                assert(text_less(a[0], a[i]));
            }
            law_text_order_is_total(a[0], b[0]);
        }
        let a1 = a.drop_first();
        let b1 = b.drop_first();
        assert forall|s: Seq<char>| #[trigger] a1.contains(s) <==> b1.contains(s) by {
            lemma_rest(a, s);
            lemma_rest(b, s);
            assert(a.contains(s) <==> b.contains(s));
        }
        assert forall|x: int, y: int| 0 <= x < y < a1.len() implies text_less(
            #[trigger] a1[x],
            #[trigger] a1[y],
        ) by {
            assert(text_less(a[x + 1], a[y + 1]));
        }
        assert forall|x: int, y: int| 0 <= x < y < b1.len() implies text_less(
            #[trigger] b1[x],
            #[trigger] b1[y],
        ) by {
            assert(text_less(b[x + 1], b[y + 1]));
        }
        law_sorted_list_is_determined(a1, b1);
        assert(a =~= seq![a[0]] + a1);
        assert(b =~= seq![b[0]] + b1);
    }
}

proof fn lemma_rest(a: Seq<Seq<char>>, s: Seq<char>)
    requires
        strictly_sorted(a),
        a.len() > 0,
    ensures
        a.drop_first().contains(s) <==> a.contains(s) && s != a[0],
{
    let rest = a.drop_first();
    if rest.contains(s) {
        let i = choose|i: int| 0 <= i < rest.len() && rest[i] == s;
        assert(a[i + 1] == s);
        assert(text_less(a[0], a[i + 1]));
        law_text_order_is_total(a[0], a[0]);
    }
    if a.contains(s) && s != a[0] {
        let i = choose|i: int| 0 <= i < a.len() && a[i] == s;
        assert(rest[i - 1] == s);
    }
}

} // verus!
