//! Comparison of produced snapshots and decisions with expected ones.

use crate::common::events::{same_texts, texts};
use crate::common::{Decision, FeatureSnapshot};
use crate::num::model::{
    absolute, at_most, difference, larger, less, quotient, single_format, zero, Num,
};
use crate::num::single::single_ratio;
use crate::num::Single;
use crate::text::words::same_text;
use std::collections::HashSet;
use vstd::prelude::*;

verus! {

/// One millionth.
pub open spec fn tolerance() -> Num {
    single_ratio(1, 1_000_000)
}

/// Largest absolute difference of numbers that count as equal.
pub fn abs_tol() -> (r: Single)
    ensures
        r@ == tolerance(),
{
    Single::ratio(1, 1_000_000)
}

/// Largest relative difference of numbers that count as equal.
pub fn rel_tol() -> (r: Single)
    ensures
        r@ == tolerance(),
{
    Single::ratio(1, 1_000_000)
}

/// The numbers differ by at most the tolerance, absolutely or relative to the larger magnitude.
pub open spec fn near(a: Num, b: Num) -> bool {
    let diff = absolute(difference(single_format(), a, b));
    let top = larger(absolute(a), absolute(b));
    ||| at_most(diff, tolerance())
    ||| less(zero(), top) && at_most(quotient(single_format(), diff, top), tolerance())
}

/// Whether two numbers are equal within the tolerances.
pub fn float_eq(a: Single, b: Single) -> (r: bool)
    ensures
        r == near(a@, b@),
{
    let diff = a.minus(b).magnitude();
    if diff.within(abs_tol()) {
        return true;
    }
    let top = a.magnitude().largest(b.magnitude());
    if top.above(Single::zero()) {
        diff.over(top).within(rel_tol())
    } else {
        false
    }
}

/// A finite number is equal to itself within the tolerances.
pub proof fn law_finite_is_near_itself(a: Num)
    requires
        a is Fin,
    ensures
        near(a, a),
{
    reveal(crate::num::model::sum);
    let diff = absolute(difference(single_format(), a, a));
    assert(diff == zero());
    crate::num::laws::lemma_ratio_is_finite(1, 1_000_000);
}

/// Equality within the tolerances does not depend on the order of the numbers.
pub proof fn law_near_is_symmetric(a: Num, b: Num)
    ensures
        near(a, b) == near(b, a),
{
    reveal(crate::num::model::sum);
    let f = single_format();
    assert(absolute(difference(f, a, b)) == absolute(difference(f, b, a)));
    assert(larger(absolute(a), absolute(b)) == larger(absolute(b), absolute(a)));
}

/// Only finite numbers are equal within the tolerances: an infinity or a not-a-number is equal to
/// nothing, not even to itself.
pub proof fn law_near_is_finite(a: Num, b: Num)
    requires
        near(a, b),
    ensures
        a is Fin,
        b is Fin,
{
    reveal(crate::num::model::sum);
    reveal(crate::num::model::quotient);
    crate::num::laws::lemma_ratio_is_finite(1, 1_000_000);
}

/// The field in which two snapshots differ first.
#[derive(Clone, Copy, Debug, PartialEq, Eq, Structural)]
pub enum FeatureField {
    TsExchange,
    Symbol,
    Ready,
    DataLatency,
    SpreadPct,
    FeatureVersion,
    FeaturesLen,
    Feature(usize),
}

/// The field in which two decisions differ first.
#[derive(Clone, Copy, Debug, PartialEq, Eq, Structural)]
pub enum DecisionField {
    TsExchange,
    Symbol,
    Action,
    Confidence,
    ModelVersion,
    ReasonCodes,
}

/// The first place from `i` on at which the numbers are not equal within the tolerances.
pub open spec fn far_from(a: Seq<Single>, b: Seq<Single>, i: int) -> Option<int>
    decreases a.len() - i,
{
    if i < 0 || i >= a.len() || i >= b.len() {
        None
    } else if !near(a[i]@, b[i]@) {
        Some(i)
    } else {
        far_from(a, b, i + 1)
    }
}

fn first_far(a: &Vec<Single>, b: &Vec<Single>) -> (r: Option<usize>)
    requires
        a@.len() == b@.len(),
    ensures
        match far_from(a@, b@, 0) {
            Some(i) => r matches Some(j) && i == j,
            None => r is None,
        },
{
    let mut i: usize = 0;
    while i < a.len()
        invariant
            i <= a@.len(),
            a@.len() == b@.len(),
            far_from(a@, b@, 0) == far_from(a@, b@, i as int),
        decreases a@.len() - i,
    {
        if !float_eq(a[i], b[i]) {
            return Some(i);
        }
        i = i + 1;
    }
    None
}

/// Values that are compared field by field.
pub trait Checked: View + Sized {
    /// Names a field.
    type Field;

    spec fn mismatch(expected: Self, actual: Self) -> Option<Self::Field>;

    spec fn moment(self) -> i64;

    /// The first field in which the two differ.
    fn compare(expected: &Self, actual: &Self) -> (r: Option<Self::Field>)
        ensures
            r == Self::mismatch(*expected, *actual),
    ;

    fn ts(&self) -> (r: i64)
        ensures
            r == self.moment(),
    ;

    fn copy(&self) -> (r: Self)
        ensures
            r@ == self@,
    ;
}

impl Checked for FeatureSnapshot {
    type Field = FeatureField;

    open spec fn mismatch(expected: Self, actual: Self) -> Option<FeatureField> {
        if expected.ts_exchange != actual.ts_exchange {
            Some(FeatureField::TsExchange)
        } else if expected.symbol@ != actual.symbol@ {
            Some(FeatureField::Symbol)
        } else if expected.ready != actual.ready {
            Some(FeatureField::Ready)
        } else if expected.data_latency_ms != actual.data_latency_ms {
            Some(FeatureField::DataLatency)
        } else if !near(expected.spread_pct@, actual.spread_pct@) {
            Some(FeatureField::SpreadPct)
        } else if expected.feature_version != actual.feature_version {
            Some(FeatureField::FeatureVersion)
        } else if expected.features@.len() != actual.features@.len() {
            Some(FeatureField::FeaturesLen)
        } else {
            match far_from(expected.features@, actual.features@, 0) {
                Some(i) => Some(FeatureField::Feature(i as usize)),
                None => None,
            }
        }
    }

    open spec fn moment(self) -> i64 {
        self.ts_exchange
    }

    fn compare(expected: &Self, actual: &Self) -> (r: Option<FeatureField>) {
        if expected.ts_exchange != actual.ts_exchange {
            return Some(FeatureField::TsExchange);
        }
        if !same_text(expected.symbol.as_str(), actual.symbol.as_str()) {
            return Some(FeatureField::Symbol);
        }
        if expected.ready != actual.ready {
            return Some(FeatureField::Ready);
        }
        if expected.data_latency_ms != actual.data_latency_ms {
            return Some(FeatureField::DataLatency);
        }
        if !float_eq(expected.spread_pct, actual.spread_pct) {
            return Some(FeatureField::SpreadPct);
        }
        if expected.feature_version != actual.feature_version {
            return Some(FeatureField::FeatureVersion);
        }
        if expected.features.len() != actual.features.len() {
            return Some(FeatureField::FeaturesLen);
        }
        match first_far(&expected.features, &actual.features) {
            Some(i) => Some(FeatureField::Feature(i)),
            None => None,
        }
    }

    fn ts(&self) -> (r: i64) {
        self.ts_exchange
    }

    fn copy(&self) -> (r: Self) {
        self.clone()
    }
}

impl Checked for Decision {
    type Field = DecisionField;

    open spec fn mismatch(expected: Self, actual: Self) -> Option<DecisionField> {
        if expected.ts_exchange != actual.ts_exchange {
            Some(DecisionField::TsExchange)
        } else if expected.symbol@ != actual.symbol@ {
            Some(DecisionField::Symbol)
        } else if expected.action != actual.action {
            Some(DecisionField::Action)
        } else if !near(expected.confidence@, actual.confidence@) {
            Some(DecisionField::Confidence)
        } else if expected.model_version@ != actual.model_version@ {
            Some(DecisionField::ModelVersion)
        } else if texts(expected.reason_codes@) != texts(actual.reason_codes@) {
            Some(DecisionField::ReasonCodes)
        } else {
            None
        }
    }

    open spec fn moment(self) -> i64 {
        self.ts_exchange
    }

    fn compare(expected: &Self, actual: &Self) -> (r: Option<DecisionField>) {
        if expected.ts_exchange != actual.ts_exchange {
            return Some(DecisionField::TsExchange);
        }
        if !same_text(expected.symbol.as_str(), actual.symbol.as_str()) {
            return Some(DecisionField::Symbol);
        }
        if expected.action != actual.action {
            return Some(DecisionField::Action);
        }
        if !float_eq(expected.confidence, actual.confidence) {
            return Some(DecisionField::Confidence);
        }
        if !same_text(expected.model_version.as_str(), actual.model_version.as_str()) {
            return Some(DecisionField::ModelVersion);
        }
        if !same_texts(&expected.reason_codes, &actual.reason_codes) {
            return Some(DecisionField::ReasonCodes);
        }
        None
    }

    fn ts(&self) -> (r: i64) {
        self.ts_exchange
    }

    fn copy(&self) -> (r: Self) {
        self.clone()
    }
}

/// What is wrong with the value under a sequence number.
#[derive(Debug)]
pub enum Issue<T, F> {
    Mismatch { seq: u64, field: F, expected: T, actual: T },
    /// Expected, but not produced.
    Missing { seq: u64, ts_exchange: i64 },
    /// Produced, but not expected.
    Unexpected { seq: u64, ts_exchange: i64 },
}

pub enum IssueModel<V, F> {
    Mismatch { seq: u64, field: F, expected: V, actual: V },
    Missing { seq: u64, ts_exchange: i64 },
    Unexpected { seq: u64, ts_exchange: i64 },
}

impl<T: View, F> View for Issue<T, F> {
    type V = IssueModel<T::V, F>;

    open spec fn view(&self) -> IssueModel<T::V, F> {
        match *self {
            Issue::Mismatch { seq, field, expected, actual } => IssueModel::Mismatch {
                seq,
                field,
                expected: expected@,
                actual: actual@,
            },
            Issue::Missing { seq, ts_exchange } => IssueModel::Missing { seq, ts_exchange },
            Issue::Unexpected { seq, ts_exchange } => IssueModel::Unexpected { seq, ts_exchange },
        }
    }
}

pub open spec fn issue_views<T: Checked>(
    v: Seq<Issue<T, T::Field>>,
) -> Seq<IssueModel<T::V, T::Field>> {
    v.map_values(|i: Issue<T, T::Field>| i@)
}

fn compared<T: Checked>(expected: &T, actual: &T, seq: u64) -> (r: Result<(), Issue<T, T::Field>>)
    ensures
        match T::mismatch(*expected, *actual) {
            None => r is Ok,
            Some(field) => r matches Err(e) && e@ == (IssueModel::Mismatch {
                seq,
                field,
                expected: expected@,
                actual: actual@,
            }),
        },
{
    match T::compare(expected, actual) {
        Some(field) => Err(
            Issue::Mismatch { seq, field, expected: expected.copy(), actual: actual.copy() },
        ),
        None => Ok(()),
    }
}

/// Compares two snapshots; numbers within the tolerances.
pub fn compare_features(expected: &FeatureSnapshot, actual: &FeatureSnapshot, seq: u64) -> (r: Result<
    (),
    Issue<FeatureSnapshot, FeatureField>,
>)
    ensures
        match FeatureSnapshot::mismatch(*expected, *actual) {
            None => r is Ok,
            Some(field) => r matches Err(e) && e@ == (IssueModel::Mismatch {
                seq,
                field,
                expected: expected@,
                actual: actual@,
            }),
        },
{
    compared(expected, actual, seq)
}

/// Compares two decisions; the confidence within the tolerances.
pub fn compare_decisions(expected: &Decision, actual: &Decision, seq: u64) -> (r: Result<
    (),
    Issue<Decision, DecisionField>,
>)
    ensures
        match Decision::mismatch(*expected, *actual) {
            None => r is Ok,
            Some(field) => r matches Err(e) && e@ == (IssueModel::Mismatch {
                seq,
                field,
                expected: expected@,
                actual: actual@,
            }),
        },
{
    compared(expected, actual, seq)
}

/// What is wrong with an expected value: `actual[n]` is the one produced under number `n`.
pub open spec fn check_of<T: Checked>(expected: (u64, T), actual: Seq<T>) -> Seq<
    IssueModel<T::V, T::Field>,
> {
    let seq = expected.0;
    if seq < actual.len() {
        match T::mismatch(expected.1, actual[seq as int]) {
            None => Seq::empty(),
            Some(field) => seq![
                IssueModel::Mismatch {
                    seq,
                    field,
                    expected: expected.1@,
                    actual: actual[seq as int]@,
                },
            ],
        }
    } else {
        seq![IssueModel::Missing { seq, ts_exchange: expected.1.moment() }]
    }
}

/// What is wrong with the expected values, in their order.
pub open spec fn checks_of<T: Checked>(expected: Seq<(u64, T)>, actual: Seq<T>) -> Seq<
    IssueModel<T::V, T::Field>,
>
    decreases expected.len(),
{
    if expected.len() == 0 {
        Seq::empty()
    } else {
        checks_of(expected.drop_last(), actual) + check_of(expected.last(), actual)
    }
}

/// Whether a value is expected under this number.
pub open spec fn listed<T>(expected: Seq<(u64, T)>, seq: u64) -> bool {
    exists|i: int| 0 <= i < expected.len() && (#[trigger] expected[i]).0 == seq
}

/// The produced values that are not expected, in their order.
pub open spec fn extras_of<T: Checked>(expected: Seq<(u64, T)>, actual: Seq<T>) -> Seq<
    IssueModel<T::V, T::Field>,
>
    decreases actual.len(),
{
    if actual.len() == 0 {
        Seq::empty()
    } else {
        let before = extras_of(expected, actual.drop_last());
        let seq = (actual.len() - 1) as u64;
        if listed(expected, seq) {
            before
        } else {
            before.push(IssueModel::Unexpected { seq, ts_exchange: actual.last().moment() })
        }
    }
}

/// All that is wrong: first the expected values, then the unexpected ones.
pub open spec fn report_of<T: Checked>(expected: Seq<(u64, T)>, actual: Seq<T>) -> Seq<
    IssueModel<T::V, T::Field>,
> {
    checks_of(expected, actual) + extras_of(expected, actual)
}

fn numbers<T>(expected: &Vec<(u64, T)>) -> (r: HashSet<u64>)
    ensures
        forall|seq: u64| #[trigger] r@.contains(seq) == listed(expected@, seq),
{
    broadcast use vstd::std_specs::hash::group_hash_axioms;

    let mut r: HashSet<u64> = HashSet::new();
    let mut i: usize = 0;
    while i < expected.len()
        invariant
            i <= expected@.len(),
            forall|seq: u64| #[trigger] r@.contains(seq) == listed(expected@.take(i as int), seq),
        decreases expected@.len() - i,
    {
        let ghost before = r@;
        r.insert(expected[i].0);
        proof {
            let upto = expected@.take(i + 1);
            let seen = expected@.take(i as int);
            assert forall|seq: u64| #[trigger] r@.contains(seq) == listed(upto, seq) by {
                if listed(seen, seq) {
                    let j = choose|j: int| 0 <= j < seen.len() && (#[trigger] seen[j]).0 == seq;
                    assert(upto[j].0 == seq);
                }
                if seq == expected@[i as int].0 {
                    assert(upto[i as int].0 == seq);
                }
                if listed(upto, seq) {
                    let j = choose|j: int| 0 <= j < upto.len() && (#[trigger] upto[j]).0 == seq;
                    if j < i {
                        assert(seen[j].0 == seq);
                    }
                }
                assert(before.contains(seq) == listed(seen, seq));
            }
        }
        i = i + 1;
    }
    proof {
        assert(expected@.take(expected@.len() as int) =~= expected@);
    }
    r
}

/// Compares the expected values with the produced ones by number: `actual[n]` was produced under
/// number `n`.
pub fn report<T: Checked>(expected: &Vec<(u64, T)>, actual: &Vec<T>) -> (r: Vec<
    Issue<T, T::Field>,
>)
    ensures
        issue_views(r@) == report_of(expected@, actual@),
{
    let mut r: Vec<Issue<T, T::Field>> = Vec::new();
    let mut i: usize = 0;
    proof {
        assert(issue_views(r@) =~= checks_of(expected@.take(0), actual@));
    }
    while i < expected.len()
        invariant
            i <= expected@.len(),
            issue_views(r@) == checks_of(expected@.take(i as int), actual@),
        decreases expected@.len() - i,
    {
        let ghost before = r@;
        let ghost upto = expected@.take(i + 1);
        proof {
            assert(upto.drop_last() =~= expected@.take(i as int));
            assert(upto.last() == expected@[i as int]);
        }
        let seq: u64 = expected[i].0;
        if seq < actual.len() as u64 {
            if let Err(e) = compared(&expected[i].1, &actual[seq as usize], seq) {
                r.push(e);
            }
        } else {
            r.push(Issue::Missing { seq, ts_exchange: expected[i].1.ts() });
        }
        proof {
            assert(issue_views(r@) =~= issue_views(before) + check_of(upto.last(), actual@));
        }
        i = i + 1;
    }
    proof {
        assert(expected@.take(expected@.len() as int) =~= expected@);
    }
    let ghost checked = issue_views(r@);
    let known = numbers(expected);
    let mut k: usize = 0;
    proof {
        assert(checked + extras_of(expected@, actual@.take(0)) =~= checked);
    }
    while k < actual.len()
        invariant
            k <= actual@.len(),
            forall|seq: u64| #[trigger] known@.contains(seq) == listed(expected@, seq),
            issue_views(r@) == checked + extras_of(expected@, actual@.take(k as int)),
        decreases actual@.len() - k,
    {
        broadcast use vstd::std_specs::hash::group_hash_axioms;

        let ghost before = r@;
        let ghost upto = actual@.take(k + 1);
        proof {
            assert(upto.drop_last() =~= actual@.take(k as int));
            assert(upto.last() == actual@[k as int]);
        }
        let seq: u64 = k as u64;
        if !known.contains(&seq) {
            r.push(Issue::Unexpected { seq, ts_exchange: actual[k].ts() });
        }
        proof {
            assert((upto.len() - 1) as u64 == seq);
            assert(known@.contains(seq) == listed(expected@, seq));
            if !listed(expected@, seq) {
                assert(issue_views(r@) =~= issue_views(before).push(r@.last()@));
            }
            assert(issue_views(r@) =~= checked + extras_of(expected@, upto));
        }
        k = k + 1;
    }
    proof {
        assert(actual@.take(actual@.len() as int) =~= actual@);
    }
    r
}

/// Numbers are near exactly where they differ by at most one millionth, or by at most one
/// millionth of the larger magnitude.
pub proof fn law_near_is_one_millionth(a: Num, b: Num)
    ensures
        near(a, b) <==> {
            let diff = absolute(difference(single_format(), a, b));
            let top = larger(absolute(a), absolute(b));
            at_most(diff, single_ratio(1, 1_000_000)) || (less(zero(), top) && at_most(
                quotient(single_format(), diff, top),
                single_ratio(1, 1_000_000),
            ))
        },
{
}

proof fn lemma_far_from(a: Seq<Single>, b: Seq<Single>, i: int)
    requires
        a.len() == b.len(),
        0 <= i <= a.len(),
    ensures
        match far_from(a, b, i) {
            Some(j) => i <= j < a.len() && !near(a[j]@, b[j]@) && forall|k: int|
                i <= k < j ==> near((#[trigger] a[k])@, b[k]@),
            None => forall|k: int| i <= k < a.len() ==> near((#[trigger] a[k])@, b[k]@),
        },
    decreases a.len() - i,
{
    if i < a.len() {
        lemma_far_from(a, b, i + 1);
    }
}

/// Two snapshots compare as equal exactly where they agree in everything: the same moment,
/// symbol, readiness, latency and version, spreads within the tolerances, and as many features,
/// each of them, from the first to the last, within the tolerances.
pub proof fn law_equal_snapshots_agree(e: FeatureSnapshot, a: FeatureSnapshot)
    ensures
        FeatureSnapshot::mismatch(e, a) is None <==> {
            &&& e.ts_exchange == a.ts_exchange
            &&& e.symbol@ == a.symbol@
            &&& e.ready == a.ready
            &&& e.data_latency_ms == a.data_latency_ms
            &&& near(e.spread_pct@, a.spread_pct@)
            &&& e.feature_version == a.feature_version
            &&& e.features@.len() == a.features@.len()
            &&& forall|i: int|
                0 <= i < e.features@.len() ==> near((#[trigger] e.features@[i])@, a.features@[i]@)
        },
{
    if e.features@.len() == a.features@.len() {
        lemma_far_from(e.features@, a.features@, 0);
    }
}

/// The field that is reported of two snapshots is one in which they differ; of the features it is
/// the first one. Its moment is that of its tick.
pub proof fn law_reported_snapshot_field_differs(e: FeatureSnapshot, a: FeatureSnapshot)
    ensures
        match FeatureSnapshot::mismatch(e, a) {
            None => true,
            Some(FeatureField::TsExchange) => e.ts_exchange != a.ts_exchange,
            Some(FeatureField::Symbol) => e.symbol@ != a.symbol@,
            Some(FeatureField::Ready) => e.ready != a.ready,
            Some(FeatureField::DataLatency) => e.data_latency_ms != a.data_latency_ms,
            Some(FeatureField::SpreadPct) => !near(e.spread_pct@, a.spread_pct@),
            Some(FeatureField::FeatureVersion) => e.feature_version != a.feature_version,
            Some(FeatureField::FeaturesLen) => e.features@.len() != a.features@.len(),
            Some(FeatureField::Feature(i)) => {
                &&& i < e.features@.len()
                &&& e.features@.len() == a.features@.len()
                &&& !near(e.features@[i as int]@, a.features@[i as int]@)
                &&& forall|k: int|
                    0 <= k < i ==> near((#[trigger] e.features@[k])@, a.features@[k]@)
            },
        },
        e.moment() == e.ts_exchange,
{
    assert(e.features.len() == e.features@.len());
    if e.features@.len() == a.features@.len() {
        lemma_far_from(e.features@, a.features@, 0);
    }
}

/// Two decisions compare as equal exactly where they agree in everything: the same moment,
/// symbol, action, model version and reasons, and confidences within the tolerances.
pub proof fn law_equal_decisions_agree(e: Decision, a: Decision)
    ensures
        Decision::mismatch(e, a) is None <==> {
            &&& e.ts_exchange == a.ts_exchange
            &&& e.symbol@ == a.symbol@
            &&& e.action == a.action
            &&& near(e.confidence@, a.confidence@)
            &&& e.model_version@ == a.model_version@
            &&& e.reason_codes@.len() == a.reason_codes@.len()
            &&& forall|i: int|
                0 <= i < e.reason_codes@.len() ==> (#[trigger] e.reason_codes@[i])@
                    == a.reason_codes@[i]@
        },
{
    let (x, y) = (texts(e.reason_codes@), texts(a.reason_codes@));
    if x == y {
        assert(x.len() == y.len());
        assert forall|i: int| 0 <= i < e.reason_codes@.len() implies (
        #[trigger] e.reason_codes@[i])@ == a.reason_codes@[i]@ by {
            assert(x[i] == y[i]);
        }
    }
    if e.reason_codes@.len() == a.reason_codes@.len() && forall|i: int|
        0 <= i < e.reason_codes@.len() ==> (#[trigger] e.reason_codes@[i])@
            == a.reason_codes@[i]@ {
        assert(x =~= y);
    }
}

/// The field that is reported of two decisions is one in which they differ.
pub proof fn law_reported_decision_field_differs(e: Decision, a: Decision)
    ensures
        match Decision::mismatch(e, a) {
            None => true,
            Some(DecisionField::TsExchange) => e.ts_exchange != a.ts_exchange,
            Some(DecisionField::Symbol) => e.symbol@ != a.symbol@,
            Some(DecisionField::Action) => e.action != a.action,
            Some(DecisionField::Confidence) => !near(e.confidence@, a.confidence@),
            Some(DecisionField::ModelVersion) => e.model_version@ != a.model_version@,
            Some(DecisionField::ReasonCodes) => texts(e.reason_codes@) != texts(a.reason_codes@),
        },
        e.moment() == e.ts_exchange,
{
}

/// A report is clean exactly where every expected value was produced under its number and does
/// not differ, and every produced value was expected.
pub proof fn law_clean_report<T: Checked>(expected: Seq<(u64, T)>, actual: Seq<T>)
    requires
        actual.len() <= u64::MAX,
    ensures
        report_of(expected, actual).len() == 0 <==> {
            &&& forall|i: int|
                0 <= i < expected.len() ==> (#[trigger] expected[i]).0 < actual.len()
                    && T::mismatch(expected[i].1, actual[expected[i].0 as int]) is None
            &&& forall|k: int| 0 <= k < actual.len() ==> #[trigger] listed(expected, k as u64)
        },
{
    lemma_checks_are_clean(expected, actual);
    lemma_extras_are_clean(expected, actual);
}

proof fn lemma_checks_are_clean<T: Checked>(expected: Seq<(u64, T)>, actual: Seq<T>)
    ensures
        checks_of(expected, actual).len() == 0 <==> forall|i: int|
            0 <= i < expected.len() ==> (#[trigger] expected[i]).0 < actual.len() && T::mismatch(
                expected[i].1,
                actual[expected[i].0 as int],
            ) is None,
    decreases expected.len(),
{
    if expected.len() > 0 {
        let before = expected.drop_last();
        lemma_checks_are_clean(before, actual);
        assert(checks_of(expected, actual).len() == checks_of(before, actual).len() + check_of(
            expected.last(),
            actual,
        ).len());
        if checks_of(expected, actual).len() == 0 {
            assert forall|i: int| 0 <= i < expected.len() implies (#[trigger] expected[i]).0
                < actual.len() && T::mismatch(
                expected[i].1,
                actual[expected[i].0 as int],
            ) is None by {
                if i < before.len() {
                    assert(before[i] == expected[i]);
                }
            }
        } else if checks_of(before, actual).len() == 0 {
            assert(expected[expected.len() - 1] == expected.last());
        } else {
            let i = choose|i: int|
                0 <= i < before.len() && !((#[trigger] before[i]).0 < actual.len() && T::mismatch(
                    before[i].1,
                    actual[before[i].0 as int],
                ) is None);
            assert(expected[i] == before[i]);
        }
    }
}

proof fn lemma_extras_are_clean<T: Checked>(expected: Seq<(u64, T)>, actual: Seq<T>)
    requires
        actual.len() <= u64::MAX,
    ensures
        extras_of(expected, actual).len() == 0 <==> forall|k: int|
            0 <= k < actual.len() ==> #[trigger] listed(expected, k as u64),
    decreases actual.len(),
{
    if actual.len() > 0 {
        lemma_extras_are_clean(expected, actual.drop_last());
        let last = actual.len() - 1;
        if extras_of(expected, actual).len() == 0 {
            assert forall|k: int| 0 <= k < actual.len() implies #[trigger] listed(
                expected,
                k as u64,
            ) by {
                if k < last {
                    assert(0 <= k < actual.drop_last().len());
                }
            }
        } else if listed(expected, last as u64) {
            let k = choose|k: int|
                0 <= k < actual.drop_last().len() && !(#[trigger] listed(expected, k as u64));
            assert(!listed(expected, k as u64));
        }
    }
}

/// An issue says what is wrong: a mismatch names a value that is expected and the one produced
/// under its number, which differ; a missing one is expected under a number under which nothing
/// was produced; an unexpected one was produced under a number that is not expected.
pub open spec fn is_real_issue<T: Checked>(
    expected: Seq<(u64, T)>,
    actual: Seq<T>,
    issue: IssueModel<T::V, T::Field>,
) -> bool {
    match issue {
        IssueModel::Mismatch { seq, field, expected: e, actual: a } => exists|i: int|
            {
                &&& 0 <= i < expected.len()
                &&& (#[trigger] expected[i]).0 == seq
                &&& seq < actual.len()
                &&& e == expected[i].1@
                &&& a == actual[seq as int]@
                &&& T::mismatch(expected[i].1, actual[seq as int]) == Some(field)
            },
        IssueModel::Missing { seq, ts_exchange } => exists|i: int|
            {
                &&& 0 <= i < expected.len()
                &&& (#[trigger] expected[i]).0 == seq
                &&& seq >= actual.len()
                &&& ts_exchange == expected[i].1.moment()
            },
        IssueModel::Unexpected { seq, ts_exchange } => {
            &&& seq < actual.len()
            &&& ts_exchange == actual[seq as int].moment()
            &&& forall|i: int| 0 <= i < expected.len() ==> (#[trigger] expected[i]).0 != seq
        },
    }
}

proof fn lemma_checks_are_real<T: Checked>(expected: Seq<(u64, T)>, actual: Seq<T>, n: int, k: int)
    requires
        0 <= n <= expected.len(),
        0 <= k < checks_of(expected.take(n), actual).len(),
    ensures
        is_real_issue(expected, actual, checks_of(expected.take(n), actual)[k]),
    decreases n,
{
    if n > 0 {
        let upto = expected.take(n);
        assert(upto.drop_last() =~= expected.take(n - 1));
        let before = checks_of(expected.take(n - 1), actual);
        if k < before.len() {
            lemma_checks_are_real(expected, actual, n - 1, k);
        } else {
            let e = expected[n - 1];
            assert(upto.last() == e);
            assert(checks_of(upto, actual)[k] == check_of(e, actual)[k - before.len()]);
            assert(expected[n - 1].0 == e.0);
        }
    }
}

proof fn lemma_extras_are_real<T: Checked>(expected: Seq<(u64, T)>, actual: Seq<T>, n: int, k: int)
    requires
        0 <= n <= actual.len() <= u64::MAX,
        0 <= k < extras_of(expected, actual.take(n)).len(),
    ensures
        is_real_issue(expected, actual, extras_of(expected, actual.take(n))[k]),
    decreases n,
{
    if n > 0 {
        let upto = actual.take(n);
        assert(upto.drop_last() =~= actual.take(n - 1));
        let before = extras_of(expected, actual.take(n - 1));
        if k < before.len() {
            lemma_extras_are_real(expected, actual, n - 1, k);
        } else {
            let seq = (n - 1) as u64;
            assert(upto.last() == actual[n - 1]);
            assert forall|i: int| 0 <= i < expected.len() implies (#[trigger] expected[i]).0
                != seq by {}
        }
    }
}

/// Everything in a report is really wrong.
pub proof fn law_reported_issues_are_real<T: Checked>(
    expected: Seq<(u64, T)>,
    actual: Seq<T>,
    k: int,
)
    requires
        actual.len() <= u64::MAX,
        0 <= k < report_of(expected, actual).len(),
    ensures
        is_real_issue(expected, actual, report_of(expected, actual)[k]),
{
    assert(expected.take(expected.len() as int) =~= expected);
    assert(actual.take(actual.len() as int) =~= actual);
    let checks = checks_of(expected, actual);
    if k < checks.len() {
        lemma_checks_are_real(expected, actual, expected.len() as int, k);
    } else {
        assert(report_of(expected, actual)[k] == extras_of(expected, actual)[k - checks.len()]);
        lemma_extras_are_real(expected, actual, actual.len() as int, k - checks.len());
    }
}

/// What is wrong with an expected value is in the report, however much else is wrong.
pub proof fn law_every_mismatch_is_reported<T: Checked>(
    expected: Seq<(u64, T)>,
    actual: Seq<T>,
    i: int,
)
    requires
        0 <= i < expected.len(),
    ensures
        expected[i].0 >= actual.len() ==> report_of(expected, actual).contains(
            IssueModel::Missing { seq: expected[i].0, ts_exchange: expected[i].1.moment() },
        ),
        expected[i].0 < actual.len() ==> match T::mismatch(
            expected[i].1,
            actual[expected[i].0 as int],
        ) {
            Some(field) => report_of(expected, actual).contains(
                IssueModel::Mismatch {
                    seq: expected[i].0,
                    field,
                    expected: expected[i].1@,
                    actual: actual[expected[i].0 as int]@,
                },
            ),
            None => true,
        },
    decreases expected.len(),
{
    let checks = checks_of(expected, actual);
    let all = report_of(expected, actual);
    let before = expected.drop_last();
    let older = checks_of(before, actual);
    if i < before.len() {
        law_every_mismatch_is_reported(before, actual, i);
        lemma_report_grows(expected, actual);
        assert(before[i] == expected[i]);
    } else {
        let last = check_of(expected.last(), actual);
        if last.len() > 0 {
            assert(all[older.len() as int] == last[0]);
        }
    }
}

/// An issue with an earlier value stays one.
proof fn lemma_report_grows<T: Checked>(expected: Seq<(u64, T)>, actual: Seq<T>)
    requires
        expected.len() > 0,
    ensures
        forall|x: IssueModel<T::V, T::Field>|
            !(x is Unexpected) && report_of(expected.drop_last(), actual).contains(x)
                ==> #[trigger] report_of(expected, actual).contains(x),
{
    let before = expected.drop_last();
    let old = report_of(before, actual);
    let all = report_of(expected, actual);
    assert forall|x: IssueModel<T::V, T::Field>|
        !(x is Unexpected) && old.contains(x) implies #[trigger] all.contains(x) by {
        let k = choose|k: int| 0 <= k < old.len() && old[k] == x;
        let n = checks_of(before, actual).len();
        if k < n {
            assert(all[k] == x);
        } else {
            lemma_extras_are_unexpected(before, actual, k - n);
            assert(old[k] == extras_of(before, actual)[k - n]);
        }
    }
}

proof fn lemma_extras_are_unexpected<T: Checked>(expected: Seq<(u64, T)>, actual: Seq<T>, k: int)
    requires
        0 <= k < extras_of(expected, actual).len(),
    ensures
        extras_of(expected, actual)[k] is Unexpected,
    decreases actual.len(),
{
    if actual.len() > 0 {
        let before = extras_of(expected, actual.drop_last());
        if k < before.len() {
            lemma_extras_are_unexpected(expected, actual.drop_last(), k);
        }
    }
}

/// Nothing is wrong where the values were produced as expected and numbered by their places.
pub proof fn lemma_clean_report<T: Checked>(expected: Seq<(u64, T)>, actual: Seq<T>)
    requires
        expected.len() == actual.len(),
        actual.len() <= u64::MAX,
        forall|i: int|
            0 <= i < expected.len() ==> (#[trigger] expected[i]).0 == i && T::mismatch(
                expected[i].1,
                actual[i],
            ) is None,
    ensures
        report_of(expected, actual).len() == 0,
{
    law_clean_report(expected, actual);
    assert forall|k: int| 0 <= k < actual.len() implies #[trigger] listed(expected, k as u64) by {
        assert(expected[k].0 == k);
    }
}

} // verus!
