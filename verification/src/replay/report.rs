//! The printed report on a checked pack.

use super::golden::{GoldenMeta, VerificationResult};
use crate::common::events::texts;
use crate::text::digits::{decimal_text, signed_text, unsigned_text};
use vstd::prelude::*;
use vstd::string::*;

verus! {

/// How many differences of each kind are shown.
pub const SHOWN_ERRORS: usize = 20;

/// A text brought to a width with blanks in front.
pub open spec fn right_aligned(s: Seq<char>, width: nat) -> Seq<char>
    decreases width - s.len(),
{
    if s.len() < width {
        right_aligned(seq![' '] + s, width)
    } else {
        s
    }
}

fn right_align(s: String, width: usize) -> (r: String)
    ensures
        r@ == right_aligned(s@, width as nat),
    decreases width - s@.len(),
{
    if s.as_str().unicode_len() < width {
        let mut padded = " ".to_string();
        padded.append(s.as_str());
        proof {
            reveal_strlit(" ");
            assert(" "@ =~= seq![' ']);
        }
        right_align(padded, width)
    } else {
        s
    }
}

pub open spec fn title_lines() -> Seq<Seq<char>> {
    seq![
        "╔═══════════════════════════════════════════════════════════════╗"@,
        "║           Golden Pack Verification Summary                   ║"@,
        "╚═══════════════════════════════════════════════════════════════╝"@,
        ""@,
    ]
}

/// What the pack says of itself; nothing where it has no meta data.
pub open spec fn meta_lines(meta: Option<GoldenMeta>) -> Seq<Seq<char>> {
    match meta {
        Some(m) => seq![
            "Meta (from golden pack):"@,
            "  Symbol:                "@ + m.symbol@,
            "  Time range:            "@ + decimal_text(m.from_ts_ms as int) + " to "@
                + decimal_text(m.to_ts_ms as int),
            "  Feature window:        "@ + decimal_text(m.feature_window as int),
            "  Min gap (ms):          "@ + decimal_text(m.min_gap_ms as int),
        ] + (match m.limit {
            Some(n) => seq!["  Limit:                 "@ + decimal_text(n as int)],
            None => Seq::empty(),
        }) + seq!["  Inference engine:      "@ + m.inference_engine@, ""@],
        None => Seq::empty(),
    }
}

/// A line on how many of a kind were expected and produced.
pub open spec fn count_line(label: Seq<char>, expected: usize, produced: usize) -> Seq<char> {
    label + "expected "@ + decimal_text(expected as int) + ", produced "@ + decimal_text(
        produced as int,
    )
}

/// The counts; decisions are left out where there are none.
pub open spec fn count_lines(v: VerificationResult) -> Seq<Seq<char>> {
    seq![
        "Counts:"@,
        "  Raw BBO events:        "@ + decimal_text(v.num_raw_events as int),
        count_line(
            "  Feature snapshots:     "@,
            v.num_snapshots_expected,
            v.num_snapshots_produced,
        ),
    ] + (if v.num_decisions_expected > 0 || v.num_decisions_produced > 0 {
        seq![
            count_line(
                "  Decisions:             "@,
                v.num_decisions_expected,
                v.num_decisions_produced,
            ),
        ]
    } else {
        Seq::empty()
    }) + seq!["  Features checked:      "@ + decimal_text(v.num_features_checked as int)] + (
    if v.num_decisions_checked > 0 {
        seq!["  Decisions checked:      "@ + decimal_text(v.num_decisions_checked as int)]
    } else {
        Seq::empty()
    }) + seq![""@]
}

pub open spec fn legacy_lines(is_legacy: bool) -> Seq<Seq<char>> {
    if is_legacy {
        seq![
            "⚠️  WARNING: Legacy golden pack (no meta.json, using line index as seq)"@,
            "   Consider running: replay --upgrade-golden <path>"@,
            ""@,
        ]
    } else {
        Seq::empty()
    }
}

/// The line on the difference at place `i`.
pub open spec fn error_line(errors: Seq<Seq<char>>, i: int) -> Seq<char> {
    "  ["@ + right_aligned(decimal_text(i + 1), 3) + "] "@ + errors[i]
}

pub open spec fn shown(n: nat) -> nat {
    if n < SHOWN_ERRORS {
        n
    } else {
        SHOWN_ERRORS as nat
    }
}

/// The differences of one kind: their number, the first twenty, and how many more there are.
pub open spec fn error_lines(
    title: Seq<char>,
    kind: Seq<char>,
    errors: Seq<Seq<char>>,
) -> Seq<Seq<char>> {
    if errors.len() == 0 {
        Seq::empty()
    } else {
        seq![
            "❌ "@ + title + " ("@ + decimal_text(errors.len() as int) + "):"@,
            "─────────────────────────────────────────────────────────────"@,
        ] + Seq::new(shown(errors.len()), |i: int| error_line(errors, i)) + (if errors.len()
            > SHOWN_ERRORS {
            seq![
                "  ... and "@ + decimal_text(errors.len() - SHOWN_ERRORS) + " more "@ + kind
                    + " errors"@,
            ]
        } else {
            Seq::empty()
        }) + seq![""@]
    }
}

/// The report, with the differences given as texts.
pub open spec fn report_text(
    v: VerificationResult,
    features: Seq<Seq<char>>,
    decisions: Seq<Seq<char>>,
) -> Seq<Seq<char>> {
    title_lines() + meta_lines(v.meta) + count_lines(v) + legacy_lines(v.is_legacy) + error_lines(
        "Feature Mismatches"@,
        "feature"@,
        features,
    ) + error_lines("Decision Mismatches"@, "decision"@, decisions) + (if features.len() == 0
        && decisions.len() == 0 {
        seq!["✅ All checks passed!"@]
    } else {
        Seq::empty()
    })
}

fn joined(a: &str, b: &str) -> (r: String)
    ensures
        r@ == a@ + b@,
{
    let mut s = a.to_string();
    s.append(b);
    s
}

fn counted(label: &str, n: usize) -> (r: String)
    ensures
        r@ == label@ + decimal_text(n as int),
{
    joined(label, unsigned_text(n as u64).as_str())
}

fn push_line(lines: &mut Vec<String>, line: String)
    ensures
        texts(final(lines)@) == texts(old(lines)@).push(line@),
{
    lines.push(line);
    proof {
        assert(texts(lines@) =~= texts(old(lines)@).push(line@));
    }
}

fn push_title(lines: &mut Vec<String>)
    ensures
        texts(final(lines)@) == texts(old(lines)@) + title_lines(),
{
    push_line(
        lines,
        "╔═══════════════════════════════════════════════════════════════╗".to_string(),
    );
    push_line(
        lines,
        "║           Golden Pack Verification Summary                   ║".to_string(),
    );
    push_line(
        lines,
        "╚═══════════════════════════════════════════════════════════════╝".to_string(),
    );
    push_line(lines, "".to_string());
    proof {
        assert(texts(lines@) =~= texts(old(lines)@) + title_lines());
    }
}

fn push_meta(lines: &mut Vec<String>, meta: &Option<GoldenMeta>)
    ensures
        texts(final(lines)@) == texts(old(lines)@) + meta_lines(*meta),
{
    if let Some(m) = meta {
        push_line(lines, "Meta (from golden pack):".to_string());
        push_line(lines, joined("  Symbol:                ", m.symbol.as_str()));
        let mut range = joined("  Time range:            ", signed_text(m.from_ts_ms).as_str());
        range.append(" to ");
        range.append(signed_text(m.to_ts_ms).as_str());
        push_line(lines, range);
        push_line(lines, counted("  Feature window:        ", m.feature_window));
        push_line(
            lines,
            joined("  Min gap (ms):          ", unsigned_text(m.min_gap_ms).as_str()),
        );
        if let Some(n) = m.limit {
            push_line(lines, joined("  Limit:                 ", unsigned_text(n).as_str()));
        }
        push_line(lines, joined("  Inference engine:      ", m.inference_engine.as_str()));
        push_line(lines, "".to_string());
    }
    proof {
        assert(texts(lines@) =~= texts(old(lines)@) + meta_lines(*meta));
    }
}

fn count_text(label: &str, expected: usize, produced: usize) -> (r: String)
    ensures
        r@ == count_line(label@, expected, produced),
{
    let mut s = joined(label, "expected ");
    s.append(unsigned_text(expected as u64).as_str());
    s.append(", produced ");
    s.append(unsigned_text(produced as u64).as_str());
    s
}

fn push_counts(lines: &mut Vec<String>, v: &VerificationResult)
    ensures
        texts(final(lines)@) == texts(old(lines)@) + count_lines(*v),
{
    push_line(lines, "Counts:".to_string());
    push_line(lines, counted("  Raw BBO events:        ", v.num_raw_events));
    push_line(
        lines,
        count_text(
            "  Feature snapshots:     ",
            v.num_snapshots_expected,
            v.num_snapshots_produced,
        ),
    );
    if v.num_decisions_expected > 0 || v.num_decisions_produced > 0 {
        push_line(
            lines,
            count_text(
                "  Decisions:             ",
                v.num_decisions_expected,
                v.num_decisions_produced,
            ),
        );
    }
    push_line(lines, counted("  Features checked:      ", v.num_features_checked));
    if v.num_decisions_checked > 0 {
        push_line(lines, counted("  Decisions checked:      ", v.num_decisions_checked));
    }
    push_line(lines, "".to_string());
    proof {
        assert(texts(lines@) =~= texts(old(lines)@) + count_lines(*v));
    }
}

fn push_legacy(lines: &mut Vec<String>, is_legacy: bool)
    ensures
        texts(final(lines)@) == texts(old(lines)@) + legacy_lines(is_legacy),
{
    if is_legacy {
        push_line(
            lines,
            "⚠️  WARNING: Legacy golden pack (no meta.json, using line index as seq)".to_string(),
        );
        push_line(lines, "   Consider running: replay --upgrade-golden <path>".to_string());
        push_line(lines, "".to_string());
    }
    proof {
        assert(texts(lines@) =~= texts(old(lines)@) + legacy_lines(is_legacy));
    }
}

fn error_text(errors: &Vec<String>, i: usize) -> (r: String)
    requires
        i < errors@.len(),
    ensures
        r@ == error_line(texts(errors@), i as int),
{
    let n: usize = errors.len();
    let place = right_align(unsigned_text((i + 1) as u64), 3);
    let mut s = joined("  [", place.as_str());
    s.append("] ");
    s.append(errors[i].as_str());
    s
}

fn push_shown(lines: &mut Vec<String>, errors: &Vec<String>)
    ensures
        texts(final(lines)@) == texts(old(lines)@) + Seq::new(
            shown(errors@.len()),
            |i: int| error_line(texts(errors@), i),
        ),
{
    let ghost before = texts(lines@);
    let total: usize = errors.len();
    let n: usize = if total < SHOWN_ERRORS {
        total
    } else {
        SHOWN_ERRORS
    };
    let mut i: usize = 0;
    proof {
        assert(before =~= before + Seq::new(0, |k: int| error_line(texts(errors@), k)));
    }
    while i < n
        invariant
            i <= n,
            n <= errors@.len(),
            texts(lines@) == before + Seq::new(
                i as nat,
                |k: int| error_line(texts(errors@), k),
            ),
        decreases n - i,
    {
        push_line(lines, error_text(errors, i));
        i = i + 1;
        proof {
            assert(texts(lines@) =~= before + Seq::new(
                i as nat,
                |k: int| error_line(texts(errors@), k),
            ));
        }
    }
}

fn push_errors(lines: &mut Vec<String>, title: &str, kind: &str, errors: &Vec<String>)
    ensures
        texts(final(lines)@) == texts(old(lines)@) + error_lines(title@, kind@, texts(errors@)),
{
    let n: usize = errors.len();
    if n > 0 {
        let mut head = joined("❌ ", title);
        head.append(" (");
        head.append(unsigned_text(n as u64).as_str());
        head.append("):");
        push_line(lines, head);
        push_line(
            lines,
            "─────────────────────────────────────────────────────────────".to_string(),
        );
        push_shown(lines, errors);
        if n > SHOWN_ERRORS {
            let mut more = counted("  ... and ", n - SHOWN_ERRORS);
            more.append(" more ");
            more.append(kind);
            more.append(" errors");
            push_line(lines, more);
        }
        push_line(lines, "".to_string());
    }
    proof {
        assert(texts(lines@) =~= texts(old(lines)@) + error_lines(title@, kind@, texts(errors@)));
    }
}

impl VerificationResult {
    /// The lines of the report. The differences come as texts, in their order.
    pub fn report_lines(
        &self,
        feature_errors: &Vec<String>,
        decision_errors: &Vec<String>,
    ) -> (r: Vec<String>)
        ensures
            texts(r@) == report_text(*self, texts(feature_errors@), texts(decision_errors@)),
    {
        let mut lines: Vec<String> = Vec::new();
        push_title(&mut lines);
        push_meta(&mut lines, &self.meta);
        push_counts(&mut lines, self);
        push_legacy(&mut lines, self.is_legacy);
        push_errors(&mut lines, "Feature Mismatches", "feature", feature_errors);
        push_errors(&mut lines, "Decision Mismatches", "decision", decision_errors);
        if feature_errors.len() == 0 && decision_errors.len() == 0 {
            push_line(&mut lines, "✅ All checks passed!".to_string());
        }
        proof {
            assert(texts(lines@) =~= report_text(
                *self,
                texts(feature_errors@),
                texts(decision_errors@),
            ));
        }
        lines
    }
}

/// A report says that all is well exactly where nothing is wrong; else it names how many errors
/// there are and lists the first twenty of each kind.
pub proof fn law_reports_list_the_errors(
    v: VerificationResult,
    features: Seq<Seq<char>>,
    decisions: Seq<Seq<char>>,
    title: Seq<char>,
    kind: Seq<char>,
    i: int,
)
    ensures
        features.len() == 0 && decisions.len() == 0 ==> report_text(v, features, decisions).last()
            == "✅ All checks passed!"@,
        features.len() > 0 || decisions.len() > 0 ==> report_text(v, features, decisions).last()
            == ""@,
        features.len() == 0 ==> error_lines(title, kind, features).len() == 0,
        0 <= i < features.len() && i < 20 ==> error_lines(title, kind, features)[2 + i] == "  ["@
            + right_aligned(decimal_text(i + 1), 3) + "] "@ + features[i],
        0 < features.len() <= 20 ==> error_lines(title, kind, features).len() == features.len()
            + 3,
        features.len() > 20 ==> error_lines(title, kind, features).len() == 24,
{
}

} // verus!
