//! The diagnostics extractor: one diagnostic per error node the error
//! query matched.

use vstd::prelude::*;

use crate::convert::spec_ts_range_to_lsp_range;
use crate::engine::{Capture, CaptureView};
use crate::index::{views_of_captures, views_of_matches};
use crate::strutil::str_eq;
use crate::types::{Diagnostic, DiagnosticView, LspRange, Position, Severity};

verus! {

/// The diagnostic derived from one error-node capture: the node's range,
/// the fixed marker message, and error severity.
pub open spec fn diagnostic_of(c: CaptureView) -> DiagnosticView {
    DiagnosticView {
        range: spec_ts_range_to_lsp_range(c.range),
        message: "syntax error"@,
        severity: Severity::Error,
    }
}

/// The diagnostics of one match group: one per capture named `ERROR`.
pub open spec fn diags_of_caps(caps: Seq<CaptureView>) -> Seq<DiagnosticView>
    decreases caps.len(),
{
    if caps.len() == 0 {
        Seq::empty()
    } else if caps.last().name == "ERROR"@ {
        diags_of_caps(caps.drop_last()).push(diagnostic_of(caps.last()))
    } else {
        diags_of_caps(caps.drop_last())
    }
}

/// The diagnostics of all match groups, in match order.
pub open spec fn diags_of_matches(mm: Seq<Seq<CaptureView>>) -> Seq<DiagnosticView>
    decreases mm.len(),
{
    if mm.len() == 0 {
        Seq::empty()
    } else {
        diags_of_matches(mm.drop_last()) + diags_of_caps(mm.last())
    }
}

/// The views of a diagnostic vector.
pub open spec fn views_of_diags(s: Seq<Diagnostic>) -> Seq<DiagnosticView> {
    s.map_values(|d: Diagnostic| d@)
}

/// The protocol range of a capture's node range, truncating coordinates
/// to the protocol's 32-bit width.
fn lsp_range_of_capture(c: &Capture) -> (r: LspRange)
    ensures
        r == spec_ts_range_to_lsp_range(c.range),
{
    LspRange {
        start: Position {
            line: #[verifier::truncate] (c.range.start_point.row as u32),
            character: #[verifier::truncate] (c.range.start_point.column as u32),
        },
        end: Position {
            line: #[verifier::truncate] (c.range.end_point.row as u32),
            character: #[verifier::truncate] (c.range.end_point.column as u32),
        },
    }
}

/// Builds one diagnostic per `ERROR` capture: its node's range, the
/// fixed marker message `syntax error`, and error severity.
pub fn build_diagnostics(matches: &Vec<Vec<Capture>>) -> (r: Vec<Diagnostic>)
    ensures
        views_of_diags(r@) == diags_of_matches(views_of_matches(matches@)),
{
    let mut r: Vec<Diagnostic> = Vec::new();
    let n: usize = matches.len();
    let mut i: usize = 0;
    proof {
        assert(views_of_matches(matches@).take(0) =~= Seq::<Seq<CaptureView>>::empty());
        assert(views_of_diags(r@) =~= diags_of_matches(views_of_matches(matches@).take(0)));
    }
    while i < n
        invariant
            0 <= i <= n == matches@.len(),
            views_of_diags(r@) == diags_of_matches(views_of_matches(matches@).take(i as int)),
        decreases n - i,
    {
        let group = &matches[i];
        let m: usize = group.len();
        let mut j: usize = 0;
        proof {
            assert(views_of_captures(group@).take(0) =~= Seq::<CaptureView>::empty());
            assert(diags_of_caps(views_of_captures(group@).take(0)) =~= Seq::<
                DiagnosticView,
            >::empty());
            assert(views_of_diags(r@) + Seq::<DiagnosticView>::empty() =~= views_of_diags(r@));
        }
        while j < m
            invariant
                0 <= j <= m == group@.len(),
                views_of_diags(r@) == diags_of_matches(views_of_matches(matches@).take(i as int))
                    + diags_of_caps(views_of_captures(group@).take(j as int)),
            decreases m - j,
        {
            let cap = &group[j];
            proof {
                assert(views_of_captures(group@).take(j as int + 1).drop_last()
                    =~= views_of_captures(group@).take(j as int));
                assert(views_of_captures(group@).take(j as int + 1).last() == group@[j as int]@);
            }
            if str_eq(cap.name.as_str(), "ERROR") {
                let message: String = "syntax error".to_owned();
                let d = Diagnostic {
                    range: lsp_range_of_capture(cap),
                    message,
                    severity: Severity::Error,
                };
                proof {
                    assert(d@ == diagnostic_of(group@[j as int]@));
                    assert(views_of_diags(r@.push(d)) =~= views_of_diags(r@).push(d@));
                }
                r.push(d);
            }
            j = j + 1;
        }
        proof {
            assert(views_of_captures(group@).take(m as int) =~= views_of_captures(group@));
            assert(views_of_matches(matches@).take(i as int + 1).drop_last()
                =~= views_of_matches(matches@).take(i as int));
            assert(views_of_matches(matches@).take(i as int + 1).last() == views_of_captures(
                group@,
            ));
        }
        i = i + 1;
    }
    proof {
        assert(views_of_matches(matches@).take(n as int) =~= views_of_matches(matches@));
    }
    r
}

} // verus!
