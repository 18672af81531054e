//! Diagnostics, and what a line of tool output amounts to.
//!
//! Tools count lines and columns from one, the protocol from zero.

use crate::position::Range;
use crate::text::{chars_of, parse_u32, parsed_u32};
use vstd::prelude::*;

verus! {

/// How grave a diagnostic is.
#[derive(Clone, Copy, Debug, PartialEq, Eq, Structural)]
pub enum Severity {
    Error,
    Warning,
    Information,
    Hint,
}

/// One finding of a checker tool; `source` names the tool.
#[derive(Clone, Debug, PartialEq, Eq)]
pub struct Diagnostic {
    pub range: Range,
    pub severity: Severity,
    pub source: String,
    pub message: String,
}

/// A diagnostic, as values.
pub struct DiagnosticView {
    pub range: Range,
    pub severity: Severity,
    pub source: Seq<char>,
    pub message: Seq<char>,
}

impl View for Diagnostic {
    type V = DiagnosticView;

    open spec fn view(&self) -> DiagnosticView {
        DiagnosticView {
            range: self.range,
            severity: self.severity,
            source: self.source@,
            message: self.message@,
        }
    }
}

impl DeepView for Diagnostic {
    type V = DiagnosticView;

    open spec fn deep_view(&self) -> DiagnosticView {
        self@
    }
}

/// What one line of tool output amounts to.
#[derive(Clone, Debug, PartialEq, Eq)]
pub enum Finding {
    /// The line reports nothing for the checked file.
    Ignored,
    /// The line has the shape of a report, but a number in it cannot be
    /// read.
    Malformed,
    Reported(Diagnostic),
}

/// A finding, as values.
pub enum FindingView {
    Ignored,
    Malformed,
    Reported(DiagnosticView),
}

impl View for Finding {
    type V = FindingView;

    open spec fn view(&self) -> FindingView {
        match self {
            Finding::Ignored => FindingView::Ignored,
            Finding::Malformed => FindingView::Malformed,
            Finding::Reported(d) => FindingView::Reported(d@),
        }
    }
}

/// The zero-based number that a one-based decimal field stands for. A field
/// that is no `u32`, or is zero, stands for none.
pub open spec fn zero_based(field: Seq<char>) -> Option<u32> {
    match parsed_u32(field) {
        Some(n) => if n >= 1 {
            Some((n - 1) as u32)
        } else {
            None
        },
        None => None,
    }
}

/// Reads a one-based decimal field as a zero-based number.
pub fn read_zero_based(field: &str) -> (r: Option<u32>)
    ensures
        r == zero_based(field@),
{
    let digits = chars_of(field);
    match parse_u32(&digits) {
        Some(n) => if n >= 1 {
            Some(n - 1)
        } else {
            None
        },
        None => None,
    }
}

/// The text of a captured field; a field that took no part in the match
/// counts as empty.
pub open spec fn text_of(field: Option<Seq<char>>) -> Seq<char> {
    match field {
        Some(text) => text,
        None => Seq::empty(),
    }
}

/// Reads the text of a captured field: see [`text_of`].
pub fn read_text(field: &Option<String>) -> (r: String)
    ensures
        r@ == text_of(field.deep_view()),
{
    match field {
        Some(text) => text.clone(),
        None => String::new(),
    }
}

/// The diagnostics among `findings`, in their order.
pub open spec fn reported(findings: Seq<FindingView>) -> Seq<DiagnosticView>
    decreases findings.len(),
{
    if findings.len() == 0 {
        Seq::empty()
    } else {
        let before = reported(findings.drop_last());
        match findings.last() {
            FindingView::Reported(d) => before.push(d),
            _ => before,
        }
    }
}

/// Whether one of `findings` is malformed.
pub open spec fn any_malformed(findings: Seq<FindingView>) -> bool {
    exists|i: int| 0 <= i < findings.len() && #[trigger] findings[i] is Malformed
}

/// What a run yields from the findings of its lines: nothing at all where a
/// line is malformed, else the reported diagnostics in line order.
pub open spec fn gathered(findings: Seq<FindingView>) -> Option<Seq<DiagnosticView>> {
    if any_malformed(findings) {
        None
    } else {
        Some(reported(findings))
    }
}

} // verus!
