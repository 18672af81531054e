//! Reading what the verible tools print.
//!
//! `verible-verilog-syntax` and `verible-verilog-lint` report one finding a
//! line, in the form `path:line:startcol[-endcol]: message ...`, without a
//! severity: every finding counts as an error.

use crate::finding::{
    read_text, read_zero_based, text_of, zero_based, Diagnostic, DiagnosticView, Finding,
    FindingView, Severity,
};
use crate::position::{Position, Range};
use crate::pattern::{captures, regex_captures};
use vstd::prelude::*;

verus! {

/// The shape of a verible report line, with its fields as named groups.
pub const VERIBLE_PATTERN: &'static str =
    r"^.+:(?P<line>\d*):(?P<startcol>\d*)(?:-(?P<endcol>\d*))?:\s(?P<message>.*)\s.*$";

/// The label that verible's diagnostics carry.
pub const VERIBLE_SOURCE: &'static str = "verible";

/// The groups of [`VERIBLE_PATTERN`], in the order of the fields of
/// [`VeribleMatch`].
pub open spec fn verible_names() -> Seq<Seq<char>> {
    seq!["line"@, "startcol"@, "endcol"@, "message"@]
}

/// The fields captured from one report line; `None` for a field that took
/// no part in the match.
#[derive(Clone, Debug, PartialEq, Eq)]
pub struct VeribleMatch {
    pub line: Option<String>,
    pub startcol: Option<String>,
    pub endcol: Option<String>,
    pub message: Option<String>,
}

/// The captured fields, as values.
pub struct VeribleFields {
    pub line: Option<Seq<char>>,
    pub startcol: Option<Seq<char>>,
    pub endcol: Option<Seq<char>>,
    pub message: Option<Seq<char>>,
}

impl View for VeribleMatch {
    type V = VeribleFields;

    open spec fn view(&self) -> VeribleFields {
        VeribleFields {
            line: self.line.deep_view(),
            startcol: self.startcol.deep_view(),
            endcol: self.endcol.deep_view(),
            message: self.message.deep_view(),
        }
    }
}

/// The zero-based number of a field that has to be there.
pub open spec fn required_number(field: Option<Seq<char>>) -> Option<u32> {
    match field {
        Some(text) => zero_based(text),
        None => None,
    }
}

/// The stretch of the line that a finding covers: from the start column to
/// the end column, or to the start column where no end is given; line and
/// columns counted from zero.
pub open spec fn verible_range(f: VeribleFields) -> Option<Range> {
    let end = match f.endcol {
        Some(_) => required_number(f.endcol),
        None => required_number(f.startcol),
    };
    match (required_number(f.line), required_number(f.startcol), end) {
        (Some(line), Some(first), Some(last)) => Some(
            Range {
                start: Position { line, character: first },
                end: Position { line, character: last },
            },
        ),
        _ => None,
    }
}

/// What a matched report line amounts to: an error over the reported range
/// with the reported message. It is malformed only where a number of the
/// range cannot be read.
pub open spec fn verible_finding_of(f: VeribleFields) -> FindingView {
    match verible_range(f) {
        Some(range) => FindingView::Reported(
            DiagnosticView {
                range,
                severity: Severity::Error,
                source: VERIBLE_SOURCE@,
                message: text_of(f.message),
            },
        ),
        None => FindingView::Malformed,
    }
}

fn read_required(field: &Option<String>) -> (r: Option<u32>)
    ensures
        r == required_number(field.deep_view()),
{
    match field {
        Some(text) => read_zero_based(text.as_str()),
        None => None,
    }
}

fn read_range(m: &VeribleMatch) -> (r: Option<Range>)
    ensures
        r == verible_range(m@),
{
    let end = match &m.endcol {
        Some(_) => read_required(&m.endcol),
        None => read_required(&m.startcol),
    };
    match (read_required(&m.line), read_required(&m.startcol), end) {
        (Some(line), Some(first), Some(last)) => Some(
            Range {
                start: Position { line, character: first },
                end: Position { line, character: last },
            },
        ),
        _ => None,
    }
}

/// Judges one matched report line: see [`verible_finding_of`].
pub fn verible_finding(m: &VeribleMatch) -> (r: Finding)
    ensures
        r@ == verible_finding_of(m@),
{
    match read_range(m) {
        Some(range) => Finding::Reported(
            Diagnostic {
                range,
                severity: Severity::Error,
                source: VERIBLE_SOURCE.to_owned(),
                message: read_text(&m.message),
            },
        ),
        None => Finding::Malformed,
    }
}

/// The captured groups as fields, in the order of [`verible_names`].
pub open spec fn verible_fields(groups: Seq<Option<Seq<char>>>) -> VeribleFields {
    VeribleFields { line: groups[0], startcol: groups[1], endcol: groups[2], message: groups[3] }
}

/// What one line of verible output amounts to. A line that does not match
/// [`VERIBLE_PATTERN`] is ignored.
pub open spec fn verible_line_finding(line: Seq<char>) -> FindingView {
    match regex_captures(VERIBLE_PATTERN@, line, verible_names()) {
        Some(groups) => verible_finding_of(verible_fields(groups)),
        None => FindingView::Ignored,
    }
}

/// Matches one line against [`VERIBLE_PATTERN`] and sorts the captured groups
/// into their fields.
pub fn match_verible_line(line: &Vec<char>) -> (r: Option<VeribleMatch>)
    ensures
        match regex_captures(VERIBLE_PATTERN@, line@, verible_names()) {
            Some(groups) => r matches Some(m) && m@ == verible_fields(groups),
            None => r is None,
        },
{
    let names: Vec<&str> = vec!["line", "startcol", "endcol", "message"];
    assert(names.deep_view() =~= verible_names());
    match captures(VERIBLE_PATTERN, line, &names) {
        Some(mut groups) => {
            let message = groups.pop().unwrap();
            let endcol = groups.pop().unwrap();
            let startcol = groups.pop().unwrap();
            let number = groups.pop().unwrap();
            Some(VeribleMatch { line: number, startcol, endcol, message })
        },
        None => None,
    }
}

/// Judges one line of verible output.
pub fn verible_line(line: &Vec<char>) -> (r: Finding)
    ensures
        r@ == verible_line_finding(line@),
{
    match match_verible_line(line) {
        Some(m) => verible_finding(&m),
        None => Finding::Ignored,
    }
}

} // verus!
