//! Reading what `verilator --lint-only` prints.
//!
//! Verilator reports on its error stream, one finding a line, in the form
//! `%Severity[-CODE]: path:line:col: message`; the code and the column may be
//! missing. It also reports on files that the checked file includes; those
//! findings are left out.

use crate::finding::{
    read_text, read_zero_based, text_of, zero_based, Diagnostic, DiagnosticView, Finding,
    FindingView, Severity,
};
use crate::position::{Position, Range};
use crate::pattern::{captures, regex_captures};
use crate::text::{is_prefix, same_text, starts_with};
use vstd::prelude::*;
use vstd::string::*;

verus! {

/// The shape of a verilator report line, with its fields as named groups.
pub const VERILATOR_PATTERN: &'static str =
    r"%(?P<severity>Error|Warning)(-(?P<warning_type>[A-Z0-9_]+))?: (?P<filepath>[^:]+):(?P<line>\d+):((?P<col>\d+):)? ?(?P<message>.*)";

/// The label that verilator's diagnostics carry.
pub const VERILATOR_SOURCE: &'static str = "verilator";

/// The groups of [`VERILATOR_PATTERN`], in the order of the fields of
/// [`VerilatorMatch`].
pub open spec fn verilator_names() -> Seq<Seq<char>> {
    seq!["severity"@, "warning_type"@, "filepath"@, "line"@, "col"@, "message"@]
}

/// The fields captured from one report line; `None` for a field that took
/// no part in the match.
#[derive(Clone, Debug, PartialEq, Eq)]
pub struct VerilatorMatch {
    pub severity: Option<String>,
    pub warning_type: Option<String>,
    pub filepath: Option<String>,
    pub line: Option<String>,
    pub col: Option<String>,
    pub message: Option<String>,
}

/// The captured fields, as values.
pub struct VerilatorFields {
    pub severity: Option<Seq<char>>,
    pub warning_type: Option<Seq<char>>,
    pub filepath: Option<Seq<char>>,
    pub line: Option<Seq<char>>,
    pub col: Option<Seq<char>>,
    pub message: Option<Seq<char>>,
}

impl View for VerilatorMatch {
    type V = VerilatorFields;

    open spec fn view(&self) -> VerilatorFields {
        VerilatorFields {
            severity: self.severity.deep_view(),
            warning_type: self.warning_type.deep_view(),
            filepath: self.filepath.deep_view(),
            line: self.line.deep_view(),
            col: self.col.deep_view(),
            message: self.message.deep_view(),
        }
    }
}

/// The severity that a verilator tag stands for: `Error` is an error, a tag
/// that begins with `Warning` a warning, any other tag information.
pub open spec fn verilator_severity_of(tag: Seq<char>) -> Severity {
    if tag == "Error"@ {
        Severity::Error
    } else if is_prefix("Warning"@, tag) {
        Severity::Warning
    } else {
        Severity::Information
    }
}

/// Maps the severity tag of a report line: see [`verilator_severity_of`].
pub fn verilator_severity(severity: &str) -> (r: Severity)
    ensures
        r == verilator_severity_of(severity@),
{
    if same_text(severity, "Error") {
        Severity::Error
    } else if starts_with(severity, "Warning") {
        Severity::Warning
    } else {
        Severity::Information
    }
}

/// The message of a finding: an error carries the reported text; a warning
/// carries it too, with the warning's code, a colon and a space before it
/// where the line gives a code; anything else carries no text.
pub open spec fn verilator_message(
    severity: Severity,
    warning_type: Option<Seq<char>>,
    text: Seq<char>,
) -> Seq<char> {
    match severity {
        Severity::Error => text,
        Severity::Warning => match warning_type {
            Some(code) => code + ": "@ + text,
            None => text,
        },
        _ => Seq::empty(),
    }
}

/// Where a finding points: the reported line and column, both counted from
/// zero; a line without a column points at its first column. A line or
/// column that cannot be read gives no position.
pub open spec fn verilator_position(
    line: Option<Seq<char>>,
    col: Option<Seq<char>>,
) -> Option<Position> {
    let row = match line {
        Some(l) => zero_based(l),
        None => None,
    };
    let column = match col {
        Some(c) => zero_based(c),
        None => Some(0u32),
    };
    match (row, column) {
        (Some(r), Some(c)) => Some(Position { line: r, character: c }),
        _ => None,
    }
}

/// The diagnostic that a report gives at the position `at`: an empty range
/// there, the severity of its tag, where no tag stands for information, and
/// its message.
pub open spec fn verilator_diagnostic_of(f: VerilatorFields, at: Position) -> DiagnosticView {
    let severity = verilator_severity_of(text_of(f.severity));
    DiagnosticView {
        range: Range { start: at, end: at },
        severity,
        source: VERILATOR_SOURCE@,
        message: verilator_message(severity, f.warning_type, text_of(f.message)),
    }
}

/// What a matched report line amounts to for the file at `file_path`.
///
/// A report on another file is ignored. A report on this file yields its
/// diagnostic at the reported position; it is malformed only where the
/// position cannot be read. The severity tag and the warning's code may be
/// missing.
pub open spec fn verilator_finding_of(f: VerilatorFields, file_path: Seq<char>) -> FindingView {
    if text_of(f.filepath) != file_path {
        FindingView::Ignored
    } else {
        match verilator_position(f.line, f.col) {
            Some(at) => FindingView::Reported(verilator_diagnostic_of(f, at)),
            None => FindingView::Malformed,
        }
    }
}

fn read_position(line: &Option<String>, col: &Option<String>) -> (r: Option<Position>)
    ensures
        r == verilator_position(line.deep_view(), col.deep_view()),
{
    let row = match line {
        Some(l) => read_zero_based(l.as_str()),
        None => None,
    };
    let column = match col {
        Some(c) => read_zero_based(c.as_str()),
        None => Some(0u32),
    };
    match (row, column) {
        (Some(r), Some(c)) => Some(Position { line: r, character: c }),
        _ => None,
    }
}

fn compose_message(severity: Severity, warning_type: &Option<String>, text: String) -> (r: String)
    ensures
        r@ == verilator_message(severity, warning_type.deep_view(), text@),
{
    match severity {
        Severity::Error => text,
        Severity::Warning => match warning_type {
            Some(code) => {
                let mut out = code.clone();
                out.append(": ");
                out.append(text.as_str());
                out
            },
            None => text,
        },
        _ => String::new(),
    }
}

/// Judges one matched report line: see [`verilator_finding_of`].
pub fn verilator_finding(m: &VerilatorMatch, file_path: &str) -> (r: Finding)
    ensures
        r@ == verilator_finding_of(m@, file_path@),
{
    let path = read_text(&m.filepath);
    if !same_text(path.as_str(), file_path) {
        return Finding::Ignored;
    }
    let tag = read_text(&m.severity);
    let severity = verilator_severity(tag.as_str());
    match read_position(&m.line, &m.col) {
        Some(at) => Finding::Reported(
            Diagnostic {
                range: Range { start: at, end: at },
                severity,
                source: VERILATOR_SOURCE.to_owned(),
                message: compose_message(severity, &m.warning_type, read_text(&m.message)),
            },
        ),
        None => Finding::Malformed,
    }
}

/// The captured groups as fields, in the order of [`verilator_names`].
pub open spec fn verilator_fields(groups: Seq<Option<Seq<char>>>) -> VerilatorFields {
    VerilatorFields {
        severity: groups[0],
        warning_type: groups[1],
        filepath: groups[2],
        line: groups[3],
        col: groups[4],
        message: groups[5],
    }
}

/// The fields of a line that is a report: a line that begins with `%` and
/// holds a match of [`VERILATOR_PATTERN`]. No other line is a report.
pub open spec fn verilator_report(line: Seq<char>) -> Option<VerilatorFields> {
    if line.len() > 0 && line[0] == '%' {
        match regex_captures(VERILATOR_PATTERN@, line, verilator_names()) {
            Some(groups) => Some(verilator_fields(groups)),
            None => None,
        }
    } else {
        None
    }
}

/// What one line of verilator's error stream amounts to: what its report
/// amounts to, if it is one; every other line is ignored.
pub open spec fn verilator_line_finding(line: Seq<char>, file_path: Seq<char>) -> FindingView {
    match verilator_report(line) {
        Some(f) => verilator_finding_of(f, file_path),
        None => FindingView::Ignored,
    }
}

/// Matches one line against [`VERILATOR_PATTERN`] and sorts the captured
/// groups into their fields.
pub fn match_verilator_line(line: &Vec<char>) -> (r: Option<VerilatorMatch>)
    ensures
        match regex_captures(VERILATOR_PATTERN@, line@, verilator_names()) {
            Some(groups) => r matches Some(m) && m@ == verilator_fields(groups),
            None => r is None,
        },
{
    let names: Vec<&str> = vec!["severity", "warning_type", "filepath", "line", "col", "message"];
    assert(names.deep_view() =~= verilator_names());
    match captures(VERILATOR_PATTERN, line, &names) {
        Some(mut groups) => {
            let message = groups.pop().unwrap();
            let col = groups.pop().unwrap();
            let number = groups.pop().unwrap();
            let filepath = groups.pop().unwrap();
            let warning_type = groups.pop().unwrap();
            let severity = groups.pop().unwrap();
            Some(VerilatorMatch { severity, warning_type, filepath, line: number, col, message })
        },
        None => None,
    }
}

/// Judges one line of verilator's error stream.
pub fn verilator_line(line: &Vec<char>, file_path: &str) -> (r: Finding)
    ensures
        r@ == verilator_line_finding(line@, file_path@),
{
    if line.len() > 0 && line[0] == '%' {
        match match_verilator_line(line) {
            Some(m) => verilator_finding(&m, file_path),
            None => Finding::Ignored,
        }
    } else {
        Finding::Ignored
    }
}

} // verus!
