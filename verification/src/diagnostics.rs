//! Diagnostics from external checker tools.
//!
//! A checker runs as a process outside this library. What it printed and how
//! it ended come in as a [`ToolOutput`]; this module turns that into the
//! diagnostics of the checked file.

use crate::config::{ProjectConfig, ProjectSettings};
use crate::finding::{
    any_malformed, gathered, reported, text_of, Diagnostic, DiagnosticView, Finding, FindingView,
};
use crate::text::{
    chars_of, decode, decoded, is_prefix, lines, split_lines, split_words, starts_with, string_of,
    words,
};
use crate::verible::{verible_line, verible_line_finding};
use crate::verilator::{
    verilator_diagnostic_of, verilator_finding_of, verilator_line, verilator_line_finding,
    verilator_position, verilator_report, VerilatorFields,
};
use vstd::prelude::*;

verus! {

/// What a finished checker process left behind.
#[derive(Clone, Debug, PartialEq, Eq)]
pub struct ToolOutput {
    /// Whether the process ended with a success status.
    pub success: bool,
    pub stdout: Vec<u8>,
    pub stderr: Vec<u8>,
}

/// The two forms in which checker tools report.
#[derive(Clone, Copy, Debug, PartialEq, Eq, Structural)]
pub enum Grammar {
    /// `%Severity[-CODE]: path:line:col: message`.
    Verilator,
    /// `path:line:startcol[-endcol]: message ...`.
    Verible,
}

impl Grammar {
    /// What one line of a report amounts to for the file at `file_path`.
    pub open spec fn line_finding(self, line: Seq<char>, file_path: Seq<char>) -> FindingView {
        match self {
            Grammar::Verilator => verilator_line_finding(line, file_path),
            Grammar::Verible => verible_line_finding(line),
        }
    }

    /// The findings of the lines of a report, in line order.
    pub open spec fn findings(self, text: Seq<char>, file_path: Seq<char>) -> Seq<FindingView> {
        lines(text).map_values(|line: Seq<char>| self.line_finding(line, file_path))
    }

    /// Judges one line of a report.
    pub fn judge_line(self, line: &Vec<char>, file_path: &str) -> (r: Finding)
        ensures
            r@ == self.line_finding(line@, file_path@),
    {
        match self {
            Grammar::Verilator => verilator_line(line, file_path),
            Grammar::Verible => verible_line(line),
        }
    }
}

/// The diagnostics of one run, from how it ended and what it printed on the
/// stream that carries its report.
///
/// A run that ended with success has none to give. Otherwise the stream is
/// read as UTF-8 and judged line by line; a stream that is not UTF-8, or one
/// malformed report line, voids the whole run.
pub open spec fn report_diagnostics(
    grammar: Grammar,
    success: bool,
    stream: Seq<u8>,
    file_path: Seq<char>,
) -> Option<Seq<DiagnosticView>> {
    if success {
        None
    } else {
        match decoded(stream) {
            Some(text) => gathered(grammar.findings(text, file_path)),
            None => None,
        }
    }
}

/// Reads the report of one run: see [`report_diagnostics`].
pub fn read_report(grammar: Grammar, success: bool, stream: &Vec<u8>, file_path: &str) -> (r:
    Option<Vec<Diagnostic>>)
    ensures
        r.deep_view() == report_diagnostics(grammar, success, stream@, file_path@),
        success ==> r is None,
{
    if success {
        return None;
    }
    let text = match decode(stream) {
        Some(text) => text,
        None => {
            return None;
        },
    };
    let rows = split_lines(&text);
    let ghost findings = grammar.findings(text@, file_path@);
    let mut diags: Vec<Diagnostic> = Vec::new();
    let mut i: usize = 0;
    assert(diags.deep_view() =~= reported(findings.take(0)));
    while i < rows.len()
        invariant
            i <= rows.len(),
            !success,
            decoded(stream@) == Some(text@),
            rows.deep_view() == lines(text@),
            findings == grammar.findings(text@, file_path@),
            !any_malformed(findings.take(i as int)),
            diags.deep_view() == reported(findings.take(i as int)),
        decreases rows.len() - i,
    {
        let finding = grammar.judge_line(&rows[i], file_path);
        proof {
            assert(rows.deep_view()[i as int] == rows@[i as int]@);
            assert(finding@ == findings[i as int]);
            assert(findings.take(i + 1).drop_last() =~= findings.take(i as int));
        }
        match finding {
            Finding::Reported(d) => {
                let ghost before = diags.deep_view();
                diags.push(d);
                assert(diags.deep_view() =~= before.push(d@));
            },
            Finding::Ignored => {},
            Finding::Malformed => {
                assert(findings[i as int] is Malformed);
                return None;
            },
        }
        assert forall|k: int| 0 <= k < i + 1 implies !(#[trigger] findings.take(i + 1)[k]
            is Malformed) by {
            if k < i {
                assert(findings.take(i as int)[k] == findings[k]);
            }
        }
        i = i + 1;
    }
    assert(findings.take(i as int) =~= findings);
    Some(diags)
}

/// The diagnostics of a `verilator --lint-only` run on the file at
/// `file_path`: verilator reports on its error stream.
pub open spec fn verilator_diagnostics(output: ToolOutput, file_path: Seq<char>) -> Option<
    Seq<DiagnosticView>,
> {
    report_diagnostics(Grammar::Verilator, output.success, output.stderr@, file_path)
}

/// The diagnostics of a `verible-verilog-syntax` run, which reports on its
/// output stream.
pub open spec fn verible_syntax_diagnostics(output: ToolOutput) -> Option<Seq<DiagnosticView>> {
    report_diagnostics(Grammar::Verible, output.success, output.stdout@, Seq::empty())
}

/// The diagnostics of a `verible-verilog-lint` run, which reports on its
/// error stream.
pub open spec fn verible_lint_diagnostics(output: ToolOutput) -> Option<Seq<DiagnosticView>> {
    report_diagnostics(Grammar::Verible, output.success, output.stderr@, Seq::empty())
}

/// Reads the report of a `verilator --lint-only` run on the file at
/// `file_path`.
pub fn verilator_syntax(output: &ToolOutput, file_path: &str) -> (r: Option<Vec<Diagnostic>>)
    ensures
        r.deep_view() == verilator_diagnostics(*output, file_path@),
        output.success ==> r is None,
{
    read_report(Grammar::Verilator, output.success, &output.stderr, file_path)
}

/// Reads the report of a `verible-verilog-syntax` run.
pub fn verible_syntax(output: &ToolOutput) -> (r: Option<Vec<Diagnostic>>)
    ensures
        r.deep_view() == verible_syntax_diagnostics(*output),
        output.success ==> r is None,
{
    proof {
        reveal_strlit("");
        assert(""@ =~= Seq::<char>::empty());
    }
    read_report(Grammar::Verible, output.success, &output.stdout, "")
}

/// Reads the report of a `verible-verilog-lint` run.
pub fn verible_lint(output: &ToolOutput) -> (r: Option<Vec<Diagnostic>>)
    ensures
        r.deep_view() == verible_lint_diagnostics(*output),
        output.success ==> r is None,
{
    proof {
        reveal_strlit("");
        assert(""@ =~= Seq::<char>::empty());
    }
    read_report(Grammar::Verible, output.success, &output.stderr, "")
}

/// The checker tools that a project configures.
#[derive(Clone, Copy, Debug, PartialEq, Eq, Structural)]
pub enum Checker {
    Verilator,
    VeribleSyntax,
    VeribleLint,
}

/// From where a checker takes the text that it checks.
#[derive(Clone, Copy, Debug, PartialEq, Eq, Structural)]
pub enum Transport {
    /// From its standard input.
    Stdin,
    /// From the file on disk whose path is its last argument. Such a tool
    /// resolves what the file includes from where the file lies.
    File,
}

impl Checker {
    /// Whether the configuration has this tool enabled.
    pub open spec fn enabled_in(self, conf: ProjectSettings) -> bool {
        match self {
            Checker::Verilator => conf.verilator.enabled,
            Checker::VeribleSyntax => conf.verible_syntax.enabled,
            Checker::VeribleLint => conf.verible_lint.enabled,
        }
    }

    /// From where this tool takes the text.
    pub open spec fn transport(self) -> Transport {
        match self {
            Checker::VeribleSyntax => Transport::Stdin,
            _ => Transport::File,
        }
    }

    /// The diagnostics of one run of this tool on a file. A tool that takes
    /// the text from a file has none to give for a file without a path.
    pub open spec fn diagnostics(self, output: ToolOutput, file_path: Option<Seq<char>>) -> Option<
        Seq<DiagnosticView>,
    > {
        match (self, file_path) {
            (Checker::VeribleSyntax, _) => verible_syntax_diagnostics(output),
            (Checker::Verilator, Some(path)) => verilator_diagnostics(output, path),
            (Checker::VeribleLint, Some(_)) => verible_lint_diagnostics(output),
            _ => None,
        }
    }

    /// Whether the configuration has this tool enabled.
    pub fn is_enabled(self, conf: &ProjectConfig) -> (r: bool)
        ensures
            r == self.enabled_in(conf@),
    {
        match self {
            Checker::Verilator => conf.verilator.enabled,
            Checker::VeribleSyntax => conf.verible_syntax.enabled,
            Checker::VeribleLint => conf.verible_lint.enabled,
        }
    }

    /// From where this tool takes the text.
    pub fn reads(self) -> (r: Transport)
        ensures
            r == self.transport(),
    {
        match self {
            Checker::VeribleSyntax => Transport::Stdin,
            _ => Transport::File,
        }
    }

    /// Reads the report of one run of this tool: see [`Checker::diagnostics`].
    pub fn read(self, output: &ToolOutput, file_path: Option<&str>) -> (r: Option<Vec<Diagnostic>>)
        ensures
            r.deep_view() == self.diagnostics(*output, file_path.deep_view()),
            output.success ==> r is None,
    {
        match (self, file_path) {
            (Checker::VeribleSyntax, _) => verible_syntax(output),
            (Checker::Verilator, Some(path)) => verilator_syntax(output, path),
            (Checker::VeribleLint, Some(_)) => verible_lint(output),
            _ => None,
        }
    }
}

/// How one checker process is to be started. The text of the checked file is
/// written to the standard input of every checker, whether it reads it or
/// not.
#[derive(Clone, Debug, PartialEq, Eq)]
pub struct Invocation {
    pub checker: Checker,
    pub program: String,
    pub args: Vec<String>,
    /// The working directory of the process; `None` for that of the server.
    pub cwd: Option<String>,
    pub input: Transport,
}

/// An invocation, as values.
pub struct InvocationView {
    pub checker: Checker,
    pub program: Seq<char>,
    pub args: Seq<Seq<char>>,
    pub cwd: Option<Seq<char>>,
    pub input: Transport,
}

impl View for Invocation {
    type V = InvocationView;

    open spec fn view(&self) -> InvocationView {
        InvocationView {
            checker: self.checker,
            program: self.program@,
            args: self.args.deep_view(),
            cwd: self.cwd.deep_view(),
            input: self.input,
        }
    }
}

impl DeepView for Invocation {
    type V = InvocationView;

    open spec fn deep_view(&self) -> InvocationView {
        self@
    }
}

/// The words of all of `args`, in order: each argument split at white space.
pub open spec fn all_words(args: Seq<Seq<char>>) -> Seq<Seq<char>>
    decreases args.len(),
{
    if args.len() == 0 {
        Seq::empty()
    } else {
        all_words(args.drop_last()) + words(args.last())
    }
}

/// Verilator runs in the project's directory, with its configured arguments
/// split at white space and the checked file after them.
pub open spec fn verilator_invocation(conf: ProjectSettings, file_path: Seq<char>) -> InvocationView {
    InvocationView {
        checker: Checker::Verilator,
        program: conf.verilator.path,
        args: all_words(conf.verilator.args).push(file_path),
        cwd: Some(conf.project_path),
        input: Transport::File,
    }
}

/// Verible's syntax checker runs where the server runs, with its configured
/// arguments as they are and `-` after them, which makes it read its
/// standard input.
pub open spec fn verible_syntax_invocation(conf: ProjectSettings) -> InvocationView {
    InvocationView {
        checker: Checker::VeribleSyntax,
        program: conf.verible_syntax.path,
        args: conf.verible_syntax.args.push("-"@),
        cwd: None,
        input: Transport::Stdin,
    }
}

/// Verible's linter runs in the project's directory, with its configured
/// arguments as they are and the checked file after them.
pub open spec fn verible_lint_invocation(
    conf: ProjectSettings,
    file_path: Seq<char>,
) -> InvocationView {
    InvocationView {
        checker: Checker::VeribleLint,
        program: conf.verible_lint.path,
        args: conf.verible_lint.args.push(file_path),
        cwd: Some(conf.project_path),
        input: Transport::File,
    }
}

/// The invocation of one tool for one file, if the tool is to run: it is
/// enabled, and the file has a path where the tool needs one.
pub open spec fn planned_for(
    conf: ProjectSettings,
    file_path: Option<Seq<char>>,
    checker: Checker,
) -> Option<InvocationView> {
    if !checker.enabled_in(conf) {
        None
    } else {
        match (checker, file_path) {
            (Checker::VeribleSyntax, _) => Some(verible_syntax_invocation(conf)),
            (Checker::Verilator, Some(path)) => Some(verilator_invocation(conf, path)),
            (Checker::VeribleLint, Some(path)) => Some(verible_lint_invocation(conf, path)),
            _ => None,
        }
    }
}

/// One invocation, or none, as a sequence.
pub open spec fn listed(invocation: Option<InvocationView>) -> Seq<InvocationView> {
    match invocation {
        Some(invocation) => seq![invocation],
        None => Seq::empty(),
    }
}

/// The processes to start for one file, in order: verilator, verible's
/// syntax checker, verible's linter, each only if it is to run.
pub open spec fn planned(conf: ProjectSettings, file_path: Option<Seq<char>>) -> Seq<
    InvocationView,
> {
    listed(planned_for(conf, file_path, Checker::Verilator)) + listed(
        planned_for(conf, file_path, Checker::VeribleSyntax),
    ) + listed(planned_for(conf, file_path, Checker::VeribleLint))
}

fn copy_args(args: &Vec<String>) -> (r: Vec<String>)
    ensures
        r.deep_view() == args.deep_view(),
{
    let mut out: Vec<String> = Vec::new();
    let mut i: usize = 0;
    while i < args.len()
        invariant
            i <= args.len(),
            out.len() == i,
            forall|k: int| 0 <= k < i ==> out@[k]@ == args@[k]@,
        decreases args.len() - i,
    {
        out.push(args[i].clone());
        i = i + 1;
    }
    assert(out.deep_view() =~= args.deep_view());
    out
}

/// Splits every argument at white space.
pub fn split_args(args: &Vec<String>) -> (r: Vec<String>)
    ensures
        r.deep_view() == all_words(args.deep_view()),
{
    let mut out: Vec<String> = Vec::new();
    let mut i: usize = 0;
    assert(out.deep_view() =~= all_words(args.deep_view().take(0)));
    while i < args.len()
        invariant
            i <= args.len(),
            out.deep_view() == all_words(args.deep_view().take(i as int)),
        decreases args.len() - i,
    {
        let chars = chars_of(args[i].as_str());
        let parts = split_words(&chars);
        let ghost before = out.deep_view();
        let mut j: usize = 0;
        while j < parts.len()
            invariant
                j <= parts.len(),
                out.deep_view() == before + parts.deep_view().take(j as int),
            decreases parts.len() - j,
        {
            let ghost sofar = out.deep_view();
            out.push(string_of(&parts[j]));
            assert(parts@[j as int].deep_view() =~= parts@[j as int]@);
            assert(out.deep_view() =~= sofar.push(parts@[j as int]@));
            assert(parts.deep_view().take(j + 1) =~= parts.deep_view().take(j as int).push(
                parts@[j as int]@,
            ));
            j = j + 1;
        }
        proof {
            assert(parts.deep_view().take(j as int) =~= parts.deep_view());
            let upto = args.deep_view().take(i + 1);
            assert(upto.drop_last() =~= args.deep_view().take(i as int));
            assert(upto.last() == args@[i as int]@);
        }
        i = i + 1;
    }
    assert(args.deep_view().take(i as int) =~= args.deep_view());
    out
}

fn with_last(mut args: Vec<String>, last: &str) -> (r: Vec<String>)
    ensures
        r.deep_view() == args.deep_view().push(last@),
{
    let ghost given = args.deep_view();
    args.push(last.to_owned());
    assert(args.deep_view() =~= given.push(last@));
    args
}

/// Plans the run of one tool for one file: see [`planned_for`].
pub fn plan_for(conf: &ProjectConfig, file_path: Option<&str>, checker: Checker) -> (r: Option<
    Invocation,
>)
    ensures
        r.deep_view() == planned_for(conf@, file_path.deep_view(), checker),
{
    if !checker.is_enabled(conf) {
        return None;
    }
    match (checker, file_path) {
        (Checker::VeribleSyntax, _) => Some(
            Invocation {
                checker,
                program: conf.verible_syntax.path.clone(),
                args: with_last(copy_args(&conf.verible_syntax.args), "-"),
                cwd: None,
                input: Transport::Stdin,
            },
        ),
        (Checker::Verilator, Some(path)) => Some(
            Invocation {
                checker,
                program: conf.verilator.path.clone(),
                args: with_last(split_args(&conf.verilator.args), path),
                cwd: Some(conf.project_path.clone()),
                input: Transport::File,
            },
        ),
        (Checker::VeribleLint, Some(path)) => Some(
            Invocation {
                checker,
                program: conf.verible_lint.path.clone(),
                args: with_last(copy_args(&conf.verible_lint.args), path),
                cwd: Some(conf.project_path.clone()),
                input: Transport::File,
            },
        ),
        _ => None,
    }
}

/// Plans the checker processes for one file: see [`planned`].
pub fn planned_runs(conf: &ProjectConfig, file_path: Option<&str>) -> (r: Vec<Invocation>)
    ensures
        r.deep_view() == planned(conf@, file_path.deep_view()),
{
    let mut plan: Vec<Invocation> = Vec::new();
    assert(plan.deep_view() =~= Seq::empty());
    let ghost first = listed(planned_for(conf@, file_path.deep_view(), Checker::Verilator));
    let ghost second = listed(planned_for(conf@, file_path.deep_view(), Checker::VeribleSyntax));
    let ghost third = listed(planned_for(conf@, file_path.deep_view(), Checker::VeribleLint));
    match plan_for(conf, file_path, Checker::Verilator) {
        Some(invocation) => {
            plan.push(invocation);
        },
        None => {},
    }
    assert(plan.deep_view() =~= first);
    match plan_for(conf, file_path, Checker::VeribleSyntax) {
        Some(invocation) => {
            plan.push(invocation);
        },
        None => {},
    }
    assert(plan.deep_view() =~= first + second);
    match plan_for(conf, file_path, Checker::VeribleLint) {
        Some(invocation) => {
            plan.push(invocation);
        },
        None => {},
    }
    assert(plan.deep_view() =~= first + second + third);
    plan
}

/// One checker process that was started for a file: which tool it was, and
/// what it left behind; `None` where it could not be run to its end.
#[derive(Clone, Debug, PartialEq, Eq)]
pub struct ToolRun {
    pub checker: Checker,
    pub output: Option<ToolOutput>,
}

/// What one run adds to the diagnostics of a file: the diagnostics read
/// from its report. It adds nothing where its tool is disabled, the process
/// could not be run, or its report gives no diagnostics.
pub open spec fn run_diagnostics(
    conf: ProjectSettings,
    file_path: Option<Seq<char>>,
    run: ToolRun,
) -> Seq<DiagnosticView> {
    match run.output {
        Some(output) if run.checker.enabled_in(conf) => match run.checker.diagnostics(
            output,
            file_path,
        ) {
            Some(found) => found,
            None => Seq::empty(),
        },
        _ => Seq::empty(),
    }
}

/// The diagnostics of all runs, joined in the order of the runs.
pub open spec fn all_diagnostics(
    conf: ProjectSettings,
    file_path: Option<Seq<char>>,
    runs: Seq<ToolRun>,
) -> Seq<DiagnosticView>
    decreases runs.len(),
{
    if runs.len() == 0 {
        Seq::empty()
    } else {
        all_diagnostics(conf, file_path, runs.drop_last()) + run_diagnostics(
            conf,
            file_path,
            runs.last(),
        )
    }
}

/// The diagnostics of one file from the checker runs made for it: those of
/// each run of an enabled tool, in the order of the runs.
pub fn get_diagnostics(conf: &ProjectConfig, file_path: Option<&str>, runs: &Vec<ToolRun>) -> (r:
    Vec<Diagnostic>)
    ensures
        r.deep_view() == all_diagnostics(conf@, file_path.deep_view(), runs@),
{
    let mut diags: Vec<Diagnostic> = Vec::new();
    let mut i: usize = 0;
    assert(diags.deep_view() =~= all_diagnostics(conf@, file_path.deep_view(), runs@.take(0)));
    while i < runs.len()
        invariant
            i <= runs.len(),
            diags.deep_view() == all_diagnostics(conf@, file_path.deep_view(), runs@.take(i as int)),
        decreases runs.len() - i,
    {
        let run = &runs[i];
        let ghost before = diags.deep_view();
        let ghost added = run_diagnostics(conf@, file_path.deep_view(), *run);
        assert(runs@.take(i + 1).drop_last() =~= runs@.take(i as int));
        assert(runs@.take(i + 1).last() == *run);
        let found = match &run.output {
            Some(output) => if run.checker.is_enabled(conf) {
                run.checker.read(output, file_path)
            } else {
                None
            },
            None => None,
        };
        match found {
            Some(mut more) => {
                let ghost extra = more.deep_view();
                diags.append(&mut more);
                assert(diags.deep_view() =~= before + extra);
            },
            None => {
                assert(before + added =~= before);
            },
        }
        i = i + 1;
    }
    assert(runs@.take(i as int) =~= runs@);
    diags
}

/// Runs that all ended with success give no diagnostics: a checker that is
/// run again on unchanged text and succeeds again stays silent, however
/// often.
pub proof fn lemma_success_is_silent(
    conf: ProjectSettings,
    file_path: Option<Seq<char>>,
    runs: Seq<ToolRun>,
)
    requires
        forall|i: int|
            0 <= i < runs.len() ==> ((#[trigger] runs[i]).output matches Some(output)
                ==> output.success),
    ensures
        all_diagnostics(conf, file_path, runs) == Seq::<DiagnosticView>::empty(),
    decreases runs.len(),
{
    if runs.len() > 0 {
        let before = runs.drop_last();
        assert forall|i: int| 0 <= i < before.len() implies ((#[trigger] before[i]).output matches Some(
            output,
        ) ==> output.success) by {
            assert(before[i] == runs[i]);
        }
        lemma_success_is_silent(conf, file_path, before);
        assert(run_diagnostics(conf, file_path, runs.last()) == Seq::<DiagnosticView>::empty());
    }
}

/// A tool that is disabled is never planned, and its runs add no
/// diagnostics to any file.
pub proof fn lemma_disabled_is_silent(
    conf: ProjectSettings,
    file_path: Option<Seq<char>>,
    checker: Checker,
    runs: Seq<ToolRun>,
)
    requires
        !checker.enabled_in(conf),
        forall|i: int| 0 <= i < runs.len() ==> (#[trigger] runs[i]).checker == checker,
    ensures
        planned_for(conf, file_path, checker) is None,
        forall|k: int|
            0 <= k < planned(conf, file_path).len() ==> (#[trigger] planned(
                conf,
                file_path,
            )[k]).checker != checker,
        all_diagnostics(conf, file_path, runs) == Seq::<DiagnosticView>::empty(),
    decreases runs.len(),
{
    if runs.len() > 0 {
        let before = runs.drop_last();
        assert forall|i: int| 0 <= i < before.len() implies (#[trigger] before[i]).checker
            == checker by {
            assert(before[i] == runs[i]);
        }
        lemma_disabled_is_silent(conf, file_path, checker, before);
        assert(run_diagnostics(conf, file_path, runs.last()) == Seq::<DiagnosticView>::empty());
    }
}

/// The diagnostics that the lines of verilator's error stream give for the
/// file at `file_path`, in line order: one for each line that is a report on
/// that file and names a position that can be read, at that position; none
/// for any other line.
pub open spec fn verilator_reports(rows: Seq<Seq<char>>, file_path: Seq<char>) -> Seq<
    DiagnosticView,
>
    decreases rows.len(),
{
    if rows.len() == 0 {
        Seq::empty()
    } else {
        let before = verilator_reports(rows.drop_last(), file_path);
        match verilator_report(rows.last()) {
            Some(f) if text_of(f.filepath) == file_path => match verilator_position(f.line, f.col) {
                Some(at) => before.push(verilator_diagnostic_of(f, at)),
                None => before,
            },
            _ => before,
        }
    }
}

/// Whether a line of verilator's error stream can be read for the file at
/// `file_path`: if it is a report on that file, it names a position that
/// can be read.
pub open spec fn can_be_read(line: Seq<char>, file_path: Seq<char>) -> bool {
    verilator_report(line) matches Some(f) ==> (text_of(f.filepath) == file_path
        ==> verilator_position(f.line, f.col) is Some)
}

/// A finding on another file than the checked one is left out, and only a
/// number that cannot be read voids a run.
///
/// Where verilator failed, its error stream is UTF-8 and every report on the
/// checked file names a position that can be read, the run gives, in line
/// order, exactly one diagnostic for each line that is a report on the
/// checked file, at the reported position, and none for a report on any
/// other file.
pub proof fn lemma_only_the_checked_file_is_reported(output: ToolOutput, file_path: Seq<char>)
    requires
        !output.success,
        decoded(output.stderr@) is Some,
        forall|i: int|
            0 <= i < lines(decoded(output.stderr@)->0).len() ==> can_be_read(
                #[trigger] lines(decoded(output.stderr@)->0)[i],
                file_path,
            ),
    ensures
        verilator_diagnostics(output, file_path) == Some(
            verilator_reports(lines(decoded(output.stderr@)->0), file_path),
        ),
{
    let rows = lines(decoded(output.stderr@)->0);
    let findings = Grammar::Verilator.findings(decoded(output.stderr@)->0, file_path);
    lemma_reports_of_rows(rows, file_path, rows.len() as int);
    assert(rows.take(rows.len() as int) =~= rows);
    assert(findings.take(rows.len() as int) =~= findings);
}

/// The first `n` of lines that can all be read give no malformed finding,
/// and their findings report exactly the diagnostics of
/// [`verilator_reports`].
proof fn lemma_reports_of_rows(rows: Seq<Seq<char>>, file_path: Seq<char>, n: int)
    requires
        0 <= n <= rows.len(),
        forall|i: int| 0 <= i < rows.len() ==> can_be_read(#[trigger] rows[i], file_path),
    ensures
        ({
            let findings = rows.map_values(
                |line: Seq<char>| Grammar::Verilator.line_finding(line, file_path),
            );
            &&& !any_malformed(findings.take(n))
            &&& reported(findings.take(n)) == verilator_reports(rows.take(n), file_path)
        }),
    decreases n,
{
    let findings = rows.map_values(
        |line: Seq<char>| Grammar::Verilator.line_finding(line, file_path),
    );
    if n > 0 {
        lemma_reports_of_rows(rows, file_path, n - 1);
        assert(findings.take(n).drop_last() =~= findings.take(n - 1));
        assert(rows.take(n).drop_last() =~= rows.take(n - 1));
        assert(rows.take(n).last() == rows[n - 1]);
        assert(findings.take(n).last() == verilator_line_finding(rows[n - 1], file_path));
        assert(can_be_read(rows[n - 1], file_path));
        assert(!(findings[n - 1] is Malformed));
        assert forall|k: int| 0 <= k < n implies !(#[trigger] findings.take(n)[k]
            is Malformed) by {
            if k < n - 1 {
                assert(findings.take(n - 1)[k] == findings[k]);
            }
        }
    } else {
        assert(rows.take(0) =~= Seq::<Seq<char>>::empty());
    }
}

/// A report on another file than the checked one gives no diagnostic,
/// whatever else it says.
pub proof fn lemma_other_file_is_left_out(f: VerilatorFields, file_path: Seq<char>)
    requires
        text_of(f.filepath) != file_path,
    ensures
        verilator_finding_of(f, file_path) == FindingView::Ignored,
{
}

/// Whether a directory entry is hidden: its name begins with a dot. An entry
/// whose name is not valid Unicode, given as `None`, does not count as
/// hidden.
pub fn is_hidden(file_name: Option<&str>) -> (r: bool)
    ensures
        r == (file_name matches Some(name) && is_prefix("."@, name@)),
{
    match file_name {
        Some(name) => starts_with(name, "."),
        None => false,
    }
}

/// Whether the walk over the project tree leaves an entry out: a hidden
/// entry below the root of the walk. The root itself, at depth zero, is
/// walked whatever its name.
pub fn is_skipped(depth: usize, file_name: Option<&str>) -> (r: bool)
    ensures
        r == (depth > 0 && (file_name matches Some(name) && is_prefix("."@, name@))),
{
    depth > 0 && is_hidden(file_name)
}

} // verus!
