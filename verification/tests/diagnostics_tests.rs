use veridian::config::ProjectConfig;
use veridian::diagnostics::{
    get_diagnostics, is_hidden, is_skipped, plan_for, planned_runs, read_report, split_args, verible_lint,
    verible_syntax, verilator_syntax, Checker, Grammar, Invocation, ToolOutput, ToolRun,
    Transport,
};
use veridian::finding::{read_zero_based, Diagnostic, Finding, Severity};
use veridian::position::{Position, Range};
use veridian::verible::{match_verible_line, verible_finding, verible_line, VeribleMatch};
use veridian::verilator::{
    match_verilator_line, verilator_finding, verilator_line, verilator_severity, VerilatorMatch,
};

fn chars(s: &str) -> Vec<char> {
    s.chars().collect()
}

fn some(s: &str) -> Option<String> {
    Some(s.to_string())
}

fn failed_with_stderr(text: &str) -> ToolOutput {
    ToolOutput { success: false, stdout: Vec::new(), stderr: text.as_bytes().to_vec() }
}

fn failed_with_stdout(text: &str) -> ToolOutput {
    ToolOutput { success: false, stdout: text.as_bytes().to_vec(), stderr: Vec::new() }
}

fn diagnostic(
    line: u32,
    first: u32,
    last: u32,
    severity: Severity,
    source: &str,
    message: &str,
) -> Diagnostic {
    Diagnostic {
        range: Range {
            start: Position { line, character: first },
            end: Position { line, character: last },
        },
        severity,
        source: source.to_string(),
        message: message.to_string(),
    }
}

#[test]
fn test_unsaved_file() {
    // "file://test.sv" names no file on disk: only the tool that reads its
    // standard input runs for such a document
    let conf = ProjectConfig::default();
    let plan = planned_runs(&conf, None);
    assert_eq!(
        plan,
        vec![Invocation {
            checker: Checker::VeribleSyntax,
            program: "verible-verilog-syntax".to_string(),
            args: vec!["-".to_string()],
            cwd: None,
            input: Transport::Stdin,
        }]
    );
    assert_eq!(get_diagnostics(&conf, None, &Vec::new()), Vec::new());
    // the text of an empty document gives a run that succeeds
    let quiet = ToolRun {
        checker: Checker::VeribleSyntax,
        output: Some(ToolOutput { success: true, stdout: Vec::new(), stderr: Vec::new() }),
    };
    assert_eq!(get_diagnostics(&conf, None, &vec![quiet]), Vec::new());
    // runs of tools that need the file on disk count for nothing
    let verilator = ToolRun {
        checker: Checker::Verilator,
        output: Some(failed_with_stderr("%Error: test.sv:1:1: syntax error\n")),
    };
    let lint = ToolRun {
        checker: Checker::VeribleLint,
        output: Some(failed_with_stderr("test.sv:1:1: some rule x\n")),
    };
    let syntax = ToolRun {
        checker: Checker::VeribleSyntax,
        output: Some(failed_with_stdout("-:1:1: syntax error x\n")),
    };
    assert_eq!(
        get_diagnostics(&conf, None, &vec![verilator, lint, syntax]),
        vec![diagnostic(0, 0, 0, Severity::Error, "verible", "syntax error")]
    );
}

#[test]
fn test_verible_syntax() {
    // what verible-verilog-syntax prints for
    // "module test;\n    logic abc;\n    logic abcd;\n\n  a\nendmodule\n"
    let output = failed_with_stdout("-:6:1-9: syntax error at token \"endmodule\"\n");
    let errors = verible_syntax(&output).expect("a failed run with a well-formed report");
    let expected: Vec<Diagnostic> =
        vec![diagnostic(5, 0, 8, Severity::Error, "verible", "syntax error at token")];
    assert_eq!(errors, expected);
}

#[test]
fn test_verilator_syntax() {
    // what verilator prints for
    // "module test;\n    logic abc;\n    logic abcd;\n\n  a\nendmodule\n"
    let path = "/tmp/verilator_test/test.sv";
    let output = failed_with_stderr(
        "%Error: /tmp/verilator_test/test.sv:6:1: syntax error, unexpected endmodule, expecting IDENTIFIER or randomize\n    6 | endmodule\n      | ^~~~~~~~~\n%Error: Exiting due to 1 error(s)\n",
    );
    let errors = verilator_syntax(&output, path).expect("a failed run with a well-formed report");
    let expected: Vec<Diagnostic> = vec![diagnostic(
        5,
        0,
        0,
        Severity::Error,
        "verilator",
        "syntax error, unexpected endmodule, expecting IDENTIFIER or randomize",
    )];
    assert_eq!(errors.len(), 1);
    assert_eq!(errors[0].severity, expected[0].severity);
    assert_eq!(errors[0].range.start.line, expected[0].range.start.line);
    assert_eq!(errors[0].range.end.line, expected[0].range.end.line);
    assert!(errors[0].message.contains("syntax error"));
    assert_eq!(errors, expected);
}

#[test]
fn verilator_severity_maps_tags() {
    assert_eq!(verilator_severity("Error"), Severity::Error);
    assert_eq!(verilator_severity("Warning"), Severity::Warning);
    assert_eq!(verilator_severity("Warning-WIDTH"), Severity::Warning);
    assert_eq!(verilator_severity("Info"), Severity::Information);
    assert_eq!(verilator_severity(""), Severity::Information);
    assert_eq!(verilator_severity("error"), Severity::Information);
    assert_eq!(verilator_severity("Errors"), Severity::Information);
    assert_eq!(verilator_severity("Warn"), Severity::Information);
}

#[test]
fn zero_based_subtracts_one() {
    assert_eq!(read_zero_based("1"), Some(0));
    assert_eq!(read_zero_based("6"), Some(5));
    assert_eq!(read_zero_based("4294967295"), Some(4294967294));
}

#[test]
fn zero_based_refuses_zero_and_non_numbers() {
    assert_eq!(read_zero_based("0"), None);
    assert_eq!(read_zero_based(""), None);
    assert_eq!(read_zero_based("4294967296"), None);
    assert_eq!(read_zero_based("x"), None);
}

#[test]
fn verilator_warning_carries_its_code() {
    let output = failed_with_stderr(
        "%Warning-WIDTH: top.sv:12:7: Operator ASSIGN expects 8 bits\n%Error: Exiting due to 1 warning(s)\n",
    );
    assert_eq!(
        verilator_syntax(&output, "top.sv"),
        Some(vec![diagnostic(
            11,
            6,
            6,
            Severity::Warning,
            "verilator",
            "WIDTH: Operator ASSIGN expects 8 bits"
        )])
    );
}

#[test]
fn verilator_line_without_column_points_at_first_column() {
    let output = failed_with_stderr("%Error: top.sv:3: Cannot find file\n");
    assert_eq!(
        verilator_syntax(&output, "top.sv"),
        Some(vec![diagnostic(2, 0, 0, Severity::Error, "verilator", "Cannot find file")])
    );
}

#[test]
fn verilator_finding_on_included_file_is_left_out() {
    let output = failed_with_stderr(
        "%Error: defs.svh:2:5: syntax error in include\n%Error: top.sv:9:1: Unknown macro\n%Warning-UNUSED: other.sv:1:1: Signal is not used\n",
    );
    assert_eq!(
        verilator_syntax(&output, "top.sv"),
        Some(vec![diagnostic(8, 0, 0, Severity::Error, "verilator", "Unknown macro")])
    );
    assert_eq!(verilator_syntax(&output, "elsewhere.sv"), Some(Vec::new()));
}

#[test]
fn verilator_lines_that_are_no_reports_are_ignored() {
    let output = failed_with_stderr(
        "note: top.sv:1:1: not a report\n  %Error: top.sv:2:2: indented, so no report\n%Error: Exiting due to 3 error(s)\n%Fatal: top.sv:4:4: unknown tag\n\n%Error: top.sv:5:5: kept\n",
    );
    assert_eq!(
        verilator_syntax(&output, "top.sv"),
        Some(vec![diagnostic(4, 4, 4, Severity::Error, "verilator", "kept")])
    );
}

#[test]
fn verilator_warning_without_code_is_reported() {
    let output =
        failed_with_stderr("%Error: top.sv:1:1: first\n%Warning: top.sv:2:2: no code given\n");
    assert_eq!(
        verilator_syntax(&output, "top.sv"),
        Some(vec![
            diagnostic(0, 0, 0, Severity::Error, "verilator", "first"),
            diagnostic(1, 1, 1, Severity::Warning, "verilator", "no code given"),
        ])
    );
}

#[test]
fn verilator_warning_code_is_optional() {
    let output = failed_with_stderr("%Warning: /p/t.sv:3:5: foo\n");
    let found = verilator_syntax(&output, "/p/t.sv").unwrap();
    assert_eq!(found.len(), 1);
    assert_eq!(found[0].severity, Severity::Warning);
    assert_eq!(found[0].range.start, Position { line: 2, character: 4 });
    assert_eq!(found[0].range.end, Position { line: 2, character: 4 });
    assert!(found[0].message.contains("foo"));
    assert_eq!(found, vec![diagnostic(2, 4, 4, Severity::Warning, "verilator", "foo")]);
}

#[test]
fn verilator_run_reports_each_report_on_the_checked_file_in_order() {
    let output = failed_with_stderr(
        "%Warning-WIDTH: top.sv:7:3: w one\n%Error: inc/defs.svh:1:1: elsewhere\n    7 | assign a = b;\n%Error: top.sv:2:9: e two\n%Warning: other.sv:0:0: elsewhere with bad numbers\n%Warning: top.sv:4: w three\n%Error: Exiting due to 2 error(s)\n%Error: top.sv:1:1: \n",
    );
    assert_eq!(
        verilator_syntax(&output, "top.sv"),
        Some(vec![
            diagnostic(6, 2, 2, Severity::Warning, "verilator", "WIDTH: w one"),
            diagnostic(1, 8, 8, Severity::Error, "verilator", "e two"),
            diagnostic(3, 0, 0, Severity::Warning, "verilator", "w three"),
            diagnostic(0, 0, 0, Severity::Error, "verilator", ""),
        ])
    );
    assert_eq!(
        verilator_syntax(&output, "inc/defs.svh"),
        Some(vec![diagnostic(0, 0, 0, Severity::Error, "verilator", "elsewhere")])
    );
    // the one report with numbers that cannot be read voids the run for its own file only
    assert_eq!(verilator_syntax(&output, "other.sv"), None);
    assert_eq!(verilator_syntax(&output, "nowhere.sv"), Some(Vec::new()));
}

#[test]
fn verilator_malformed_number_voids_the_run() {
    // line zero is no line
    assert_eq!(
        verilator_syntax(&failed_with_stderr("%Error: top.sv:0:1: zero line\n"), "top.sv"),
        None
    );
    // column zero is no column
    assert_eq!(
        verilator_syntax(&failed_with_stderr("%Error: top.sv:1:0: zero column\n"), "top.sv"),
        None
    );
    // too large for a position
    assert_eq!(
        verilator_syntax(
            &failed_with_stderr("%Error: top.sv:1:1: fine\n%Error: top.sv:4294967296:1: large\n"),
            "top.sv"
        ),
        None
    );
    // digits of another script match the pattern and are no number
    assert_eq!(
        verilator_syntax(&failed_with_stderr("%Error: top.sv:\u{663}:1: digits\n"), "top.sv"),
        None
    );
}

#[test]
fn verilator_malformed_line_on_other_file_does_not_matter() {
    let output = failed_with_stderr("%Error: inc.sv:0:0: bad numbers\n%Error: top.sv:1:1: good\n");
    assert_eq!(
        verilator_syntax(&output, "top.sv"),
        Some(vec![diagnostic(0, 0, 0, Severity::Error, "verilator", "good")])
    );
}

#[test]
fn success_means_no_diagnostics_however_often() {
    let loud = ToolOutput {
        success: true,
        stdout: b"f.sv:1:1: would be an error\n".to_vec(),
        stderr: b"%Error: f.sv:1:1: would be an error\n".to_vec(),
    };
    for _ in 0..2 {
        assert_eq!(verilator_syntax(&loud, "f.sv"), None);
        assert_eq!(verible_syntax(&loud), None);
        assert_eq!(verible_lint(&loud), None);
        let conf = ProjectConfig::default();
        let runs = vec![
            ToolRun { checker: Checker::Verilator, output: Some(loud.clone()) },
            ToolRun { checker: Checker::VeribleSyntax, output: Some(loud.clone()) },
            ToolRun { checker: Checker::VeribleLint, output: Some(loud.clone()) },
        ];
        assert_eq!(get_diagnostics(&conf, Some("f.sv"), &runs), Vec::new());
    }
}

#[test]
fn report_that_is_not_utf8_voids_the_run() {
    let output = ToolOutput {
        success: false,
        stdout: Vec::new(),
        stderr: vec![b'%', b'E', 0xff, b'\n'],
    };
    assert_eq!(verilator_syntax(&output, "f.sv"), None);
    assert_eq!(verible_lint(&output), None);
}

#[test]
fn failed_run_without_report_has_no_findings() {
    let output = failed_with_stderr("");
    assert_eq!(verilator_syntax(&output, "f.sv"), Some(Vec::new()));
    assert_eq!(verible_lint(&output), Some(Vec::new()));
    assert_eq!(verible_syntax(&output), Some(Vec::new()));
}

#[test]
fn verible_reads_the_right_stream() {
    let on_stdout = failed_with_stdout("f.sv:2:3: some rule [Style: x] [rule-name]\n");
    let on_stderr = failed_with_stderr("f.sv:2:3: some rule [Style: x] [rule-name]\n");
    let expected = vec![diagnostic(1, 2, 2, Severity::Error, "verible", "some rule [Style: x]")];
    assert_eq!(verible_syntax(&on_stdout), Some(expected.clone()));
    assert_eq!(verible_syntax(&on_stderr), Some(Vec::new()));
    assert_eq!(verible_lint(&on_stderr), Some(expected));
    assert_eq!(verible_lint(&on_stdout), Some(Vec::new()));
}

#[test]
fn verible_range_with_and_without_end() {
    let output = failed_with_stdout("a.sv:10:4-12: with end x\na.sv:11:2: without end x\n");
    assert_eq!(
        verible_syntax(&output),
        Some(vec![
            diagnostic(9, 3, 11, Severity::Error, "verible", "with end"),
            diagnostic(10, 1, 1, Severity::Error, "verible", "without end"),
        ])
    );
}

#[test]
fn verible_lines_that_do_not_match_are_ignored() {
    let output = failed_with_stdout("Usage: verible\n\na.sv:1:1: real one here\nno numbers at all\n");
    assert_eq!(
        verible_syntax(&output),
        Some(vec![diagnostic(0, 0, 0, Severity::Error, "verible", "real one")])
    );
}

#[test]
fn verible_malformed_number_voids_the_run() {
    // the pattern admits empty numbers
    assert_eq!(verible_syntax(&failed_with_stdout("a.sv::1: msg x\n")), None);
    assert_eq!(verible_syntax(&failed_with_stdout("a.sv:1:: msg x\n")), None);
    assert_eq!(verible_syntax(&failed_with_stdout("a.sv:1:1-: msg x\n")), None);
    assert_eq!(verible_syntax(&failed_with_stdout("a.sv:0:1: msg x\n")), None);
    assert_eq!(verible_syntax(&failed_with_stdout("a.sv:1:1-0: msg x\n")), None);
    assert_eq!(
        verible_syntax(&failed_with_stdout("a.sv:1:1: fine x\na.sv:99999999999:1: msg x\n")),
        None
    );
}

#[test]
fn verilator_finding_judges_fields() {
    let m = VerilatorMatch {
        severity: some("Error"),
        warning_type: None,
        filepath: some("a.sv"),
        line: some("3"),
        col: some("9"),
        message: some("boom"),
    };
    assert_eq!(
        verilator_finding(&m, "a.sv"),
        Finding::Reported(diagnostic(2, 8, 8, Severity::Error, "verilator", "boom"))
    );
    assert_eq!(verilator_finding(&m, "b.sv"), Finding::Ignored);

    // a field of text that took no part in the match counts as empty
    let no_path = VerilatorMatch { filepath: None, ..m.clone() };
    assert_eq!(verilator_finding(&no_path, "a.sv"), Finding::Ignored);
    assert_eq!(
        verilator_finding(&no_path, ""),
        Finding::Reported(diagnostic(2, 8, 8, Severity::Error, "verilator", "boom"))
    );
    let no_severity = VerilatorMatch { severity: None, ..m.clone() };
    assert_eq!(
        verilator_finding(&no_severity, "a.sv"),
        Finding::Reported(diagnostic(2, 8, 8, Severity::Information, "verilator", ""))
    );
    assert_eq!(verilator_finding(&no_severity, "b.sv"), Finding::Ignored);
    let no_message = VerilatorMatch { message: None, ..m.clone() };
    assert_eq!(
        verilator_finding(&no_message, "a.sv"),
        Finding::Reported(diagnostic(2, 8, 8, Severity::Error, "verilator", ""))
    );
    // only a number that cannot be read makes a report malformed
    let no_line = VerilatorMatch { line: None, ..m.clone() };
    assert_eq!(verilator_finding(&no_line, "a.sv"), Finding::Malformed);
    assert_eq!(verilator_finding(&no_line, "b.sv"), Finding::Ignored);
    let bad_line = VerilatorMatch { line: some("0"), ..m.clone() };
    assert_eq!(verilator_finding(&bad_line, "a.sv"), Finding::Malformed);
    let bad_col = VerilatorMatch { col: some("x"), ..m.clone() };
    assert_eq!(verilator_finding(&bad_col, "a.sv"), Finding::Malformed);
    let no_col = VerilatorMatch { col: None, ..m.clone() };
    assert_eq!(
        verilator_finding(&no_col, "a.sv"),
        Finding::Reported(diagnostic(2, 0, 0, Severity::Error, "verilator", "boom"))
    );
    let other_tag = VerilatorMatch { severity: some("Note"), message: None, ..m.clone() };
    assert_eq!(
        verilator_finding(&other_tag, "a.sv"),
        Finding::Reported(diagnostic(2, 8, 8, Severity::Information, "verilator", ""))
    );
    let warning = VerilatorMatch {
        severity: some("Warning"),
        warning_type: some("LATCH"),
        ..m.clone()
    };
    assert_eq!(
        verilator_finding(&warning, "a.sv"),
        Finding::Reported(diagnostic(2, 8, 8, Severity::Warning, "verilator", "LATCH: boom"))
    );
    let bare_warning = VerilatorMatch { severity: some("Warning"), ..m.clone() };
    assert_eq!(
        verilator_finding(&bare_warning, "a.sv"),
        Finding::Reported(diagnostic(2, 8, 8, Severity::Warning, "verilator", "boom"))
    );
}

#[test]
fn verible_finding_judges_fields() {
    let m = VeribleMatch {
        line: some("2"),
        startcol: some("5"),
        endcol: some("7"),
        message: some("msg"),
    };
    assert_eq!(
        verible_finding(&m),
        Finding::Reported(diagnostic(1, 4, 6, Severity::Error, "verible", "msg"))
    );
    assert_eq!(verible_finding(&VeribleMatch { line: None, ..m.clone() }), Finding::Malformed);
    assert_eq!(verible_finding(&VeribleMatch { startcol: None, ..m.clone() }), Finding::Malformed);
    assert_eq!(
        verible_finding(&VeribleMatch { message: None, ..m.clone() }),
        Finding::Reported(diagnostic(1, 4, 6, Severity::Error, "verible", ""))
    );
    assert_eq!(
        verible_finding(&VeribleMatch { endcol: some("x"), ..m.clone() }),
        Finding::Malformed
    );
    assert_eq!(
        verible_finding(&VeribleMatch { endcol: None, ..m.clone() }),
        Finding::Reported(diagnostic(1, 4, 4, Severity::Error, "verible", "msg"))
    );
}

#[test]
fn patterns_capture_the_named_fields() {
    assert_eq!(
        match_verilator_line(&chars("%Warning-PINMISSING: dir/top.sv:14:22: Cell has missing pin: 'x'")),
        Some(VerilatorMatch {
            severity: some("Warning"),
            warning_type: some("PINMISSING"),
            filepath: some("dir/top.sv"),
            line: some("14"),
            col: some("22"),
            message: some("Cell has missing pin: 'x'"),
        })
    );
    assert_eq!(
        match_verilator_line(&chars("%Error: top.sv:3: no column")),
        Some(VerilatorMatch {
            severity: some("Error"),
            warning_type: None,
            filepath: some("top.sv"),
            line: some("3"),
            col: None,
            message: some("no column"),
        })
    );
    assert_eq!(match_verilator_line(&chars("%Error: Exiting due to 1 error(s)")), None);
    assert_eq!(match_verilator_line(&chars("")), None);
    assert_eq!(
        match_verible_line(&chars("src/a.sv:7:3-10: Explanation of rule [Style: naming] [rule]")),
        Some(VeribleMatch {
            line: some("7"),
            startcol: some("3"),
            endcol: some("10"),
            message: some("Explanation of rule [Style: naming]"),
        })
    );
    assert_eq!(match_verible_line(&chars("nothing to see")), None);
}

#[test]
fn line_judges_follow_the_grammar() {
    assert_eq!(
        verilator_line(&chars("%Error: a.sv:1:1: m"), "a.sv"),
        Finding::Reported(diagnostic(0, 0, 0, Severity::Error, "verilator", "m"))
    );
    assert_eq!(verilator_line(&chars("Error: a.sv:1:1: m"), "a.sv"), Finding::Ignored);
    assert_eq!(verilator_line(&chars("x %Error: a.sv:1:1: m"), "a.sv"), Finding::Ignored);
    assert_eq!(
        verible_line(&chars("a.sv:1:1: m x")),
        Finding::Reported(diagnostic(0, 0, 0, Severity::Error, "verible", "m"))
    );
    assert_eq!(verible_line(&chars("a.sv:1:1:")), Finding::Ignored);
    assert_eq!(
        Grammar::Verible.judge_line(&chars("a.sv:1:1: m x"), "ignored"),
        verible_line(&chars("a.sv:1:1: m x"))
    );
    assert_eq!(
        Grammar::Verilator.judge_line(&chars("%Error: a.sv:1:1: m"), "b.sv"),
        Finding::Ignored
    );
}

#[test]
fn read_report_joins_lines_in_order() {
    let text = "%Error: a.sv:2:1: second line first\r\n%Error: a.sv:1:1: first line second\r\n";
    assert_eq!(
        read_report(Grammar::Verilator, false, &text.as_bytes().to_vec(), "a.sv"),
        Some(vec![
            diagnostic(1, 0, 0, Severity::Error, "verilator", "second line first"),
            diagnostic(0, 0, 0, Severity::Error, "verilator", "first line second"),
        ])
    );
    assert_eq!(read_report(Grammar::Verilator, true, &text.as_bytes().to_vec(), "a.sv"), None);
}

#[test]
fn get_diagnostics_joins_runs_in_order() {
    let conf = ProjectConfig::default();
    let verilator = ToolRun {
        checker: Checker::Verilator,
        output: Some(failed_with_stderr("%Error: a.sv:1:1: from verilator\n")),
    };
    let syntax = ToolRun {
        checker: Checker::VeribleSyntax,
        output: Some(ToolOutput {
            success: false,
            stdout: b"-:3:3: from syntax x\n".to_vec(),
            stderr: b"a.sv:9:9: the other stream x\n".to_vec(),
        }),
    };
    let lint = ToolRun {
        checker: Checker::VeribleLint,
        output: Some(ToolOutput {
            success: false,
            stdout: b"a.sv:9:9: the other stream x\n".to_vec(),
            stderr: b"a.sv:2:2: from lint x\n".to_vec(),
        }),
    };
    let v = diagnostic(0, 0, 0, Severity::Error, "verilator", "from verilator");
    let s = diagnostic(2, 2, 2, Severity::Error, "verible", "from syntax");
    let l = diagnostic(1, 1, 1, Severity::Error, "verible", "from lint");
    assert_eq!(
        get_diagnostics(&conf, Some("a.sv"), &vec![verilator.clone(), syntax.clone(), lint.clone()]),
        vec![v.clone(), s.clone(), l.clone()]
    );
    assert_eq!(
        get_diagnostics(&conf, Some("a.sv"), &vec![lint.clone(), verilator.clone()]),
        vec![l.clone(), v.clone()]
    );
    assert_eq!(get_diagnostics(&conf, Some("a.sv"), &Vec::new()), Vec::new());
}

#[test]
fn checker_reads_its_own_report() {
    let both = ToolOutput {
        success: false,
        stdout: b"f.sv:1:1: on stdout x\n".to_vec(),
        stderr: b"%Error: f.sv:2:2: on stderr\nf.sv:3:3: on stderr x\n".to_vec(),
    };
    assert_eq!(
        Checker::Verilator.read(&both, Some("f.sv")),
        Some(vec![diagnostic(1, 1, 1, Severity::Error, "verilator", "on stderr")])
    );
    assert_eq!(
        Checker::VeribleSyntax.read(&both, Some("f.sv")),
        Some(vec![diagnostic(0, 0, 0, Severity::Error, "verible", "on stdout")])
    );
    assert_eq!(Checker::VeribleSyntax.read(&both, None), Checker::VeribleSyntax.read(&both, Some("f.sv")));
    assert_eq!(Checker::Verilator.read(&both, None), None);
    assert_eq!(Checker::VeribleLint.read(&both, None), None);
    assert_eq!(Checker::Verilator.reads(), Transport::File);
    assert_eq!(Checker::VeribleSyntax.reads(), Transport::Stdin);
    assert_eq!(Checker::VeribleLint.reads(), Transport::File);
}

#[test]
fn get_diagnostics_survives_runs_without_result() {
    let conf = ProjectConfig::default();
    let not_run = ToolRun { checker: Checker::Verilator, output: None };
    let voided = ToolRun {
        checker: Checker::Verilator,
        output: Some(failed_with_stderr("%Error: a.sv:0:0: malformed\n")),
    };
    let good = ToolRun {
        checker: Checker::VeribleLint,
        output: Some(failed_with_stderr("a.sv:2:2: kept x\n")),
    };
    assert_eq!(
        get_diagnostics(&conf, Some("a.sv"), &vec![not_run, voided, good]),
        vec![diagnostic(1, 1, 1, Severity::Error, "verible", "kept")]
    );
}

#[test]
fn disabled_tool_contributes_nothing() {
    let mut conf = ProjectConfig::default();
    conf.verilator.enabled = false;
    let verilator = ToolRun {
        checker: Checker::Verilator,
        output: Some(failed_with_stderr("%Error: a.sv:1:1: from verilator\n")),
    };
    let verible = ToolRun {
        checker: Checker::VeribleLint,
        output: Some(failed_with_stderr("a.sv:2:2: from verible x\n")),
    };
    assert_eq!(
        get_diagnostics(&conf, Some("a.sv"), &vec![verilator, verible]),
        vec![diagnostic(1, 1, 1, Severity::Error, "verible", "from verible")]
    );
    let plan = planned_runs(&conf, Some("a.sv"));
    assert_eq!(plan.len(), 2);
    assert_eq!(plan[0].checker, Checker::VeribleSyntax);
    assert_eq!(plan[1].checker, Checker::VeribleLint);
    assert_eq!(plan_for(&conf, Some("a.sv"), Checker::Verilator), None);
}

#[test]
fn planned_runs_follow_the_configuration() {
    let mut conf = ProjectConfig::default();
    conf.project_path = "/work/project".to_string();
    conf.verilator.args = vec!["--lint-only -Wall".to_string(), " -Iinc\t--sv ".to_string()];
    conf.verible_lint.args = vec!["--rules=-no-tabs, x".to_string()];
    conf.verible_syntax.path = "/opt/verible/bin/verible-verilog-syntax".to_string();
    conf.verible_syntax.args = vec!["--lang sv".to_string()];
    let plan = planned_runs(&conf, Some("/work/project/top.sv"));
    assert_eq!(
        plan,
        vec![
            Invocation {
                checker: Checker::Verilator,
                program: "verilator".to_string(),
                args: vec![
                    "--lint-only".to_string(),
                    "-Wall".to_string(),
                    "-Iinc".to_string(),
                    "--sv".to_string(),
                    "/work/project/top.sv".to_string(),
                ],
                cwd: Some("/work/project".to_string()),
                input: Transport::File,
            },
            Invocation {
                checker: Checker::VeribleSyntax,
                program: "/opt/verible/bin/verible-verilog-syntax".to_string(),
                args: vec!["--lang sv".to_string(), "-".to_string()],
                cwd: None,
                input: Transport::Stdin,
            },
            Invocation {
                checker: Checker::VeribleLint,
                program: "verible-verilog-lint".to_string(),
                args: vec!["--rules=-no-tabs, x".to_string(), "/work/project/top.sv".to_string()],
                cwd: Some("/work/project".to_string()),
                input: Transport::File,
            },
        ]
    );
}

#[test]
fn planned_runs_of_the_default_configuration() {
    let conf = ProjectConfig::default();
    let plan = planned_runs(&conf, Some("top.sv"));
    assert_eq!(plan.len(), 3);
    assert_eq!(plan[0].args, vec!["--lint-only", "-Wall", "top.sv"]);
    assert_eq!(plan[1].args, vec!["-"]);
    assert_eq!(plan[2].args, vec!["top.sv"]);
    assert_eq!(plan[0].cwd, Some(String::new()));
    assert_eq!(plan[1].cwd, None);
    assert_eq!(plan[2].cwd, Some(String::new()));
}

#[test]
fn split_args_splits_every_argument() {
    assert_eq!(split_args(&Vec::new()), Vec::<String>::new());
    assert_eq!(
        split_args(&vec!["a b".to_string(), "".to_string(), "  ".to_string(), "c".to_string()]),
        vec!["a", "b", "c"]
    );
}

#[test]
fn checker_knows_whether_it_is_enabled() {
    let mut conf = ProjectConfig::default();
    assert!(Checker::Verilator.is_enabled(&conf));
    assert!(Checker::VeribleLint.is_enabled(&conf));
    conf.verible_lint.enabled = false;
    assert!(Checker::Verilator.is_enabled(&conf));
    assert!(Checker::VeribleSyntax.is_enabled(&conf));
    assert!(!Checker::VeribleLint.is_enabled(&conf));
    conf.verible_syntax.enabled = false;
    assert!(!Checker::VeribleSyntax.is_enabled(&conf));
}

#[test]
fn is_hidden_looks_for_a_leading_dot() {
    assert!(is_hidden(Some(".git")));
    assert!(is_hidden(Some(".")));
    assert!(!is_hidden(Some("src")));
    assert!(!is_hidden(Some("a.sv")));
    assert!(!is_hidden(Some("")));
    assert!(!is_hidden(None));
}

#[test]
fn walk_skips_hidden_entries_below_the_root() {
    assert!(is_skipped(1, Some(".git")));
    assert!(is_skipped(4, Some(".cache")));
    assert!(!is_skipped(0, Some(".")));
    assert!(!is_skipped(0, Some(".hidden-root")));
    assert!(!is_skipped(1, Some("rtl")));
    assert!(!is_skipped(2, None));
}
