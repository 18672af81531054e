use veridian::config::{
    config_file_names, project_root, LogLevel, ProjectConfig, ToolsFound, VeribleLint, VeribleSyntax, Verilator,
};

fn found(verilator: bool, verible_syntax: bool, verible_lint: bool) -> ToolsFound {
    ToolsFound { verilator, verible_syntax, verible_lint }
}

#[test]
fn defaults_of_the_tools() {
    let lint = VeribleLint::default();
    assert!(lint.enabled);
    assert_eq!(lint.path, "verible-verilog-lint");
    assert!(lint.args.is_empty());
    let syntax = VeribleSyntax::default();
    assert!(syntax.enabled);
    assert_eq!(syntax.path, "verible-verilog-syntax");
    assert!(syntax.args.is_empty());
    let verilator = Verilator::default();
    assert!(verilator.enabled);
    assert_eq!(verilator.path, "verilator");
    assert_eq!(verilator.args, vec!["--lint-only", "-Wall"]);
}

#[test]
fn default_of_the_project() {
    let conf = ProjectConfig::default();
    assert_eq!(conf.verible_syntax, VeribleSyntax::default());
    assert_eq!(conf.verible_lint, VeribleLint::default());
    assert_eq!(conf.verilator, Verilator::default());
    assert_eq!(conf.log_level, LogLevel::Info);
    assert_eq!(conf.project_path, "");
}

#[test]
fn log_levels_have_lower_case_names() {
    assert_eq!(LogLevel::Error.to_string(), "error");
    assert_eq!(LogLevel::Warn.to_string(), "warn");
    assert_eq!(LogLevel::Info.to_string(), "info");
    assert_eq!(LogLevel::Debug.to_string(), "debug");
    assert_eq!(LogLevel::Trace.to_string(), "trace");
}

#[test]
fn project_path_defaults_to_the_directory_of_the_configuration() {
    let mut conf = ProjectConfig::default();
    conf.settle_project_path("/home/me/project");
    assert_eq!(conf.project_path, "/home/me/project");
    conf.settle_project_path("/somewhere/else");
    assert_eq!(conf.project_path, "/home/me/project");

    let mut named = ProjectConfig::default();
    named.project_path = "rtl".to_string();
    named.settle_project_path("/home/me/project");
    assert_eq!(named.project_path, "rtl");
}

#[test]
fn keep_available_only_ever_disables() {
    let mut conf = ProjectConfig::default();
    conf.keep_available(found(true, true, true));
    assert!(conf.verilator.enabled && conf.verible_syntax.enabled && conf.verible_lint.enabled);
    conf.keep_available(found(false, true, true));
    assert!(!conf.verilator.enabled && conf.verible_syntax.enabled && conf.verible_lint.enabled);
    conf.keep_available(found(true, true, true));
    assert!(!conf.verilator.enabled && conf.verible_syntax.enabled && conf.verible_lint.enabled);
    conf.keep_available(found(true, true, false));
    assert!(!conf.verilator.enabled && conf.verible_syntax.enabled && !conf.verible_lint.enabled);
    conf.keep_available(found(true, false, true));
    assert!(!conf.verilator.enabled && !conf.verible_syntax.enabled && !conf.verible_lint.enabled);
    assert_eq!(conf.verilator.path, "verilator");
    assert_eq!(conf.verilator.args, vec!["--lint-only", "-Wall"]);
    assert_eq!(conf.verible_lint.path, "verible-verilog-lint");
    assert_eq!(conf.log_level, LogLevel::Info);
}

#[test]
fn tool_with_a_path_that_does_not_exist_is_disabled() {
    let mut conf = ProjectConfig::default();
    conf.verilator.path = "/no/such/directory/verilator-that-is-not-there".to_string();
    conf.verible_lint.path = "a-tool-that-nobody-ever-installed-0451".to_string();
    conf.verible_syntax.path = "./not/here/verible-verilog-syntax".to_string();
    assert_eq!(conf.find_tools(), found(false, false, false));
    conf.detect_tools();
    assert!(!conf.verilator.enabled);
    assert!(!conf.verible_syntax.enabled);
    assert!(!conf.verible_lint.enabled);
    assert_eq!(conf.verilator.path, "/no/such/directory/verilator-that-is-not-there");
    assert!(veridian::diagnostics::planned_runs(&conf, Some("top.sv")).is_empty());
}

#[test]
fn tool_that_is_there_stays_enabled() {
    let mut conf = ProjectConfig::default();
    conf.verilator.path = "sh".to_string();
    conf.verible_lint.enabled = false;
    conf.verible_lint.path = "sh".to_string();
    conf.verible_syntax.path = "sh".to_string();
    assert_eq!(conf.find_tools(), found(true, true, false));
    conf.detect_tools();
    assert!(conf.verilator.enabled);
    assert!(conf.verible_syntax.enabled);
    assert!(!conf.verible_lint.enabled);
}

#[test]
fn configuration_file_names_in_search_order() {
    assert_eq!(config_file_names(), vec!["veridian.yaml", "veridian.yml"]);
}

#[test]
fn project_root_prefers_the_configured_path() {
    let mut conf = ProjectConfig::default();
    assert_eq!(project_root(Some(&conf), Some("/ws")), Some("/ws".to_string()));
    assert_eq!(project_root(Some(&conf), None), None);
    conf.project_path = "/configured".to_string();
    assert_eq!(project_root(Some(&conf), Some("/ws")), Some("/configured".to_string()));
    assert_eq!(project_root(Some(&conf), None), Some("/configured".to_string()));
    assert_eq!(project_root(None, Some("/ws")), Some("/ws".to_string()));
    assert_eq!(project_root(None, None), None);
}
