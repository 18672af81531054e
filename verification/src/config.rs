//! Project configuration: which checker tools run, and how.

use vstd::prelude::*;
use vstd::string::*;

verus! {

/// How much the server logs.
#[derive(Clone, Copy, Debug, PartialEq, Eq, Structural)]
pub enum LogLevel {
    Error,
    Warn,
    Info,
    Debug,
    Trace,
}

impl LogLevel {
    /// The name of the level, in lower case.
    pub open spec fn name(self) -> Seq<char> {
        match self {
            LogLevel::Error => "error"@,
            LogLevel::Warn => "warn"@,
            LogLevel::Info => "info"@,
            LogLevel::Debug => "debug"@,
            LogLevel::Trace => "trace"@,
        }
    }

    /// The name of the level, as the logger takes it.
    pub fn to_string(&self) -> (r: String)
        ensures
            r@ == self.name(),
    {
        match self {
            LogLevel::Error => "error".to_owned(),
            LogLevel::Warn => "warn".to_owned(),
            LogLevel::Info => "info".to_owned(),
            LogLevel::Debug => "debug".to_owned(),
            LogLevel::Trace => "trace".to_owned(),
        }
    }
}

/// The settings of one checker tool, as values.
pub struct ToolSettings {
    pub enabled: bool,
    pub path: Seq<char>,
    pub args: Seq<Seq<char>>,
}

/// Settings of `verible-verilog-syntax`.
#[derive(Clone, Debug, PartialEq, Eq)]
pub struct VeribleSyntax {
    pub enabled: bool,
    /// The executable: a path, or a name looked up on the search path.
    pub path: String,
    /// Arguments passed before the `-` that makes the tool read its input.
    pub args: Vec<String>,
}

impl View for VeribleSyntax {
    type V = ToolSettings;

    open spec fn view(&self) -> ToolSettings {
        ToolSettings { enabled: self.enabled, path: self.path@, args: self.args.deep_view() }
    }
}

impl VeribleSyntax {
    /// Enabled, the executable `verible-verilog-syntax`, no arguments.
    pub open spec fn initial() -> ToolSettings {
        ToolSettings { enabled: true, path: "verible-verilog-syntax"@, args: Seq::empty() }
    }
}

impl Default for VeribleSyntax {
    fn default() -> (r: Self)
        ensures
            r@ == VeribleSyntax::initial(),
    {
        let r = VeribleSyntax {
            enabled: true,
            path: "verible-verilog-syntax".to_owned(),
            args: Vec::new(),
        };
        assert(r.args.deep_view() =~= Seq::empty());
        r
    }
}

/// Settings of `verible-verilog-lint`.
#[derive(Clone, Debug, PartialEq, Eq)]
pub struct VeribleLint {
    pub enabled: bool,
    /// The executable: a path, or a name looked up on the search path.
    pub path: String,
    /// Arguments passed before the checked file.
    pub args: Vec<String>,
}

impl View for VeribleLint {
    type V = ToolSettings;

    open spec fn view(&self) -> ToolSettings {
        ToolSettings { enabled: self.enabled, path: self.path@, args: self.args.deep_view() }
    }
}

impl VeribleLint {
    /// Enabled, the executable `verible-verilog-lint`, no arguments.
    pub open spec fn initial() -> ToolSettings {
        ToolSettings { enabled: true, path: "verible-verilog-lint"@, args: Seq::empty() }
    }
}

impl Default for VeribleLint {
    fn default() -> (r: Self)
        ensures
            r@ == VeribleLint::initial(),
    {
        let r = VeribleLint {
            enabled: true,
            path: "verible-verilog-lint".to_owned(),
            args: Vec::new(),
        };
        assert(r.args.deep_view() =~= Seq::empty());
        r
    }
}

/// Settings of `verilator`.
#[derive(Clone, Debug, PartialEq, Eq)]
pub struct Verilator {
    pub enabled: bool,
    /// The executable: a path, or a name looked up on the search path.
    pub path: String,
    /// Arguments passed before the checked file; one entry may hold several,
    /// separated by white space.
    pub args: Vec<String>,
}

impl View for Verilator {
    type V = ToolSettings;

    open spec fn view(&self) -> ToolSettings {
        ToolSettings { enabled: self.enabled, path: self.path@, args: self.args.deep_view() }
    }
}

impl Verilator {
    /// Enabled, the executable `verilator`, linting only and with all
    /// warnings.
    pub open spec fn initial() -> ToolSettings {
        ToolSettings { enabled: true, path: "verilator"@, args: seq!["--lint-only"@, "-Wall"@] }
    }
}

impl Default for Verilator {
    fn default() -> (r: Self)
        ensures
            r@ == Verilator::initial(),
    {
        let mut args: Vec<String> = Vec::new();
        args.push("--lint-only".to_owned());
        args.push("-Wall".to_owned());
        let r = Verilator { enabled: true, path: "verilator".to_owned(), args };
        assert(r.args.deep_view() =~= seq!["--lint-only"@, "-Wall"@]);
        r
    }
}

/// Which of the tools' executables were found on this machine.
#[derive(Clone, Copy, Debug, PartialEq, Eq, Structural)]
pub struct ToolsFound {
    pub verilator: bool,
    pub verible_syntax: bool,
    pub verible_lint: bool,
}

/// The configuration of a project, as values.
pub struct ProjectSettings {
    pub verible_syntax: ToolSettings,
    pub verible_lint: ToolSettings,
    pub verilator: ToolSettings,
    pub log_level: LogLevel,
    pub project_path: Seq<char>,
}

impl ProjectSettings {
    /// The settings once it is known which executables are there: a tool
    /// stays enabled only if it was enabled and its executable was found.
    pub open spec fn with_found(self, found: ToolsFound) -> ProjectSettings {
        ProjectSettings {
            verilator: ToolSettings {
                enabled: self.verilator.enabled && found.verilator,
                ..self.verilator
            },
            verible_syntax: ToolSettings {
                enabled: self.verible_syntax.enabled && found.verible_syntax,
                ..self.verible_syntax
            },
            verible_lint: ToolSettings {
                enabled: self.verible_lint.enabled && found.verible_lint,
                ..self.verible_lint
            },
            ..self
        }
    }
}

/// The configuration of a project.
#[derive(Clone, Debug, PartialEq, Eq)]
pub struct ProjectConfig {
    pub verible_syntax: VeribleSyntax,
    pub verible_lint: VeribleLint,
    pub verilator: Verilator,
    pub log_level: LogLevel,
    /// The directory in which the tools run; empty until it is settled.
    pub project_path: String,
}

impl View for ProjectConfig {
    type V = ProjectSettings;

    open spec fn view(&self) -> ProjectSettings {
        ProjectSettings {
            verible_syntax: self.verible_syntax@,
            verible_lint: self.verible_lint@,
            verilator: self.verilator@,
            log_level: self.log_level,
            project_path: self.project_path@,
        }
    }
}

impl ProjectConfig {
    /// Every tool with its own defaults, logging at `Info`, no project
    /// path yet.
    pub open spec fn initial() -> ProjectSettings {
        ProjectSettings {
            verible_syntax: VeribleSyntax::initial(),
            verible_lint: VeribleLint::initial(),
            verilator: Verilator::initial(),
            log_level: LogLevel::Info,
            project_path: Seq::empty(),
        }
    }

    /// Settles the project path once the configuration file has been read
    /// from the directory `config_dir`: a configuration that names no project
    /// path takes that directory; one that names a path keeps it.
    pub fn settle_project_path(&mut self, config_dir: &str)
        ensures
            final(self)@ == (ProjectSettings {
                project_path: if old(self).project_path@.len() == 0 {
                    config_dir@
                } else {
                    old(self).project_path@
                },
                ..old(self)@
            }),
    {
        if self.project_path.as_str().is_empty() {
            self.project_path = config_dir.to_owned();
        }
    }

    /// Disables each tool whose executable was not found; a tool stays
    /// enabled only if it was enabled and found.
    pub fn keep_available(&mut self, found: ToolsFound)
        ensures
            final(self)@ == old(self)@.with_found(found),
    {
        self.verilator.enabled = self.verilator.enabled && found.verilator;
        self.verible_syntax.enabled = self.verible_syntax.enabled && found.verible_syntax;
        self.verible_lint.enabled = self.verible_lint.enabled && found.verible_lint;
    }

    /// Looks each enabled tool up on this machine. A tool that is not
    /// enabled is not looked up and counts as not found.
    pub fn find_tools(&self) -> (r: ToolsFound)
        ensures
            r.verilator ==> self.verilator.enabled,
            r.verible_syntax ==> self.verible_syntax.enabled,
            r.verible_lint ==> self.verible_lint.enabled,
    {
        ToolsFound {
            verilator: self.verilator.enabled && executable_found(self.verilator.path.as_str()),
            verible_syntax: self.verible_syntax.enabled && executable_found(
                self.verible_syntax.path.as_str(),
            ),
            verible_lint: self.verible_lint.enabled && executable_found(
                self.verible_lint.path.as_str(),
            ),
        }
    }

    /// Looks each enabled tool up on this machine and disables those that
    /// are not there. Nothing else changes, and no tool becomes enabled.
    pub fn detect_tools(&mut self)
        ensures
            exists|found: ToolsFound| final(self)@ == #[trigger] old(self)@.with_found(found),
    {
        let found = self.find_tools();
        self.keep_available(found);
    }
}

/// The settings of a configuration that may not be there.
pub open spec fn settings_of(conf: Option<ProjectConfig>) -> Option<ProjectSettings> {
    match conf {
        Some(conf) => Some(conf@),
        None => None,
    }
}

impl Default for ProjectConfig {
    fn default() -> (r: Self)
        ensures
            r@ == ProjectConfig::initial(),
    {
        ProjectConfig {
            verible_syntax: VeribleSyntax::default(),
            verible_lint: VeribleLint::default(),
            verilator: Verilator::default(),
            log_level: LogLevel::Info,
            project_path: String::new(),
        }
    }
}

/// `which::which`: whether an executable of this name or path is found on
/// this machine. The answer depends on the machine, so nothing is promised
/// of it.
#[verifier::external_body]
pub(crate) fn executable_found(program: &str) -> bool {
    which::which(program).is_ok()
}

/// The directory whose tree holds the files of the project: the project
/// path of the loaded configuration where it names one, else the root of the
/// workspace, if there is one.
pub open spec fn project_root_of(
    loaded: Option<ProjectSettings>,
    workspace_root: Option<Seq<char>>,
) -> Option<Seq<char>> {
    match loaded {
        Some(conf) if conf.project_path.len() > 0 => Some(conf.project_path),
        _ => workspace_root,
    }
}

/// Picks the directory to walk for the files of the project: see
/// [`project_root_of`].
pub fn project_root(loaded: Option<&ProjectConfig>, workspace_root: Option<&str>) -> (r: Option<
    String,
>)
    ensures
        r.deep_view() == project_root_of(
            match loaded {
                Some(conf) => Some(conf@),
                None => None,
            },
            workspace_root.deep_view(),
        ),
{
    match loaded {
        Some(conf) => {
            if !conf.project_path.as_str().is_empty() {
                return Some(conf.project_path.clone());
            }
        },
        None => {},
    }
    match workspace_root {
        Some(root) => Some(root.to_owned()),
        None => None,
    }
}

/// The names under which a project's configuration file is looked for, in
/// the order in which they are tried in each directory.
pub fn config_file_names() -> (r: Vec<&'static str>)
    ensures
        r.deep_view() == seq!["veridian.yaml"@, "veridian.yml"@],
{
    let r: Vec<&'static str> = vec!["veridian.yaml", "veridian.yml"];
    assert(r.deep_view() =~= seq!["veridian.yaml"@, "veridian.yml"@]);
    r
}

} // verus!
