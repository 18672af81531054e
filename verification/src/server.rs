//! The language server's own state: the source registry and the project
//! configuration, and what each request of the editor does to them.
//!
//! Requests that need a parse result do not block here. They say what to
//! wait for, as an [`Awaited`], and what to answer once the wait is over.

use crate::config::{settings_of, ProjectConfig, ProjectSettings, ToolsFound};
use crate::diagnostics::{planned, planned_runs, Invocation};
use crate::sources::{
    EditError, Opened, ParseRequest, ProjectFile, Readiness, Sources, TextChange,
};
use vstd::prelude::*;

verus! {

/// A wait for the parse result of one file: the file, the version that it
/// had when the wait began, and whether the files that it includes have to
/// be ready too.
#[derive(Clone, Copy, Debug, PartialEq, Eq, Structural)]
pub struct Awaited {
    pub id: usize,
    pub since: u64,
    pub include_dependencies: bool,
}

/// The answer to a formatting request: what to wait for, and the edits to
/// send once the wait is over.
#[derive(Clone, Debug, PartialEq, Eq)]
pub struct Formatting {
    pub wait: Awaited,
    pub edits: Option<Vec<TextChange>>,
}

/// What opening a document leads to: the file as opened, or why it could not
/// be, and the checker processes to run for it.
#[derive(Debug, PartialEq, Eq)]
pub struct DidOpen {
    pub opened: Result<Opened, EditError>,
    pub checks: Vec<Invocation>,
}

/// The state of the language server; `T` is the parse tree that the parser
/// gives.
pub struct LSPServer<T> {
    pub srcs: Sources<T>,
    pub conf: ProjectConfig,
}

impl<T> LSPServer<T> {
    /// What holds of the server between requests: its registry is well
    /// formed.
    pub open spec fn wf(&self) -> bool {
        self.srcs.wf()
    }

    /// A server without files, with the default configuration. `can_parse`
    /// says whether a parser is there.
    pub fn new(can_parse: bool) -> (r: LSPServer<T>)
        ensures
            r.wf(),
            r.srcs@.files.len() == 0,
            r.srcs@.can_parse == can_parse,
            r.conf@ == ProjectConfig::initial(),
    {
        LSPServer { srcs: Sources::new(can_parse), conf: ProjectConfig::default() }
    }

    /// The configuration after start-up: the loaded one, or the one at hand
    /// where none was loaded, with each tool enabled only if it was enabled
    /// and its executable found.
    pub open spec fn started_conf(
        old: ProjectSettings,
        loaded: Option<ProjectSettings>,
        found: ToolsFound,
    ) -> ProjectSettings {
        let base = match loaded {
            Some(conf) => conf,
            None => old,
        };
        base.with_found(found)
    }

    /// Starts the server up with what was found outside: the configuration
    /// that was loaded, if one was; which of the tools' executables are
    /// there; and the files of the project tree. Gives the parses that begin
    /// now.
    pub fn initialize_with(
        &mut self,
        loaded: Option<ProjectConfig>,
        found: ToolsFound,
        files: &Vec<ProjectFile>,
    ) -> (r: Vec<ParseRequest>)
        requires
            old(self).wf(),
        ensures
            final(self).wf(),
            final(self).conf@ == Self::started_conf(old(self).conf@, settings_of(loaded), found),
            final(self).srcs@ == old(self).srcs@.discovered(files@),
            r.deep_view() == old(self).srcs@.discovery_requests(files@),
    {
        match loaded {
            Some(conf) => {
                self.conf = conf;
            },
            None => {},
        }
        self.conf.keep_available(found);
        self.srcs.init(files)
    }

    /// Starts the server up: takes the loaded configuration, looks each
    /// enabled tool up on this machine and disables those that are not
    /// there, and opens the files of the project tree. Gives the parses that
    /// begin now.
    pub fn initialize(&mut self, loaded: Option<ProjectConfig>, files: &Vec<ProjectFile>) -> (r:
        Vec<ParseRequest>)
        requires
            old(self).wf(),
        ensures
            final(self).wf(),
            exists|found: ToolsFound|
                final(self).conf@ == #[trigger] Self::started_conf(
                    old(self).conf@,
                    settings_of(loaded),
                    found,
                ),
            final(self).srcs@ == old(self).srcs@.discovered(files@),
            r.deep_view() == old(self).srcs@.discovery_requests(files@),
    {
        let found = match &loaded {
            Some(conf) => conf.find_tools(),
            None => self.conf.find_tools(),
        };
        self.initialize_with(loaded, found, files)
    }

    /// A document was opened in the editor: its text is installed and its
    /// parse scheduled, and the checkers are planned for the file at
    /// `file_path`, if it has a usable path.
    pub fn did_open(&mut self, uri: &str, text: &str, file_path: Option<&str>) -> (r: DidOpen)
        requires
            old(self).wf(),
        ensures
            final(self).wf(),
            final(self).conf == old(self).conf,
            final(self).srcs@ == old(self).srcs@.opened(uri@, text@, false),
            r.opened is Ok <==> old(self).srcs@.registered(uri@).files[old(self).srcs@.registered(
                uri@,
            ).id_of(uri@)].track.can_open(),
            r.opened matches Ok(opened) ==> opened.id == old(self).srcs@.registered(uri@).id_of(uri@)
                && opened.parse.deep_view() == old(self).srcs@.open_request(uri@, text@),
            r.opened matches Err(e) ==> e == EditError::VersionExhausted,
            r.checks.deep_view() == planned(old(self).conf@, file_path.deep_view()),
    {
        let opened = self.srcs.open(uri, text);
        let checks = planned_runs(&self.conf, file_path);
        DidOpen { opened, checks }
    }

    /// A document was changed in the editor: the batch of edits is applied
    /// to the file of this name.
    pub fn did_change(&mut self, uri: &str, changes: &Vec<TextChange>) -> (r: Result<
        Option<ParseRequest>,
        EditError,
    >)
        requires
            old(self).wf(),
        ensures
            final(self).wf(),
            final(self).conf == old(self).conf,
            ({
                let registered = old(self).srcs@.registered(uri@);
                let id = registered.id_of(uri@) as usize;
                match registered.edit_error(id, changes@) {
                    Some(e) => r == Err::<Option<ParseRequest>, EditError>(e) && final(self).srcs@
                        == registered,
                    None => {
                        &&& final(self).srcs@ == registered.edited(id, changes@)
                        &&& r matches Ok(parse)
                        &&& parse.deep_view() == registered.edit_request(id, changes@)
                    },
                }
            }),
    {
        let id = self.srcs.get_id(uri);
        self.srcs.apply_edit(id, changes)
    }

    /// A document was closed in the editor: a file that is not part of the
    /// project is dropped from the registry, its name keeping its identity;
    /// a file of the project stays. Says whether the file was dropped.
    pub fn did_close(&mut self, uri: &str) -> (r: bool)
        requires
            old(self).wf(),
        ensures
            final(self).wf(),
            final(self).conf == old(self).conf,
            ({
                let registered = old(self).srcs@.registered(uri@);
                let id = registered.id_of(uri@) as usize;
                final(self).srcs@ == registered.closed(id) && r == registered.can_close(id)
            }),
    {
        let id = self.srcs.get_id(uri);
        self.srcs.close(id)
    }

    /// A document was saved: the checkers are planned for the file at
    /// `file_path`, if it has a usable path.
    pub fn did_save(&self, file_path: Option<&str>) -> (r: Vec<Invocation>)
        ensures
            r.deep_view() == planned(self.conf@, file_path.deep_view()),
    {
        planned_runs(&self.conf, file_path)
    }

    /// Begins a wait for the parse result of the file of this name, which
    /// is registered if it was not: the wait is for a result no older than
    /// the version that the file has now.
    pub fn begin_wait(&mut self, uri: &str, include_dependencies: bool) -> (r: Awaited)
        requires
            old(self).wf(),
        ensures
            final(self).wf(),
            final(self).conf == old(self).conf,
            final(self).srcs@ == old(self).srcs@.registered(uri@),
            r.id == final(self).srcs@.id_of(uri@),
            r.id < final(self).srcs@.files.len(),
            r.since == final(self).srcs@.files[r.id as int].track.version,
            r.include_dependencies == include_dependencies,
    {
        let id = self.srcs.get_id(uri);
        let since = match self.srcs.version(id) {
            Some(version) => version,
            None => 0,
        };
        Awaited { id, since, include_dependencies }
    }

    /// Tells whether a wait is over: see [`Sources::readiness`].
    pub fn poll(&self, wait: &Awaited) -> (r: Readiness)
        requires
            self.wf(),
        ensures
            r == self.srcs@.readiness(wait.id, wait.since, wait.include_dependencies),
            r is Ready ==> {
                &&& wait.id < self.srcs@.files.len()
                &&& self.srcs@.files[wait.id as int].result matches Some(result)
                &&& result.version == self.srcs@.files[wait.id as int].track.version
                &&& result.version >= wait.since
            },
    {
        self.srcs.readiness(wait.id, wait.since, wait.include_dependencies)
    }

    /// A request to format a document: waits for the parse of the file
    /// alone, not of the files that it includes, and has no edits to offer.
    pub fn formatting(&mut self, uri: &str) -> (r: Formatting)
        requires
            old(self).wf(),
        ensures
            final(self).wf(),
            final(self).conf == old(self).conf,
            final(self).srcs@ == old(self).srcs@.registered(uri@),
            r.wait.id == final(self).srcs@.id_of(uri@),
            r.wait.id < final(self).srcs@.files.len(),
            r.wait.since == final(self).srcs@.files[r.wait.id as int].track.version,
            !r.wait.include_dependencies,
            r.edits is None,
    {
        let wait = self.begin_wait(uri, false);
        Formatting { wait, edits: None }
    }

    /// A request to format a range of a document: as [`Self::formatting`].
    pub fn range_formatting(&mut self, uri: &str) -> (r: Formatting)
        requires
            old(self).wf(),
        ensures
            final(self).wf(),
            final(self).conf == old(self).conf,
            final(self).srcs@ == old(self).srcs@.registered(uri@),
            r.wait.id == final(self).srcs@.id_of(uri@),
            r.wait.id < final(self).srcs@.files.len(),
            r.wait.since == final(self).srcs@.files[r.wait.id as int].track.version,
            !r.wait.include_dependencies,
            r.edits is None,
    {
        let wait = self.begin_wait(uri, false);
        Formatting { wait, edits: None }
    }
}

} // verus!
