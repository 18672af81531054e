//! The source registry: every file of a project under a stable identity,
//! with its text, its version and the state of its parse.
//!
//! The registry is a sequential state machine. Parsing itself happens
//! outside: the registry hands out a [`ParseRequest`] when a parse is to
//! begin and takes the result back through [`Sources::complete_parse`]. A
//! caller that has to wait for a result asks [`Sources::readiness`] each time
//! a parse came to its end.

use crate::buffer::{range_replaced, TextBuffer};
use crate::finding::{Diagnostic, DiagnosticView, Severity};
use crate::position::{Position, Range};
use crate::schedule::{Completion, ParseStatus, ParseTrack};
use vstd::hash_map::StringHashMap;
use vstd::prelude::*;

verus! {

/// The label of the diagnostic that stands for a failed parse.
pub const PARSER_SOURCE: &'static str = "parser";

/// One change of a text: the replacement of a range, or of the whole text
/// where no range is given.
#[derive(Clone, Debug, PartialEq, Eq)]
pub struct TextChange {
    pub range: Option<Range>,
    pub text: String,
}

impl TextChange {
    /// The text after this change; `None` where the change names a range
    /// that does not exist in the text.
    pub open spec fn applied(self, text: Seq<char>) -> Option<Seq<char>> {
        match self.range {
            Some(range) => range_replaced(text, range, self.text@),
            None => Some(self.text@),
        }
    }

    /// Applies this change to a buffer. A change that names a range that
    /// does not exist in the text is refused, and the text stays as it was.
    pub fn apply(&self, buffer: &mut TextBuffer) -> (done: bool)
        ensures
            match self.applied(old(buffer)@) {
                Some(text) => done && final(buffer)@ == text,
                None => !done && final(buffer)@ == old(buffer)@,
            },
    {
        match self.range {
            Some(range) => buffer.replace(range, self.text.as_str()),
            None => {
                *buffer = TextBuffer::new(self.text.as_str());
                true
            },
        }
    }
}

/// The text after `changes` were applied one after the other, each to the
/// text that the one before it left; `None` where one of them names a range
/// that does not exist in the text it meets.
pub open spec fn changed(text: Seq<char>, changes: Seq<TextChange>) -> Option<Seq<char>>
    decreases changes.len(),
{
    if changes.len() == 0 {
        Some(text)
    } else {
        match changed(text, changes.drop_last()) {
            Some(before) => changes.last().applied(before),
            None => None,
        }
    }
}

/// What a parse of one version of a file gave.
#[derive(Debug)]
pub struct ParseResult<T> {
    /// The version of the text that was parsed.
    pub version: u64,
    /// The parse tree; `None` where the parser failed.
    pub tree: Option<T>,
    pub diagnostics: Vec<Diagnostic>,
    /// The files that this one includes.
    pub dependencies: Vec<usize>,
}

/// A parse result, as values.
pub struct ResultView<T> {
    pub version: u64,
    pub tree: Option<T>,
    pub diagnostics: Seq<DiagnosticView>,
    pub dependencies: Seq<usize>,
}

impl<T> View for ParseResult<T> {
    type V = ResultView<T>;

    open spec fn view(&self) -> ResultView<T> {
        ResultView {
            version: self.version,
            tree: self.tree,
            diagnostics: self.diagnostics.deep_view(),
            dependencies: self.dependencies@,
        }
    }
}

/// How a parse ended.
#[derive(Debug)]
pub enum ParseOutcome<T> {
    Parsed { tree: T, diagnostics: Vec<Diagnostic>, dependencies: Vec<usize> },
    /// The parser gave up, with a message for the user.
    Failed { message: String },
}

/// A parse outcome, as values.
pub enum OutcomeView<T> {
    Parsed { tree: T, diagnostics: Seq<DiagnosticView>, dependencies: Seq<usize> },
    Failed { message: Seq<char> },
}

impl<T> View for ParseOutcome<T> {
    type V = OutcomeView<T>;

    open spec fn view(&self) -> OutcomeView<T> {
        match self {
            ParseOutcome::Parsed { tree, diagnostics, dependencies } => OutcomeView::Parsed {
                tree: *tree,
                diagnostics: diagnostics.deep_view(),
                dependencies: dependencies@,
            },
            ParseOutcome::Failed { message } => OutcomeView::Failed { message: message@ },
        }
    }
}

/// The diagnostic that tells the user of a failed parse: an error at the
/// start of the file.
pub open spec fn failure_diagnostic(message: Seq<char>) -> DiagnosticView {
    DiagnosticView {
        range: Range {
            start: Position { line: 0, character: 0 },
            end: Position { line: 0, character: 0 },
        },
        severity: Severity::Error,
        source: PARSER_SOURCE@,
        message,
    }
}

/// The result that is stored for a parse of `version` that ended with
/// `outcome`. A failed parse leaves an empty result that carries one
/// diagnostic.
pub open spec fn result_of<T>(version: u64, outcome: OutcomeView<T>) -> ResultView<T> {
    match outcome {
        OutcomeView::Parsed { tree, diagnostics, dependencies } => ResultView {
            version,
            tree: Some(tree),
            diagnostics,
            dependencies,
        },
        OutcomeView::Failed { message } => ResultView {
            version,
            tree: None,
            diagnostics: seq![failure_diagnostic(message)],
            dependencies: Seq::empty(),
        },
    }
}

/// A parse that is to begin: the text of one version of one file.
#[derive(Clone, Debug, PartialEq, Eq)]
pub struct ParseRequest {
    pub id: usize,
    pub version: u64,
    pub text: String,
}

/// A parse request, as values.
pub struct RequestView {
    pub id: usize,
    pub version: u64,
    pub text: Seq<char>,
}

impl View for ParseRequest {
    type V = RequestView;

    open spec fn view(&self) -> RequestView {
        RequestView { id: self.id, version: self.version, text: self.text@ }
    }
}

impl DeepView for ParseRequest {
    type V = RequestView;

    open spec fn deep_view(&self) -> RequestView {
        self@
    }
}

/// Why a change of text was not accepted.
#[derive(Clone, Copy, Debug, PartialEq, Eq, Structural)]
pub enum EditError {
    /// The identity belongs to no file.
    UnknownFile,
    /// The version counter of the file is at its end.
    VersionExhausted,
    /// A change names a range that does not exist in the text.
    InvalidRange,
}

/// What a caller that waits for a parse result is told.
#[derive(Clone, Copy, Debug, PartialEq, Eq, Structural)]
pub enum Readiness {
    /// The result is there: the wait is over, with success.
    Ready,
    /// The result is not there yet: ask again when a parse has ended.
    Pending,
    /// The result will not come: the wait is over, without success.
    Never,
}

/// One file of the registry, as values.
pub struct FileView<T> {
    pub uri: Seq<char>,
    pub text: Seq<char>,
    pub track: ParseTrack,
    pub result: Option<ResultView<T>>,
    pub in_project: bool,
}

impl<T> FileView<T> {
    /// A file of which nothing but its name is known.
    pub open spec fn fresh(uri: Seq<char>) -> FileView<T> {
        FileView {
            uri,
            text: Seq::empty(),
            track: ParseTrack::fresh(),
            result: None,
            in_project: false,
        }
    }

    /// The scheduling state is well formed, and a result is stored exactly
    /// where the scheduling state says so, under the version that it says.
    pub open spec fn valid(self) -> bool {
        &&& self.track.wf()
        &&& match self.result {
            Some(result) => self.track.parsed == Some(result.version),
            None => self.track.parsed is None,
        }
    }

    /// The parse of the current version, as it is handed out.
    pub open spec fn request(self, id: usize) -> RequestView {
        RequestView { id, version: self.track.version, text: self.text }
    }
}

/// The registry, as values: its files in the order of their identities.
pub struct SourcesView<T> {
    pub files: Seq<FileView<T>>,
    /// Whether a parser is there at all.
    pub can_parse: bool,
}

impl<T> SourcesView<T> {
    /// Every file is valid, and no two files have the same name.
    pub open spec fn valid(self) -> bool {
        &&& forall|i: int| 0 <= i < self.files.len() ==> (#[trigger] self.files[i]).valid()
        &&& forall|i: int, j: int|
            0 <= i < self.files.len() && 0 <= j < self.files.len() && i != j ==> (
            #[trigger] self.files[i]).uri != (#[trigger] self.files[j]).uri
    }

    /// Whether a file of this name is registered.
    pub open spec fn knows(self, uri: Seq<char>) -> bool {
        exists|i: int| 0 <= i < self.files.len() && (#[trigger] self.files[i]).uri == uri
    }

    /// The identity of the file of this name.
    pub open spec fn id_of(self, uri: Seq<char>) -> int {
        choose|i: int| 0 <= i < self.files.len() && (#[trigger] self.files[i]).uri == uri
    }

    /// The registry with the file of this name in it: unchanged where it is
    /// known, else with a fresh file at the end.
    pub open spec fn registered(self, uri: Seq<char>) -> SourcesView<T> {
        if self.knows(uri) {
            self
        } else {
            SourcesView { files: self.files.push(FileView::fresh(uri)), ..self }
        }
    }

    /// The registry after the identities of `uris` were asked for, one after
    /// the other.
    pub open spec fn registered_all(self, uris: Seq<Seq<char>>) -> SourcesView<T>
        decreases uris.len(),
    {
        if uris.len() == 0 {
            self
        } else {
            self.registered_all(uris.drop_last()).registered(uris.last())
        }
    }

    /// The registry with one file replaced.
    pub open spec fn with_file(self, id: int, file: FileView<T>) -> SourcesView<T> {
        SourcesView { files: self.files.update(id, file), ..self }
    }

    /// The parse that begins when text is installed for the file of this
    /// name, if one begins then.
    pub open spec fn open_request(self, uri: Seq<char>, text: Seq<char>) -> Option<RequestView> {
        let id = self.registered(uri).id_of(uri);
        let file = self.registered(uri).files[id];
        if file.track.can_open() && file.track.starts_at_once(self.can_parse) {
            Some(
                RequestView { id: id as usize, version: file.track.opening_version() as u64, text },
            )
        } else {
            None
        }
    }

    /// The registry after `text` was installed as the text of the file of
    /// this name, which is registered if it was not. `in_project` says
    /// whether the file was found in the project tree; a file that belongs
    /// to the project stays in it. Where no version is to be had for the
    /// text, the file stays as it was.
    pub open spec fn opened(
        self,
        uri: Seq<char>,
        text: Seq<char>,
        in_project: bool,
    ) -> SourcesView<T> {
        let registered = self.registered(uri);
        let id = registered.id_of(uri);
        let file = registered.files[id];
        if file.track.can_open() {
            registered.with_file(
                id,
                FileView {
                    text,
                    track: file.track.opened(self.can_parse),
                    in_project: file.in_project || in_project,
                    ..file
                },
            )
        } else {
            registered
        }
    }

    /// The registry after the files found in the project tree were opened,
    /// one after the other.
    pub open spec fn discovered(self, files: Seq<ProjectFile>) -> SourcesView<T>
        decreases files.len(),
    {
        if files.len() == 0 {
            self
        } else {
            self.discovered(files.drop_last()).opened(files.last().uri@, files.last().text@, true)
        }
    }

    /// The parses that begin while the files found in the project tree are
    /// opened, in the order of the files.
    pub open spec fn discovery_requests(self, files: Seq<ProjectFile>) -> Seq<RequestView>
        decreases files.len(),
    {
        if files.len() == 0 {
            Seq::empty()
        } else {
            let before = self.discovered(files.drop_last());
            self.discovery_requests(files.drop_last()) + match before.open_request(
                files.last().uri@,
                files.last().text@,
            ) {
                Some(request) => seq![request],
                None => Seq::empty(),
            }
        }
    }

    /// Why a batch of edits is not accepted, if it is not.
    pub open spec fn edit_error(self, id: usize, changes: Seq<TextChange>) -> Option<EditError> {
        if id >= self.files.len() {
            Some(EditError::UnknownFile)
        } else if !self.files[id as int].track.can_advance() {
            Some(EditError::VersionExhausted)
        } else if changed(self.files[id as int].text, changes) is None {
            Some(EditError::InvalidRange)
        } else {
            None
        }
    }

    /// The parse that begins when a batch of edits is accepted, if one
    /// begins then.
    pub open spec fn edit_request(self, id: usize, changes: Seq<TextChange>) -> Option<
        RequestView,
    > {
        let file = self.files[id as int];
        if file.track.starts_at_once(self.can_parse) {
            Some(
                RequestView {
                    id,
                    version: (file.track.version + 1) as u64,
                    text: changed(file.text, changes)->0,
                },
            )
        } else {
            None
        }
    }

    /// The registry after an accepted batch of edits: the changes applied in
    /// order, one version more.
    pub open spec fn edited(self, id: usize, changes: Seq<TextChange>) -> SourcesView<T> {
        let file = self.files[id as int];
        self.with_file(
            id as int,
            FileView {
                text: changed(file.text, changes)->0,
                track: file.track.edited(self.can_parse),
                ..file
            },
        )
    }

    /// The registry after the parse of `version` of a file came to its end
    /// with `outcome`. The result is stored where the scheduling state takes
    /// it; else the stored result stays.
    pub open spec fn completed(
        self,
        id: usize,
        version: u64,
        outcome: OutcomeView<T>,
    ) -> SourcesView<T> {
        if id >= self.files.len() {
            self
        } else {
            let file = self.files[id as int];
            self.with_file(
                id as int,
                FileView {
                    track: file.track.completed(version, self.can_parse),
                    result: if file.track.takes_result(version) {
                        Some(result_of(version, outcome))
                    } else {
                        file.result
                    },
                    ..file
                },
            )
        }
    }

    /// What is reported of the end of a parse: what became of the result,
    /// and the parse that begins now, if one does.
    pub open spec fn completion(self, id: usize, version: u64) -> (Completion, Option<RequestView>) {
        if id >= self.files.len() {
            (Completion::Unexpected, None)
        } else {
            let file = self.files[id as int];
            let completion = file.track.completion(version, self.can_parse);
            (
                completion,
                if completion == (Completion::Dropped { restart: true }) {
                    Some(file.request(id))
                } else {
                    None
                },
            )
        }
    }

    /// Whether a file can be closed: it is registered and is not part of
    /// the project.
    pub open spec fn can_close(self, id: usize) -> bool {
        id < self.files.len() && !self.files[id as int].in_project
    }

    /// The registry after a file was closed: its text and its result are
    /// dropped. Its name keeps its identity.
    pub open spec fn closed(self, id: usize) -> SourcesView<T> {
        if self.can_close(id) {
            let file = self.files[id as int];
            self.with_file(
                id as int,
                FileView { text: Seq::empty(), track: file.track.closed(), result: None, ..file },
            )
        } else {
            self
        }
    }

    /// What a caller that waits for a result of one file, no older than
    /// `since`, is told. There is nothing to wait for where the file is not
    /// registered, no parser is there, or the file has no text to parse.
    pub open spec fn file_readiness(self, id: usize, since: u64) -> Readiness {
        if id >= self.files.len() || !self.can_parse {
            Readiness::Never
        } else {
            match self.files[id as int].track.status {
                ParseStatus::Unparsed => Readiness::Never,
                ParseStatus::Ready(v) => if v >= since {
                    Readiness::Ready
                } else {
                    Readiness::Pending
                },
                _ => Readiness::Pending,
            }
        }
    }

    /// The files that a file depends on, by its stored result.
    pub open spec fn dependencies(self, id: usize) -> Seq<usize> {
        match self.files[id as int].result {
            Some(result) => result.dependencies,
            None => Seq::empty(),
        }
    }

    /// What a caller that waits for the files that `deps` names is told:
    /// ready where each of them is, never where one of them will never be.
    pub open spec fn all_readiness(self, deps: Seq<usize>) -> Readiness {
        if exists|k: int|
            0 <= k < deps.len() && #[trigger] self.file_readiness(deps[k], 0) is Never {
            Readiness::Never
        } else if forall|k: int|
            0 <= k < deps.len() ==> #[trigger] self.file_readiness(deps[k], 0) is Ready {
            Readiness::Ready
        } else {
            Readiness::Pending
        }
    }

    /// What a caller that waits for a result of a file, no older than
    /// `since`, is told. With `include_dependencies` the files that the file
    /// depends on have to be ready too.
    pub open spec fn readiness(self, id: usize, since: u64, include_dependencies: bool) -> Readiness {
        let own = self.file_readiness(id, since);
        if own is Ready && include_dependencies {
            self.all_readiness(self.dependencies(id))
        } else {
            own
        }
    }
}

/// Asking for the identity of a name leaves a valid registry valid and every
/// registered file as it was, under the identity that it had; afterwards the
/// name is known, under one identity only.
pub proof fn lemma_registered<T>(s: SourcesView<T>, uri: Seq<char>)
    requires
        s.valid(),
    ensures
        s.registered(uri).valid(),
        s.registered(uri).knows(uri),
        s.registered(uri).files[s.registered(uri).id_of(uri)].uri == uri,
        s.files.len() <= s.registered(uri).files.len(),
        forall|i: int| 0 <= i < s.files.len() ==> s.registered(uri).files[i] == s.files[i],
{
    let t = s.registered(uri);
    if s.knows(uri) {
        let i = s.id_of(uri);
        assert(s.files[i].uri == uri);
    } else {
        let fresh = FileView::<T>::fresh(uri);
        assert(t.files[s.files.len() as int] == fresh);
        assert(fresh.valid());
        assert forall|i: int, j: int|
            0 <= i < t.files.len() && 0 <= j < t.files.len() && i != j implies (
        #[trigger] t.files[i]).uri != (#[trigger] t.files[j]).uri by {
            if i < s.files.len() && j < s.files.len() {
                assert(s.files[i].uri != s.files[j].uri);
            } else if i < s.files.len() {
                assert(s.files[i].uri != uri);
            } else {
                assert(s.files[j].uri != uri);
            }
        }
        assert forall|i: int| 0 <= i < t.files.len() implies (#[trigger] t.files[i]).valid() by {
            if i < s.files.len() {
                assert(s.files[i].valid());
            }
        }
        assert(t.files[s.files.len() as int].uri == uri);
    }
    let id = t.id_of(uri);
    assert(t.files[id].uri == uri);
}

/// A reader that is told `Ready` reads a result that belongs to the current
/// version of the file and is no older than what the reader waits for.
pub proof fn lemma_ready_result_is_current<T>(
    s: SourcesView<T>,
    id: usize,
    since: u64,
    include_dependencies: bool,
)
    requires
        s.valid(),
        s.readiness(id, since, include_dependencies) is Ready,
    ensures
        id < s.files.len(),
        s.files[id as int].result matches Some(result) && result.version
            == s.files[id as int].track.version && result.version >= since,
{
    assert(s.file_readiness(id, since) is Ready);
    assert(s.files[id as int].valid());
}

/// Every change of the registry leaves a valid registry valid.
pub proof fn lemma_changes_keep_valid<T>(
    s: SourcesView<T>,
    uri: Seq<char>,
    text: Seq<char>,
    in_project: bool,
    id: usize,
    changes: Seq<TextChange>,
    version: u64,
    outcome: OutcomeView<T>,
)
    requires
        s.valid(),
    ensures
        s.opened(uri, text, in_project).valid(),
        s.edit_error(id, changes) is None ==> s.edited(id, changes).valid(),
        s.completed(id, version, outcome).valid(),
        s.closed(id).valid(),
{
    lemma_registered(s, uri);
    let registered = s.registered(uri);
    let at = registered.id_of(uri);
    assert(registered.files[at].valid());
    lemma_replaced_file_keeps_valid(
        registered,
        at,
        FileView {
            text,
            track: registered.files[at].track.opened(s.can_parse),
            in_project: registered.files[at].in_project || in_project,
            ..registered.files[at]
        },
    );
    if id < s.files.len() {
        let file = s.files[id as int];
        assert(file.valid());
        lemma_replaced_file_keeps_valid(
            s,
            id as int,
            FileView {
                text: changed(file.text, changes)->0,
                track: file.track.edited(s.can_parse),
                ..file
            },
        );
        lemma_replaced_file_keeps_valid(
            s,
            id as int,
            FileView {
                track: file.track.completed(version, s.can_parse),
                result: if file.track.takes_result(version) {
                    Some(result_of(version, outcome))
                } else {
                    file.result
                },
                ..file
            },
        );
        lemma_replaced_file_keeps_valid(
            s,
            id as int,
            FileView { text: Seq::empty(), track: file.track.closed(), result: None, ..file },
        );
    }
}

/// A valid registry stays valid where one file is replaced by a valid file
/// of the same name.
pub proof fn lemma_replaced_file_keeps_valid<T>(s: SourcesView<T>, id: int, file: FileView<T>)
    requires
        s.valid(),
        0 <= id < s.files.len(),
        file.valid(),
        file.uri == s.files[id].uri,
    ensures
        s.with_file(id, file).valid(),
{
    let t = s.with_file(id, file);
    assert forall|i: int| 0 <= i < t.files.len() implies (#[trigger] t.files[i]).valid() by {
        if i != id {
            assert(s.files[i].valid());
        }
    }
    assert forall|i: int, j: int|
        0 <= i < t.files.len() && 0 <= j < t.files.len() && i != j implies (
    #[trigger] t.files[i]).uri != (#[trigger] t.files[j]).uri by {
        assert(s.files[i].uri != s.files[j].uri);
    }
}

/// No double identity: after the identities of any names were asked for, in
/// any order and any number of times, every name among them is known under
/// exactly one identity, that identity belongs to that name alone, and the
/// files that were registered before have kept theirs.
pub proof fn lemma_no_double_identity<T>(s: SourcesView<T>, uris: Seq<Seq<char>>)
    requires
        s.valid(),
    ensures
        ({
            let t = s.registered_all(uris);
            &&& t.valid()
            &&& s.files.len() <= t.files.len()
            &&& forall|i: int| 0 <= i < s.files.len() ==> t.files[i] == s.files[i]
            &&& forall|k: int|
                0 <= k < uris.len() ==> t.knows(#[trigger] uris[k]) && 0 <= t.id_of(uris[k])
                    < t.files.len() && t.files[t.id_of(uris[k])].uri == uris[k]
            &&& forall|k: int, l: int|
                0 <= k < uris.len() && 0 <= l < uris.len() ==> (t.id_of(#[trigger] uris[k])
                    == t.id_of(#[trigger] uris[l]) <==> uris[k] == uris[l])
            &&& forall|i: int, j: int|
                0 <= i < t.files.len() && 0 <= j < t.files.len() && (#[trigger] t.files[i]).uri == (
                #[trigger] t.files[j]).uri ==> i == j
        }),
    decreases uris.len(),
{
    let t = s.registered_all(uris);
    if uris.len() > 0 {
        let before = s.registered_all(uris.drop_last());
        lemma_no_double_identity(s, uris.drop_last());
        lemma_registered(before, uris.last());
        assert forall|k: int| 0 <= k < uris.len() implies t.knows(#[trigger] uris[k]) && 0
            <= t.id_of(uris[k]) < t.files.len() && t.files[t.id_of(uris[k])].uri == uris[k] by {
            if k < uris.len() - 1 {
                assert(uris.drop_last()[k] == uris[k]);
                let i = before.id_of(uris[k]);
                assert(before.files[i].uri == uris[k]);
                assert(t.files[i] == before.files[i]);
                assert(t.files[i].uri == uris[k]);
            }
            let id = t.id_of(uris[k]);
            assert(t.files[id].uri == uris[k]);
        }
    }
    assert forall|k: int, l: int| 0 <= k < uris.len() && 0 <= l < uris.len() implies (t.id_of(
        #[trigger] uris[k],
    ) == t.id_of(#[trigger] uris[l]) <==> uris[k] == uris[l]) by {
        assert(t.files[t.id_of(uris[k])].uri == uris[k]);
        assert(t.files[t.id_of(uris[l])].uri == uris[l]);
    }
}

/// One file of the registry.
pub struct SourceEntry<T> {
    id: usize,
    uri: String,
    buffer: TextBuffer,
    track: ParseTrack,
    result: Option<ParseResult<T>>,
    in_project: bool,
}

impl<T> View for SourceEntry<T> {
    type V = FileView<T>;

    closed spec fn view(&self) -> FileView<T> {
        FileView {
            uri: self.uri@,
            text: self.buffer@,
            track: self.track,
            result: match self.result {
                Some(result) => Some(result@),
                None => None,
            },
            in_project: self.in_project,
        }
    }
}

impl<T> SourceEntry<T> {
    /// The identity under which the registry holds this file.
    pub closed spec fn identity(&self) -> usize {
        self.id
    }

    /// The identity under which the registry holds this file.
    pub fn id(&self) -> (r: usize)
        ensures
            r == self.identity(),
    {
        self.id
    }

    /// The name of the file.
    pub fn uri(&self) -> (r: &str)
        ensures
            r@ == self@.uri,
    {
        self.uri.as_str()
    }

    /// The text of the file, with the edits that were not saved.
    pub fn buffer(&self) -> (r: &TextBuffer)
        ensures
            r@ == self@.text,
    {
        &self.buffer
    }

    /// The version of the text.
    pub fn version(&self) -> (r: u64)
        ensures
            r == self@.track.version,
    {
        self.track.version
    }

    /// Where the file stands with respect to parsing.
    pub fn parse_status(&self) -> (r: ParseStatus)
        ensures
            r == self@.track.status,
    {
        self.track.status
    }

    /// The stored parse result, which belongs to the version that it names.
    pub fn result(&self) -> (r: Option<&ParseResult<T>>)
        ensures
            match r {
                Some(result) => self@.result == Some(result@),
                None => self@.result is None,
            },
    {
        self.result.as_ref()
    }

    /// Whether the file was found in the project tree.
    pub fn in_project(&self) -> (r: bool)
        ensures
            r == self@.in_project,
    {
        self.in_project
    }
}

/// The source registry.
pub struct Sources<T> {
    entries: Vec<SourceEntry<T>>,
    /// The identity of each registered name.
    index: StringHashMap<usize>,
    can_parse: bool,
}

impl<T> View for Sources<T> {
    type V = SourcesView<T>;

    closed spec fn view(&self) -> SourcesView<T> {
        SourcesView {
            files: Seq::new(self.entries@.len(), |i: int| self.entries@[i]@),
            can_parse: self.can_parse,
        }
    }
}

impl<T> Sources<T> {
    /// What holds of the registry between calls: every entry carries its own
    /// index as identity, the index of names agrees with the entries, and the
    /// files are valid.
    pub closed spec fn wf(&self) -> bool {
        &&& forall|i: int| 0 <= i < self.entries@.len() ==> (#[trigger] self.entries@[i]).id == i
        &&& forall|i: int|
            0 <= i < self.entries@.len() ==> self.index@.contains_key(
                (#[trigger] self.entries@[i]).uri@,
            ) && self.index@[self.entries@[i].uri@] == i
        &&& forall|uri: Seq<char>| #[trigger]
            self.index@.contains_key(uri) ==> self.index@[uri] < self.entries@.len()
                && self.entries@[self.index@[uri] as int].uri@ == uri
        &&& forall|i: int| 0 <= i < self.entries@.len() ==> (#[trigger] self.entries@[i])@.valid()
    }

    /// A well-formed registry has a valid view.
    pub proof fn lemma_wf_is_valid(&self)
        requires
            self.wf(),
        ensures
            self@.valid(),
    {
        assert forall|i: int, j: int|
            0 <= i < self@.files.len() && 0 <= j < self@.files.len() && i != j implies (
        #[trigger] self@.files[i]).uri != (#[trigger] self@.files[j]).uri by {
            assert(self.index@[self.entries@[i].uri@] == i);
            assert(self.index@[self.entries@[j].uri@] == j);
        }
    }

    /// An empty registry. `can_parse` says whether a parser is there.
    pub fn new(can_parse: bool) -> (r: Sources<T>)
        ensures
            r.wf(),
            r@.files.len() == 0,
            r@.can_parse == can_parse,
    {
        Sources { entries: Vec::new(), index: StringHashMap::new(), can_parse }
    }

    /// The number of registered files: the identities in use are the
    /// numbers below it.
    pub fn len(&self) -> (r: usize)
        ensures
            r == self@.files.len(),
    {
        self.entries.len()
    }

    /// The identity of the file of this name. A name that is not known yet
    /// is registered, unparsed and without text, under the next identity;
    /// every other file keeps its identity and its state.
    pub fn get_id(&mut self, uri: &str) -> (id: usize)
        requires
            old(self).wf(),
        ensures
            final(self).wf(),
            final(self)@ == old(self)@.registered(uri@),
            id < final(self)@.files.len(),
            final(self)@.files[id as int].uri == uri@,
            id == final(self)@.id_of(uri@),
            !old(self)@.knows(uri@) ==> id == old(self)@.files.len(),
    {
        proof {
            self.lemma_wf_is_valid();
        }
        let known = match self.index.get(uri) {
            Some(id) => Some(*id),
            None => None,
        };
        match known {
            Some(id) => {
                proof {
                    assert(self@.files[id as int].uri == uri@);
                    assert(self@.knows(uri@));
                    let other = self@.id_of(uri@);
                    assert(self@.files[other].uri == uri@);
                }
                id
            },
            None => {
                proof {
                    if self@.knows(uri@) {
                        let i = self@.id_of(uri@);
                        assert(self.entries@[i].uri@ == uri@);
                        assert(self.index@.contains_key(self.entries@[i].uri@));
                    }
                }
                let id = self.entries.len();
                let ghost before = self@;
                self.entries.push(
                    SourceEntry {
                        id,
                        uri: uri.to_owned(),
                        buffer: TextBuffer::new(""),
                        track: ParseTrack::new(),
                        result: None,
                        in_project: false,
                    },
                );
                self.index.insert(uri.to_owned(), id);
                proof {
                    reveal_strlit("");
                    assert(""@ =~= Seq::<char>::empty());
                    assert(self.entries@[id as int]@ == FileView::<T>::fresh(uri@));
                    assert(self@.files =~= before.files.push(FileView::fresh(uri@)));
                    assert forall|i: int| 0 <= i < self.entries@.len() implies self.index@.contains_key(
                        (#[trigger] self.entries@[i]).uri@,
                    ) && self.index@[self.entries@[i].uri@] == i by {
                        if i < id {
                            assert(self.entries@[i] == old(self).entries@[i]);
                            assert(old(self).index@.contains_key(old(self).entries@[i].uri@));
                        }
                    }
                    assert forall|name: Seq<char>| #[trigger]
                        self.index@.contains_key(name) implies self.index@[name]
                        < self.entries@.len() && self.entries@[self.index@[name] as int].uri@
                        == name by {
                        if name != uri@ {
                            assert(old(self).index@.contains_key(name));
                        }
                    }
                    self.lemma_wf_is_valid();
                    assert(self@.files[id as int].uri == uri@);
                    let other = self@.id_of(uri@);
                    assert(self@.files[other].uri == uri@);
                }
                id
            },
        }
    }

    /// A registry in which one entry changed, but neither its identity nor
    /// its name, is well formed where the entry is valid, and its view is the
    /// old view with that file replaced.
    proof fn lemma_entry_changed(before: Sources<T>, after: Sources<T>, id: int)
        requires
            before.wf(),
            0 <= id < before.entries@.len(),
            after.entries@.len() == before.entries@.len(),
            after.index@ == before.index@,
            after.can_parse == before.can_parse,
            forall|j: int|
                0 <= j < before.entries@.len() && j != id ==> after.entries@[j]
                    == before.entries@[j],
            after.entries@[id].id == id,
            after.entries@[id].uri@ == before.entries@[id].uri@,
            after.entries@[id]@.valid(),
        ensures
            after.wf(),
            after@ == before@.with_file(id, after.entries@[id]@),
    {
        assert forall|i: int| 0 <= i < after.entries@.len() implies after.index@.contains_key(
            (#[trigger] after.entries@[i]).uri@,
        ) && after.index@[after.entries@[i].uri@] == i by {
            assert(before.index@.contains_key(before.entries@[i].uri@));
        }
        assert forall|uri: Seq<char>| #[trigger]
            after.index@.contains_key(uri) implies after.index@[uri] < after.entries@.len()
            && after.entries@[after.index@[uri] as int].uri@ == uri by {
            assert(before.index@.contains_key(uri));
        }
        assert forall|i: int| 0 <= i < after.entries@.len() implies (
        #[trigger] after.entries@[i])@.valid() by {
            if i != id {
                assert(before.entries@[i]@.valid());
            }
        }
        assert(after@.files =~= before@.files.update(id, after.entries@[id]@));
    }

    fn request_for(&self, id: usize) -> (r: ParseRequest)
        requires
            id < self.entries@.len(),
        ensures
            r@ == self@.files[id as int].request(id),
    {
        ParseRequest {
            id,
            version: self.entries[id].track.version,
            text: self.entries[id].buffer.text(),
        }
    }

    fn install(&mut self, uri: &str, text: &str, in_project: bool) -> (r: Result<
        Opened,
        EditError,
    >)
        requires
            old(self).wf(),
        ensures
            final(self).wf(),
            final(self)@ == old(self)@.opened(uri@, text@, in_project),
            match r {
                Ok(opened) => {
                    &&& opened.id == old(self)@.registered(uri@).id_of(uri@)
                    &&& old(self)@.registered(uri@).files[opened.id as int].track.can_open()
                    &&& opened.parse.deep_view() == old(self)@.open_request(uri@, text@)
                },
                Err(e) => {
                    &&& e == EditError::VersionExhausted
                    &&& !old(self)@.registered(uri@).files[old(self)@.registered(uri@).id_of(
                        uri@,
                    )].track.can_open()
                },
            },
    {
        let id = self.get_id(uri);
        let ghost registered = *self;
        let can_parse = self.can_parse;
        let mut track = self.entries[id].track;
        let start = match track.open(can_parse) {
            Some(start) => start,
            None => {
                return Err(EditError::VersionExhausted);
            },
        };
        let entry = &mut self.entries[id];
        entry.buffer = TextBuffer::new(text);
        entry.track = track;
        entry.in_project = entry.in_project || in_project;
        proof {
            Self::lemma_entry_changed(registered, *self, id as int);
        }
        let parse = if start {
            Some(self.request_for(id))
        } else {
            None
        };
        Ok(Opened { id, parse })
    }

    /// Installs `text` as the text of the file of this name, which is
    /// registered if it was not, and schedules its parse. A file that never
    /// had text gets version zero, any other the next version.
    pub fn open(&mut self, uri: &str, text: &str) -> (r: Result<Opened, EditError>)
        requires
            old(self).wf(),
        ensures
            final(self).wf(),
            final(self)@ == old(self)@.opened(uri@, text@, false),
            match r {
                Ok(opened) => {
                    &&& opened.id == old(self)@.registered(uri@).id_of(uri@)
                    &&& old(self)@.registered(uri@).files[opened.id as int].track.can_open()
                    &&& opened.parse.deep_view() == old(self)@.open_request(uri@, text@)
                },
                Err(e) => {
                    &&& e == EditError::VersionExhausted
                    &&& !old(self)@.registered(uri@).files[old(self)@.registered(uri@).id_of(
                        uri@,
                    )].track.can_open()
                },
            },
    {
        self.install(uri, text, false)
    }

    /// Applies a batch of edits to a file, in the order given, each to the
    /// text that the one before it left. An accepted batch makes one new
    /// version, whatever its size, and schedules the parse of it. A batch
    /// that is not accepted changes nothing.
    pub fn apply_edit(&mut self, id: usize, changes: &Vec<TextChange>) -> (r: Result<
        Option<ParseRequest>,
        EditError,
    >)
        requires
            old(self).wf(),
        ensures
            final(self).wf(),
            match old(self)@.edit_error(id, changes@) {
                Some(e) => r == Err::<Option<ParseRequest>, EditError>(e) && final(self)@ == old(
                    self,
                )@,
                None => {
                    &&& final(self)@ == old(self)@.edited(id, changes@)
                    &&& r matches Ok(parse)
                    &&& parse.deep_view() == old(self)@.edit_request(id, changes@)
                    &&& final(self)@.files[id as int].track.version == old(self)@.files[id as int].track.version
                        + 1
                },
            },
    {
        if id >= self.entries.len() {
            return Err(EditError::UnknownFile);
        }
        let can_parse = self.can_parse;
        let mut track = self.entries[id].track;
        let start = match track.edit(can_parse) {
            Some(start) => start,
            None => {
                return Err(EditError::VersionExhausted);
            },
        };
        let mut draft = self.entries[id].buffer.snapshot();
        let ghost text = self@.files[id as int].text;
        let mut k: usize = 0;
        while k < changes.len()
            invariant
                k <= changes.len(),
                *self == *old(self),
                self.wf(),
                id < self@.files.len(),
                text == self@.files[id as int].text,
                self@.files[id as int].track.can_advance(),
                changed(text, changes@.take(k as int)) == Some(draft@),
            decreases changes.len() - k,
        {
            let ghost upto = changes@.take(k + 1);
            assert(upto.drop_last() =~= changes@.take(k as int));
            assert(upto.last() == changes@[k as int]);
            if !changes[k].apply(&mut draft) {
                proof {
                    Self::lemma_changed_prefix(text, changes@, k + 1);
                }
                return Err(EditError::InvalidRange);
            }
            k = k + 1;
        }
        assert(changes@.take(k as int) =~= changes@);
        let ghost before = *self;
        let entry = &mut self.entries[id];
        entry.buffer = draft;
        entry.track = track;
        proof {
            Self::lemma_entry_changed(before, *self, id as int);
        }
        if start {
            Ok(Some(self.request_for(id)))
        } else {
            Ok(None)
        }
    }

    /// A batch of which a beginning cannot be applied cannot be applied.
    proof fn lemma_changed_prefix(text: Seq<char>, changes: Seq<TextChange>, n: int)
        requires
            0 <= n <= changes.len(),
            changed(text, changes.take(n)) is None,
        ensures
            changed(text, changes) is None,
        decreases changes.len(),
    {
        if n == changes.len() {
            assert(changes.take(n) =~= changes);
        } else {
            assert(changes.drop_last().take(n) =~= changes.take(n));
            Self::lemma_changed_prefix(text, changes.drop_last(), n);
        }
    }

    /// Takes in the end of the parse of `version` of a file. The result is
    /// stored, and the file ready, only if that parse was running and the
    /// text has not changed since it began; a superseded result is dropped,
    /// and the parse of the current version begins.
    pub fn complete_parse(&mut self, id: usize, version: u64, outcome: ParseOutcome<T>) -> (r:
        Completed)
        requires
            old(self).wf(),
        ensures
            final(self).wf(),
            final(self)@ == old(self)@.completed(id, version, outcome@),
            r.completion == old(self)@.completion(id, version).0,
            r.next.deep_view() == old(self)@.completion(id, version).1,
    {
        if id >= self.entries.len() {
            return Completed { completion: Completion::Unexpected, next: None };
        }
        let ghost before = *self;
        let can_parse = self.can_parse;
        let entry = &mut self.entries[id];
        let completion = entry.track.complete(version, can_parse);
        match completion {
            Completion::Taken => {
                entry.result = Some(make_result(version, outcome));
            },
            _ => {},
        }
        proof {
            Self::lemma_entry_changed(before, *self, id as int);
        }
        let next = match completion {
            Completion::Dropped { restart: true } => Some(self.request_for(id)),
            _ => None,
        };
        Completed { completion, next }
    }

    /// Closes a file that is not part of the project: its text and its
    /// result are dropped. A file of the project stays as it is. Says
    /// whether the file was closed.
    pub fn close(&mut self, id: usize) -> (r: bool)
        requires
            old(self).wf(),
        ensures
            final(self).wf(),
            final(self)@ == old(self)@.closed(id),
            r == old(self)@.can_close(id),
    {
        if id >= self.entries.len() || self.entries[id].in_project {
            return false;
        }
        let ghost before = *self;
        let entry = &mut self.entries[id];
        entry.buffer = TextBuffer::new("");
        entry.track.close();
        entry.result = None;
        proof {
            reveal_strlit("");
            assert(""@ =~= Seq::<char>::empty());
            Self::lemma_entry_changed(before, *self, id as int);
        }
        true
    }

    fn file_readiness(&self, id: usize, since: u64) -> (r: Readiness)
        ensures
            r == self@.file_readiness(id, since),
    {
        if id >= self.entries.len() || !self.can_parse {
            return Readiness::Never;
        }
        match self.entries[id].track.status {
            ParseStatus::Unparsed => Readiness::Never,
            ParseStatus::Ready(v) => if v >= since {
                Readiness::Ready
            } else {
                Readiness::Pending
            },
            _ => Readiness::Pending,
        }
    }

    /// Tells a caller that waits for a parse result of a file whether the
    /// wait is over. `since` is the version that the file had when the wait
    /// began; `include_dependencies` asks for the files that it includes to
    /// be ready as well.
    ///
    /// The answer is `Ready` only if the stored result belongs to the
    /// current version and that version is no older than `since`.
    pub fn readiness(&self, id: usize, since: u64, include_dependencies: bool) -> (r: Readiness)
        requires
            self.wf(),
        ensures
            r == self@.readiness(id, since, include_dependencies),
            r is Ready ==> {
                &&& id < self@.files.len()
                &&& self@.files[id as int].result matches Some(result)
                &&& result.version == self@.files[id as int].track.version
                &&& result.version >= since
            },
    {
        let own = self.file_readiness(id, since);
        match own {
            Readiness::Ready => {},
            _ => {
                return own;
            },
        }
        assert(self.entries@[id as int]@.valid());
        if !include_dependencies {
            return own;
        }
        let deps = match &self.entries[id].result {
            Some(result) => &result.dependencies,
            None => {
                return Readiness::Ready;
            },
        };
        let mut all_ready = true;
        let mut k: usize = 0;
        while k < deps.len()
            invariant
                k <= deps.len(),
                include_dependencies,
                self@.file_readiness(id, since) is Ready,
                deps@ == self@.dependencies(id),
                forall|j: int| 0 <= j < k ==> !(#[trigger] self@.file_readiness(deps@[j], 0) is Never),
                all_ready <==> forall|j: int|
                    0 <= j < k ==> #[trigger] self@.file_readiness(deps@[j], 0) is Ready,
            decreases deps.len() - k,
        {
            match self.file_readiness(deps[k], 0) {
                Readiness::Never => {
                    return Readiness::Never;
                },
                Readiness::Pending => {
                    all_ready = false;
                },
                Readiness::Ready => {},
            }
            k = k + 1;
        }
        if all_ready {
            Readiness::Ready
        } else {
            Readiness::Pending
        }
    }

    /// Takes in the files found in the project tree: each is opened with its
    /// text and belongs to the project from then on. Gives the parses that
    /// begin now, in the order of the files. A file for which no version is
    /// to be had stays as it was.
    pub fn init(&mut self, files: &Vec<ProjectFile>) -> (r: Vec<ParseRequest>)
        requires
            old(self).wf(),
        ensures
            final(self).wf(),
            final(self)@ == old(self)@.discovered(files@),
            r.deep_view() == old(self)@.discovery_requests(files@),
    {
        let mut requests: Vec<ParseRequest> = Vec::new();
        let mut k: usize = 0;
        assert(requests.deep_view() =~= old(self)@.discovery_requests(files@.take(0)));
        while k < files.len()
            invariant
                k <= files.len(),
                self.wf(),
                self@ == old(self)@.discovered(files@.take(k as int)),
                requests.deep_view() == old(self)@.discovery_requests(files@.take(k as int)),
            decreases files.len() - k,
        {
            let ghost upto = files@.take(k + 1);
            assert(upto.drop_last() =~= files@.take(k as int));
            assert(upto.last() == files@[k as int]);
            let ghost sofar = requests.deep_view();
            match self.install(files[k].uri.as_str(), files[k].text.as_str(), true) {
                Ok(opened) => match opened.parse {
                    Some(request) => {
                        requests.push(request);
                        assert(requests.deep_view() =~= sofar.push(request@));
                    },
                    None => {
                        assert(sofar + Seq::<RequestView>::empty() =~= sofar);
                    },
                },
                Err(_) => {
                    assert(sofar + Seq::<RequestView>::empty() =~= sofar);
                },
            }
            k = k + 1;
        }
        assert(files@.take(k as int) =~= files@);
        requests
    }

    /// The file of an identity; `None` for an identity that belongs to no
    /// file.
    pub fn entry(&self, id: usize) -> (r: Option<&SourceEntry<T>>)
        requires
            self.wf(),
        ensures
            match r {
                Some(entry) => id < self@.files.len() && entry@ == self@.files[id as int]
                    && entry.identity() == id,
                None => id >= self@.files.len(),
            },
    {
        if id < self.entries.len() {
            Some(&self.entries[id])
        } else {
            None
        }
    }

    /// The current version of a file; `None` for an identity that belongs
    /// to no file.
    pub fn version(&self, id: usize) -> (r: Option<u64>)
        ensures
            r == (if id < self@.files.len() {
                Some(self@.files[id as int].track.version)
            } else {
                None
            }),
    {
        if id < self.entries.len() {
            Some(self.entries[id].track.version)
        } else {
            None
        }
    }

    /// The scheduling state of a file.
    pub fn track(&self, id: usize) -> (r: Option<ParseTrack>)
        ensures
            r == (if id < self@.files.len() {
                Some(self@.files[id as int].track)
            } else {
                None
            }),
    {
        if id < self.entries.len() {
            Some(self.entries[id].track)
        } else {
            None
        }
    }

    /// The current text of a file.
    pub fn text(&self, id: usize) -> (r: Option<String>)
        ensures
            r.deep_view() == (if id < self@.files.len() {
                Some(self@.files[id as int].text)
            } else {
                None
            }),
    {
        if id < self.entries.len() {
            Some(self.entries[id].buffer.text())
        } else {
            None
        }
    }

    /// The name of a file.
    pub fn uri(&self, id: usize) -> (r: Option<String>)
        ensures
            r.deep_view() == (if id < self@.files.len() {
                Some(self@.files[id as int].uri)
            } else {
                None
            }),
    {
        if id < self.entries.len() {
            Some(self.entries[id].uri.clone())
        } else {
            None
        }
    }

    /// The stored parse result of a file, which may be older than its text:
    /// it belongs to the version that it names.
    pub fn result(&self, id: usize) -> (r: Option<&ParseResult<T>>)
        ensures
            match r {
                Some(result) => id < self@.files.len() && self@.files[id as int].result == Some(
                    result@,
                ),
                None => id >= self@.files.len() || self@.files[id as int].result is None,
            },
    {
        if id < self.entries.len() {
            self.entries[id].result.as_ref()
        } else {
            None
        }
    }
}

/// A file found in the project tree.
#[derive(Clone, Debug, PartialEq, Eq)]
pub struct ProjectFile {
    pub uri: String,
    pub text: String,
}

/// What opening a file gave: its identity, and the parse that begins now, if
/// one does.
#[derive(Clone, Debug, PartialEq, Eq)]
pub struct Opened {
    pub id: usize,
    pub parse: Option<ParseRequest>,
}

/// What the end of a parse led to: what became of the result, and the parse
/// that begins now, if one does.
#[derive(Clone, Debug, PartialEq, Eq)]
pub struct Completed {
    pub completion: Completion,
    pub next: Option<ParseRequest>,
}

/// The result to store for a parse of `version` that ended with `outcome`.
pub fn make_result<T>(version: u64, outcome: ParseOutcome<T>) -> (r: ParseResult<T>)
    ensures
        r@ == result_of(version, outcome@),
{
    match outcome {
        ParseOutcome::Parsed { tree, diagnostics, dependencies } => ParseResult {
            version,
            tree: Some(tree),
            diagnostics,
            dependencies,
        },
        ParseOutcome::Failed { message } => {
            let at = Position { line: 0, character: 0 };
            let mut diagnostics: Vec<Diagnostic> = Vec::new();
            diagnostics.push(
                Diagnostic {
                    range: Range { start: at, end: at },
                    severity: Severity::Error,
                    source: PARSER_SOURCE.to_owned(),
                    message,
                },
            );
            assert(diagnostics.deep_view() =~= seq![failure_diagnostic(message@)]);
            ParseResult { version, tree: None, diagnostics, dependencies: Vec::new() }
        },
    }
}

} // verus!
