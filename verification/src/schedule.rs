//! Parse scheduling for one file, as a state machine.
//!
//! Every edit gives the file a new version. A parse works on the text of one
//! version, outside this library; at most one parse runs for a file at a
//! time. Its result counts only if no edit came in while it ran: a result
//! for a superseded version is dropped when it arrives, and the next parse
//! starts then.

use vstd::prelude::*;

verus! {

/// Where a file stands with respect to parsing.
#[derive(Clone, Copy, Debug, PartialEq, Eq, Structural)]
pub enum ParseStatus {
    /// No text was opened, or the file was closed: nothing to parse.
    Unparsed,
    /// A parse of this version, the current one, is running.
    Parsing(u64),
    /// The result of this version, the current one, is stored.
    Ready(u64),
    /// The text changed and no parse of the current version has begun.
    Stale,
}

/// The scheduling state of one file.
#[derive(Clone, Copy, Debug, PartialEq, Eq, Structural)]
pub struct ParseTrack {
    /// The version of the text: zero when first opened, one more with every
    /// accepted edit.
    pub version: u64,
    pub status: ParseStatus,
    /// The version that the running parse works on, if one is running.
    pub in_flight: Option<u64>,
    /// The version that the stored result was computed from, if one is
    /// stored.
    pub parsed: Option<u64>,
}

/// What can happen to a file.
#[derive(Clone, Copy, Debug, PartialEq, Eq, Structural)]
pub enum TrackEvent {
    /// Text was installed as a whole.
    Opened,
    /// A batch of edits was applied.
    Edited,
    /// The parse of the given version came to its end.
    Completed(u64),
    /// The file was closed and its text dropped.
    Closed,
}

impl ParseTrack {
    /// The state of a file of which nothing but its name is known.
    pub open spec fn fresh() -> ParseTrack {
        ParseTrack { version: 0, status: ParseStatus::Unparsed, in_flight: None, parsed: None }
    }

    /// What holds of every state that the machine reaches.
    pub open spec fn wf(self) -> bool {
        &&& self.status matches ParseStatus::Parsing(v) ==> v == self.version && self.in_flight
            == Some(v)
        &&& self.status matches ParseStatus::Ready(v) ==> v == self.version && self.parsed == Some(v)
            && self.in_flight is None
        &&& self.status is Unparsed ==> self.parsed is None
        &&& self.in_flight matches Some(v) ==> v <= self.version
        &&& self.parsed matches Some(v) ==> v <= self.version
    }

    /// Whether a new version can be had: the counter is not at its end.
    pub open spec fn can_advance(self) -> bool {
        self.version < u64::MAX
    }

    /// Whether a parse of the current version begins as soon as the text
    /// changes: a parser is there and no parse is running.
    pub open spec fn starts_at_once(self, can_parse: bool) -> bool {
        can_parse && self.in_flight is None
    }

    /// The state once the text stands at `version`: a parse of it begins at
    /// once where that can be, else the file is stale.
    pub open spec fn scheduled(self, version: u64, can_parse: bool) -> ParseTrack {
        if self.starts_at_once(can_parse) {
            ParseTrack {
                version,
                status: ParseStatus::Parsing(version),
                in_flight: Some(version),
                parsed: self.parsed,
            }
        } else {
            ParseTrack {
                version,
                status: ParseStatus::Stale,
                in_flight: self.in_flight,
                parsed: self.parsed,
            }
        }
    }

    /// The version that text installed as a whole gets: zero for a file that
    /// never had text, else the next version.
    pub open spec fn opening_version(self) -> int {
        if self.status is Unparsed && self.version == 0 {
            0
        } else {
            self.version + 1
        }
    }

    /// Whether text can be installed: a version is to be had for it.
    pub open spec fn can_open(self) -> bool {
        self.opening_version() <= u64::MAX
    }

    /// The state after text was installed as a whole.
    pub open spec fn opened(self, can_parse: bool) -> ParseTrack {
        if self.can_open() {
            self.scheduled(self.opening_version() as u64, can_parse)
        } else {
            self
        }
    }

    /// The state after a batch of edits: the next version, whatever the size
    /// of the batch. Where the counter is at its end the edit is not
    /// accepted, and nothing changes.
    pub open spec fn edited(self, can_parse: bool) -> ParseTrack {
        if self.can_advance() {
            self.scheduled((self.version + 1) as u64, can_parse)
        } else {
            self
        }
    }

    /// Whether the end of a parse of `version` is expected: that parse is
    /// the one running.
    pub open spec fn expects(self, version: u64) -> bool {
        self.in_flight == Some(version)
    }

    /// Whether the result of a parse of `version` is taken: the parse is the
    /// one running, and the text has not changed since it began.
    pub open spec fn takes_result(self, version: u64) -> bool {
        self.expects(version) && self.status == ParseStatus::Parsing(version)
    }

    /// The state after the parse of `version` came to its end.
    ///
    /// An end that is not expected changes nothing. The result of the
    /// current version makes the file ready. A superseded result is dropped,
    /// and the parse of the current version begins where the file is stale.
    pub open spec fn completed(self, version: u64, can_parse: bool) -> ParseTrack {
        if !self.expects(version) {
            self
        } else if self.takes_result(version) {
            ParseTrack {
                version: self.version,
                status: ParseStatus::Ready(version),
                in_flight: None,
                parsed: Some(version),
            }
        } else if self.status is Stale {
            (ParseTrack { in_flight: None, ..self }).scheduled(self.version, can_parse)
        } else {
            ParseTrack { in_flight: None, ..self }
        }
    }

    /// The state after the file was closed: its result is dropped with its
    /// text. The version stays, and a running parse runs on; its result will
    /// not be taken.
    pub open spec fn closed(self) -> ParseTrack {
        ParseTrack { status: ParseStatus::Unparsed, parsed: None, ..self }
    }

    /// The state after one event.
    pub open spec fn after(self, event: TrackEvent, can_parse: bool) -> ParseTrack {
        match event {
            TrackEvent::Opened => self.opened(can_parse),
            TrackEvent::Edited => self.edited(can_parse),
            TrackEvent::Completed(v) => self.completed(v, can_parse),
            TrackEvent::Closed => self.closed(),
        }
    }

    /// The state after a sequence of events.
    pub open spec fn after_all(self, events: Seq<TrackEvent>, can_parse: bool) -> ParseTrack
        decreases events.len(),
    {
        if events.len() == 0 {
            self
        } else {
            self.after_all(events.drop_last(), can_parse).after(events.last(), can_parse)
        }
    }

    /// Whether a result no older than `since` is ready to be read.
    pub open spec fn ready_since(self, since: u64) -> bool {
        self.status matches ParseStatus::Ready(v) && v >= since
    }

    /// A track for a file of which nothing but its name is known.
    pub fn new() -> (r: ParseTrack)
        ensures
            r == ParseTrack::fresh(),
            r.wf(),
    {
        ParseTrack { version: 0, status: ParseStatus::Unparsed, in_flight: None, parsed: None }
    }

    fn schedule(&mut self, version: u64, can_parse: bool) -> (start: bool)
        ensures
            *final(self) == old(self).scheduled(version, can_parse),
            start == old(self).starts_at_once(can_parse),
    {
        self.version = version;
        if can_parse && self.in_flight.is_none() {
            self.status = ParseStatus::Parsing(version);
            self.in_flight = Some(version);
            true
        } else {
            self.status = ParseStatus::Stale;
            false
        }
    }

    /// Records that text was installed as a whole. `None` where no version
    /// is to be had for it; else whether the parse of the new version begins
    /// now.
    pub fn open(&mut self, can_parse: bool) -> (start: Option<bool>)
        ensures
            *final(self) == old(self).opened(can_parse),
            start is Some <==> old(self).can_open(),
            start matches Some(now) ==> now == old(self).starts_at_once(can_parse),
    {
        let first = match self.status {
            ParseStatus::Unparsed => self.version == 0,
            _ => false,
        };
        if first {
            Some(self.schedule(0, can_parse))
        } else {
            match self.version.checked_add(1) {
                Some(next) => Some(self.schedule(next, can_parse)),
                None => None,
            }
        }
    }

    /// Records a batch of edits. `None` where the edit is not accepted; else
    /// whether the parse of the new version begins now.
    pub fn edit(&mut self, can_parse: bool) -> (start: Option<bool>)
        ensures
            *final(self) == old(self).edited(can_parse),
            start is Some <==> old(self).can_advance(),
            start matches Some(now) ==> now == old(self).starts_at_once(can_parse),
    {
        match self.version.checked_add(1) {
            Some(next) => Some(self.schedule(next, can_parse)),
            None => None,
        }
    }

    /// Records the end of the parse of `version`, and says what to do with
    /// its result and whether the parse of the current version begins now.
    pub fn complete(&mut self, version: u64, can_parse: bool) -> (r: Completion)
        ensures
            *final(self) == old(self).completed(version, can_parse),
            r == old(self).completion(version, can_parse),
    {
        if self.in_flight != Some(version) {
            return Completion::Unexpected;
        }
        self.in_flight = None;
        match self.status {
            ParseStatus::Parsing(v) => {
                if v == version {
                    self.status = ParseStatus::Ready(version);
                    self.parsed = Some(version);
                    Completion::Taken
                } else {
                    Completion::Dropped { restart: false }
                }
            },
            ParseStatus::Stale => {
                let current = self.version;
                let restart = self.schedule(current, can_parse);
                Completion::Dropped { restart }
            },
            _ => Completion::Dropped { restart: false },
        }
    }

    /// What becomes of the result of the parse of `version`.
    pub open spec fn completion(self, version: u64, can_parse: bool) -> Completion {
        if !self.expects(version) {
            Completion::Unexpected
        } else if self.takes_result(version) {
            Completion::Taken
        } else {
            Completion::Dropped { restart: self.status is Stale && can_parse }
        }
    }

    /// Records that the file was closed.
    pub fn close(&mut self)
        ensures
            *final(self) == old(self).closed(),
    {
        self.status = ParseStatus::Unparsed;
        self.parsed = None;
    }
}

/// What becomes of a parse that came to its end.
#[derive(Clone, Copy, Debug, PartialEq, Eq, Structural)]
pub enum Completion {
    /// No parse of that version was running: nothing changes.
    Unexpected,
    /// The result is stored and the file is ready.
    Taken,
    /// The result is superseded and dropped; `restart` says whether the
    /// parse of the current version begins now.
    Dropped { restart: bool },
}

/// Every event keeps the state well formed and never takes the version
/// back.
pub proof fn lemma_after_keeps_wf(track: ParseTrack, event: TrackEvent, can_parse: bool)
    requires
        track.wf(),
    ensures
        track.after(event, can_parse).wf(),
        track.after(event, can_parse).version >= track.version,
{
}

/// Every sequence of events keeps the state well formed and never takes the
/// version back.
pub proof fn lemma_after_all_keeps_wf(track: ParseTrack, events: Seq<TrackEvent>, can_parse: bool)
    requires
        track.wf(),
    ensures
        track.after_all(events, can_parse).wf(),
        track.after_all(events, can_parse).version >= track.version,
    decreases events.len(),
{
    if events.len() > 0 {
        lemma_after_all_keeps_wf(track, events.drop_last(), can_parse);
        lemma_after_keeps_wf(
            track.after_all(events.drop_last(), can_parse),
            events.last(),
            can_parse,
        );
    }
}

/// Version monotonicity: every accepted batch of edits raises the version by
/// exactly one, so `n` accepted batches raise it by `n`.
pub proof fn lemma_edits_count_versions(track: ParseTrack, n: nat, can_parse: bool)
    requires
        track.version + n <= u64::MAX,
    ensures
        track.after_all(Seq::new(n, |i: int| TrackEvent::Edited), can_parse).version
            == track.version + n,
    decreases n,
{
    let edits = Seq::new(n, |i: int| TrackEvent::Edited);
    if n > 0 {
        let fewer = Seq::new((n - 1) as nat, |i: int| TrackEvent::Edited);
        assert(edits.drop_last() =~= fewer);
        lemma_edits_count_versions(track, (n - 1) as nat, can_parse);
    }
}

/// Readiness freshness: after an edit `first` and a later edit `second`,
/// whatever happens then, a reader that waits for a result no older than the
/// version of `second` and finds the file ready reads the result of the
/// current version, which is no older than `second` and newer than `first`.
pub proof fn lemma_ready_is_fresh(
    track: ParseTrack,
    between: Seq<TrackEvent>,
    later: Seq<TrackEvent>,
    can_parse: bool,
)
    requires
        track.wf(),
        track.can_advance(),
        track.edited(can_parse).after_all(between, can_parse).can_advance(),
    ensures
        ({
            let first = track.edited(can_parse);
            let second = first.after_all(between, can_parse).edited(can_parse);
            let now = second.after_all(later, can_parse);
            now.ready_since(second.version) ==> now.parsed == Some(now.version) && now.version
                >= second.version && second.version > first.version
        }),
{
    let first = track.edited(can_parse);
    lemma_after_keeps_wf(track, TrackEvent::Edited, can_parse);
    lemma_after_all_keeps_wf(first, between, can_parse);
    let middle = first.after_all(between, can_parse);
    lemma_after_keeps_wf(middle, TrackEvent::Edited, can_parse);
    let second = middle.edited(can_parse);
    lemma_after_all_keeps_wf(second, later, can_parse);
}

/// A result is taken only for the version that the text has: the result of a
/// parse that an edit overtook is never stored.
pub proof fn lemma_superseded_result_is_dropped(track: ParseTrack, version: u64, can_parse: bool)
    requires
        track.wf(),
        version < track.version,
    ensures
        track.completed(version, can_parse).parsed == track.parsed,
        track.completed(version, can_parse).status != ParseStatus::Ready(version),
{
}

} // verus!
