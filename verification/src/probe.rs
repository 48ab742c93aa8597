//! Semantic observations read from the product.
use crate::error::{Error, ErrorView, Result};
use crate::ieee;
use crate::text;
use crate::text::{copy_bytes, decimal_text, glue3, glue4, glue5, same};
use crate::witness::anchor;
use crate::witness::anchor::{scale_is_usable, Anchor};
use crate::witness::error as seal;
use crate::witness::observation_journal as journal;
use crate::witness::observation_journal::{ObservationJournal, ObservationJournalView};
use crate::witness::SCHEMA;
use vstd::prelude::*;

pub mod cues;
pub mod legacy;
pub mod named;
pub mod reaction;
pub mod stability;
pub mod wait;

verus! {

// ---------------------------------------------------------------------------
// Observations
// ---------------------------------------------------------------------------

/// One sealed observation from the standard semantic journal.
#[derive(Debug)]
pub struct ProbeFrame<S> {
    pub schema: u32,
    pub launch: String,
    pub frame: u64,
    pub begun_ns: u64,
    pub observed_ns: u64,
    pub surface_presented_ns: u64,
    pub surface_sequence: u64,
    /// Pixels per point, as a binary32 bit pattern.
    pub ppp: u32,
    pub anchors: Vec<Anchor>,
    pub state: S,
}

/// The place of the first anchor of a name, or the number of anchors.
pub open spec fn anchor_place(anchors: Seq<Anchor>, name: Seq<char>) -> int
    decreases anchors.len(),
{
    if anchors.len() == 0 || anchors[0].name@ == name {
        0
    } else {
        1 + anchor_place(anchors.skip(1), name)
    }
}

/// The first anchor of a name.
pub open spec fn anchor_named(anchors: Seq<Anchor>, name: Seq<char>) -> Option<Anchor> {
    if anchor_place(anchors, name) < anchors.len() {
        Some(anchors[anchor_place(anchors, name)])
    } else {
        None
    }
}

/// The first anchor of a name, when it holds keyboard focus.
pub open spec fn focused_named(anchors: Seq<Anchor>, name: Seq<char>) -> Option<Anchor> {
    match anchor_named(anchors, name) {
        Some(anchor) if anchor.focused => Some(anchor),
        _ => None,
    }
}

proof fn lemma_anchor_place(anchors: Seq<Anchor>, name: Seq<char>, index: int)
    requires
        0 <= index <= anchors.len(),
        forall|i: int| 0 <= i < index ==> (#[trigger] anchors[i]).name@ != name,
        index < anchors.len() ==> anchors[index].name@ == name,
    ensures
        anchor_place(anchors, name) == index,
    decreases anchors.len(),
{
    if index > 0 {
        assert(anchors[0].name@ != name);
        assert forall|i: int| 0 <= i < index - 1 implies (#[trigger] anchors.skip(1)[i]).name@
            != name by {
            assert(anchors[i + 1].name@ != name);
        }
        lemma_anchor_place(anchors.skip(1), name, index - 1);
    }
}

/// Find the first anchor of a name.
pub fn find_anchor<'a>(anchors: &'a Vec<Anchor>, name: &str) -> (found: Option<&'a Anchor>)
    ensures
        match found {
            Some(found) => anchor_named(anchors@, name@) == Some(*found),
            None => anchor_named(anchors@, name@) is None,
        },
{
    let mut index: usize = 0;
    while index < anchors.len()
        invariant
            index <= anchors.len(),
            forall|i: int| 0 <= i < index ==> (#[trigger] anchors@[i]).name@ != name@,
        decreases anchors.len() - index,
    {
        if same(anchors[index].name.as_str(), name) {
            proof {
                lemma_anchor_place(anchors@, name@, index as int);
            }
            return Some(&anchors[index]);
        }
        index = index + 1;
    }
    proof {
        lemma_anchor_place(anchors@, name@, index as int);
    }
    None
}

impl<S> ProbeFrame<S> {
    /// Find a named target.
    pub fn anchor(&self, name: &str) -> (found: Option<&Anchor>)
        ensures
            match found {
                Some(found) => anchor_named(self.anchors@, name@) == Some(*found),
                None => anchor_named(self.anchors@, name@) is None,
            },
    {
        find_anchor(&self.anchors, name)
    }

    /// Find a named target only when it owns keyboard focus.
    pub fn focused_anchor(&self, name: &str) -> (found: Option<&Anchor>)
        ensures
            match found {
                Some(found) => focused_named(self.anchors@, name@) == Some(*found),
                None => focused_named(self.anchors@, name@) is None,
            },
    {
        match self.anchor(name) {
            Some(found) => {
                if found.focused {
                    Some(found)
                } else {
                    None
                }
            },
            None => None,
        }
    }
}

/// Why a set of anchors is refused, when it is: its first member that is
/// unusable or repeats a name.
pub open spec fn anchors_objection(anchors: Seq<Anchor>, from: int) -> Option<Seq<char>>
    decreases anchors.len() - from,
{
    if from >= anchors.len() {
        None
    } else {
        let own = anchor::anchor_objection(anchors[from].name@, anchors[from].rect@);
        match own {
            Some(detail) => Some(
                (seal::ErrorView::Anchor { name: anchors[from].name@, detail }).message(),
            ),
            None => if anchor::repeats(anchors, from) {
                Some("duplicate anchor `"@ + anchors[from].name@ + "`"@)
            } else {
                anchors_objection(anchors, from + 1)
            },
        }
    }
}

/// A refused observation.
pub open spec fn refused(path: Seq<u8>, detail: Seq<char>) -> ErrorView {
    ErrorView::Probe { path, detail }
}

fn refuse(path: &Vec<u8>, detail: String) -> (error: Error)
    ensures
        error@ == refused(path@, detail@),
{
    Error::Probe { path: copy_bytes(path.as_slice()), detail }
}

/// Demand usable anchors with distinct names.
pub fn validate_anchors(path: &Vec<u8>, anchors: &Vec<Anchor>) -> (verdict: Result<()>)
    ensures
        match verdict {
            Ok(_) => anchors_objection(anchors@, 0) is None,
            Err(error) => anchors_objection(anchors@, 0) matches Some(detail) && error@ == refused(
                path@,
                detail,
            ),
        },
{
    let mut index: usize = 0;
    while index < anchors.len()
        invariant
            index <= anchors.len(),
            anchors_objection(anchors@, 0) == anchors_objection(anchors@, index as int),
        decreases anchors.len() - index,
    {
        match anchors[index].validate() {
            Ok(_) => {},
            Err(error) => {
                return Err(refuse(path, error.text()));
            },
        }
        let mut earlier: usize = 0;
        while earlier < index
            invariant
                earlier <= index < anchors.len(),
                anchors_objection(anchors@, 0) == anchors_objection(anchors@, index as int),
                anchor::anchor_objection(
                    anchors@[index as int].name@,
                    anchors@[index as int].rect@,
                ) is None,
                forall|i: int|
                    0 <= i < earlier ==> (#[trigger] anchors@[i]).name@
                        != anchors@[index as int].name@,
            decreases index - earlier,
        {
            if same(anchors[earlier].name.as_str(), anchors[index].name.as_str()) {
                assert(anchors@[earlier as int].name@ == anchors@[index as int].name@);
                assert(anchor::repeats(anchors@, index as int));
                return Err(
                    refuse(
                        path,
                        glue3("duplicate anchor `", anchors[index].name.as_str(), "`"),
                    ),
                );
            }
            earlier = earlier + 1;
        }
        assert(!anchor::repeats(anchors@, index as int));
        index = index + 1;
    }
    Ok(())
}

/// Why an observation is refused, when it is.
pub open spec fn frame_objection<S>(launch: Seq<char>, frame: &ProbeFrame<S>) -> Option<Seq<char>> {
    if frame.schema != SCHEMA {
        Some(
            "expected schema "@ + text::decimal(SCHEMA as nat) + ", found "@ + text::decimal(
                frame.schema as nat,
            ),
        )
    } else if frame.launch@ != launch {
        Some(
            "launch nonce mismatch: expected `"@ + launch + "`, found `"@ + frame.launch@ + "`"@,
        )
    } else if frame.frame == 0 || frame.begun_ns == 0 || frame.observed_ns == 0
        || frame.surface_presented_ns == 0 || frame.surface_sequence == 0 {
        Some("sealed witness omitted a required frame field"@)
    } else if frame.observed_ns < frame.begun_ns || frame.surface_presented_ns < frame.observed_ns {
        Some("sealed witness timestamps are not monotonic"@)
    } else if !ieee::positive(frame.ppp) {
        Some("pixels per point must be positive and finite"@)
    } else {
        anchors_objection(frame.anchors@, 0)
    }
}

// ---------------------------------------------------------------------------
// Reader
// ---------------------------------------------------------------------------

/// How far a probe has come.
#[derive(Clone, Copy, Debug, PartialEq, Eq, Structural)]
pub struct ProbeCursor {
    pub frame: u64,
    pub surface_sequence: u64,
    pub begun_ns: u64,
}

/// Incremental reader for the standard sealed semantic journal.
///
/// Every complete record is consumed exactly once and the newest record is
/// retained as the current frame. There is no competing snapshot surface.
#[derive(Debug)]
pub struct Probe {
    path: Vec<u8>,
    launch: String,
    cursor: ProbeCursor,
    journal: ObservationJournal,
    pending: Vec<Vec<u8>>,
    current: Option<Vec<u8>>,
}

/// Content of a [`Probe`].
#[verifier::ext_equal]
pub struct ProbeView {
    pub path: Seq<u8>,
    pub launch: Seq<char>,
    pub cursor: ProbeCursor,
    pub journal: ObservationJournalView,
    pub pending: Seq<Seq<u8>>,
    pub current: Option<Seq<u8>>,
}

impl View for Probe {
    type V = ProbeView;

    closed spec fn view(&self) -> ProbeView {
        ProbeView {
            path: self.path@,
            launch: self.launch@,
            cursor: self.cursor,
            journal: self.journal@,
            pending: text::views(self.pending@),
            current: match self.current {
                Some(bytes) => Some(bytes@),
                None => None,
            },
        }
    }
}

/// Where a frame leaves the cursor.
pub open spec fn cursor_at<S>(frame: &ProbeFrame<S>) -> ProbeCursor {
    ProbeCursor {
        frame: frame.frame,
        surface_sequence: frame.surface_sequence,
        begun_ns: frame.begun_ns,
    }
}

impl ProbeView {
    /// Whether a frame falls behind the newest one.
    pub open spec fn regresses<S>(self, frame: &ProbeFrame<S>) -> bool {
        self.current is Some && (frame.surface_sequence <= self.cursor.surface_sequence
            || frame.frame < self.cursor.frame || frame.begun_ns < self.cursor.begun_ns)
    }

    /// The probe without its first pending record.
    pub open spec fn dropping(self) -> ProbeView {
        ProbeView { pending: self.pending.skip(1), ..self }
    }

    /// The probe after its first pending record proved to be a frame.
    pub open spec fn advanced<S>(self, frame: &ProbeFrame<S>) -> ProbeView {
        ProbeView {
            cursor: cursor_at(frame),
            current: Some(self.pending[0]),
            pending: self.pending.skip(1),
            ..self
        }
    }

    /// Whether the first pending record can be taken as a frame.
    pub open spec fn gives<S, D: Fn(&Vec<u8>) -> std::result::Result<ProbeFrame<S>, String>>(
        self,
        decode: &D,
        frame: ProbeFrame<S>,
    ) -> bool {
        &&& self.pending.len() > 0
        &&& journal::decodes(decode, self.pending[0], Ok(frame))
        &&& frame_objection(self.launch, &frame) is None
        &&& !self.regresses(&frame)
    }

    /// Whether a record can be refused with an error: it does not decode, or
    /// what it decodes to is no observation of this launch.
    pub open spec fn refuses<S, D: Fn(&Vec<u8>) -> std::result::Result<ProbeFrame<S>, String>>(
        self,
        decode: &D,
        record: Seq<u8>,
        error: ErrorView,
    ) -> bool {
        ||| exists|fault: String| #[trigger]
            journal::decodes(decode, record, Err::<ProbeFrame<S>, String>(fault)) && error
                == refused(self.path, fault@)
        ||| exists|frame: ProbeFrame<S>| #[trigger]
            journal::decodes(decode, record, Ok::<ProbeFrame<S>, String>(frame)) && (
            frame_objection(self.launch, &frame) matches Some(detail) && error == refused(
                self.path,
                detail,
            ))
    }

    /// Whether the first pending record can be refused with an error, for its
    /// own sake or for its order.
    pub open spec fn stops<S, D: Fn(&Vec<u8>) -> std::result::Result<ProbeFrame<S>, String>>(
        self,
        decode: &D,
        error: ErrorView,
    ) -> bool {
        &&& self.pending.len() > 0
        &&& {
            ||| self.refuses(decode, self.pending[0], error)
            ||| exists|frame: ProbeFrame<S>| #[trigger]
                journal::decodes(decode, self.pending[0], Ok::<ProbeFrame<S>, String>(frame))
                    && frame_objection(self.launch, &frame) is None && self.regresses(&frame)
                    && error == refused(self.path, "sealed witness observation order regressed"@)
        }
    }

    /// Whether the newest record can be read again as a frame.
    pub open spec fn recalls<S, D: Fn(&Vec<u8>) -> std::result::Result<ProbeFrame<S>, String>>(
        self,
        decode: &D,
        frame: ProbeFrame<S>,
    ) -> bool {
        self.current matches Some(record) && journal::decodes(decode, record, Ok(frame))
            && frame_objection(self.launch, &frame) is None
    }
}

/// A probe of the journal of one launch, with nothing read.
pub open spec fn unread(path: Seq<u8>, launch: Seq<char>) -> ProbeView {
    ProbeView {
        path,
        launch,
        cursor: ProbeCursor { frame: 0, surface_sequence: 0, begun_ns: 0 },
        journal: ObservationJournalView { path, launch, opened: false, position: 0 },
        pending: seq![],
        current: None,
    }
}

impl Probe {
    /// A probe of the journal of one launch, with nothing read.
    pub fn sealed(path: &Vec<u8>, launch: &str) -> (probe: Self)
        ensures
            probe@ == unread(path@, launch@),
    {
        let probe = Probe {
            path: copy_bytes(path.as_slice()),
            launch: launch.to_owned(),
            cursor: ProbeCursor { frame: 0, surface_sequence: 0, begun_ns: 0 },
            journal: ObservationJournal::sealed(path, launch),
            pending: Vec::new(),
            current: None,
        };
        assert(probe@.pending =~= seq![]);
        probe
    }

    /// The journal's path.
    pub fn path(&self) -> (path: &Vec<u8>)
        ensures
            path@ == self@.path,
    {
        &self.path
    }

    /// How far the probe has come.
    pub fn cursor(&self) -> (cursor: ProbeCursor)
        ensures
            cursor == self@.cursor,
    {
        self.cursor
    }

    /// Bytes of the journal already consumed: where unread bytes start.
    pub fn position(&self) -> (position: u64)
        ensures
            position == self@.journal.position,
    {
        self.journal.position()
    }

    /// Hold records back for reading, as if the journal had just given them.
    pub fn enqueue(&mut self, records: &Vec<Vec<u8>>)
        ensures
            final(self)@ == (ProbeView {
                pending: old(self)@.pending + text::views(records@),
                ..old(self)@
            }),
    {
        text::push_all(&mut self.pending, records);
    }

    /// Take in what the journal holds past [`Self::position`]. `unread` is what
    /// reading the file gave. A journal that is not there yet holds nothing.
    pub fn refill(&mut self, unread: seal::Result<Vec<u8>>) -> (verdict: Result<()>)
        requires
            unread matches Ok(unread) ==> old(self)@.journal.position + unread@.len() <= u64::MAX,
        ensures
            match refilled(old(self)@, unread) {
                Ok(probe) => verdict is Ok && final(self)@ == probe,
                Err(error) => (verdict matches Err(found) && found@ == error) && final(self)@
                    == missed(old(self)@, unread),
            },
    {
        let records = match unread {
            Ok(unread) => match self.journal.read_new_bytes(unread.as_slice()) {
                Ok(records) => records,
                Err(error) => {
                    return Err(self.journal_failure(error));
                },
            },
            Err(error) => {
                if error.is_absent() {
                    return Ok(());
                }
                return Err(self.journal_failure(error));
            },
        };
        text::push_all(&mut self.pending, &records);
        Ok(())
    }

    fn journal_failure(&self, error: seal::Error) -> (failure: Error)
        ensures
            failure@ == journal_failure(self@.path, error@),
    {
        match error {
            seal::Error::Io { operation, path, source } => Error::Io { operation, path, source },
            other => Error::Probe { path: copy_bytes(self.path.as_slice()), detail: other.text() },
        }
    }

    /// Demand an observation of this launch.
    pub fn validate<S>(&self, frame: &ProbeFrame<S>) -> (verdict: Result<()>)
        ensures
            match verdict {
                Ok(_) => frame_objection(self@.launch, frame) is None,
                Err(error) => frame_objection(self@.launch, frame) matches Some(detail) && error@
                    == refused(self@.path, detail),
            },
    {
        if frame.schema != SCHEMA {
            return Err(
                refuse(
                    &self.path,
                    glue4(
                        "expected schema ",
                        decimal_text(SCHEMA as u128).as_str(),
                        ", found ",
                        decimal_text(frame.schema as u128).as_str(),
                    ),
                ),
            );
        }
        if !same(frame.launch.as_str(), self.launch.as_str()) {
            return Err(
                refuse(
                    &self.path,
                    glue5(
                        "launch nonce mismatch: expected `",
                        self.launch.as_str(),
                        "`, found `",
                        frame.launch.as_str(),
                        "`",
                    ),
                ),
            );
        }
        if frame.frame == 0 || frame.begun_ns == 0 || frame.observed_ns == 0
            || frame.surface_presented_ns == 0 || frame.surface_sequence == 0 {
            return Err(
                refuse(
                    &self.path,
                    "sealed witness omitted a required frame field".to_owned(),
                ),
            );
        }
        if frame.observed_ns < frame.begun_ns || frame.surface_presented_ns < frame.observed_ns {
            return Err(
                refuse(&self.path, "sealed witness timestamps are not monotonic".to_owned()),
            );
        }
        if !scale_is_usable(frame.ppp) {
            return Err(
                refuse(&self.path, "pixels per point must be positive and finite".to_owned()),
            );
        }
        validate_anchors(&self.path, &frame.anchors)
    }

    /// Decode and validate one record.
    pub fn decode<S, D: Fn(&Vec<u8>) -> std::result::Result<ProbeFrame<S>, String>>(
        &self,
        record: &Vec<u8>,
        decode: &D,
    ) -> (frame: Result<ProbeFrame<S>>)
        requires
            forall|record: &Vec<u8>| #[trigger] decode.requires((record,)),
        ensures
            match frame {
                Ok(frame) => journal::decodes(decode, record@, Ok(frame)) && frame_objection(
                    self@.launch,
                    &frame,
                ) is None,
                Err(error) => self@.refuses(decode, record@, error@),
            },
    {
        match decode(record) {
            Ok(frame) => {
                assert(journal::decodes(decode, record@, Ok::<ProbeFrame<S>, String>(frame)));
                match self.validate(&frame) {
                    Ok(_) => Ok(frame),
                    Err(error) => Err(error),
                }
            },
            Err(fault) => {
                assert(journal::decodes(decode, record@, Err::<ProbeFrame<S>, String>(fault)));
                Err(refuse(&self.path, fault))
            },
        }
    }

    /// How many records are still to be taken.
    pub(crate) fn untaken(&self) -> (count: usize)
        ensures
            count == self@.pending.len(),
    {
        self.pending.len()
    }

    /// Take the next pending record as a frame. A record that is refused is
    /// consumed all the same, and leaves the probe where it was.
    pub fn take_next<S, D: Fn(&Vec<u8>) -> std::result::Result<ProbeFrame<S>, String>>(
        &mut self,
        decode: &D,
    ) -> (taken: Result<Option<ProbeFrame<S>>>)
        requires
            forall|record: &Vec<u8>| #[trigger] decode.requires((record,)),
        ensures
            match taken {
                Ok(None) => old(self)@.pending.len() == 0 && final(self)@ == old(self)@,
                Ok(Some(frame)) => old(self)@.gives(decode, frame) && final(self)@
                    == old(self)@.advanced(&frame),
                Err(error) => old(self)@.stops(decode, error@) && final(self)@
                    == old(self)@.dropping(),
            },
            old(self)@.pending.len() > 0 ==> final(self)@.pending == old(self)@.pending.skip(1),
            taken is Err ==> final(self)@.cursor == old(self)@.cursor && final(self)@.current
                == old(self)@.current,
            taken matches Ok(Some(frame)) ==> believable(old(self)@.launch, &frame)
                && final(self)@.cursor.surface_sequence == frame.surface_sequence && (old(
                self,
            )@.current is Some ==> old(self)@.cursor.surface_sequence < frame.surface_sequence),
    {
        if self.pending.len() == 0 {
            return Ok(None);
        }
        let ghost before = self@;
        let record = self.pending.remove(0);
        assert(record@ == before.pending[0]);
        assert(text::views(self.pending@) =~= before.pending.skip(1));
        let frame = match self.decode(&record, decode) {
            Ok(frame) => frame,
            Err(error) => {
                return Err(error);
            },
        };
        if self.current.is_some() && (frame.surface_sequence <= self.cursor.surface_sequence
            || frame.frame < self.cursor.frame || frame.begun_ns < self.cursor.begun_ns) {
            return Err(
                refuse(&self.path, "sealed witness observation order regressed".to_owned()),
            );
        }
        self.cursor = ProbeCursor {
            frame: frame.frame,
            surface_sequence: frame.surface_sequence,
            begun_ns: frame.begun_ns,
        };
        self.current = Some(record);
        proof {
            law_records_are_taken_once_in_order(before, decode, frame);
        }
        Ok(Some(frame))
    }

    /// Read the newest record again.
    pub fn current<S, D: Fn(&Vec<u8>) -> std::result::Result<ProbeFrame<S>, String>>(
        &self,
        decode: &D,
    ) -> (frame: Result<Option<ProbeFrame<S>>>)
        requires
            forall|record: &Vec<u8>| #[trigger] decode.requires((record,)),
        ensures
            match frame {
                Ok(None) => self@.current is None,
                Ok(Some(frame)) => self@.recalls(decode, frame),
                Err(error) => self@.current matches Some(record) && self@.refuses(
                    decode,
                    record,
                    error@,
                ),
            },
    {
        match &self.current {
            Some(record) => match self.decode(record, decode) {
                Ok(frame) => Ok(Some(frame)),
                Err(error) => Err(error),
            },
            None => Ok(None),
        }
    }
}

/// A failure of the journal, as the harness reports it.
pub open spec fn journal_failure(path: Seq<u8>, error: seal::ErrorView) -> ErrorView {
    match error {
        seal::ErrorView::Io { operation, path, source } => ErrorView::Io {
            operation,
            path,
            source,
        },
        other => ErrorView::Probe { path, detail: other.message() },
    }
}

/// The probe after it met what reading the journal gave.
pub open spec fn refilled(probe: ProbeView, unread: seal::Result<Vec<u8>>) -> std::result::Result<
    ProbeView,
    ErrorView,
> {
    match unread {
        Ok(unread) => match probe.journal.reading(unread@) {
            Ok(records) => Ok(
                ProbeView {
                    journal: probe.journal.after(unread@),
                    pending: probe.pending + records,
                    ..probe
                },
            ),
            Err(error) => Err(journal_failure(probe.path, error)),
        },
        Err(error) => if error.absent() {
            Ok(probe)
        } else {
            Err(journal_failure(probe.path, error@))
        },
    }
}

/// The probe after the journal failed.
pub open spec fn missed(probe: ProbeView, unread: seal::Result<Vec<u8>>) -> ProbeView {
    match unread {
        Ok(unread) => ProbeView { journal: probe.journal.after(unread@), ..probe },
        Err(_) => probe,
    }
}

// ---------------------------------------------------------------------------
// Laws
// ---------------------------------------------------------------------------

/// A probe never regresses: once it holds a frame, every frame it takes was
/// presented strictly later, and neither its product frame nor its begin falls
/// back.
pub proof fn law_probes_never_regress<
    S,
    D: Fn(&Vec<u8>) -> std::result::Result<ProbeFrame<S>, String>,
>(probe: ProbeView, decode: &D, frame: ProbeFrame<S>)
    requires
        probe.current is Some,
        probe.gives(decode, frame),
    ensures
        probe.advanced(&frame).cursor.surface_sequence > probe.cursor.surface_sequence,
        probe.advanced(&frame).cursor.frame >= probe.cursor.frame,
        probe.advanced(&frame).cursor.begun_ns >= probe.cursor.begun_ns,
        probe.advanced(&frame).current is Some,
{
}

/// An observation of another launch is never admitted.
pub proof fn law_foreign_observations_are_refused<S>(launch: Seq<char>, frame: ProbeFrame<S>)
    requires
        frame.launch@ != launch,
    ensures
        frame_objection(launch, &frame) is Some,
{
}

/// Anchors of an admitted observation are unambiguous: no two bear one name.
pub proof fn law_anchors_are_unambiguous(anchors: Seq<Anchor>, left: int, right: int)
    requires
        anchors_objection(anchors, 0) is None,
        0 <= left < right < anchors.len(),
    ensures
        anchors[left].name@ != anchors[right].name@,
{
    lemma_member_admitted(anchors, 0, right);
    if anchors[left].name@ == anchors[right].name@ {
        assert(anchor::repeats(anchors, right));
    }
}

proof fn lemma_member_admitted(anchors: Seq<Anchor>, from: int, index: int)
    requires
        anchors_objection(anchors, from) is None,
        from <= index < anchors.len(),
    ensures
        !anchor::repeats(anchors, index),
    decreases anchors.len() - from,
{
    if from < index {
        lemma_member_admitted(anchors, from + 1, index);
    }
}

/// Whether a set of anchors leaves no doubt what is hit: each can be hit, and no two bear
/// one name.
pub open spec fn unambiguous(anchors: Seq<Anchor>) -> bool {
    &&& forall|i: int|
        0 <= i < anchors.len() ==> anchor::can_be_hit(
            (#[trigger] anchors[i]).name@,
            anchors[i].rect@,
        )
    &&& forall|i: int, j: int|
        0 <= i < j < anchors.len() ==> (#[trigger] anchors[i]).name@ != (
        #[trigger] anchors[j]).name@
}

/// Whether an observation may be believed: it bears the third schema and the launch's own
/// seal, it tells its frame and its surface, it began no later than it was observed and was
/// observed no later than it was presented, its scale is positive and finite, and its
/// anchors are unambiguous.
pub open spec fn believable<S>(launch: Seq<char>, frame: &ProbeFrame<S>) -> bool {
    &&& frame.schema == 3
    &&& frame.launch@ == launch
    &&& frame.frame > 0
    &&& frame.surface_sequence > 0
    &&& 0 < frame.begun_ns <= frame.observed_ns <= frame.surface_presented_ns
    &&& 0 < frame.ppp < 0x7f80_0000
    &&& unambiguous(frame.anchors@)
}

proof fn lemma_anchors_admitted(anchors: Seq<Anchor>, from: int)
    requires
        0 <= from,
    ensures
        anchors_objection(anchors, from) is None ==> forall|i: int|
            from <= i < anchors.len() ==> anchor::can_be_hit(
                (#[trigger] anchors[i]).name@,
                anchors[i].rect@,
            ) && !anchor::repeats(anchors, i),
        unambiguous(anchors) ==> anchors_objection(anchors, from) is None,
    decreases anchors.len() - from,
{
    if from < anchors.len() {
        lemma_anchors_admitted(anchors, from + 1);
        if unambiguous(anchors) {
            assert(anchor::can_be_hit(anchors[from].name@, anchors[from].rect@));
            if anchor::repeats(anchors, from) {
                let other = choose|i: int|
                    0 <= i < from && #[trigger] anchors[i].name@ == anchors[from].name@;
                assert(anchors[other].name@ != anchors[from].name@);
            }
        }
    }
}

/// An observation is admitted exactly where it may be believed.
pub proof fn law_observations_are_admitted_when_believable<S>(
    probe: &Probe,
    frame: &ProbeFrame<S>,
    verdict: Result<()>,
)
    requires
        Probe::validate::<S>.ensures((probe, frame), verdict),
    ensures
        verdict is Ok <==> believable(probe@.launch, frame),
{
    let anchors = frame.anchors@;
    lemma_anchors_admitted(anchors, 0);
    if anchors_objection(anchors, 0) is None {
        assert forall|i: int, j: int| 0 <= i < j < anchors.len() implies (
        #[trigger] anchors[i]).name@ != (#[trigger] anchors[j]).name@ by {
            law_anchors_are_unambiguous(anchors, i, j);
        }
        assert(unambiguous(anchors));
    }
}

pub proof fn lemma_anchor_found(anchors: Seq<Anchor>, name: Seq<char>)
    ensures
        match anchor_named(anchors, name) {
            Some(found) => found.name@ == name && exists|i: int|
                0 <= i < anchors.len() && #[trigger] anchors[i] == found,
            None => forall|i: int| 0 <= i < anchors.len() ==> (#[trigger] anchors[i]).name@ != name,
        },
        0 <= anchor_place(anchors, name) <= anchors.len(),
    decreases anchors.len(),
{
    if anchors.len() > 0 && anchors[0].name@ != name {
        let rest = anchors.skip(1);
        lemma_anchor_found(rest, name);
        if anchor_place(rest, name) < rest.len() {
            assert(anchors[anchor_place(anchors, name)] == rest[anchor_place(rest, name)]);
        } else {
            assert forall|i: int| 0 <= i < anchors.len() implies (#[trigger] anchors[i]).name@
                != name by {
                if i > 0 {
                    assert(rest[i - 1].name@ != name);
                }
            }
        }
    } else if anchors.len() > 0 {
        assert(anchors[0] == anchor_named(anchors, name).unwrap());
    }
}

/// A target is found exactly where an anchor of the frame bears its name, and what is found
/// is such an anchor; a focused one only where that anchor holds the focus.
pub proof fn law_targets_are_found_by_name<S>(
    frame: &ProbeFrame<S>,
    name: &str,
    found: Option<&Anchor>,
    focused: Option<&Anchor>,
)
    requires
        ProbeFrame::<S>::anchor.ensures((frame, name), found),
        ProbeFrame::<S>::focused_anchor.ensures((frame, name), focused),
    ensures
        found is Some <==> exists|i: int|
            0 <= i < frame.anchors@.len() && (#[trigger] frame.anchors@[i]).name@ == name@,
        found matches Some(anchor) ==> anchor.name@ == name@ && exists|i: int|
            0 <= i < frame.anchors@.len() && #[trigger] frame.anchors@[i] == *anchor,
        focused matches Some(anchor) ==> anchor.focused && (found matches Some(same) && *same
            == *anchor),
        (found matches Some(anchor) && anchor.focused) ==> focused is Some,
{
    lemma_anchor_found(frame.anchors@, name@);
}

/// Records are taken in their order, each once: taking one removes it from what is
/// pending and leaves the others; one that is refused leaves the probe where it was.
pub proof fn law_records_are_taken_once_in_order<
    S,
    D: Fn(&Vec<u8>) -> std::result::Result<ProbeFrame<S>, String>,
>(probe: ProbeView, decode: &D, frame: ProbeFrame<S>)
    requires
        probe.gives(decode, frame),
    ensures
        believable(probe.launch, &frame),
        seq![probe.pending[0]] + probe.advanced(&frame).pending =~= probe.pending,
        probe.advanced(&frame).current == Some(probe.pending[0]),
        probe.advanced(&frame).cursor.frame == frame.frame,
        probe.advanced(&frame).cursor.surface_sequence == frame.surface_sequence,
        probe.advanced(&frame).cursor.begun_ns == frame.begun_ns,
        probe.advanced(&frame).launch == probe.launch,
        probe.advanced(&frame).journal == probe.journal,
        seq![probe.pending[0]] + probe.dropping().pending =~= probe.pending,
        probe.dropping().current == probe.current,
        probe.dropping().cursor == probe.cursor,
{
    let anchors = frame.anchors@;
    lemma_anchors_admitted(anchors, 0);
    assert forall|i: int, j: int| 0 <= i < j < anchors.len() implies (
    #[trigger] anchors[i]).name@ != (#[trigger] anchors[j]).name@ by {
        law_anchors_are_unambiguous(anchors, i, j);
    }
}

/// What the journal gives goes behind what is pending, and a journal that is not there yet
/// changes nothing and is no fault.
pub proof fn law_refills_append(probe: ProbeView, unread: seal::Result<Vec<u8>>, after: ProbeView)
    requires
        refilled(probe, unread) == Ok::<ProbeView, ErrorView>(after),
    ensures
        probe.pending.len() <= after.pending.len(),
        after.pending.take(probe.pending.len() as int) =~= probe.pending,
        after.current == probe.current,
        after.cursor == probe.cursor,
        after.launch == probe.launch,
        after.path == probe.path,
        unread is Err ==> after == probe,
{
}

} // verus!
