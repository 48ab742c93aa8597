//! The witness sink: what the event loop enqueues, and what the private worker
//! serializes and appends.
use crate::bytes;
use crate::error::Source;
use crate::text;
use crate::text::{copy_bytes, decimal_text, glue4, strict_text};
use crate::witness::anchor::{Anchor, PendingFrame, PendingFrameView};
use crate::witness::clock;
use crate::witness::clock::ProductInstant;
use crate::witness::error::{Error, ErrorView, Result};
use crate::witness::frame_journal;
use crate::witness::frame_journal::{append_frame, FrameSample};
use crate::witness::observation_journal;
use crate::witness::observation_journal::append_observation;
use crate::witness::SCHEMA;
use vstd::prelude::*;
use vstd::utf8::*;

verus! {

// ---------------------------------------------------------------------------
// Faults
// ---------------------------------------------------------------------------

/// The first fault of the worker, shared under a lock that a panic can poison.
#[derive(Debug)]
pub struct FaultCell {
    pub poisoned: bool,
    pub detail: Option<String>,
}

/// Content of an optional text.
pub open spec fn optional(text: Option<String>) -> Option<Seq<char>> {
    match text {
        Some(text) => Some(text@),
        None => None,
    }
}

impl FaultCell {
    /// What the event loop must report before trusting the worker.
    pub open spec fn complaint(self) -> Option<Seq<char>> {
        if self.poisoned {
            Some("writer fault lock was poisoned"@)
        } else {
            optional(self.detail)
        }
    }

    /// What stops the worker from appending.
    pub open spec fn obstacle(self) -> Option<Seq<char>> {
        if self.detail is Some {
            optional(self.detail)
        } else if self.poisoned {
            Some("writer fault lock was poisoned"@)
        } else {
            None
        }
    }
}

/// Report the worker's fault to the event loop.
pub fn check_fault(fault: &FaultCell) -> (verdict: Result<()>)
    ensures
        match verdict {
            Ok(_) => fault.complaint() is None,
            Err(error) => fault.complaint() matches Some(detail) && error@ == ErrorView::Writer(
                detail,
            ),
        },
{
    if fault.poisoned {
        return Err(Error::Writer("writer fault lock was poisoned".to_owned()));
    }
    match &fault.detail {
        Some(detail) => Err(Error::Writer(detail.clone())),
        None => Ok(()),
    }
}

/// The worker's own view of its fault.
pub fn writer_fault(fault: &FaultCell) -> (detail: Option<String>)
    ensures
        optional(detail) == fault.obstacle(),
{
    match &fault.detail {
        Some(detail) => Some(detail.clone()),
        None => if fault.poisoned {
            Some("writer fault lock was poisoned".to_owned())
        } else {
            None
        },
    }
}

/// Keep a fault, unless an earlier one is already kept.
pub fn lodge_writer_fault(fault: &mut FaultCell, detail: String)
    ensures
        final(fault).poisoned == old(fault).poisoned,
        optional(final(fault).detail) == if old(fault).detail is Some {
            optional(old(fault).detail)
        } else {
            Some(detail@)
        },
{
    if fault.detail.is_none() {
        fault.detail = Some(detail);
    }
}

// ---------------------------------------------------------------------------
// The event loop's side
// ---------------------------------------------------------------------------

/// An observation whose product frame reached surface present.
pub struct PresentedFrame<T> {
    pub pending: PendingFrame<T>,
    pub surface_presented_ns: u64,
    pub surface_sequence: u64,
}

/// Witness sink armed by the standard harness environment.
///
/// The event loop enqueues owned observations after the product frame reaches
/// surface present. A private worker serializes and appends them in order,
/// keeping test-only filesystem work outside the measured product frame.
#[derive(Debug)]
pub struct Publisher {
    path: Vec<u8>,
    frame_path: Vec<u8>,
    launch: String,
    surface_sequence: u64,
}

/// Content of a [`Publisher`].
#[verifier::ext_equal]
pub struct PublisherView {
    pub path: Seq<u8>,
    pub frame_path: Seq<u8>,
    pub launch: Seq<char>,
    pub surface_sequence: u64,
}

impl View for Publisher {
    type V = PublisherView;

    closed spec fn view(&self) -> PublisherView {
        PublisherView {
            path: self.path@,
            frame_path: self.frame_path@,
            launch: self.launch@,
            surface_sequence: self.surface_sequence,
        }
    }
}

/// What the witness environment calls for: no sink, a sink, or a failure.
pub open spec fn armament(
    path: Option<Seq<u8>>,
    launch: Option<Seq<u8>>,
    frames: Option<Seq<u8>>,
) -> std::result::Result<Option<PublisherView>, ErrorView> {
    if path is None && launch is None && frames is None {
        Ok(None)
    } else if path is None {
        Err(
            ErrorView::Environment(
                "EGUI_TESTER_LAUNCH and EGUI_TESTER_FRAMES require EGUI_TESTER_WITNESS"@,
            ),
        )
    } else if launch is None {
        Err(
            ErrorView::Environment(
                "EGUI_TESTER_WITNESS and EGUI_TESTER_FRAMES require EGUI_TESTER_LAUNCH"@,
            ),
        )
    } else if frames is None {
        Err(
            ErrorView::Environment(
                "EGUI_TESTER_WITNESS and EGUI_TESTER_LAUNCH require EGUI_TESTER_FRAMES"@,
            ),
        )
    } else if !valid_utf8(launch->0) {
        Err(ErrorView::Environment("EGUI_TESTER_LAUNCH is not valid Unicode"@))
    } else if (launch->0).len() == 0 {
        Err(ErrorView::Environment("EGUI_TESTER_LAUNCH is empty"@))
    } else {
        Ok(
            Some(
                PublisherView {
                    path: path->0,
                    frame_path: frames->0,
                    launch: decode_utf8(launch->0),
                    surface_sequence: 0,
                },
            ),
        )
    }
}

/// Content of an optional byte string.
pub open spec fn optional_bytes(bytes: Option<Vec<u8>>) -> Option<Seq<u8>> {
    match bytes {
        Some(bytes) => Some(bytes@),
        None => None,
    }
}

/// Where the worker's answer to a flush can stand.
pub enum FlushReply {
    /// The worker no longer accepts messages.
    Retired,
    /// The worker retired without answering.
    Silent,
    /// The worker's answer, and its fault afterwards.
    Answered(std::result::Result<(), String>, FaultCell),
}

/// What a flush reports for a reply.
pub open spec fn flush_verdict(reply: FlushReply) -> Option<Seq<char>> {
    match reply {
        FlushReply::Retired => Some("writer thread retired unexpectedly"@),
        FlushReply::Silent => Some("writer thread retired before flush"@),
        FlushReply::Answered(Err(detail), _) => Some(detail@),
        FlushReply::Answered(Ok(_), fault) => fault.complaint(),
    }
}

impl Publisher {
    /// Arm a sink from the values of the three witness variables.
    pub fn from_env(
        path: Option<Vec<u8>>,
        launch: Option<Vec<u8>>,
        frames: Option<Vec<u8>>,
    ) -> (armed: Result<Option<Self>>)
        ensures
            match armed {
                Ok(Some(publisher)) => armament(
                    optional_bytes(path),
                    optional_bytes(launch),
                    optional_bytes(frames),
                ) == Ok::<_, ErrorView>(Some(publisher@)),
                Ok(None) => armament(
                    optional_bytes(path),
                    optional_bytes(launch),
                    optional_bytes(frames),
                ) == Ok::<Option<PublisherView>, ErrorView>(None),
                Err(error) => armament(
                    optional_bytes(path),
                    optional_bytes(launch),
                    optional_bytes(frames),
                ) == Err::<Option<PublisherView>, _>(error@),
            },
    {
        if path.is_none() && launch.is_none() && frames.is_none() {
            return Ok(None);
        }
        let path = match path {
            Some(path) => path,
            None => {
                return Err(
                    Error::Environment(
                        "EGUI_TESTER_LAUNCH and EGUI_TESTER_FRAMES require EGUI_TESTER_WITNESS",
                    ),
                );
            },
        };
        let launch = match launch {
            Some(launch) => launch,
            None => {
                return Err(
                    Error::Environment(
                        "EGUI_TESTER_WITNESS and EGUI_TESTER_FRAMES require EGUI_TESTER_LAUNCH",
                    ),
                );
            },
        };
        let frames = match frames {
            Some(frames) => frames,
            None => {
                return Err(
                    Error::Environment(
                        "EGUI_TESTER_WITNESS and EGUI_TESTER_LAUNCH require EGUI_TESTER_FRAMES",
                    ),
                );
            },
        };
        let launch_text = match strict_text(launch.as_slice()) {
            Ok(text) => text,
            Err(_) => {
                return Err(Error::Environment("EGUI_TESTER_LAUNCH is not valid Unicode"));
            },
        };
        if launch.len() == 0 {
            return Err(Error::Environment("EGUI_TESTER_LAUNCH is empty"));
        }
        Ok(Some(Self::sealed(path, frames, launch_text)))
    }

    /// A sink that has presented nothing yet.
    pub fn sealed(path: Vec<u8>, frame_path: Vec<u8>, launch: String) -> (publisher: Self)
        ensures
            publisher@ == (PublisherView {
                path: path@,
                frame_path: frame_path@,
                launch: launch@,
                surface_sequence: 0,
            }),
    {
        Publisher { path, frame_path, launch, surface_sequence: 0 }
    }

    /// Enqueue one observation after its product frame reaches surface present.
    /// `send` hands it to the worker, and tells whether the worker took it.
    pub fn surface_present<T, S: FnOnce(PresentedFrame<T>) -> bool>(
        &mut self,
        fault: &FaultCell,
        pending: PendingFrame<T>,
        send: S,
    ) -> (sequence: Result<u64>)
        requires
            forall|presented: u64| clock::clocked(presented) ==> #[trigger]
                old(self)@.sendable(*fault, pending@, presented, send),
        ensures
            final(self)@ == old(self)@.after(*fault),
            exists|presented: u64| clock::clocked(presented) && #[trigger]
                old(self)@.presents(*fault, pending@, presented, send, sequence),
    {
        let now = ProductInstant::now();
        assert(old(self)@.sendable(*fault, pending@, now@, send));
        let sequence = self.surface_present_at(fault, pending, now, send);
        assert(old(self)@.presents(*fault, pending@, now@, send, sequence));
        sequence
    }

    /// Enqueue telemetry against a timestamp captured after surface present.
    pub fn surface_present_at<T, S: FnOnce(PresentedFrame<T>) -> bool>(
        &mut self,
        fault: &FaultCell,
        pending: PendingFrame<T>,
        surface_presented: ProductInstant,
        send: S,
    ) -> (sequence: Result<u64>)
        requires
            old(self)@.sendable(*fault, pending@, surface_presented@, send),
        ensures
            final(self)@ == old(self)@.after(*fault),
            old(self)@.presents(*fault, pending@, surface_presented@, send, sequence),
            sequence matches Ok(number) ==> number == final(self)@.surface_sequence && number > 0
                && pending@.observed_ns <= surface_presented@ && !fault.poisoned && fault.detail
                is None,
            sequence is Ok && old(self)@.surface_sequence < u64::MAX ==>
                final(self)@.surface_sequence == old(self)@.surface_sequence + 1,
    {
        match check_fault(fault) {
            Ok(_) => {},
            Err(error) => {
                return Err(error);
            },
        }
        if self.surface_sequence < u64::MAX {
            self.surface_sequence = self.surface_sequence + 1;
        }
        let observed_ns: u64 = pending.observed_ns();
        if surface_presented.ns() < observed_ns {
            return Err(
                Error::FrameJournal {
                    path: copy_bytes(self.frame_path.as_slice()),
                    detail: glue4(
                        "surface present ",
                        decimal_text(surface_presented.ns() as u128).as_str(),
                        " predates observation ",
                        decimal_text(observed_ns as u128).as_str(),
                    ),
                },
            );
        }
        let ghost observation = pending@;
        let frame = PresentedFrame {
            pending,
            surface_presented_ns: surface_presented.ns(),
            surface_sequence: self.surface_sequence,
        };
        let ghost handed = frame;
        let taken: bool = send(frame);
        assert(enqueues(
            send,
            observation,
            surface_presented@,
            self.surface_sequence,
            taken,
        )) by {
            assert(send.ensures((handed,), taken));
        }
        if !taken {
            return Err(Error::Writer("writer thread retired unexpectedly".to_owned()));
        }
        Ok(self.surface_sequence)
    }

    /// Drain every queued record and surface any asynchronous writer fault.
    /// `exchange` asks the worker to flush and gives its reply.
    pub fn flush<X: FnOnce() -> FlushReply>(&self, fault: &FaultCell, exchange: X) -> (verdict:
        Result<()>)
        requires
            fault.complaint() is None ==> exchange.requires(()),
        ensures
            match fault.complaint() {
                Some(detail) => verdict matches Err(error) && error@ == ErrorView::Writer(detail),
                None => exists|reply: FlushReply| #[trigger]
                    exchange.ensures((), reply) && match flush_verdict(reply) {
                        Some(detail) => verdict matches Err(error) && error@ == ErrorView::Writer(
                            detail,
                        ),
                        None => verdict is Ok,
                    },
            },
    {
        match check_fault(fault) {
            Ok(_) => {},
            Err(error) => {
                return Err(error);
            },
        }
        let reply = exchange();
        let ghost given = reply;
        assert(exchange.ensures((), given));
        match reply {
            FlushReply::Retired => Err(
                Error::Writer("writer thread retired unexpectedly".to_owned()),
            ),
            FlushReply::Silent => Err(
                Error::Writer("writer thread retired before flush".to_owned()),
            ),
            FlushReply::Answered(Err(detail), _) => Err(Error::Writer(detail)),
            FlushReply::Answered(Ok(_), after) => check_fault(&after),
        }
    }

    /// Observation journal.
    pub fn path(&self) -> (path: &Vec<u8>)
        ensures
            path@ == self@.path,
    {
        &self.path
    }

    /// Launch seal.
    pub fn launch(&self) -> (launch: &str)
        ensures
            launch@ == self@.launch,
    {
        self.launch.as_str()
    }

    /// Frame journal.
    pub fn frame_path(&self) -> (path: &Vec<u8>)
        ensures
            path@ == self@.frame_path,
    {
        &self.frame_path
    }
}

impl PublisherView {
    /// The sequence number after one more presentation.
    pub open spec fn next_sequence(self) -> u64 {
        if self.surface_sequence < u64::MAX {
            (self.surface_sequence + 1) as u64
        } else {
            u64::MAX
        }
    }

    /// The sink after a presentation: a presentation that the worker's fault
    /// does not stop is counted, even when it is then refused.
    pub open spec fn after(self, fault: FaultCell) -> PublisherView {
        if fault.complaint() is Some {
            self
        } else {
            PublisherView { surface_sequence: self.next_sequence(), ..self }
        }
    }

    /// Whether an observation may be handed to the worker: only without a complaint,
    /// only once it was presented, and only under the next sequence number.
    pub open spec fn sendable<T, S: FnOnce(PresentedFrame<T>) -> bool>(
        self,
        fault: FaultCell,
        pending: PendingFrameView<T>,
        presented: u64,
        send: S,
    ) -> bool {
        fault.complaint() is None && pending.observed_ns <= presented ==> forall|
            frame: PresentedFrame<T>,
        |
            frame.pending@ == pending && frame.surface_presented_ns == presented
                && frame.surface_sequence == self.after(fault).surface_sequence
                ==> #[trigger] send.requires((frame,))
    }

    /// What a presentation gives.
    pub open spec fn presents<T, S: FnOnce(PresentedFrame<T>) -> bool>(
        self,
        fault: FaultCell,
        pending: PendingFrameView<T>,
        presented: u64,
        send: S,
        sequence: Result<u64>,
    ) -> bool {
        match fault.complaint() {
            Some(detail) => sequence matches Err(error) && error@ == ErrorView::Writer(detail),
            None => if presented < pending.observed_ns {
                sequence matches Err(error) && error@ == (ErrorView::FrameJournal {
                    path: self.frame_path,
                    detail: "surface present "@ + text::decimal(presented as nat)
                        + " predates observation "@ + text::decimal(pending.observed_ns as nat),
                })
            } else {
                match sequence {
                    Ok(number) => number == self.next_sequence() && enqueues(
                        send,
                        pending,
                        presented,
                        number,
                        true,
                    ),
                    Err(error) => error@ == ErrorView::Writer(
                        "writer thread retired unexpectedly"@,
                    ) && enqueues(send, pending, presented, self.next_sequence(), false),
                }
            },
        }
    }
}

/// The worker can take or refuse the observation so presented.
pub open spec fn enqueues<T, S: FnOnce(PresentedFrame<T>) -> bool>(
    send: S,
    pending: PendingFrameView<T>,
    presented: u64,
    sequence: u64,
    taken: bool,
) -> bool {
    exists|frame: PresentedFrame<T>| #[trigger]
        send.ensures((frame,), taken) && frame.pending@ == pending && frame.surface_presented_ns
            == presented && frame.surface_sequence == sequence
}

/// Every presentation the worker accepts gets a larger sequence number than the
/// one before, until the numbers run out.
pub proof fn law_sequence_advances(publisher: PublisherView, fault: FaultCell)
    requires
        fault.complaint() is None,
        publisher.surface_sequence < u64::MAX,
    ensures
        publisher.after(fault).surface_sequence == publisher.surface_sequence + 1,
        publisher.after(fault).next_sequence() >= publisher.next_sequence(),
{
}

// ---------------------------------------------------------------------------
// The worker's side
// ---------------------------------------------------------------------------

/// One observation in wire order.
pub struct WireFrame<T> {
    pub schema: u32,
    pub launch: String,
    pub frame: u64,
    pub begun_ns: u64,
    pub observed_ns: u64,
    pub surface_presented_ns: u64,
    pub surface_sequence: u64,
    pub ppp: u32,
    pub anchors: Vec<Anchor>,
    pub state: T,
}

/// The wire frame of a presented frame under a launch.
pub open spec fn is_wire_of<T>(wire: WireFrame<T>, launch: Seq<char>, frame: PresentedFrame<T>) -> bool {
    &&& wire.schema == SCHEMA
    &&& wire.launch@ == launch
    &&& wire.frame == frame.pending@.frame
    &&& wire.begun_ns == frame.pending@.begun_ns
    &&& wire.observed_ns == frame.pending@.observed_ns
    &&& wire.surface_presented_ns == frame.surface_presented_ns
    &&& wire.surface_sequence == frame.surface_sequence
    &&& wire.ppp == frame.pending@.pixels_per_point
    &&& wire.anchors@ == frame.pending@.anchors
    &&& wire.state == frame.pending@.state
}

/// The journal sample of a presented frame.
pub open spec fn sample_of<T>(frame: PresentedFrame<T>) -> FrameSample {
    FrameSample {
        frame: frame.pending@.frame,
        surface_sequence: frame.surface_sequence,
        begun_ns: frame.pending@.begun_ns,
        observed_ns: frame.pending@.observed_ns,
        surface_presented_ns: frame.surface_presented_ns,
    }
}

/// The private worker's journals.
#[derive(Debug)]
pub struct Writer {
    pub path: Vec<u8>,
    pub frame_path: Vec<u8>,
    pub launch: String,
}

/// A serializer can give `outcome` for a presented frame.
pub open spec fn serializes<T, S: FnOnce(&WireFrame<T>) -> std::result::Result<Vec<u8>, String>>(
    serialize: S,
    launch: Seq<char>,
    frame: PresentedFrame<T>,
    outcome: std::result::Result<Vec<u8>, String>,
) -> bool {
    exists|wire: &WireFrame<T>| #[trigger]
        serialize.ensures((wire,), outcome) && is_wire_of(*wire, launch, frame)
}

/// An output can give `outcome` for bytes.
pub open spec fn writes<O: FnOnce(&Vec<u8>) -> std::result::Result<(), Source>>(
    output: O,
    bytes: Seq<u8>,
    outcome: std::result::Result<(), Source>,
) -> bool {
    exists|given: &Vec<u8>| #[trigger] output.ensures((given,), outcome) && given@ == bytes
}

/// A failed append to a journal.
pub open spec fn append_failure(path: Seq<u8>, source: Source) -> ErrorView {
    ErrorView::Io { operation: "append to"@, path, source: source@ }
}

impl Writer {
    /// What appending a presented frame gives: the observation first, then the
    /// frame sample, stopping at the first failure.
    pub open spec fn appends<
        T,
        S: FnOnce(&WireFrame<T>) -> std::result::Result<Vec<u8>, String>,
        O: FnOnce(&Vec<u8>) -> std::result::Result<(), Source>,
        F: FnOnce(&Vec<u8>) -> std::result::Result<(), Source>,
    >(
        self,
        frame: PresentedFrame<T>,
        serialize: S,
        observations: O,
        frames: F,
        outcome: std::result::Result<(), ErrorView>,
    ) -> bool {
        ||| exists|fault: String| #[trigger]
            serializes(serialize, self.launch@, frame, Err(fault)) && outcome == Err::<(), _>(
                ErrorView::Serialize(fault@),
            )
        ||| exists|record: Vec<u8>| #[trigger]
            serializes(serialize, self.launch@, frame, Ok(record)) && self.appends_record(
                frame,
                record@,
                observations,
                frames,
                outcome,
            )
    }

    /// Whether a presented frame may be appended: it is serialized, its observation
    /// is written once that succeeded, and its sample once the observation was.
    pub open spec fn appendable<
        T,
        S: FnOnce(&WireFrame<T>) -> std::result::Result<Vec<u8>, String>,
        O: FnOnce(&Vec<u8>) -> std::result::Result<(), Source>,
        F: FnOnce(&Vec<u8>) -> std::result::Result<(), Source>,
    >(self, frame: PresentedFrame<T>, serialize: S, observations: O, frames: F) -> bool {
        &&& forall|wire: &WireFrame<T>|
            is_wire_of(*wire, self.launch@, frame) ==> #[trigger] serialize.requires((wire,))
        &&& forall|record: Vec<u8>| #[trigger]
            serializes(serialize, self.launch@, frame, Ok(record)) && record@.len() <= u32::MAX ==> {
                let framed = observation_journal::framed(record@);
                &&& forall|given: &Vec<u8>|
                    given@ == framed ==> #[trigger] observations.requires((given,))
                &&& writes(observations, framed, Ok(())) ==> forall|given: &Vec<u8>|
                    given@ == frame_journal::record(sample_of(frame)) ==> #[trigger] frames.requires(
                        (given,),
                    )
            }
    }

    /// What appending a serialized frame gives.
    pub open spec fn appends_record<
        T,
        O: FnOnce(&Vec<u8>) -> std::result::Result<(), Source>,
        F: FnOnce(&Vec<u8>) -> std::result::Result<(), Source>,
    >(
        self,
        frame: PresentedFrame<T>,
        record: Seq<u8>,
        observations: O,
        frames: F,
        outcome: std::result::Result<(), ErrorView>,
    ) -> bool {
        if record.len() > u32::MAX {
            outcome == Err::<(), _>(
                observation_journal::invalid(
                    self.path@,
                    "record is too large: "@ + bytes::length_fault(record.len() as usize),
                ),
            )
        } else {
            ||| exists|source: Source| #[trigger]
                writes(observations, observation_journal::framed(record), Err(source)) && outcome
                    == Err::<(), _>(append_failure(self.path@, source))
            ||| writes(observations, observation_journal::framed(record), Ok(())) && (
            writes(frames, frame_journal::record(sample_of(frame)), Ok(())) && outcome == Ok::<
                (),
                ErrorView,
            >(()) || exists|source: Source| #[trigger]
                writes(frames, frame_journal::record(sample_of(frame)), Err(source)) && outcome
                    == Err::<(), _>(append_failure(self.frame_path@, source)))
        }
    }

    /// Serialize a presented frame and append it to both journals.
    pub fn append<
        T,
        S: FnOnce(&WireFrame<T>) -> std::result::Result<Vec<u8>, String>,
        O: FnOnce(&Vec<u8>) -> std::result::Result<(), Source>,
        F: FnOnce(&Vec<u8>) -> std::result::Result<(), Source>,
    >(
        &self,
        frame: PresentedFrame<T>,
        serialize: S,
        observations: O,
        frames: F,
    ) -> (appended: Result<()>)
        requires
            self.appendable(frame, serialize, observations, frames),
        ensures
            self.appends(
                frame,
                serialize,
                observations,
                frames,
                match appended {
                    Ok(_) => Ok(()),
                    Err(error) => Err(error@),
                },
            ),
    {
        let ghost whole = frame;
        let sample = FrameSample {
            frame: frame.pending.frame(),
            surface_sequence: frame.surface_sequence,
            begun_ns: frame.pending.begun_ns(),
            observed_ns: frame.pending.observed_ns(),
            surface_presented_ns: frame.surface_presented_ns,
        };
        let (ppp, anchors, state) = frame.pending.into_parts();
        let wire = WireFrame {
            schema: SCHEMA,
            launch: self.launch.clone(),
            frame: sample.frame,
            begun_ns: sample.begun_ns,
            observed_ns: sample.observed_ns,
            surface_presented_ns: sample.surface_presented_ns,
            surface_sequence: sample.surface_sequence,
            ppp,
            anchors,
            state,
        };
        assert(is_wire_of(wire, self.launch@, whole));
        let serialized = serialize(&wire);
        assert(serializes(serialize, self.launch@, whole, serialized)) by {
            assert(serialize.ensures((&wire,), serialized));
            assert(is_wire_of(wire, self.launch@, whole));
        }
        let record = match serialized {
            Ok(record) => record,
            Err(fault) => {
                return Err(Error::Serialize(fault));
            },
        };
        let mut observation: Vec<u8> = Vec::new();
        match append_observation(&mut observation, &self.path, record.as_slice()) {
            Ok(_) => {},
            Err(error) => {
                return Err(error);
            },
        }
        assert(serializes(serialize, self.launch@, whole, Ok(record)));
        assert(observation@ =~= observation_journal::framed(record@));
        let written = observations(&observation);
        assert(writes(observations, observation_journal::framed(record@), written)) by {
            assert(observations.ensures((&observation,), written));
            assert(observation@ =~= observation_journal::framed(record@));
        }
        match written {
            Ok(unit) => {
                assert(unit == ());
            },
            Err(source) => {
                return Err(
                    Error::Io {
                        operation: "append to",
                        path: copy_bytes(self.path.as_slice()),
                        source,
                    },
                );
            },
        }
        let mut entry: Vec<u8> = Vec::new();
        append_frame(&mut entry, sample);
        assert(entry@ =~= frame_journal::record(sample_of(whole)));
        let written = frames(&entry);
        assert(writes(frames, frame_journal::record(sample_of(whole)), written)) by {
            assert(frames.ensures((&entry,), written));
            assert(entry@ =~= frame_journal::record(sample));
        }
        match written {
            Ok(unit) => {
                assert(unit == ());
                Ok(())
            },
            Err(source) => Err(
                Error::Io {
                    operation: "append to",
                    path: copy_bytes(self.frame_path.as_slice()),
                    source,
                },
            ),
        }
    }

    /// Flush both journals, observations first.
    pub fn flush<
        O: FnOnce() -> std::result::Result<(), Source>,
        F: FnOnce() -> std::result::Result<(), Source>,
    >(&self, observations: O, frames: F) -> (flushed: Result<()>)
        requires
            observations.requires(()),
            observations.ensures((), Ok(())) ==> frames.requires(()),
        ensures
            match flushed {
                Ok(_) => observations.ensures((), Ok(())) && frames.ensures((), Ok(())),
                Err(error) => {
                    ||| exists|source: Source| #[trigger]
                        observations.ensures((), Err(source)) && error@ == (ErrorView::Io {
                            operation: "flush"@,
                            path: self.path@,
                            source: source@,
                        })
                    ||| observations.ensures((), Ok(())) && exists|source: Source| #[trigger]
                        frames.ensures((), Err(source)) && error@ == (ErrorView::Io {
                            operation: "flush"@,
                            path: self.frame_path@,
                            source: source@,
                        })
                },
            },
    {
        match observations() {
            Ok(unit) => {
                assert(unit == ());
            },
            Err(source) => {
                assert(observations.ensures((), Err(source)));
                return Err(
                    Error::Io {
                        operation: "flush",
                        path: copy_bytes(self.path.as_slice()),
                        source,
                    },
                );
            },
        }
        match frames() {
            Ok(unit) => {
                assert(unit == ());
                Ok(())
            },
            Err(source) => {
                assert(frames.ensures((), Err(source)));
                Err(
                    Error::Io {
                        operation: "flush",
                        path: copy_bytes(self.frame_path.as_slice()),
                        source,
                    },
                )
            },
        }
    }

    /// Handle one queued frame: append it unless a fault is already kept, and
    /// keep the fault of a failed append.
    pub fn receive<
        T,
        S: FnOnce(&WireFrame<T>) -> std::result::Result<Vec<u8>, String>,
        O: FnOnce(&Vec<u8>) -> std::result::Result<(), Source>,
        F: FnOnce(&Vec<u8>) -> std::result::Result<(), Source>,
    >(
        &self,
        fault: &mut FaultCell,
        frame: PresentedFrame<T>,
        serialize: S,
        observations: O,
        frames: F,
    ) -> (reception: Reception)
        requires
            old(fault).obstacle() is None ==> self.appendable(
                frame,
                serialize,
                observations,
                frames,
            ),
        ensures
            final(fault).poisoned == old(fault).poisoned,
            (reception is Skipped) == (old(fault).obstacle() is Some),
            match reception {
                Reception::Skipped => optional(final(fault).detail) == optional(old(fault).detail),
                Reception::Appended => final(fault).detail is None && self.appends(
                    frame,
                    serialize,
                    observations,
                    frames,
                    Ok(()),
                ),
                Reception::Faulted => exists|error: ErrorView| #[trigger]
                    self.appends(frame, serialize, observations, frames, Err(error)) && optional(
                        final(fault).detail,
                    ) == Some(error.message()),
            },
    {
        if writer_fault(fault).is_some() {
            return Reception::Skipped;
        }
        match self.append(frame, serialize, observations, frames) {
            Ok(_) => Reception::Appended,
            Err(error) => {
                assert(self.appends(frame, serialize, observations, frames, Err(error@)));
                lodge_writer_fault(fault, error.text());
                Reception::Faulted
            },
        }
    }
}

/// How the worker met a queued frame.
#[derive(Clone, Copy, Debug, PartialEq, Eq, Structural)]
pub enum Reception {
    /// A fault was already kept; nothing was appended.
    Skipped,
    /// Both journals hold the frame.
    Appended,
    /// The append failed, and its fault is kept.
    Faulted,
}

/// The worker's answer to a flush: a failed flush, else the kept fault.
pub fn flush_answer(flushed: Result<()>, fault: &FaultCell) -> (answer: std::result::Result<
    (),
    String,
>)
    ensures
        match flushed {
            Err(error) => answer matches Err(detail) && detail@ == error@.message(),
            Ok(_) => match fault.obstacle() {
                Some(obstacle) => answer matches Err(detail) && detail@ == obstacle,
                None => answer is Ok,
            },
        },
{
    match flushed {
        Err(error) => Err(error.text()),
        Ok(_) => match writer_fault(fault) {
            Some(detail) => Err(detail),
            None => Ok(()),
        },
    }
}

// ---------------------------------------------------------------------------
// Laws
// ---------------------------------------------------------------------------

/// A sink is armed exactly where all three variables are set and the launch is a text that
/// is not empty; without any of them there is none; and anything between is refused. An
/// armed sink writes where it was told, under the seal that it was told, and has presented
/// nothing.
pub proof fn law_sinks_are_armed_wholly_or_not(
    path: Option<Vec<u8>>,
    launch: Option<Vec<u8>>,
    frames: Option<Vec<u8>>,
    armed: Result<Option<Publisher>>,
)
    requires
        Publisher::from_env.ensures((path, launch, frames), armed),
    ensures
        (armed matches Ok(None)) <==> path is None && launch is None && frames is None,
        (armed matches Ok(Some(_))) <==> path is Some && frames is Some && (launch matches Some(
            launch,
        ) && valid_utf8(launch@) && launch@.len() > 0),
        armed matches Ok(Some(publisher)) ==> publisher@.path == path->0@
            && publisher@.frame_path == frames->0@ && encode_utf8(publisher@.launch)
            == launch->0@ && publisher@.surface_sequence == 0,
{
    broadcast use vstd::utf8::decode_utf8_encode_utf8;

}

/// What is put on the wire is what was staged: the same frame, times, scale, anchors, and
/// state, under the launch's own seal and the third schema. Its times are in order where
/// the staged ones were and the frame was not presented before it was observed, and the
/// frame journal tells of the same frame.
pub proof fn law_the_wire_tells_what_was_staged<T>(
    wire: WireFrame<T>,
    launch: Seq<char>,
    frame: PresentedFrame<T>,
)
    requires
        is_wire_of(wire, launch, frame),
        frame.pending@.begun_ns <= frame.pending@.observed_ns <= frame.surface_presented_ns,
    ensures
        wire.schema == 3,
        wire.launch@ == launch,
        wire.begun_ns <= wire.observed_ns <= wire.surface_presented_ns,
        wire.frame == frame.pending@.frame,
        wire.surface_sequence == frame.surface_sequence,
        wire.ppp == frame.pending@.pixels_per_point,
        wire.anchors@ == frame.pending@.anchors,
        wire.state == frame.pending@.state,
        sample_of(frame).frame == wire.frame,
        sample_of(frame).surface_sequence == wire.surface_sequence,
        sample_of(frame).begun_ns == wire.begun_ns,
        sample_of(frame).observed_ns == wire.observed_ns,
        sample_of(frame).surface_presented_ns == wire.surface_presented_ns,
        frame_journal::coherent(sample_of(frame)),
{
}

/// A frame is appended only where both journals took it: its serialized observation, framed
/// by its length, and its sample.
pub proof fn law_appended_frames_are_in_both_journals<
    T,
    S: FnOnce(&WireFrame<T>) -> std::result::Result<Vec<u8>, String>,
    O: FnOnce(&Vec<u8>) -> std::result::Result<(), Source>,
    F: FnOnce(&Vec<u8>) -> std::result::Result<(), Source>,
>(writer: Writer, frame: PresentedFrame<T>, serialize: S, observations: O, frames: F)
    requires
        writer.appends(frame, serialize, observations, frames, Ok(())),
    ensures
        exists|record: Vec<u8>, given: &Vec<u8>|
            #![trigger serializes(serialize, writer.launch@, frame, Ok(record)), given@]
            serializes(serialize, writer.launch@, frame, Ok(record)) && given@
                == observation_journal::framed(record@) && observations.ensures((given,), Ok(())),
        exists|given: &Vec<u8>| #[trigger]
            frames.ensures((given,), Ok(())) && frame_journal::tells_frame(
                given@,
                0,
                sample_of(frame),
            ) && given@.len() == 40,
{
    let record = choose|record: Vec<u8>| #[trigger]
        serializes(serialize, writer.launch@, frame, Ok(record)) && writer.appends_record(
            frame,
            record@,
            observations,
            frames,
            Ok(()),
        );
    let framed = observation_journal::framed(record@);
    let given = choose|given: &Vec<u8>| #[trigger]
        observations.ensures((given,), Ok(())) && given@ == framed;
    assert(serializes(serialize, writer.launch@, frame, Ok(record)) && given@ == framed
        && observations.ensures((given,), Ok(())));
    frame_journal::law_records_tell_their_frame(sample_of(frame));
    assert(writes(frames, frame_journal::record(sample_of(frame)), Ok(())));
}

/// A worker's fault reaches the event loop: a sink that has one, or whose lock was
/// poisoned, is complained of, and nothing else is.
pub proof fn law_faults_are_complained_of(
    fault: &FaultCell,
    verdict: Result<()>,
    detail: Option<String>,
)
    requires
        check_fault.ensures((fault,), verdict),
        writer_fault.ensures((fault,), detail),
    ensures
        verdict is Ok <==> !fault.poisoned && fault.detail is None,
        detail is None <==> !fault.poisoned && fault.detail is None,
        verdict matches Err(error) ==> error@ is Writer,
{
}

} // verus!
