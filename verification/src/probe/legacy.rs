//! Weak, product-owned snapshots from before the sealed protocol.
use crate::duration::Duration;
use crate::error::{Error, ErrorView, Result, Source, SourceKind};
use crate::ieee;
use crate::probe;
use crate::probe::{find_anchor, validate_anchors};
use crate::text;
use crate::text::{copy_bytes, decimal_text, glue2, glue3};
use crate::witness::anchor::{scale_is_usable, Anchor};
use crate::witness::observation_journal as journal;
use vstd::prelude::*;

verus! {

/// One weak, product-specific atomic JSON snapshot.
///
/// This exists only to migrate applications that predate the sealed protocol.
#[derive(Debug)]
pub struct LegacyProbeFrame<S> {
    pub schema: u32,
    pub launch: String,
    pub frame: u64,
    /// Pixels per point, as a binary32 bit pattern, where the product tells it.
    pub ppp: Option<u32>,
    pub anchors: Vec<Anchor>,
    pub state: S,
}

impl<S> LegacyProbeFrame<S> {
    /// Find a named target.
    pub fn anchor(&self, name: &str) -> (found: Option<&Anchor>)
        ensures
            match found {
                Some(found) => probe::anchor_named(self.anchors@, name@) == Some(*found),
                None => probe::anchor_named(self.anchors@, name@) is None,
            },
    {
        find_anchor(&self.anchors, name)
    }
}

/// Explicit reader for an unsealed product-owned atomic JSON snapshot.
#[derive(Debug)]
pub struct LegacyProbe {
    path: Vec<u8>,
    last_frame: u64,
}

/// Content of a [`LegacyProbe`].
#[verifier::ext_equal]
pub struct LegacyProbeView {
    pub path: Seq<u8>,
    pub last_frame: u64,
}

impl View for LegacyProbe {
    type V = LegacyProbeView;

    closed spec fn view(&self) -> LegacyProbeView {
        LegacyProbeView { path: self.path@, last_frame: self.last_frame }
    }
}

/// Why a snapshot is refused, when it is.
pub open spec fn snapshot_objection<S>(frame: &LegacyProbeFrame<S>) -> Option<Seq<char>> {
    if frame.ppp matches Some(ppp) && !ieee::positive(ppp) {
        Some("pixels per point must be positive and finite"@)
    } else {
        probe::anchors_objection(frame.anchors@, 0)
    }
}

/// Whether reading a snapshot can come to an outcome.
pub open spec fn snapshot<
    S,
    D: Fn(&Vec<u8>) -> std::result::Result<LegacyProbeFrame<S>, String>,
>(
    path: Seq<u8>,
    bytes: std::result::Result<Vec<u8>, Source>,
    decode: &D,
    outcome: Result<LegacyProbeFrame<S>>,
) -> bool {
    match bytes {
        Err(source) => outcome matches Err(error) && (error matches Error::Io {
            operation,
            path: place,
            source: cause,
        } && operation@ == "read witness"@ && place@ == path && cause == source),
        Ok(bytes) => match outcome {
            Ok(frame) => journal::decodes(decode, bytes@, Ok(frame)) && snapshot_objection(
                &frame,
            ) is None,
            Err(error) => {
                ||| exists|fault: String| #[trigger]
                    journal::decodes(decode, bytes@, Err::<LegacyProbeFrame<S>, String>(fault))
                        && error@ == probe::refused(path, fault@)
                ||| exists|frame: LegacyProbeFrame<S>| #[trigger]
                    journal::decodes(decode, bytes@, Ok::<LegacyProbeFrame<S>, String>(frame)) && (
                    snapshot_objection(&frame) matches Some(detail) && error@ == probe::refused(
                        path,
                        detail,
                    ))
            },
        },
    }
}

/// Time between two looks at a snapshot, in milliseconds.
pub const SNAPSHOT_PAUSE_MS: u64 = 12;

/// What one look at a snapshot came to.
#[derive(Debug)]
pub enum Glance<S> {
    /// The snapshot waited for.
    Found(LegacyProbeFrame<S>),
    /// Nothing: why the last snapshot was refused, if it was.
    Nothing(Option<Error>),
}

/// What one look for a snapshot's target came to.
#[derive(Debug)]
pub enum Sight {
    /// The target.
    Found(Anchor),
    /// Nothing: why the last snapshot was refused, if it was.
    Nothing(Option<Error>),
}

/// Whether a predicate can give a verdict on a snapshot.
pub open spec fn answers<S, P: Fn(&LegacyProbeFrame<S>) -> bool>(
    predicate: &P,
    frame: LegacyProbeFrame<S>,
    verdict: bool,
) -> bool {
    exists|seen: &LegacyProbeFrame<S>|
        *seen == frame && #[trigger] predicate.ensures((seen,), verdict)
}

/// What a look knows of the snapshot's fault once it is over. A snapshot that
/// reads well clears it, one that is not there yet leaves it, and one that is
/// refused replaces it.
pub open spec fn fault_after<S>(outcome: Result<LegacyProbeFrame<S>>, known: Option<Error>) -> Option<
    Error,
> {
    match outcome {
        Ok(_) => None,
        Err(error) => if error is Io {
            known
        } else {
            Some(error)
        },
    }
}

/// Whether an error says that a path is not there.
pub open spec fn absent(error: Error) -> bool {
    error matches Error::Io { source, .. } && source.kind == SourceKind::NotFound
}

/// The answers that a predicate can give on each snapshot.
pub type Answers<S> = spec_fn(LegacyProbeFrame<S>, bool) -> bool;

/// The answers of a predicate.
pub open spec fn answering<S, P: Fn(&LegacyProbeFrame<S>) -> bool>(predicate: &P) -> Answers<S> {
    |frame: LegacyProbeFrame<S>, verdict: bool| answers(predicate, frame, verdict)
}

/// A target in the snapshot.
pub open spec fn shows<S>(name: Seq<char>) -> Answers<S> {
    |frame: LegacyProbeFrame<S>, verdict: bool|
        verdict == (probe::anchor_named(frame.anchors@, name) is Some)
}

/// A snapshot of a later product frame.
pub open spec fn newer<S>(prior: u64) -> Answers<S> {
    |frame: LegacyProbeFrame<S>, verdict: bool| verdict == (frame.frame > prior)
}

/// Whether one round of waiting on a snapshot can come to an outcome, where
/// reading the snapshot came to `read`.
pub open spec fn glances<S>(
    read: Result<LegacyProbeFrame<S>>,
    held: Answers<S>,
    known: Option<Error>,
    expired: bool,
    description: Seq<char>,
    timeout: nat,
    outcome: Result<Glance<S>>,
) -> bool {
    let ended = read matches Err(error) && !(error is Probe) && !absent(error);
    match outcome {
        Ok(Glance::Found(frame)) => read matches Ok(found) && frame == found && held(found,
            true,
        ),
        Ok(Glance::Nothing(fault)) => !ended && !expired && (read matches Ok(frame) ==> held(frame,
            false,
        )) && fault == fault_after(read, known),
        Err(error) => if ended {
            read matches Err(cause) && error == cause
        } else {
            expired && (read matches Ok(frame) ==> held(frame, false))
                && match fault_after(read, known) {
                Some(fault) => error == fault,
                None => error@ == (ErrorView::Timeout { waiting: description, timeout }),
            }
        },
    }
}

impl LegacyProbeView {
    /// The reader after a glance: it remembers the product frame that it found.
    pub open spec fn after<S>(self, glance: Result<Glance<S>>) -> LegacyProbeView {
        match glance {
            Ok(Glance::Found(frame)) => LegacyProbeView { last_frame: frame.frame, ..self },
            _ => self,
        }
    }
}

impl LegacyProbe {
    /// A reader of the snapshot at a path.
    pub fn new(path: &Vec<u8>) -> (probe: Self)
        ensures
            probe@ == (LegacyProbeView { path: path@, last_frame: 0 }),
    {
        LegacyProbe { path: copy_bytes(path.as_slice()), last_frame: 0 }
    }

    /// The product frame of the last snapshot waited for.
    pub fn last_frame(&self) -> (frame: u64)
        ensures
            frame == self@.last_frame,
    {
        self.last_frame
    }

    /// Read the snapshot. `bytes` is what reading the file gave.
    pub fn read<S, D: Fn(&Vec<u8>) -> std::result::Result<LegacyProbeFrame<S>, String>>(
        &self,
        bytes: std::result::Result<Vec<u8>, Source>,
        decode: &D,
    ) -> (frame: Result<LegacyProbeFrame<S>>)
        requires
            forall|bytes: &Vec<u8>| #[trigger] decode.requires((bytes,)),
        ensures
            snapshot(self@.path, bytes, decode, frame),
            frame matches Err(error) ==> error is Io || error is Probe,
            frame matches Err(error) ==> error is Io == (bytes is Err),
    {
        let bytes = match bytes {
            Ok(bytes) => bytes,
            Err(source) => {
                return Err(
                    Error::Io {
                        operation: "read witness",
                        path: copy_bytes(self.path.as_slice()),
                        source,
                    },
                );
            },
        };
        let frame = match decode(&bytes) {
            Ok(frame) => frame,
            Err(detail) => {
                assert(journal::decodes(decode, bytes@, Err::<LegacyProbeFrame<S>, String>(detail)));
                return Err(Error::Probe { path: copy_bytes(self.path.as_slice()), detail });
            },
        };
        assert(journal::decodes(decode, bytes@, Ok::<LegacyProbeFrame<S>, String>(frame)));
        if let Some(ppp) = frame.ppp {
            if !scale_is_usable(ppp) {
                return Err(
                    Error::Probe {
                        path: copy_bytes(self.path.as_slice()),
                        detail: "pixels per point must be positive and finite".to_owned(),
                    },
                );
            }
        }
        match validate_anchors(&self.path, &frame.anchors) {
            Ok(_) => Ok(frame),
            Err(error) => Err(error),
        }
    }

    /// One round of waiting for a snapshot, once the application has proved to be
    /// running. `known` is why the last snapshot was refused, if it was.
    /// [`Glance::Nothing`] asks for another round after [`SNAPSHOT_PAUSE_MS`].
    pub fn wait<
        S,
        D: Fn(&Vec<u8>) -> std::result::Result<LegacyProbeFrame<S>, String>,
        P: Fn(&LegacyProbeFrame<S>) -> bool,
    >(
        &mut self,
        bytes: std::result::Result<Vec<u8>, Source>,
        decode: &D,
        predicate: &P,
        known: Option<Error>,
        expired: bool,
        description: &str,
        timeout: Duration,
    ) -> (round: Result<Glance<S>>)
        requires
            forall|bytes: &Vec<u8>| #[trigger] decode.requires((bytes,)),
            forall|frame: &LegacyProbeFrame<S>| #[trigger] predicate.requires((frame,)),
        ensures
            exists|read: Result<LegacyProbeFrame<S>>| #[trigger]
                snapshot(old(self)@.path, bytes, decode, read) && glances(
                    read,
                    answering(predicate),
                    known,
                    expired,
                    description@,
                    timeout@,
                    round,
                ),
            final(self)@ == old(self)@.after(round),
    {
        let read = self.read(bytes, decode);
        let ghost seen = read;
        let fault: Option<Error> = match read {
            Ok(frame) => {
                if predicate(&frame) {
                    assert(answers(predicate, frame, true));
                    self.last_frame = frame.frame;
                    let outcome: Result<Glance<S>> = Ok(Glance::Found(frame));
                    assert(glances(
                        seen,
                        answering(predicate),
                        known,
                        expired,
                        description@,
                        timeout@,
                        outcome,
                    ));
                    return outcome;
                }
                assert(answers(predicate, frame, false));
                None
            },
            Err(error) => match error {
                Error::Io { operation, path, source } => {
                    if source.kind != SourceKind::NotFound {
                        let outcome: Result<Glance<S>> = Err(Error::Io { operation, path, source });
                        assert(glances(
                            seen,
                            answering(predicate),
                            known,
                            expired,
                            description@,
                            timeout@,
                            outcome,
                        ));
                        return outcome;
                    }
                    known
                },
                other => Some(other),
            },
        };
        let outcome: Result<Glance<S>> = if expired {
            match fault {
                Some(fault) => Err(fault),
                None => Err(Error::Timeout { waiting: description.to_owned(), timeout }),
            }
        } else {
            Ok(Glance::Nothing(fault))
        };
        assert(glances(
            seen,
            answering(predicate),
            known,
            expired,
            description@,
            timeout@,
            outcome,
        ));
        outcome
    }

    /// What waiting for a snapshot's target is called.
    pub fn anchor_wait(name: &str) -> (waiting: String)
        ensures
            waiting@ == "legacy anchor `"@ + name@ + "`"@,
    {
        glue3("legacy anchor `", name, "`")
    }

    /// What waiting for a fresh snapshot is called.
    pub fn fresh_wait(prior: u64) -> (waiting: String)
        ensures
            waiting@ == "legacy witness frame newer than "@ + text::decimal(prior as nat),
    {
        glue2("legacy witness frame newer than ", decimal_text(prior as u128).as_str())
    }

    /// The target of a matching snapshot.
    pub fn resolve_anchor<S>(&self, frame: &LegacyProbeFrame<S>, name: &str) -> (found: Result<
        Anchor,
    >)
        ensures
            match found {
                Ok(found) => probe::anchor_named(frame.anchors@, name@) == Some(found),
                Err(error) => probe::anchor_named(frame.anchors@, name@) is None && error@
                    == probe::refused(
                    self@.path,
                    "anchor `"@ + name@ + "` vanished from the matching frame"@,
                ),
            },
    {
        match frame.anchor(name) {
            Some(anchor) => Ok(anchor.clone()),
            None => Err(
                Error::Probe {
                    path: copy_bytes(self.path.as_slice()),
                    detail: glue3("anchor `", name, "` vanished from the matching frame"),
                },
            ),
        }
    }

    /// One round of waiting for a snapshot's target. [`Sight::Nothing`] asks for
    /// another round after [`SNAPSHOT_PAUSE_MS`].
    pub fn wait_anchor<S, D: Fn(&Vec<u8>) -> std::result::Result<LegacyProbeFrame<S>, String>>(
        &mut self,
        bytes: std::result::Result<Vec<u8>, Source>,
        decode: &D,
        name: &str,
        known: Option<Error>,
        expired: bool,
        timeout: Duration,
    ) -> (round: Result<Sight>)
        requires
            forall|bytes: &Vec<u8>| #[trigger] decode.requires((bytes,)),
        ensures
            exists|read: Result<LegacyProbeFrame<S>>, glance: Result<Glance<S>>|

                snapshot(old(self)@.path, bytes, decode, read) && #[trigger] glances(
                    read,
                    shows(name@),
                    known,
                    expired,
                    "legacy anchor `"@ + name@ + "`"@,
                    timeout@,
                    glance,
                ) && final(self)@ == old(self)@.after(glance) && match glance {
                    Ok(Glance::Found(frame)) => round matches Ok(Sight::Found(anchor))
                        && probe::anchor_named(frame.anchors@, name@) == Some(anchor),
                    Ok(Glance::Nothing(fault)) => round == Ok::<_, Error>(Sight::Nothing(fault)),
                    Err(error) => round == Err::<Sight, _>(error),
                },
    {
        let predicate = |frame: &LegacyProbeFrame<S>| -> (verdict: bool)
            ensures
                shows(name@)(*frame, verdict),
            { frame.anchor(name).is_some() };
        let description = Self::anchor_wait(name);
        let glance = self.wait(
            bytes,
            decode,
            &predicate,
            known,
            expired,
            description.as_str(),
            timeout,
        );
        proof {
            let read = choose|read: Result<LegacyProbeFrame<S>>| #[trigger]
                snapshot(old(self)@.path, bytes, decode, read) && glances(
                    read,
                    answering(&predicate),
                    known,
                    expired,
                    description@,
                    timeout@,
                    glance,
                );
            assert(glances(read, shows(name@), known, expired, description@, timeout@, glance));
        }
        match glance {
            Ok(Glance::Found(frame)) => match self.resolve_anchor(&frame, name) {
                Ok(anchor) => Ok(Sight::Found(anchor)),
                Err(error) => Err(error),
            },
            Ok(Glance::Nothing(fault)) => Ok(Sight::Nothing(fault)),
            Err(error) => Err(error),
        }
    }

    /// One round of waiting for a later snapshot. `prior` is the product frame at
    /// which the wait began.
    pub fn wait_fresh<S, D: Fn(&Vec<u8>) -> std::result::Result<LegacyProbeFrame<S>, String>>(
        &mut self,
        bytes: std::result::Result<Vec<u8>, Source>,
        decode: &D,
        prior: u64,
        known: Option<Error>,
        expired: bool,
        timeout: Duration,
    ) -> (round: Result<Glance<S>>)
        requires
            forall|bytes: &Vec<u8>| #[trigger] decode.requires((bytes,)),
        ensures
            exists|read: Result<LegacyProbeFrame<S>>| #[trigger]
                snapshot(old(self)@.path, bytes, decode, read) && glances(
                    read,
                    newer(prior),
                    known,
                    expired,
                    "legacy witness frame newer than "@ + text::decimal(prior as nat),
                    timeout@,
                    round,
                ),
            final(self)@ == old(self)@.after(round),
    {
        let predicate = |frame: &LegacyProbeFrame<S>| -> (verdict: bool)
            ensures
                newer(prior)(*frame, verdict),
            { frame.frame > prior };
        let description = Self::fresh_wait(prior);
        let round = self.wait(
            bytes,
            decode,
            &predicate,
            known,
            expired,
            description.as_str(),
            timeout,
        );
        proof {
            let read = choose|read: Result<LegacyProbeFrame<S>>| #[trigger]
                snapshot(old(self)@.path, bytes, decode, read) && glances(
                    read,
                    answering(&predicate),
                    known,
                    expired,
                    description@,
                    timeout@,
                    round,
                );
            assert(glances(read, newer(prior), known, expired, description@, timeout@, round));
        }
        round
    }
}

/// A snapshot ends its wait only where it was read and answered the predicate; what cannot
/// be read for another reason than its absence ends the wait at once, and time ends every
/// other one.
pub proof fn law_snapshots_are_awaited_until_they_answer<S>(
    read: Result<LegacyProbeFrame<S>>,
    held: Answers<S>,
    known: Option<Error>,
    expired: bool,
    description: Seq<char>,
    timeout: nat,
    outcome: Result<Glance<S>>,
)
    requires
        glances(read, held, known, expired, description, timeout, outcome),
    ensures
        outcome matches Ok(Glance::Found(frame)) ==> read == Ok::<LegacyProbeFrame<S>, Error>(frame)
            && held(frame, true),
        outcome matches Ok(Glance::Nothing(_)) ==> !expired,
        outcome matches Ok(Glance::Nothing(fault)) ==> (read is Ok ==> fault is None),
        read matches Err(error) ==> (error matches Error::Io { source, .. } && source.kind
            != SourceKind::NotFound) ==> outcome == Err::<Glance<S>, Error>(error),
{
}

/// A snapshot is refused for a scale that is no positive number, and one whose target
/// vanished is reported so.
pub proof fn law_snapshots_are_read_as_they_stand<S>(
    probe: LegacyProbe,
    frame: LegacyProbeFrame<S>,
    name: &str,
    found: Result<Anchor>,
)
    requires
        LegacyProbe::resolve_anchor::<S>.ensures((&probe, &frame, name), found),
    ensures
        found is Ok <==> probe::anchor_named(frame.anchors@, name@) is Some,
        found matches Ok(anchor) ==> frame.anchors@.contains(anchor) && anchor.name@ == name@,
        frame.ppp matches Some(ppp) ==> (!ieee::positive(ppp) ==> snapshot_objection(
            &frame,
        ) is Some),
{
    probe::lemma_anchor_found(frame.anchors@, name@);
}

} // verus!
