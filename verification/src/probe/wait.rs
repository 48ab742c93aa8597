//! Waits on semantic observations, one look at the journal at a time.
use crate::duration::Duration;
use crate::error::{Error, ErrorView, Result};
use crate::probe;
use crate::probe::{Probe, ProbeFrame, ProbeView};
use crate::text;
use crate::witness::error as seal;
use vstd::prelude::*;

verus! {

/// What an inspection says of a frame: that it is the one, or why it is not.
pub type Inspection = std::result::Result<(), Option<String>>;

/// The probe after it took frames one by one.
pub open spec fn after_frames<S>(probe: ProbeView, frames: Seq<ProbeFrame<S>>) -> ProbeView
    decreases frames.len(),
{
    if frames.len() == 0 {
        probe
    } else {
        after_frames(probe, frames.drop_last()).advanced(&frames.last())
    }
}

/// Whether a probe can take frames one by one.
pub open spec fn takes<S, D: Fn(&Vec<u8>) -> std::result::Result<ProbeFrame<S>, String>>(
    probe: ProbeView,
    decode: &D,
    frames: Seq<ProbeFrame<S>>,
) -> bool
    decreases frames.len(),
{
    frames.len() == 0 || (takes(probe, decode, frames.drop_last()) && after_frames(
        probe,
        frames.drop_last(),
    ).gives(decode, frames.last()))
}

/// Whether an inspection can give a verdict on a frame.
pub open spec fn inspects<S, I: Fn(&ProbeFrame<S>) -> Inspection>(
    inspect: &I,
    frame: ProbeFrame<S>,
    verdict: Inspection,
) -> bool {
    exists|seen: &ProbeFrame<S>| *seen == frame && #[trigger] inspect.ensures((seen,), verdict)
}

/// The verdicts that an inspection can give on each frame.
pub type Verdicts<S> = spec_fn(ProbeFrame<S>, Inspection) -> bool;

/// The verdicts of an inspection.
pub open spec fn judging<S, I: Fn(&ProbeFrame<S>) -> Inspection>(inspect: &I) -> Verdicts<S> {
    |frame: ProbeFrame<S>, verdict: Inspection| inspects(inspect, frame, verdict)
}

/// Whether an inspection can turn down a frame.
pub open spec fn declines<S>(
    verdicts: Verdicts<S>,
    frame: ProbeFrame<S>,
) -> bool {
    exists|mismatch: Option<String>| #[trigger] verdicts(frame, Err(mismatch))
}

/// Whether an inspection can turn down each of a series of frames.
pub open spec fn turns_down<S>(
    verdicts: Verdicts<S>,
    frames: Seq<ProbeFrame<S>>,
) -> bool {
    forall|i: int| 0 <= i < frames.len() ==> #[trigger] declines(verdicts, frames[i])
}

/// Whether a reason is the last one an inspection gave: the reason for the last
/// of a series of frames, or else the one known before.
pub open spec fn last_reason<S>(
    verdicts: Verdicts<S>,
    frames: Seq<ProbeFrame<S>>,
    known: Option<String>,
    reason: Option<String>,
) -> bool {
    if frames.len() == 0 {
        reason == known
    } else {
        verdicts(frames.last(), Err(reason))
    }
}

/// Whether a look can settle on a frame that the journal just gave: the frames
/// before it were turned down, and it was not.
pub open spec fn settles<
    S,
    D: Fn(&Vec<u8>) -> std::result::Result<ProbeFrame<S>, String>,
>(
    probe: ProbeView,
    decode: &D,
    verdicts: Verdicts<S>,
    passed: Seq<ProbeFrame<S>>,
    frame: ProbeFrame<S>,
    after: ProbeView,
) -> bool {
    &&& takes(probe, decode, passed.push(frame))
    &&& turns_down(verdicts, passed)
    &&& verdicts(frame, Ok(()))
    &&& after == after_frames(probe, passed.push(frame))
}

/// Whether a look that found no new frame can settle on the newest one.
pub open spec fn settles_on_newest<
    S,
    D: Fn(&Vec<u8>) -> std::result::Result<ProbeFrame<S>, String>,
>(probe: ProbeView, decode: &D, verdicts: Verdicts<S>, frame: ProbeFrame<S>, after: ProbeView) -> bool {
    &&& probe.pending.len() == 0
    &&& probe.recalls(decode, frame)
    &&& verdicts(frame, Ok(()))
    &&& after == probe
}

/// Whether a look can turn everything down and be left with a reason: every new
/// frame, or the newest one where there is no new frame.
pub open spec fn exhausts<
    S,
    D: Fn(&Vec<u8>) -> std::result::Result<ProbeFrame<S>, String>,
>(
    probe: ProbeView,
    decode: &D,
    verdicts: Verdicts<S>,
    seen: Seq<ProbeFrame<S>>,
    known: Option<String>,
    reason: Option<String>,
    after: ProbeView,
) -> bool {
    &&& takes(probe, decode, seen)
    &&& after == after_frames(probe, seen)
    &&& after.pending.len() == 0
    &&& turns_down(verdicts, seen)
    &&& if seen.len() > 0 || after.current is None {
        last_reason(verdicts, seen, known, reason)
    } else {
        exists|frame: ProbeFrame<S>| #[trigger]
            after.recalls(decode, frame) && verdicts(frame, Err(reason))
    }
}

/// Whether a look can come upon a record that it must refuse, once it turned
/// down the frames before it.
pub open spec fn founders<
    S,
    D: Fn(&Vec<u8>) -> std::result::Result<ProbeFrame<S>, String>,
>(
    probe: ProbeView,
    decode: &D,
    verdicts: Verdicts<S>,
    passed: Seq<ProbeFrame<S>>,
    error: ErrorView,
    after: ProbeView,
) -> bool {
    &&& takes(probe, decode, passed)
    &&& turns_down(verdicts, passed)
    &&& {
        ||| after_frames(probe, passed).stops(decode, error) && after == after_frames(
            probe,
            passed,
        ).dropping()
        ||| passed.len() == 0 && probe.pending.len() == 0 && (probe.current matches Some(record)
            && probe.refuses(decode, record, error)) && after == probe
    }
}

/// The failure of a wait that ran out of time: with the last reason, where one
/// is known.
pub open spec fn expiry(waiting: Seq<char>, timeout: nat, reason: Option<String>) -> ErrorView {
    match reason {
        None => ErrorView::Timeout { waiting, timeout },
        Some(reason) => ErrorView::Condition { waiting, timeout, last_mismatch: reason@ },
    }
}

/// Report a wait that ran out of time.
pub fn expire(waiting: &str, timeout: Duration, reason: Option<String>) -> (error: Error)
    ensures
        error@ == expiry(waiting@, timeout@, reason),
{
    match reason {
        None => Error::Timeout { waiting: waiting.to_owned(), timeout },
        Some(last_mismatch) => Error::Condition {
            waiting: waiting.to_owned(),
            timeout,
            last_mismatch,
        },
    }
}

/// Whether a look can settle on a frame.
pub open spec fn can_find<
    S,
    D: Fn(&Vec<u8>) -> std::result::Result<ProbeFrame<S>, String>,
>(probe: ProbeView, decode: &D, verdicts: Verdicts<S>, frame: ProbeFrame<S>, after: ProbeView) -> bool {
    ||| settles_on_newest(probe, decode, verdicts, frame, after)
    ||| exists|passed: Seq<ProbeFrame<S>>| #[trigger]
        settles(probe, decode, verdicts, passed, frame, after)
}

/// Whether a look can turn everything down and be left with a reason.
pub open spec fn can_exhaust<
    S,
    D: Fn(&Vec<u8>) -> std::result::Result<ProbeFrame<S>, String>,
>(
    probe: ProbeView,
    decode: &D,
    verdicts: Verdicts<S>,
    known: Option<String>,
    reason: Option<String>,
    after: ProbeView,
) -> bool {
    exists|seen: Seq<ProbeFrame<S>>| #[trigger]
        exhausts(probe, decode, verdicts, seen, known, reason, after)
}

/// Whether a look can come upon a record that it must refuse.
pub open spec fn can_founder<
    S,
    D: Fn(&Vec<u8>) -> std::result::Result<ProbeFrame<S>, String>,
>(probe: ProbeView, decode: &D, verdicts: Verdicts<S>, error: ErrorView, after: ProbeView) -> bool {
    exists|passed: Seq<ProbeFrame<S>>| #[trigger]
        founders(probe, decode, verdicts, passed, error, after)
}

/// What one look at the journal came to.
#[derive(Debug)]
pub enum Look<T> {
    /// What was waited for.
    Found(T),
    /// Nothing: why the last frame was turned down.
    Nothing(Option<String>),
}

/// Time between two looks, in milliseconds.
pub const LOOK_PAUSE_MS: u64 = 8;

/// A wait as it stands before a look.
#[derive(Debug)]
pub struct Waiting<'a> {
    pub description: &'a str,
    pub timeout: Duration,
    /// Whether the time is up once this look is over.
    pub expired: bool,
    /// Why the last look failed.
    pub known: Option<String>,
}

/// Whether one round of a wait can come to an outcome.
pub open spec fn rounds<
    S,
    D: Fn(&Vec<u8>) -> std::result::Result<ProbeFrame<S>, String>,
>(
    probe: ProbeView,
    decode: &D,
    verdicts: Verdicts<S>,
    description: Seq<char>,
    timeout: nat,
    expired: bool,
    known: Option<String>,
    outcome: Result<Look<ProbeFrame<S>>>,
    after: ProbeView,
) -> bool {
    match outcome {
        Ok(Look::Found(frame)) => can_find(probe, decode, verdicts, frame, after),
        Ok(Look::Nothing(reason)) => !expired && can_exhaust(
            probe,
            decode,
            verdicts,
            known,
            reason,
            after,
        ),
        Err(error) => can_founder(probe, decode, verdicts, error@, after) || (expired
            && exists|reason: Option<String>| #[trigger]
            can_exhaust(probe, decode, verdicts, known, reason, after) && error@ == expiry(
                description,
                timeout,
                reason,
            )),
    }
}

/// The outcome of a round is one of each inspection that can give the same
/// verdicts.
pub proof fn lemma_rounds_widen<
    S,
    D: Fn(&Vec<u8>) -> std::result::Result<ProbeFrame<S>, String>,
>(
    probe: ProbeView,
    decode: &D,
    narrow: Verdicts<S>,
    wide: Verdicts<S>,
    description: Seq<char>,
    timeout: nat,
    expired: bool,
    known: Option<String>,
    outcome: Result<Look<ProbeFrame<S>>>,
    after: ProbeView,
)
    requires
        rounds(probe, decode, narrow, description, timeout, expired, known, outcome, after),
        forall|frame: ProbeFrame<S>, verdict: Inspection| #[trigger]
            narrow(frame, verdict) ==> wide(frame, verdict),
    ensures
        rounds(probe, decode, wide, description, timeout, expired, known, outcome, after),
{
    assert forall|frames: Seq<ProbeFrame<S>>| turns_down(narrow, frames) implies #[trigger]
        turns_down(wide, frames) by {
        assert forall|i: int| 0 <= i < frames.len() implies #[trigger] declines(wide, frames[i]) by {
            assert(declines(narrow, frames[i]));
            let mismatch = choose|mismatch: Option<String>| #[trigger]
                narrow(frames[i], Err(mismatch));
            assert(wide(frames[i], Err(mismatch)));
        }
    }
    assert forall|seen: Seq<ProbeFrame<S>>, reason: Option<String>|
        exhausts(probe, decode, narrow, seen, known, reason, after) implies #[trigger] exhausts(
        probe,
        decode,
        wide,
        seen,
        known,
        reason,
        after,
    ) by {
        assert(turns_down(wide, seen));
    }
    assert forall|reason: Option<String>|
        can_exhaust(probe, decode, narrow, known, reason, after) implies #[trigger] can_exhaust(
        probe,
        decode,
        wide,
        known,
        reason,
        after,
    ) by {
        let seen = choose|seen: Seq<ProbeFrame<S>>| #[trigger]
            exhausts(probe, decode, narrow, seen, known, reason, after);
        assert(exhausts(probe, decode, wide, seen, known, reason, after));
    }
    match outcome {
        Ok(Look::Found(frame)) => {
            if !settles_on_newest(probe, decode, narrow, frame, after) {
                let passed = choose|passed: Seq<ProbeFrame<S>>| #[trigger]
                    settles(probe, decode, narrow, passed, frame, after);
                assert(turns_down(wide, passed));
                assert(settles(probe, decode, wide, passed, frame, after));
            } else {
                assert(settles_on_newest(probe, decode, wide, frame, after));
            }
        },
        Ok(Look::Nothing(reason)) => {
            assert(can_exhaust(probe, decode, wide, known, reason, after));
        },
        Err(error) => {
            if can_founder(probe, decode, narrow, error@, after) {
                let passed = choose|passed: Seq<ProbeFrame<S>>| #[trigger]
                    founders(probe, decode, narrow, passed, error@, after);
                assert(turns_down(wide, passed));
                assert(founders(probe, decode, wide, passed, error@, after));
            } else {
                let reason = choose|reason: Option<String>| #[trigger]
                    can_exhaust(probe, decode, narrow, known, reason, after) && error@ == expiry(
                        description,
                        timeout,
                        reason,
                    );
                assert(can_exhaust(probe, decode, wide, known, reason, after));
            }
        },
    }
}

impl Probe {
    /// Look for a frame among the records taken in, and at the newest one where
    /// there is none. `known` is why the last look failed.
    pub fn look<
        S,
        D: Fn(&Vec<u8>) -> std::result::Result<ProbeFrame<S>, String>,
        I: Fn(&ProbeFrame<S>) -> Inspection,
    >(&mut self, decode: &D, inspect: &I, known: Option<String>) -> (look: Result<Look<ProbeFrame<S>>>)
        requires
            forall|record: &Vec<u8>| #[trigger] decode.requires((record,)),
            forall|frame: &ProbeFrame<S>| #[trigger] inspect.requires((frame,)),
        ensures
            match look {
                Ok(Look::Found(frame)) => can_find(
                    old(self)@,
                    decode,
                    judging(inspect),
                    frame,
                    final(self)@,
                ),
                Ok(Look::Nothing(reason)) => can_exhaust(
                    old(self)@,
                    decode,
                    judging(inspect),
                    known,
                    reason,
                    final(self)@,
                ),
                Err(error) => can_founder(old(self)@, decode, judging(inspect), error@, final(self)@),
            },
    {
        let ghost before = self@;
        let ghost verdicts = judging(inspect);
        let ghost mut seen: Seq<ProbeFrame<S>> = seq![];
        let mut reason = known;
        let mut consumed = false;
        loop
            invariant_except_break
                takes(before, decode, seen),
                self@ == after_frames(before, seen),
                turns_down(verdicts, seen),
                last_reason(verdicts, seen, known, reason),
                consumed == (seen.len() > 0),
                before == old(self)@,
                verdicts == judging(inspect),
                forall|record: &Vec<u8>| #[trigger] decode.requires((record,)),
                forall|frame: &ProbeFrame<S>| #[trigger] inspect.requires((frame,)),
            ensures
                takes(before, decode, seen),
                self@ == after_frames(before, seen),
                turns_down(verdicts, seen),
                last_reason(verdicts, seen, known, reason),
                consumed == (seen.len() > 0),
                before == old(self)@,
                self@.pending.len() == 0,
            decreases self@.pending.len(),
        {
            let ghost at = self@;
            match self.take_next(decode) {
                Ok(Some(frame)) => {
                    consumed = true;
                    assert(seen.push(frame).drop_last() =~= seen);
                    match inspect(&frame) {
                        Ok(unit) => {
                            assert(unit == ());
                            assert(verdicts(frame, Ok(())));
                            assert(settles(before, decode, verdicts, seen, frame, self@));
                            return Ok(Look::Found(frame));
                        },
                        Err(mismatch) => {
                            assert(verdicts(frame, Err(mismatch)));
                            reason = mismatch;
                            assert(declines(verdicts, frame));
                            proof {
                                seen = seen.push(frame);
                            }
                        },
                    }
                },
                Ok(None) => {
                    break;
                },
                Err(error) => {
                    assert(founders(before, decode, verdicts, seen, error@, self@));
                    return Err(error);
                },
            }
        }
        if !consumed {
            assert(self@ == before);
            match self.current(decode) {
                Ok(Some(frame)) => match inspect(&frame) {
                    Ok(unit) => {
                        assert(unit == ());
                        assert(verdicts(frame, Ok(())));
                        assert(settles_on_newest(before, decode, verdicts, frame, self@));
                        return Ok(Look::Found(frame));
                    },
                    Err(mismatch) => {
                        assert(verdicts(frame, Err(mismatch)));
                        assert(self@.recalls(decode, frame));
                        assert(exhausts(before, decode, verdicts, seen, known, mismatch, self@));
                        return Ok(Look::Nothing(mismatch));
                    },
                },
                Ok(None) => {},
                Err(error) => {
                    assert(founders(before, decode, verdicts, seen, error@, self@));
                    return Err(error);
                },
            }
        }
        assert(exhausts(before, decode, verdicts, seen, known, reason, self@));
        Ok(Look::Nothing(reason))
    }

    /// One round of a wait, once the application has proved to be running: take
    /// in what the journal holds, look, and give up when the time is up.
    /// [`Look::Nothing`] asks for another round after [`LOOK_PAUSE_MS`].
    pub fn wait_inspecting<
        S,
        D: Fn(&Vec<u8>) -> std::result::Result<ProbeFrame<S>, String>,
        I: Fn(&ProbeFrame<S>) -> Inspection,
    >(
        &mut self,
        unread: seal::Result<Vec<u8>>,
        decode: &D,
        inspect: &I,
        waiting: Waiting<'_>,
    ) -> (round: Result<Look<ProbeFrame<S>>>)
        requires
            unread matches Ok(unread) ==> old(self)@.journal.position + unread@.len() <= u64::MAX,
            forall|record: &Vec<u8>| #[trigger] decode.requires((record,)),
            forall|frame: &ProbeFrame<S>| #[trigger] inspect.requires((frame,)),
        ensures
            match probe::refilled(old(self)@, unread) {
                Ok(probe) => rounds(
                    probe,
                    decode,
                    judging(inspect),
                    waiting.description@,
                    waiting.timeout@,
                    waiting.expired,
                    waiting.known,
                    round,
                    final(self)@,
                ),
                Err(error) => (round matches Err(found) && found@ == error) && final(self)@
                    == probe::missed(old(self)@, unread),
            },
    {
        match self.refill(unread) {
            Ok(_) => {},
            Err(error) => {
                return Err(error);
            },
        }
        let ghost probe = self@;
        let Waiting { description, timeout, expired, known } = waiting;
        match self.look(decode, inspect, known) {
            Ok(Look::Found(frame)) => Ok(Look::Found(frame)),
            Ok(Look::Nothing(reason)) => {
                if expired {
                    assert(can_exhaust(probe, decode, judging(inspect), waiting.known, reason, self@));
                    return Err(expire(description, timeout, reason));
                }
                Ok(Look::Nothing(reason))
            },
            Err(error) => Err(error),
        }
    }

    /// Read the newest complete journal record, never regressing.
    pub fn read<S, D: Fn(&Vec<u8>) -> std::result::Result<ProbeFrame<S>, String>>(
        &mut self,
        unread: seal::Result<Vec<u8>>,
        decode: &D,
    ) -> (newest: Result<ProbeFrame<S>>)
        requires
            unread matches Ok(unread) ==> old(self)@.journal.position + unread@.len() <= u64::MAX,
            forall|record: &Vec<u8>| #[trigger] decode.requires((record,)),
        ensures
            match probe::refilled(old(self)@, unread) {
                Ok(probe) => exists|frames: Seq<ProbeFrame<S>>| #[trigger]
                    reads(probe, decode, frames, newest, final(self)@),
                Err(error) => (newest matches Err(found) && found@ == error) && final(self)@
                    == probe::missed(old(self)@, unread),
            },
    {
        match self.refill(unread) {
            Ok(_) => {},
            Err(error) => {
                return Err(error);
            },
        }
        let ghost before = self@;
        let ghost mut frames: Seq<ProbeFrame<S>> = seq![];
        let mut newest: Option<ProbeFrame<S>> = None;
        loop
            invariant_except_break
                takes(before, decode, frames),
                self@ == after_frames(before, frames),
                match newest {
                    Some(frame) => frames.len() > 0 && frames.last() == frame,
                    None => frames.len() == 0,
                },
                probe::refilled(old(self)@, unread) == Ok::<ProbeView, ErrorView>(before),
                forall|record: &Vec<u8>| #[trigger] decode.requires((record,)),
            ensures
                takes(before, decode, frames),
                self@ == after_frames(before, frames),
                self@.pending.len() == 0,
                match newest {
                    Some(frame) => frames.len() > 0 && frames.last() == frame,
                    None => frames.len() == 0,
                },
                probe::refilled(old(self)@, unread) == Ok::<ProbeView, ErrorView>(before),
            decreases self@.pending.len(),
        {
            match self.take_next(decode) {
                Ok(Some(frame)) => {
                    proof {
                        assert(frames.push(frame).drop_last() =~= frames);
                        frames = frames.push(frame);
                    }
                    newest = Some(frame);
                },
                Ok(None) => {
                    break;
                },
                Err(error) => {
                    assert(reads(before, decode, frames, Err(error), self@));
                    return Err(error);
                },
            }
        }
        match newest {
            Some(frame) => {
                assert(reads(before, decode, frames, Ok(frame), self@));
                Ok(frame)
            },
            None => match self.current(decode) {
                Ok(Some(frame)) => {
                    assert(reads(before, decode, frames, Ok(frame), self@));
                    Ok(frame)
                },
                Ok(None) => {
                    let error = Error::Probe {
                        path: text::copy_bytes(self.path().as_slice()),
                        detail: "semantic journal contains no complete observation".to_owned(),
                    };
                    assert(reads(before, decode, frames, Err(error), self@));
                    Err(error)
                },
                Err(error) => {
                    assert(reads(before, decode, frames, Err(error), self@));
                    Err(error)
                },
            },
        }
    }
}

/// Whether reading everything a probe holds can come to an outcome: the last of
/// the new frames, the newest one read again where there is no new frame, or the
/// failure that stopped the reading.
pub open spec fn reads<S, D: Fn(&Vec<u8>) -> std::result::Result<ProbeFrame<S>, String>>(
    probe: ProbeView,
    decode: &D,
    frames: Seq<ProbeFrame<S>>,
    outcome: Result<ProbeFrame<S>>,
    after: ProbeView,
) -> bool {
    let whole = after_frames(probe, frames);
    &&& takes(probe, decode, frames)
    &&& match outcome {
        Ok(frame) => after == whole && whole.pending.len() == 0 && if frames.len() > 0 {
            frame == frames.last()
        } else {
            whole.recalls(decode, frame)
        },
        Err(error) => {
            ||| whole.stops(decode, error@) && after == whole.dropping()
            ||| frames.len() == 0 && whole.pending.len() == 0 && after == whole && match whole.current {
                Some(record) => whole.refuses(decode, record, error@),
                None => error@ == probe::refused(
                    probe.path,
                    "semantic journal contains no complete observation"@,
                ),
            }
        },
    }
}

/// A wait ends with a frame only where the inspection takes it, goes on only while there
/// is time and once everything new was looked at, and fails while there is time only for a
/// record that must be refused. Whatever frame passed by was turned down.
pub proof fn law_waits_end_with_what_they_inspect<
    S,
    D: Fn(&Vec<u8>) -> std::result::Result<ProbeFrame<S>, String>,
>(
    probe: ProbeView,
    decode: &D,
    verdicts: Verdicts<S>,
    description: Seq<char>,
    timeout: nat,
    expired: bool,
    known: Option<String>,
    outcome: Result<Look<ProbeFrame<S>>>,
    after: ProbeView,
)
    requires
        rounds(probe, decode, verdicts, description, timeout, expired, known, outcome, after),
    ensures
        match outcome {
            Ok(Look::Found(frame)) => verdicts(frame, Ok(())) && after.current is Some,
            Ok(Look::Nothing(_)) => !expired && after.pending.len() == 0,
            Err(error) => (error@ is Timeout || error@ is Condition) || error@ is Probe,
        },
        (outcome matches Err(error) && error@ is Timeout) ==> expired,
        outcome matches Ok(Look::Found(frame)) ==> probe.pending.len() == 0 || exists|
            passed: Seq<ProbeFrame<S>>,
        | #[trigger]
            takes(probe, decode, passed.push(frame)) && forall|i: int|
                0 <= i < passed.len() ==> #[trigger] declines(verdicts, passed[i]),
{
    if let Ok(Look::Found(frame)) = outcome {
        if !settles_on_newest(probe, decode, verdicts, frame, after) {
            let passed = choose|passed: Seq<ProbeFrame<S>>| #[trigger]
                settles(probe, decode, verdicts, passed, frame, after);
            assert(passed.push(frame).drop_last() =~= passed);
            assert(takes(probe, decode, passed.push(frame)));
        }
    }
}

} // verus!
