//! Waits for what a story names: a predicate, a target, its focus, or a presented
//! frame. Each is one round, once the application has proved to be running.
use crate::duration::Duration;
use crate::error::{ErrorView, Result};
use crate::probe;
use crate::probe::cues;
use crate::probe::cues::{anchor_wait, focus_wait, fresh_wait, inspect_anchor, inspect_checked, inspect_focus, inspect_fresh, inspect_presented, inspect_whether, presented_wait};
use crate::probe::reaction;
use crate::probe::reaction::{judge_whether, Judgements};
use crate::probe::wait;
use crate::probe::wait::{Inspection, Look, Verdicts, Waiting};
use crate::probe::{Probe, ProbeFrame, ProbeView};
use crate::text;
use crate::timing::{ActionReceipt, ReactionBudget, Timed};
use crate::witness::anchor::Anchor;
use crate::witness::error as seal;
use vstd::prelude::*;

verus! {

// ---------------------------------------------------------------------------
// What each wait looks for
// ---------------------------------------------------------------------------

/// Whether a predicate can give an answer on a frame.
pub open spec fn answers<S, P: Fn(&ProbeFrame<S>) -> bool>(
    predicate: &P,
    frame: ProbeFrame<S>,
    held: bool,
) -> bool {
    exists|seen: &ProbeFrame<S>| *seen == frame && #[trigger] predicate.ensures((seen,), held)
}

/// A predicate that holds or does not, with nothing to say when it does not.
pub open spec fn whether<S, P: Fn(&ProbeFrame<S>) -> bool>(predicate: &P) -> Verdicts<S> {
    |frame: ProbeFrame<S>, verdict: Inspection|
        match verdict {
            Ok(_) => answers(predicate, frame, true),
            Err(mismatch) => mismatch is None && answers(predicate, frame, false),
        }
}

/// Whether a predicate can give a verdict on a frame.
pub open spec fn decides<S, P: Fn(&ProbeFrame<S>) -> std::result::Result<(), String>>(
    predicate: &P,
    frame: ProbeFrame<S>,
    verdict: std::result::Result<(), String>,
) -> bool {
    exists|seen: &ProbeFrame<S>| *seen == frame && #[trigger] predicate.ensures((seen,), verdict)
}

/// A predicate that says why it does not hold.
pub open spec fn checked<S, P: Fn(&ProbeFrame<S>) -> std::result::Result<(), String>>(
    predicate: &P,
) -> Verdicts<S> {
    |frame: ProbeFrame<S>, verdict: Inspection|
        match verdict {
            Ok(_) => decides(predicate, frame, Ok(())),
            Err(mismatch) => mismatch matches Some(mismatch) && decides(
                predicate,
                frame,
                Err(mismatch),
            ),
        }
}

/// A predicate that a reaction must meet.
pub open spec fn matching<S, P: Fn(&ProbeFrame<S>) -> bool>(predicate: &P) -> Judgements<S> {
    |frame: ProbeFrame<S>, verdict: std::result::Result<(), String>|
        match verdict {
            Ok(_) => answers(predicate, frame, true),
            Err(mismatch) => answers(predicate, frame, false) && mismatch@
                == "semantic predicate did not match"@,
        }
}

/// A target in the frame.
pub open spec fn shows<S>(name: Seq<char>) -> Verdicts<S> {
    |frame: ProbeFrame<S>, verdict: Inspection|
        match verdict {
            Ok(_) => probe::anchor_named(frame.anchors@, name) is Some,
            Err(mismatch) => mismatch is None && probe::anchor_named(frame.anchors@, name) is None,
        }
}

/// A target in the frame that owns keyboard focus, or which targets do.
pub open spec fn focuses<S>(name: Seq<char>) -> Verdicts<S> {
    |frame: ProbeFrame<S>, verdict: Inspection|
        match verdict {
            Ok(_) => probe::focused_named(frame.anchors@, name) is Some,
            Err(mismatch) => probe::focused_named(frame.anchors@, name) is None && (
            mismatch matches Some(mismatch) && mismatch@ == cues::unfocused(
                frame.anchors@,
                name,
            )),
        }
}

/// A frame presented after a given one.
pub open spec fn newer<S>(prior: u64) -> Verdicts<S> {
    |frame: ProbeFrame<S>, verdict: Inspection|
        match verdict {
            Ok(_) => frame.surface_sequence > prior,
            Err(mismatch) => mismatch is None && frame.surface_sequence <= prior,
        }
}

// ---------------------------------------------------------------------------
// Rounds
// ---------------------------------------------------------------------------

/// Whether a round that begins with the journal's unread bytes can come to an
/// outcome.
pub open spec fn waited<S, D: Fn(&Vec<u8>) -> std::result::Result<ProbeFrame<S>, String>>(
    before: ProbeView,
    unread: seal::Result<Vec<u8>>,
    decode: &D,
    verdicts: Verdicts<S>,
    description: Seq<char>,
    timeout: nat,
    expired: bool,
    known: Option<String>,
    outcome: Result<Look<ProbeFrame<S>>>,
    after: ProbeView,
) -> bool {
    match probe::refilled(before, unread) {
        Ok(probe) => wait::rounds(
            probe,
            decode,
            verdicts,
            description,
            timeout,
            expired,
            known,
            outcome,
            after,
        ),
        Err(error) => (outcome matches Err(found) && found@ == error) && after == probe::missed(
            before,
            unread,
        ),
    }
}

/// Whether a round for a target can come to an outcome: the target of the frame
/// that the round found.
pub open spec fn resolved<S>(
    look: Result<Look<ProbeFrame<S>>>,
    target: spec_fn(ProbeFrame<S>) -> Option<Anchor>,
    outcome: Result<Look<Anchor>>,
) -> bool {
    match look {
        Ok(Look::Found(frame)) => outcome matches Ok(Look::Found(anchor)) && target(frame) == Some(
            anchor,
        ),
        Ok(Look::Nothing(reason)) => outcome == Ok::<_, crate::error::Error>(
            Look::<Anchor>::Nothing(reason),
        ),
        Err(error) => outcome == Err::<Look<Anchor>, _>(error),
    }
}

impl Probe {
    /// Wait for a predicate on the frame.
    pub fn wait<
        S,
        D: Fn(&Vec<u8>) -> std::result::Result<ProbeFrame<S>, String>,
        P: Fn(&ProbeFrame<S>) -> bool,
    >(
        &mut self,
        unread: seal::Result<Vec<u8>>,
        decode: &D,
        predicate: &P,
        waiting: Waiting<'_>,
    ) -> (round: Result<Look<ProbeFrame<S>>>)
        requires
            unread matches Ok(unread) ==> old(self)@.journal.position + unread@.len() <= u64::MAX,
            forall|record: &Vec<u8>| #[trigger] decode.requires((record,)),
            forall|frame: &ProbeFrame<S>| #[trigger] predicate.requires((frame,)),
        ensures
            waited(
                old(self)@,
                unread,
                decode,
                whether(predicate),
                waiting.description@,
                waiting.timeout@,
                waiting.expired,
                waiting.known,
                round,
                final(self)@,
            ),
    {
        let inspect = |frame: &ProbeFrame<S>| -> (verdict: Inspection)
            requires
                predicate.requires((frame,)),
            ensures
                whether(predicate)(*frame, verdict),
            {
                let held: bool = predicate(frame);
                assert(answers(predicate, *frame, held));
                inspect_whether(held)
            };
        let ghost before = self@;
        let round = self.wait_inspecting(unread, decode, &inspect, waiting);
        proof {
            if let Ok(probe) = probe::refilled(before, unread) {
                wait::lemma_rounds_widen(
                    probe,
                    decode,
                    wait::judging(&inspect),
                    whether(predicate),
                    waiting.description@,
                    waiting.timeout@,
                    waiting.expired,
                    waiting.known,
                    round,
                    self@,
                );
            }
        }
        round
    }

    /// Wait for a predicate that says why it does not hold.
    pub fn wait_checked<
        S,
        D: Fn(&Vec<u8>) -> std::result::Result<ProbeFrame<S>, String>,
        P: Fn(&ProbeFrame<S>) -> std::result::Result<(), String>,
    >(
        &mut self,
        unread: seal::Result<Vec<u8>>,
        decode: &D,
        predicate: &P,
        waiting: Waiting<'_>,
    ) -> (round: Result<Look<ProbeFrame<S>>>)
        requires
            unread matches Ok(unread) ==> old(self)@.journal.position + unread@.len() <= u64::MAX,
            forall|record: &Vec<u8>| #[trigger] decode.requires((record,)),
            forall|frame: &ProbeFrame<S>| #[trigger] predicate.requires((frame,)),
        ensures
            waited(
                old(self)@,
                unread,
                decode,
                checked(predicate),
                waiting.description@,
                waiting.timeout@,
                waiting.expired,
                waiting.known,
                round,
                final(self)@,
            ),
    {
        let inspect = |frame: &ProbeFrame<S>| -> (verdict: Inspection)
            requires
                predicate.requires((frame,)),
            ensures
                checked(predicate)(*frame, verdict),
            {
                let outcome = predicate(frame);
                assert(decides(predicate, *frame, outcome));
                assert(outcome matches Ok(unit) ==> unit == ());
                inspect_checked(outcome)
            };
        let ghost before = self@;
        let round = self.wait_inspecting(unread, decode, &inspect, waiting);
        proof {
            if let Ok(probe) = probe::refilled(before, unread) {
                wait::lemma_rounds_widen(
                    probe,
                    decode,
                    wait::judging(&inspect),
                    checked(predicate),
                    waiting.description@,
                    waiting.timeout@,
                    waiting.expired,
                    waiting.known,
                    round,
                    self@,
                );
            }
        }
        round
    }

    /// Wait for a target.
    pub fn wait_anchor<S, D: Fn(&Vec<u8>) -> std::result::Result<ProbeFrame<S>, String>>(
        &mut self,
        unread: seal::Result<Vec<u8>>,
        decode: &D,
        name: &str,
        timeout: Duration,
        expired: bool,
        known: Option<String>,
    ) -> (round: Result<Look<Anchor>>)
        requires
            unread matches Ok(unread) ==> old(self)@.journal.position + unread@.len() <= u64::MAX,
            forall|record: &Vec<u8>| #[trigger] decode.requires((record,)),
        ensures
            exists|look: Result<Look<ProbeFrame<S>>>| #[trigger]
                waited(
                    old(self)@,
                    unread,
                    decode,
                    shows(name@),
                    "witness anchor `"@ + name@ + "`"@,
                    timeout@,
                    expired,
                    known,
                    look,
                    final(self)@,
                ) && resolved(
                    look,
                    |frame: ProbeFrame<S>| probe::anchor_named(frame.anchors@, name@),
                    round,
                ),
            round matches Ok(Look::Found(anchor)) ==> anchor.name@ == name@,
            round matches Ok(Look::Nothing(_)) ==> !expired,
    {
        let inspect = |frame: &ProbeFrame<S>| -> (verdict: Inspection)
            ensures
                shows(name@)(*frame, verdict),
            { inspect_anchor(frame, name) };
        let description = anchor_wait(name);
        let waiting = Waiting { description: description.as_str(), timeout, expired, known };
        let ghost before = self@;
        let look = self.wait_inspecting(unread, decode, &inspect, waiting);
        proof {
            if let Ok(probe) = probe::refilled(before, unread) {
                wait::lemma_rounds_widen(
                    probe,
                    decode,
                    wait::judging(&inspect),
                    shows(name@),
                    description@,
                    timeout@,
                    expired,
                    known,
                    look,
                    self@,
                );
            }
        }
        assert(waited(
            before,
            unread,
            decode,
            shows(name@),
            description@,
            timeout@,
            expired,
            known,
            look,
            self@,
        ));
        match look {
            Ok(Look::Found(frame)) => {
                assert(shows(name@)(frame, Ok(())));
                proof {
                    probe::lemma_anchor_found(frame.anchors@, name@);
                }
                match self.resolve_anchor(&frame, name) {
                    Ok(anchor) => Ok(Look::Found(anchor)),
                    Err(error) => Err(error),
                }
            },
            Ok(Look::Nothing(reason)) => Ok(Look::Nothing(reason)),
            Err(error) => Err(error),
        }
    }

    /// Wait until a target owns keyboard focus in a presented frame.
    pub fn wait_focus<S, D: Fn(&Vec<u8>) -> std::result::Result<ProbeFrame<S>, String>>(
        &mut self,
        unread: seal::Result<Vec<u8>>,
        decode: &D,
        name: &str,
        timeout: Duration,
        expired: bool,
        known: Option<String>,
    ) -> (round: Result<Look<Anchor>>)
        requires
            unread matches Ok(unread) ==> old(self)@.journal.position + unread@.len() <= u64::MAX,
            forall|record: &Vec<u8>| #[trigger] decode.requires((record,)),
        ensures
            exists|look: Result<Look<ProbeFrame<S>>>| #[trigger]
                waited(
                    old(self)@,
                    unread,
                    decode,
                    focuses(name@),
                    "focus on witness anchor `"@ + name@ + "`"@,
                    timeout@,
                    expired,
                    known,
                    look,
                    final(self)@,
                ) && resolved(
                    look,
                    |frame: ProbeFrame<S>| probe::focused_named(frame.anchors@, name@),
                    round,
                ),
            round matches Ok(Look::Found(anchor)) ==> anchor.name@ == name@ && anchor.focused,
            round matches Ok(Look::Nothing(_)) ==> !expired,
    {
        let inspect = |frame: &ProbeFrame<S>| -> (verdict: Inspection)
            ensures
                focuses(name@)(*frame, verdict),
            { inspect_checked(inspect_focus(frame, name)) };
        let description = focus_wait(name);
        let waiting = Waiting { description: description.as_str(), timeout, expired, known };
        let ghost before = self@;
        let look = self.wait_inspecting(unread, decode, &inspect, waiting);
        proof {
            if let Ok(probe) = probe::refilled(before, unread) {
                wait::lemma_rounds_widen(
                    probe,
                    decode,
                    wait::judging(&inspect),
                    focuses(name@),
                    description@,
                    timeout@,
                    expired,
                    known,
                    look,
                    self@,
                );
            }
        }
        assert(waited(
            before,
            unread,
            decode,
            focuses(name@),
            description@,
            timeout@,
            expired,
            known,
            look,
            self@,
        ));
        match look {
            Ok(Look::Found(frame)) => {
                assert(focuses(name@)(frame, Ok(())));
                proof {
                    probe::lemma_anchor_found(frame.anchors@, name@);
                }
                match self.resolve_focus(&frame, name) {
                    Ok(anchor) => Ok(Look::Found(anchor)),
                    Err(error) => Err(error),
                }
            },
            Ok(Look::Nothing(reason)) => Ok(Look::Nothing(reason)),
            Err(error) => Err(error),
        }
    }

    /// Wait for a frame presented after the wait began. `prior` is the surface
    /// sequence at which it began.
    pub fn wait_fresh<S, D: Fn(&Vec<u8>) -> std::result::Result<ProbeFrame<S>, String>>(
        &mut self,
        unread: seal::Result<Vec<u8>>,
        decode: &D,
        prior: u64,
        timeout: Duration,
        expired: bool,
        known: Option<String>,
    ) -> (round: Result<Look<ProbeFrame<S>>>)
        requires
            unread matches Ok(unread) ==> old(self)@.journal.position + unread@.len() <= u64::MAX,
            forall|record: &Vec<u8>| #[trigger] decode.requires((record,)),
        ensures
            waited(
                old(self)@,
                unread,
                decode,
                newer(prior),
                "surface-presented observation newer than "@ + text::decimal(prior as nat),
                timeout@,
                expired,
                known,
                round,
                final(self)@,
            ),
            round matches Ok(Look::Found(frame)) ==> frame.surface_sequence > prior,
            round matches Ok(Look::Nothing(_)) ==> !expired,
    {
        let inspect = |frame: &ProbeFrame<S>| -> (verdict: Inspection)
            ensures
                newer(prior)(*frame, verdict),
            { inspect_fresh(frame, prior) };
        let description = fresh_wait(prior);
        let waiting = Waiting { description: description.as_str(), timeout, expired, known };
        let ghost before = self@;
        let round = self.wait_inspecting(unread, decode, &inspect, waiting);
        proof {
            if let Ok(probe) = probe::refilled(before, unread) {
                wait::lemma_rounds_widen(
                    probe,
                    decode,
                    wait::judging(&inspect),
                    newer(prior),
                    description@,
                    timeout@,
                    expired,
                    known,
                    round,
                    self@,
                );
                assert(round matches Ok(Look::Found(frame)) ==> newer(prior)(frame, Ok(())));
            }
        }
        round
    }

    /// Wait for the first frame that reached surface present.
    pub fn wait_surface_presented<
        S,
        D: Fn(&Vec<u8>) -> std::result::Result<ProbeFrame<S>, String>,
    >(
        &mut self,
        unread: seal::Result<Vec<u8>>,
        decode: &D,
        timeout: Duration,
        expired: bool,
        known: Option<String>,
    ) -> (round: Result<Look<ProbeFrame<S>>>)
        requires
            unread matches Ok(unread) ==> old(self)@.journal.position + unread@.len() <= u64::MAX,
            forall|record: &Vec<u8>| #[trigger] decode.requires((record,)),
        ensures
            waited(
                old(self)@,
                unread,
                decode,
                newer(0),
                "first product frame to reach surface present"@,
                timeout@,
                expired,
                known,
                round,
                final(self)@,
            ),
            round matches Ok(Look::Found(frame)) ==> frame.surface_sequence > 0,
            round matches Ok(Look::Nothing(_)) ==> !expired,
    {
        let inspect = |frame: &ProbeFrame<S>| -> (verdict: Inspection)
            ensures
                newer(0)(*frame, verdict),
            { inspect_presented(frame) };
        let waiting = Waiting { description: presented_wait(), timeout, expired, known };
        let ghost before = self@;
        let round = self.wait_inspecting(unread, decode, &inspect, waiting);
        proof {
            if let Ok(probe) = probe::refilled(before, unread) {
                wait::lemma_rounds_widen(
                    probe,
                    decode,
                    wait::judging(&inspect),
                    newer(0),
                    waiting.description@,
                    timeout@,
                    expired,
                    known,
                    round,
                    self@,
                );
                assert(round matches Ok(Look::Found(frame)) ==> newer(0)(frame, Ok(())));
            }
        }
        round
    }

    /// Await a post-trigger cue under a budget, with nothing to say of a frame that
    /// is not it. `prior` is the surface sequence at which the wait began.
    pub fn wait_budgeted<
        S,
        D: Fn(&Vec<u8>) -> std::result::Result<ProbeFrame<S>, String>,
        P: Fn(&ProbeFrame<S>) -> bool,
    >(
        &mut self,
        unread: seal::Result<Vec<u8>>,
        decode: &D,
        predicate: &P,
        prior: u64,
        receipt: &ActionReceipt,
        budget: ReactionBudget,
        waiting: Waiting<'_>,
    ) -> (round: Result<Look<Timed<ProbeFrame<S>>>>)
        requires
            unread matches Ok(unread) ==> old(self)@.journal.position + unread@.len() <= u64::MAX,
            forall|record: &Vec<u8>| #[trigger] decode.requires((record,)),
            forall|frame: &ProbeFrame<S>| #[trigger] predicate.requires((frame,)),
        ensures
            match probe::refilled(old(self)@, unread) {
                Ok(probe) => exists|passed: Seq<ProbeFrame<S>>| #[trigger]
                    reaction::reacts(
                        probe,
                        decode,
                        matching(predicate),
                        prior,
                        receipt@,
                        budget@,
                        waiting,
                        passed,
                        round,
                        final(self)@,
                    ),
                Err(error) => (round matches Err(found) && found@ == error) && final(self)@
                    == probe::missed(old(self)@, unread),
            },
    {
        let judge = |frame: &ProbeFrame<S>| -> (verdict: std::result::Result<(), String>)
            requires
                predicate.requires((frame,)),
            ensures
                matching(predicate)(*frame, verdict),
            {
                let held: bool = predicate(frame);
                assert(answers(predicate, *frame, held));
                judge_whether(held)
            };
        let ghost before = self@;
        let round = self.wait_budgeted_checked(
            unread,
            decode,
            &judge,
            prior,
            receipt,
            budget,
            waiting,
        );
        proof {
            if let Ok(probe) = probe::refilled(before, unread) {
                let passed = choose|passed: Seq<ProbeFrame<S>>| #[trigger]
                    reaction::reacts(
                        probe,
                        decode,
                        reaction::judging(&judge),
                        prior,
                        receipt@,
                        budget@,
                        waiting,
                        passed,
                        round,
                        self@,
                    );
                reaction::lemma_reacts_widens(
                    probe,
                    decode,
                    reaction::judging(&judge),
                    matching(predicate),
                    prior,
                    receipt@,
                    budget@,
                    waiting,
                    passed,
                    round,
                    self@,
                );
            }
        }
        round
    }
}

/// What each wait looks for is what it is named for: a target that the frame shows, a
/// target that holds the focus, and a frame that was presented later.
pub proof fn law_waits_look_for_what_they_name<S>(
    frame: ProbeFrame<S>,
    name: Seq<char>,
    prior: u64,
)
    ensures
        shows(name)(frame, Ok(())) <==> exists|i: int|
            0 <= i < frame.anchors@.len() && (#[trigger] frame.anchors@[i]).name@ == name,
        focuses(name)(frame, Ok(())) ==> exists|i: int|
            0 <= i < frame.anchors@.len() && (#[trigger] frame.anchors@[i]).name@ == name
                && frame.anchors@[i].focused,
        newer(prior)(frame, Ok(())) <==> frame.surface_sequence > prior,
{
    probe::lemma_anchor_found(frame.anchors@, name);
}

} // verus!
