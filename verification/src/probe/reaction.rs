//! Reactions awaited under a budget, and projections awaited until they rest.
use crate::duration::Duration;
use crate::error::{Error, ErrorView, Result};
use crate::probe;
use crate::probe::stability;
use crate::probe::stability::Stability;
use crate::probe::wait;
use crate::probe::wait::{Look, Waiting};
use crate::probe::{Probe, ProbeFrame, ProbeView};
use crate::timing::{ActionReceipt, ActionReceiptView, ReactionBudget, ReactionBudgetView, Timed};
use crate::witness::error as seal;
use vstd::prelude::*;
use vstd::std_specs::cmp::PartialEqSpec;

verus! {

// ---------------------------------------------------------------------------
// Reactions
// ---------------------------------------------------------------------------

/// Whether a frame may count as a reaction: it was presented after the wait
/// began, and neither its begin nor its end precedes the trigger.
///
/// Eligibility proves temporal ordering, not causation.
pub open spec fn eligible<S>(
    frame: &ProbeFrame<S>,
    prior: u64,
    receipt: ActionReceiptView,
    budget: ReactionBudgetView,
) -> bool {
    &&& frame.surface_sequence > prior
    &&& frame.begun_ns >= receipt.triggered_ns
    &&& budget.endpoint.chosen(frame.observed_ns, frame.surface_presented_ns)
        >= receipt.triggered_ns
}

/// Whether a predicate can give a verdict on a frame.
pub open spec fn judges<S, P: Fn(&ProbeFrame<S>) -> std::result::Result<(), String>>(
    predicate: &P,
    frame: ProbeFrame<S>,
    verdict: std::result::Result<(), String>,
) -> bool {
    exists|seen: &ProbeFrame<S>| *seen == frame && #[trigger] predicate.ensures((seen,), verdict)
}

/// The verdicts that a predicate can give on each frame.
pub type Judgements<S> = spec_fn(ProbeFrame<S>, std::result::Result<(), String>) -> bool;

/// The verdicts of a predicate.
pub open spec fn judging<S, P: Fn(&ProbeFrame<S>) -> std::result::Result<(), String>>(
    predicate: &P,
) -> Judgements<S> {
    |frame: ProbeFrame<S>, verdict: std::result::Result<(), String>|
        judges(predicate, frame, verdict)
}

/// Whether a predicate can reject a frame.
pub open spec fn rejects<S>(
    verdicts: Judgements<S>,
    frame: ProbeFrame<S>,
) -> bool {
    exists|mismatch: String| #[trigger] verdicts(frame, Err(mismatch))
}

/// Whether a reason is the last one given: for the last eligible of a series of
/// frames, or else the one known before.
pub open spec fn latest_reason<S>(
    verdicts: Judgements<S>,
    frames: Seq<ProbeFrame<S>>,
    prior: u64,
    receipt: ActionReceiptView,
    budget: ReactionBudgetView,
    known: Option<String>,
    reason: Option<String>,
) -> bool
    decreases frames.len(),
{
    if frames.len() == 0 {
        reason == known
    } else if eligible(&frames.last(), prior, receipt, budget) {
        reason matches Some(mismatch) && verdicts(frames.last(), Err(mismatch))
    } else {
        latest_reason(verdicts, frames.drop_last(), prior, receipt, budget, known, reason)
    }
}

/// Whether a series of frames holds no reaction: each one is ineligible or can
/// be rejected.
pub open spec fn unmoved<S>(
    verdicts: Judgements<S>,
    frames: Seq<ProbeFrame<S>>,
    prior: u64,
    receipt: ActionReceiptView,
    budget: ReactionBudgetView,
) -> bool {
    forall|i: int|
        0 <= i < frames.len() ==> #[trigger] passes_by(verdicts, frames[i], prior, receipt, budget)
}

/// Whether a frame is ineligible or can be rejected.
pub open spec fn passes_by<S>(
    verdicts: Judgements<S>,
    frame: ProbeFrame<S>,
    prior: u64,
    receipt: ActionReceiptView,
    budget: ReactionBudgetView,
) -> bool {
    !eligible(&frame, prior, receipt, budget) || rejects(verdicts, frame)
}

/// Whether one round of awaiting a reaction can come to an outcome, once the
/// frames `passed` went by: a reaction and its latency verdict, another round,
/// or a failure.
pub open spec fn reacts<
    S,
    D: Fn(&Vec<u8>) -> std::result::Result<ProbeFrame<S>, String>,
>(
    probe: ProbeView,
    decode: &D,
    verdicts: Judgements<S>,
    prior: u64,
    receipt: ActionReceiptView,
    budget: ReactionBudgetView,
    waiting: Waiting<'_>,
    passed: Seq<ProbeFrame<S>>,
    outcome: Result<Look<Timed<ProbeFrame<S>>>>,
    after: ProbeView,
) -> bool {
    let whole = wait::after_frames(probe, passed);
    &&& wait::takes(probe, decode, passed)
    &&& unmoved(verdicts, passed, prior, receipt, budget)
    &&& match outcome {
        Ok(Look::Found(timed)) => meets(
            whole,
            decode,
            verdicts,
            prior,
            receipt,
            budget,
            waiting.description@,
            timed.subject(),
            Ok(timed.latency()),
            after,
        ),
        Ok(Look::Nothing(reason)) => !waiting.expired && whole.pending.len() == 0 && after == whole
            && latest_reason(verdicts, passed, prior, receipt, budget, waiting.known, reason),
        Err(error) => {
            ||| whole.stops(decode, error@) && after == whole.dropping()
            ||| exists|frame: ProbeFrame<S>| #[trigger]
                meets(
                    whole,
                    decode,
                    verdicts,
                    prior,
                    receipt,
                    budget,
                    waiting.description@,
                    frame,
                    Err(error@),
                    after,
                )
            ||| waiting.expired && whole.pending.len() == 0 && after == whole && exists|
                reason: Option<String>,
            | #[trigger]
                latest_reason(verdicts, passed, prior, receipt, budget, waiting.known, reason)
                    && error@ == wait::expiry(
                    waiting.description@,
                    waiting.timeout@,
                    reason,
                )
        },
    }
}

/// Whether the next frame can be the reaction, with a latency verdict.
pub open spec fn meets<
    S,
    D: Fn(&Vec<u8>) -> std::result::Result<ProbeFrame<S>, String>,
>(
    probe: ProbeView,
    decode: &D,
    verdicts: Judgements<S>,
    prior: u64,
    receipt: ActionReceiptView,
    budget: ReactionBudgetView,
    description: Seq<char>,
    frame: ProbeFrame<S>,
    verdict: std::result::Result<nat, ErrorView>,
    after: ProbeView,
) -> bool {
    &&& probe.gives(decode, frame)
    &&& eligible(&frame, prior, receipt, budget)
    &&& verdicts(frame, Ok(()))
    &&& verdict == budget.verdict(
        description,
        receipt.triggered_ns,
        budget.endpoint.chosen(frame.observed_ns, frame.surface_presented_ns),
    )
    &&& after == probe.advanced(&frame)
}

/// The outcome of a round is one of each predicate that can give the same verdicts.
pub proof fn lemma_reacts_widens<
    S,
    D: Fn(&Vec<u8>) -> std::result::Result<ProbeFrame<S>, String>,
>(
    probe: ProbeView,
    decode: &D,
    narrow: Judgements<S>,
    wide: Judgements<S>,
    prior: u64,
    receipt: ActionReceiptView,
    budget: ReactionBudgetView,
    waiting: Waiting<'_>,
    passed: Seq<ProbeFrame<S>>,
    outcome: Result<Look<Timed<ProbeFrame<S>>>>,
    after: ProbeView,
)
    requires
        reacts(
            probe,
            decode,
            narrow,
            prior,
            receipt,
            budget,
            waiting,
            passed,
            outcome,
            after,
        ),
        forall|frame: ProbeFrame<S>, verdict: std::result::Result<(), String>| #[trigger]
            narrow(frame, verdict) ==> wide(frame, verdict),
    ensures
        reacts(probe, decode, wide, prior, receipt, budget, waiting, passed, outcome, after),
{
    assert(unmoved(wide, passed, prior, receipt, budget)) by {
        assert forall|i: int| 0 <= i < passed.len() implies #[trigger] passes_by(
            wide,
            passed[i],
            prior,
            receipt,
            budget,
        ) by {
            assert(passes_by(narrow, passed[i], prior, receipt, budget));
            if rejects(narrow, passed[i]) {
                let mismatch = choose|mismatch: String| #[trigger]
                    narrow(passed[i], Err(mismatch));
                assert(wide(passed[i], Err(mismatch)));
            }
        }
    }
    assert forall|reason: Option<String>|
        latest_reason(
            narrow,
            passed,
            prior,
            receipt,
            budget,
            waiting.known,
            reason,
        ) implies #[trigger] latest_reason(
        wide,
        passed,
        prior,
        receipt,
        budget,
        waiting.known,
        reason,
    ) by {
        lemma_reason_widens(
            narrow,
            wide,
            passed,
            prior,
            receipt,
            budget,
            waiting.known,
            reason,
        );
    }
    let whole = wait::after_frames(probe, passed);
    match outcome {
        Ok(Look::Found(_)) => {},
        Ok(Look::Nothing(reason)) => {
            assert(latest_reason(wide, passed, prior, receipt, budget, waiting.known, reason));
        },
        Err(error) => {
            if exists|frame: ProbeFrame<S>| #[trigger]
                meets(
                    whole,
                    decode,
                    narrow,
                    prior,
                    receipt,
                    budget,
                    waiting.description@,
                    frame,
                    Err(error@),
                    after,
                ) {
                let frame = choose|frame: ProbeFrame<S>| #[trigger]
                    meets(
                        whole,
                        decode,
                        narrow,
                        prior,
                        receipt,
                        budget,
                        waiting.description@,
                        frame,
                        Err(error@),
                        after,
                    );
                assert(meets(
                    whole,
                    decode,
                    wide,
                    prior,
                    receipt,
                    budget,
                    waiting.description@,
                    frame,
                    Err(error@),
                    after,
                ));
            } else if !(whole.stops(decode, error@) && after == whole.dropping()) {
                let reason = choose|reason: Option<String>| #[trigger]
                    latest_reason(
                        narrow,
                        passed,
                        prior,
                        receipt,
                        budget,
                        waiting.known,
                        reason,
                    ) && error@ == wait::expiry(waiting.description@, waiting.timeout@, reason);
                assert(latest_reason(
                    wide,
                    passed,
                    prior,
                    receipt,
                    budget,
                    waiting.known,
                    reason,
                ));
            }
        },
    }
}

proof fn lemma_reason_widens<S>(
    narrow: Judgements<S>,
    wide: Judgements<S>,
    frames: Seq<ProbeFrame<S>>,
    prior: u64,
    receipt: ActionReceiptView,
    budget: ReactionBudgetView,
    known: Option<String>,
    reason: Option<String>,
)
    requires
        latest_reason(narrow, frames, prior, receipt, budget, known, reason),
        forall|frame: ProbeFrame<S>, verdict: std::result::Result<(), String>| #[trigger]
            narrow(frame, verdict) ==> wide(frame, verdict),
    ensures
        latest_reason(wide, frames, prior, receipt, budget, known, reason),
    decreases frames.len(),
{
    if frames.len() > 0 && !eligible(&frames.last(), prior, receipt, budget) {
        lemma_reason_widens(
            narrow,
            wide,
            frames.drop_last(),
            prior,
            receipt,
            budget,
            known,
            reason,
        );
    }
}

impl Probe {
    /// One round of awaiting a post-trigger semantic cue, once the application
    /// has proved to be running. `prior` is the surface sequence at which the
    /// wait began. The first eligible frame that the predicate accepts is held
    /// to the budget.
    ///
    /// Eligibility proves temporal ordering, not causation. The witness is a
    /// synchronization surface; a user-valued story claim still needs an
    /// external rendered or durable oracle.
    pub fn wait_budgeted_checked<
        S,
        D: Fn(&Vec<u8>) -> std::result::Result<ProbeFrame<S>, String>,
        P: Fn(&ProbeFrame<S>) -> std::result::Result<(), String>,
    >(
        &mut self,
        unread: seal::Result<Vec<u8>>,
        decode: &D,
        predicate: &P,
        prior: u64,
        receipt: &ActionReceipt,
        budget: ReactionBudget,
        waiting: Waiting<'_>,
    ) -> (round: Result<Look<Timed<ProbeFrame<S>>>>)
        requires
            unread matches Ok(unread) ==> old(self)@.journal.position + unread@.len() <= u64::MAX,
            forall|record: &Vec<u8>| #[trigger] decode.requires((record,)),
            forall|frame: &ProbeFrame<S>| #[trigger] predicate.requires((frame,)),
        ensures
            match probe::refilled(old(self)@, unread) {
                Ok(probe) => exists|passed: Seq<ProbeFrame<S>>| #[trigger]
                    reacts(
                        probe,
                        decode,
                        judging(predicate),
                        prior,
                        receipt@,
                        budget@,
                        waiting,
                        passed,
                        round,
                        final(self)@,
                    ),
                Err(error) => (round matches Err(found) && found@ == error) && final(self)@
                    == probe::missed(old(self)@, unread),
            },
    {
        match self.refill(unread) {
            Ok(_) => {},
            Err(error) => {
                return Err(error);
            },
        }
        let ghost before = self@;
        let ghost verdicts = judging(predicate);
        let ghost mut passed: Seq<ProbeFrame<S>> = seq![];
        let Waiting { description, timeout, expired, known } = waiting;
        let mut reason = known;
        let endpoint = budget.endpoint();
        let triggered_ns: u64 = receipt.triggered_ns();
        loop
            invariant_except_break
                wait::takes(before, decode, passed),
                self@ == wait::after_frames(before, passed),
                unmoved(verdicts, passed, prior, receipt@, budget@),
                latest_reason(verdicts, passed, prior, receipt@, budget@, waiting.known, reason),
                probe::refilled(old(self)@, unread) == Ok::<ProbeView, ErrorView>(before),
                endpoint == budget@.endpoint,
                triggered_ns == receipt@.triggered_ns,
                description@ == waiting.description@,
                verdicts == judging(predicate),
                forall|record: &Vec<u8>| #[trigger] decode.requires((record,)),
                forall|frame: &ProbeFrame<S>| #[trigger] predicate.requires((frame,)),
            ensures
                wait::takes(before, decode, passed),
                self@ == wait::after_frames(before, passed),
                self@.pending.len() == 0,
                unmoved(verdicts, passed, prior, receipt@, budget@),
                latest_reason(verdicts, passed, prior, receipt@, budget@, waiting.known, reason),
                probe::refilled(old(self)@, unread) == Ok::<ProbeView, ErrorView>(before),
                description@ == waiting.description@,
            decreases self@.pending.len(),
        {
            match self.take_next(decode) {
                Ok(Some(frame)) => {
                    let timestamp: u64 = endpoint.timestamp(
                        frame.observed_ns,
                        frame.surface_presented_ns,
                    );
                    assert(passed.push(frame).drop_last() =~= passed);
                    if frame.surface_sequence <= prior || frame.begun_ns < triggered_ns || timestamp
                        < triggered_ns {
                        assert(passes_by(verdicts, frame, prior, receipt@, budget@));
                        proof {
                            passed = passed.push(frame);
                        }
                    } else {
                        match predicate(&frame) {
                            Ok(unit) => {
                                assert(unit == ());
                                assert(verdicts(frame, Ok(())));
                                let ghost found = frame;
                                let timed = budget.adjudicate(
                                    description,
                                    receipt,
                                    timestamp,
                                    frame,
                                );
                                return match timed {
                                    Ok(timed) => {
                                        let outcome = Ok(Look::Found(timed));
                                        assert(reacts(
                                            before,
                                            decode,
                                            verdicts,
                                            prior,
                                            receipt@,
                                            budget@,
                                            waiting,
                                            passed,
                                            outcome,
                                            self@,
                                        ));
                                        outcome
                                    },
                                    Err(error) => {
                                        assert(meets(
                                            wait::after_frames(before, passed),
                                            decode,
                                            verdicts,
                                            prior,
                                            receipt@,
                                            budget@,
                                            waiting.description@,
                                            found,
                                            Err(error@),
                                            self@,
                                        ));
                                        let outcome = Err(error);
                                        assert(reacts(
                                            before,
                                            decode,
                                            verdicts,
                                            prior,
                                            receipt@,
                                            budget@,
                                            waiting,
                                            passed,
                                            outcome,
                                            self@,
                                        ));
                                        outcome
                                    },
                                };
                            },
                            Err(mismatch) => {
                                assert(verdicts(frame, Err(mismatch)));
                                assert(rejects(verdicts, frame));
                                assert(passes_by(verdicts, frame, prior, receipt@, budget@));
                                reason = Some(mismatch);
                                proof {
                                    passed = passed.push(frame);
                                }
                            },
                        }
                    }
                },
                Ok(None) => {
                    break;
                },
                Err(error) => {
                    let outcome: Result<Look<Timed<ProbeFrame<S>>>> = Err(error);
                    assert(reacts(
                        before,
                        decode,
                        verdicts,
                        prior,
                        receipt@,
                        budget@,
                        waiting,
                        passed,
                        outcome,
                        self@,
                    ));
                    return outcome;
                },
            }
        }
        let outcome: Result<Look<Timed<ProbeFrame<S>>>> = if expired {
            Err(wait::expire(description, timeout, reason))
        } else {
            Ok(Look::Nothing(reason))
        };
        assert(reacts(
            before,
            decode,
            verdicts,
            prior,
            receipt@,
            budget@,
            waiting,
            passed,
            outcome,
            self@,
        ));
        outcome
    }
}

/// Every reaction that is accepted was presented after the wait began and did
/// not begin before its trigger.
pub proof fn law_reactions_follow_their_trigger<
    S,
    D: Fn(&Vec<u8>) -> std::result::Result<ProbeFrame<S>, String>,
>(
    probe: ProbeView,
    decode: &D,
    verdicts: Judgements<S>,
    prior: u64,
    receipt: ActionReceiptView,
    budget: ReactionBudgetView,
    waiting: Waiting<'_>,
    passed: Seq<ProbeFrame<S>>,
    timed: Timed<ProbeFrame<S>>,
    after: ProbeView,
)
    requires
        reacts(
            probe,
            decode,
            verdicts,
            prior,
            receipt,
            budget,
            waiting,
            passed,
            Ok(Look::Found(timed)),
            after,
        ),
    ensures
        timed.subject().surface_sequence > prior,
        timed.subject().begun_ns >= receipt.triggered_ns,
        after.cursor == probe::cursor_at(&timed.subject()),
{
}

/// When a frame ends, as a budget judges it.
pub open spec fn ended<S>(frame: ProbeFrame<S>, budget: ReactionBudgetView) -> u64 {
    if budget.endpoint is SurfacePresent {
        frame.surface_presented_ns
    } else {
        frame.observed_ns
    }
}

/// Whether a frame came too early to be a reaction: it was presented before the wait
/// began, or it began or ended before the trigger.
pub open spec fn too_early<S>(
    frame: ProbeFrame<S>,
    prior: u64,
    receipt: ActionReceiptView,
    budget: ReactionBudgetView,
) -> bool {
    ||| frame.surface_sequence <= prior
    ||| frame.begun_ns < receipt.triggered_ns
    ||| ended(frame, budget) < receipt.triggered_ns
}

/// A reaction is the first frame that did not come too early and that the predicate
/// accepts: each frame before it came too early or was rejected. It took the time from the
/// trigger to its end, and no longer than a declared limit. Another round follows only
/// while there is time, and only once every frame was looked at.
pub proof fn law_reactions_are_the_first_match<
    S,
    D: Fn(&Vec<u8>) -> std::result::Result<ProbeFrame<S>, String>,
>(
    probe: ProbeView,
    decode: &D,
    verdicts: Judgements<S>,
    prior: u64,
    receipt: ActionReceiptView,
    budget: ReactionBudgetView,
    waiting: Waiting<'_>,
    passed: Seq<ProbeFrame<S>>,
    outcome: Result<Look<Timed<ProbeFrame<S>>>>,
    after: ProbeView,
)
    requires
        reacts(probe, decode, verdicts, prior, receipt, budget, waiting, passed, outcome, after),
    ensures
        forall|i: int|
            0 <= i < passed.len() ==> too_early(#[trigger] passed[i], prior, receipt, budget)
                || exists|mismatch: String| #[trigger] verdicts(passed[i], Err(mismatch)),
        outcome matches Ok(Look::Found(timed)) ==> {
            let frame = timed.subject();
            &&& !too_early(frame, prior, receipt, budget)
            &&& verdicts(frame, Ok(()))
            &&& timed.latency() == ended(frame, budget) - receipt.triggered_ns
            &&& budget.production matches Some(limit) ==> timed.latency() <= limit
        },
        outcome matches Ok(Look::Nothing(_)) ==> !waiting.expired && after.pending.len() == 0,
{
    assert forall|i: int| 0 <= i < passed.len() implies too_early(
        #[trigger] passed[i],
        prior,
        receipt,
        budget,
    ) || exists|mismatch: String| #[trigger] verdicts(passed[i], Err(mismatch)) by {
        assert(passes_by(verdicts, passed[i], prior, receipt, budget));
    }
}

/// A predicate with nothing to say when it rejects a frame.
pub fn judge_whether(held: bool) -> (verdict: std::result::Result<(), String>)
    ensures
        match verdict {
            Ok(_) => held,
            Err(mismatch) => !held && mismatch@ == "semantic predicate did not match"@,
        },
{
    if held {
        Ok(())
    } else {
        Err("semantic predicate did not match".to_owned())
    }
}

// ---------------------------------------------------------------------------
// Rest
// ---------------------------------------------------------------------------

/// Whether a projection can give a value of a frame.
pub open spec fn projects<S, T, P: Fn(&ProbeFrame<S>) -> Option<T>>(
    project: &P,
    frame: ProbeFrame<S>,
    value: Option<T>,
) -> bool {
    exists|seen: &ProbeFrame<S>| *seen == frame && #[trigger] project.ensures((seen,), value)
}

/// Whether a clock can read a time for the observation with this ordinal.
pub open spec fn ticks<C: Fn(usize) -> Duration>(clock: &C, ordinal: int, now: nat) -> bool {
    exists|at: usize, time: Duration|
        at == ordinal && time@ == now && #[trigger] clock.ensures((at,), time)
}

/// Whether the observation with this ordinal can be that of a frame, as a projection
/// at a time, or as nothing.
pub open spec fn marks<S, T, P: Fn(&ProbeFrame<S>) -> Option<T>, C: Fn(usize) -> Duration>(
    project: &P,
    clock: &C,
    ordinal: int,
    frame: ProbeFrame<S>,
    event: Option<(T, nat)>,
) -> bool {
    match event {
        Some((value, now)) => projects(project, frame, Some(value)) && ticks(clock, ordinal, now),
        None => projects(project, frame, None::<T>),
    }
}

/// Whether a frame is the newest: the last new one, or the newest one read again
/// where there is no new one.
pub open spec fn newest<S, D: Fn(&Vec<u8>) -> std::result::Result<ProbeFrame<S>, String>>(
    probe: ProbeView,
    decode: &D,
    frames: Seq<ProbeFrame<S>>,
    frame: ProbeFrame<S>,
) -> bool {
    if frames.len() > 0 {
        frame == frames.last()
    } else {
        probe.recalls(decode, frame)
    }
}

/// Whether the newest frame, observed once more, can be at rest: where values keep to
/// their equality, its projection carries on a streak that is long enough.
pub open spec fn at_rest<S, T: PartialEq, P: Fn(&ProbeFrame<S>) -> Option<T>, C: Fn(usize) -> Duration>(
    project: &P,
    clock: &C,
    ordinal: int,
    frame: ProbeFrame<S>,
    streak: Option<(T, nat)>,
    quiet: nat,
) -> bool {
    exists|value: T, now: nat| #[trigger]
        marks(project, clock, ordinal, frame, Some((value, now))) && (streak matches Some((_, begun))
            && stability::since(now, begun) >= quiet) && (T::obeys_eq_spec() ==> stability::settled(
            streak,
            value,
            now,
            quiet,
        ))
}

/// Whether a round can end without rest, and leave a streak: there is no frame
/// at all, or the newest one is observed once more and is not at rest.
pub open spec fn restless<
    S,
    T: PartialEq,
    D: Fn(&Vec<u8>) -> std::result::Result<ProbeFrame<S>, String>,
    P: Fn(&ProbeFrame<S>) -> Option<T>,
    C: Fn(usize) -> Duration,
>(
    probe: ProbeView,
    decode: &D,
    project: &P,
    clock: &C,
    frames: Seq<ProbeFrame<S>>,
    quiet: nat,
    streak: Option<(T, nat)>,
    left: Option<(T, nat)>,
) -> bool {
    ||| frames.len() == 0 && probe.current is None && left == streak
    ||| exists|frame: ProbeFrame<S>, event: Option<(T, nat)>| #[trigger]
        marks(project, clock, frames.len() as int, frame, event) && newest(
            probe,
            decode,
            frames,
            frame,
        ) && follows(streak, event, left) && (T::obeys_eq_spec() ==> !(event matches Some(
            (value, now),
        ) && stability::settled(streak, value, now, quiet)))
}

/// Whether an observation can leave a streak so: nothing ends it, and a value carries
/// it on or begins another, where values keep to their equality by what they are.
pub open spec fn follows<T: PartialEq>(
    streak: Option<(T, nat)>,
    event: Option<(T, nat)>,
    left: Option<(T, nat)>,
) -> bool {
    match event {
        Some((value, now)) => (left == streak || left == event) && (T::obeys_eq_spec() ==> left
            == stability::streak_after(streak, value, now)),
        None => left is None,
    }
}

/// Whether a series of observations can leave these streaks, the earlier one first.
pub open spec fn follows_by<T: PartialEq>(
    streaks: Seq<Option<(T, nat)>>,
    events: Seq<Option<(T, nat)>>,
) -> bool {
    &&& streaks.len() == events.len() + 1
    &&& forall|i: int|
        0 <= i < events.len() ==> follows(streaks[i], #[trigger] events[i], streaks[i + 1])
}

/// Where values keep to their equality, the streak that observations leave behind
/// nothing is the one that their series has.
pub proof fn law_streaks_are_those_of_their_series<T: PartialEq>(
    streaks: Seq<Option<(T, nat)>>,
    events: Seq<Option<(T, nat)>>,
)
    requires
        T::obeys_eq_spec(),
        follows_by(streaks, events),
        streaks[0] is None,
    ensures
        streaks.last() == stability::streak_of(events),
    decreases events.len(),
{
    if events.len() > 0 {
        let last = events.len() - 1;
        let fewer = events.drop_last();
        let earlier = streaks.drop_last();
        assert(follows_by(earlier, fewer)) by {
            assert forall|i: int| 0 <= i < fewer.len() implies follows(
                earlier[i],
                #[trigger] fewer[i],
                earlier[i + 1],
            ) by {
                assert(fewer[i] == events[i]);
            }
        }
        law_streaks_are_those_of_their_series(earlier, fewer);
        assert(follows(streaks[last], events[last], streaks[last + 1]));
    }
}

/// Whether one round of awaiting rest can come to an outcome, once the new frames
/// were observed as `events`.
pub open spec fn rests<
    S,
    T: PartialEq,
    D: Fn(&Vec<u8>) -> std::result::Result<ProbeFrame<S>, String>,
    P: Fn(&ProbeFrame<S>) -> Option<T>,
    C: Fn(usize) -> Duration,
>(
    probe: ProbeView,
    decode: &D,
    project: &P,
    clock: &C,
    quiet: nat,
    waiting: Waiting<'_>,
    streak: Option<(T, nat)>,
    frames: Seq<ProbeFrame<S>>,
    events: Seq<Option<(T, nat)>>,
    streaks: Seq<Option<(T, nat)>>,
    outcome: Result<Look<ProbeFrame<S>>>,
    after: ProbeView,
    left: Option<(T, nat)>,
) -> bool {
    let whole = wait::after_frames(probe, frames);
    let reached = streaks.last();
    &&& wait::takes(probe, decode, frames)
    &&& events.len() == frames.len()
    &&& forall|i: int|
        0 <= i < frames.len() ==> #[trigger] marks(project, clock, i, frames[i], events[i])
    &&& follows_by(streaks, events)
    &&& streaks[0] == streak
    &&& match outcome {
        Ok(Look::Found(frame)) => whole.pending.len() == 0 && after == whole && newest(
            whole,
            decode,
            frames,
            frame,
        ) && at_rest(project, clock, frames.len() as int, frame, reached, quiet) && left == reached,
        Ok(Look::Nothing(reason)) => !waiting.expired && reason is None && whole.pending.len() == 0
            && after == whole && restless(
            whole,
            decode,
            project,
            clock,
            frames,
            quiet,
            reached,
            left,
        ),
        Err(error) => {
            ||| whole.stops(decode, error@) && after == whole.dropping() && left == reached
            ||| frames.len() == 0 && whole.pending.len() == 0 && after == whole && left == reached
                && (whole.current matches Some(record) && whole.refuses(decode, record, error@))
            ||| waiting.expired && whole.pending.len() == 0 && after == whole && restless(
                whole,
                decode,
                project,
                clock,
                frames,
                quiet,
                reached,
                left,
            ) && error@ == (ErrorView::Timeout {
                waiting: waiting.description@,
                timeout: waiting.timeout@,
            })
        },
    }
}

impl Probe {
    /// One round of waiting until a semantic projection remains unchanged for
    /// `quiet`, once the application has proved to be running. Every new frame
    /// is observed, and the newest one once more. A frame without a projection
    /// breaks the streak. `clock` is read anew for every observation.
    pub fn wait_stable<
        S,
        T: PartialEq,
        D: Fn(&Vec<u8>) -> std::result::Result<ProbeFrame<S>, String>,
        P: Fn(&ProbeFrame<S>) -> Option<T>,
        C: Fn(usize) -> Duration,
    >(
        &mut self,
        unread: seal::Result<Vec<u8>>,
        decode: &D,
        project: &P,
        clock: &C,
        quiet: Duration,
        stable: &mut Stability<T>,
        waiting: Waiting<'_>,
    ) -> (round: Result<Look<ProbeFrame<S>>>)
        requires
            unread matches Ok(unread) ==> old(self)@.journal.position + unread@.len() <= u64::MAX,
            forall|record: &Vec<u8>| #[trigger] decode.requires((record,)),
            forall|frame: &ProbeFrame<S>| #[trigger] project.requires((frame,)),
            forall|ordinal: usize| #[trigger] clock.requires((ordinal,)),
        ensures
            match probe::refilled(old(self)@, unread) {
                Ok(probe) => exists|
                    frames: Seq<ProbeFrame<S>>,
                    events: Seq<Option<(T, nat)>>,
                    streaks: Seq<Option<(T, nat)>>,
                | #[trigger]
                    rests(
                        probe,
                        decode,
                        project,
                        clock,
                        quiet@,
                        waiting,
                        old(stable)@,
                        frames,
                        events,
                        streaks,
                        round,
                        final(self)@,
                        final(stable)@,
                    ),
                Err(error) => (round matches Err(found) && found@ == error) && final(self)@
                    == probe::missed(old(self)@, unread) && final(stable)@ == old(stable)@,
            },
    {
        match self.refill(unread) {
            Ok(_) => {},
            Err(error) => {
                return Err(error);
            },
        }
        let ghost before = self@;
        let ghost origin = stable@;
        let ghost mut frames: Seq<ProbeFrame<S>> = seq![];
        let ghost mut events: Seq<Option<(T, nat)>> = seq![];
        let ghost mut streaks: Seq<Option<(T, nat)>> = seq![stable@];
        let total: usize = self.untaken();
        let mut seen: usize = 0;
        let Waiting { description, timeout, expired, known: _ } = waiting;
        let mut latest: Option<ProbeFrame<S>> = None;
        loop
            invariant_except_break
                wait::takes(before, decode, frames),
                self@ == wait::after_frames(before, frames),
                events.len() == frames.len(),
                forall|i: int|
                    0 <= i < frames.len() ==> #[trigger] marks(project, clock, i, frames[i], events[i]),
                follows_by(streaks, events),
                streaks[0] == origin,
                stable@ == streaks.last(),
                seen == frames.len(),
                match latest {
                    Some(frame) => frames.len() > 0 && frames.last() == frame,
                    None => frames.len() == 0,
                },
                origin == old(stable)@,
                probe::refilled(old(self)@, unread) == Ok::<ProbeView, ErrorView>(before),
                forall|record: &Vec<u8>| #[trigger] decode.requires((record,)),
                forall|frame: &ProbeFrame<S>| #[trigger] project.requires((frame,)),
                forall|ordinal: usize| #[trigger] clock.requires((ordinal,)),
                seen + self@.pending.len() == total,
            ensures
                wait::takes(before, decode, frames),
                self@ == wait::after_frames(before, frames),
                self@.pending.len() == 0,
                events.len() == frames.len(),
                forall|i: int|
                    0 <= i < frames.len() ==> #[trigger] marks(project, clock, i, frames[i], events[i]),
                follows_by(streaks, events),
                streaks[0] == origin,
                stable@ == streaks.last(),
                seen == frames.len(),
                match latest {
                    Some(frame) => frames.len() > 0 && frames.last() == frame,
                    None => frames.len() == 0,
                },
                origin == old(stable)@,
                probe::refilled(old(self)@, unread) == Ok::<ProbeView, ErrorView>(before),
            decreases self@.pending.len(),
        {
            match self.take_next(decode) {
                Ok(Some(frame)) => {
                    let ghost event: Option<(T, nat)>;
                    match project(&frame) {
                        Some(value) => {
                            let now = clock(seen);
                            proof {
                                assert(projects(project, frame, Some(value)));
                                assert(ticks(clock, seen as int, now@));
                                event = Some((value, now@));
                            }
                            let _stable = stable.observe(value, now, quiet);
                        },
                        None => {
                            proof {
                                assert(projects(project, frame, None::<T>));
                                event = None;
                            }
                            stable.break_streak();
                        },
                    }
                    proof {
                        assert(marks(project, clock, seen as int, frame, event));
                        assert(frames.push(frame).drop_last() =~= frames);
                        let told = events.push(event);
                        let passed = streaks.push(stable@);
                        assert(follows(streaks.last(), event, stable@));
                        assert(follows_by(passed, told)) by {
                            assert forall|i: int| 0 <= i < told.len() implies follows(
                                passed[i],
                                #[trigger] told[i],
                                passed[i + 1],
                            ) by {
                                if i < events.len() {
                                    assert(told[i] == events[i]);
                                }
                            }
                        }
                        frames = frames.push(frame);
                        events = told;
                        streaks = passed;
                    }
                    seen = seen + 1;
                    latest = Some(frame);
                },
                Ok(None) => {
                    break;
                },
                Err(error) => {
                    let outcome: Result<Look<ProbeFrame<S>>> = Err(error);
                    assert(rests(
                        before,
                        decode,
                        project,
                        clock,
                        quiet@,
                        waiting,
                        origin,
                        frames,
                        events,
                        streaks,
                        outcome,
                        self@,
                        stable@,
                    ));
                    return outcome;
                },
            }
        }
        let ghost reached = stable@;
        let frame = match latest {
            Some(frame) => Some(frame),
            None => match self.current(decode) {
                Ok(frame) => frame,
                Err(error) => {
                    let outcome: Result<Look<ProbeFrame<S>>> = Err(error);
                    assert(rests(
                        before,
                        decode,
                        project,
                        clock,
                        quiet@,
                        waiting,
                        origin,
                        frames,
                        events,
                        streaks,
                        outcome,
                        self@,
                        stable@,
                    ));
                    return outcome;
                },
            },
        };
        if let Some(frame) = frame {
            assert(newest(self@, decode, frames, frame));
            match project(&frame) {
                Some(value) => {
                    let now = clock(seen);
                    assert(projects(project, frame, Some(value)));
                    assert(ticks(clock, seen as int, now@));
                    let ghost event = Some((value, now@));
                    assert(marks(project, clock, seen as int, frame, event));
                    if stable.observe(value, now, quiet) {
                        let outcome: Result<Look<ProbeFrame<S>>> = Ok(Look::Found(frame));
                        assert(rests(
                            before,
                            decode,
                            project,
                            clock,
                            quiet@,
                            waiting,
                            origin,
                            frames,
                            events,
                            streaks,
                            outcome,
                            self@,
                            stable@,
                        ));
                        return outcome;
                    }
                    assert(follows(reached, event, stable@));
                },
                None => {
                    assert(projects(project, frame, None::<T>));
                    let ghost event: Option<(T, nat)> = None;
                    assert(marks(project, clock, seen as int, frame, event));
                    stable.break_streak();
                    assert(follows(reached, event, stable@));
                },
            }
        }
        assert(restless(
            self@,
            decode,
            project,
            clock,
            frames,
            quiet@,
            reached,
            stable@,
        ));
        let outcome: Result<Look<ProbeFrame<S>>> = if expired {
            Err(Error::Timeout { waiting: description.to_owned(), timeout })
        } else {
            Ok(Look::Nothing(None))
        };
        assert(rests(
            before,
            decode,
            project,
            clock,
            quiet@,
            waiting,
            origin,
            frames,
            events,
            streaks,
            outcome,
            self@,
            stable@,
        ));
        outcome
    }
}

} // verus!
