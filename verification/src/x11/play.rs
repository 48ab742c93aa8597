//! Gestures carried out: each step of a plan in its order and once, and its rescue
//! when it fails.
use crate::error::{Error, Result};
use crate::stage;
use crate::stage::{Rehearsal, Stage};
use crate::timing::{ActionReceipt, ActionReceiptView};
use crate::witness::clock;
use crate::witness::clock::monotonic_ns;
use crate::x11::gesture;
use crate::x11::gesture::{Gesture, ModifiedWheel, Planned, PlannedView, Step, StepView, WheelGesture};
use vstd::prelude::*;

verus! {

/// Whether a step only marks the gesture, and is not performed.
pub open spec fn marks(step: StepView) -> bool {
    step is Begin || step is Trigger || step is Finish
}

/// Whether taking a step can leave the stage so, with an outcome. A mark leaves the
/// stage alone, and a modifier is released whatever the server says.
pub open spec fn takes<P: Stage<Step, Error>>(
    before: P,
    step: StepView,
    outcome: Result<()>,
    after: P,
) -> bool {
    if marks(step) {
        outcome is Ok && after == before
    } else if step is ModifierLift {
        outcome is Ok && exists|given: Result<()>| #[trigger] P::goes(before, step, given, after)
    } else {
        P::goes(before, step, outcome, after)
    }
}

/// Whether a step was tried, whatever came of it.
pub open spec fn tries<P: Stage<Step, Error>>(before: P, step: StepView, after: P) -> bool {
    exists|outcome: Result<()>| #[trigger] takes(before, step, outcome, after)
}

/// Whether a series of steps was tried in order, each once, by way of these stages.
pub open spec fn tries_by<P: Stage<Step, Error>>(stages: Seq<P>, steps: Seq<StepView>) -> bool {
    &&& stages.len() == steps.len() + 1
    &&& forall|i: int|
        0 <= i < steps.len() ==> tries(stages[i], #[trigger] steps[i], stages[i + 1])
}

/// Whether a rescue was tried in order, each step once.
pub open spec fn rescues<P: Stage<Step, Error>>(
    before: P,
    steps: Seq<StepView>,
    after: P,
) -> bool {
    exists|stages: Seq<P>| #[trigger]
        tries_by(stages, steps) && stage::spans(stages, before, after)
}

/// Whether the clock can read so for a mark, at a stage.
pub open spec fn reads<P, C: Fn(&P, &Step) -> u64>(
    clock: &C,
    stage: P,
    step: StepView,
    now: u64,
) -> bool {
    exists|at: &P, given: &Step|
        *at == stage && given@ == step && #[trigger] clock.ensures((at, given), now)
}

/// Whether the clock may be read for the marks of a gesture.
pub open spec fn readable<P, C: Fn(&P, &Step) -> u64>(clock: &C) -> bool {
    forall|at: &P, given: &Step| marks(given@) ==> #[trigger] clock.requires((at, given))
}

/// Whether a plan was carried out in order, each step once, by way of these stages,
/// and the clock read so for each of its marks.
pub open spec fn carries_by<P: Stage<Step, Error>, C: Fn(&P, &Step) -> u64>(
    clock: &C,
    plan: Seq<PlannedView>,
    stages: Seq<P>,
    readings: Seq<u64>,
) -> bool {
    &&& stages.len() == plan.len() + 1
    &&& readings.len() == plan.len()
    &&& forall|i: int|
        0 <= i < plan.len() ==> {
            &&& takes(stages[i], (#[trigger] plan[i]).step, Ok(()), stages[i + 1])
            &&& marks(plan[i].step) ==> reads(clock, stages[i], plan[i].step, readings[i])
        }
}

/// What a step makes of the receipt of its gesture at a reading of the clock.
pub open spec fn marked(
    receipt: ActionReceiptView,
    label: Seq<char>,
    step: StepView,
    now: u64,
) -> ActionReceiptView {
    match step {
        StepView::Begin => ActionReceiptView::begun_at(now, label),
        StepView::Trigger => receipt.triggered_at(now),
        StepView::Finish => receipt.finished_at(now),
        _ => receipt,
    }
}

/// What a plan makes of a receipt, with one reading of the clock for each step.
pub open spec fn stamped(
    plan: Seq<PlannedView>,
    label: Seq<char>,
    receipt: ActionReceiptView,
    readings: Seq<u64>,
) -> ActionReceiptView
    decreases plan.len(),
{
    if plan.len() == 0 {
        receipt
    } else {
        marked(
            stamped(plan.drop_last(), label, receipt, readings.drop_last()),
            label,
            plan.last().step,
            readings.last(),
        )
    }
}

/// Whether a plan can be carried out to its end, and what it makes of a receipt.
pub open spec fn completes<P: Stage<Step, Error>, C: Fn(&P, &Step) -> u64>(
    clock: &C,
    plan: Seq<PlannedView>,
    label: Seq<char>,
    before: P,
    receipt: ActionReceiptView,
    after: P,
    next: ActionReceiptView,
) -> bool {
    exists|stages: Seq<P>, readings: Seq<u64>| #[trigger]
        carries_by(clock, plan, stages, readings) && stage::spans(stages, before, after) && next
            == stamped(plan, label, receipt, readings)
}

/// Whether a plan can break off at one of its steps: those before it are taken, it
/// fails, and its rescue is tried.
pub open spec fn breaks_at<P: Stage<Step, Error>, C: Fn(&P, &Step) -> u64>(
    clock: &C,
    plan: Seq<PlannedView>,
    at: int,
    stages: Seq<P>,
    readings: Seq<u64>,
    failed: P,
    error: Error,
    after: P,
) -> bool {
    &&& 0 <= at < plan.len()
    &&& carries_by(clock, plan.take(at), stages, readings)
    &&& takes(stages.last(), plan[at].step, Err(error), failed)
    &&& rescues(failed, plan[at].rescue, after)
}

/// Whether a plan can break off with an error.
pub open spec fn breaks_off<P: Stage<Step, Error>, C: Fn(&P, &Step) -> u64>(
    clock: &C,
    plan: Seq<PlannedView>,
    before: P,
    error: Error,
    after: P,
) -> bool {
    exists|at: int, stages: Seq<P>, readings: Seq<u64>, failed: P|
        stages[0] == before && #[trigger] breaks_at(
            clock,
            plan,
            at,
            stages,
            readings,
            failed,
            error,
            after,
        )
}

/// Read the monotonic clock for a mark of a gesture.
pub fn reading<P>(_stage: &P, _mark: &Step) -> (now: u64)
    ensures
        clock::clocked(now),
{
    monotonic_ns()
}

/// Mark a gesture's receipt by one of its steps, given the clock's reading.
pub fn mark(receipt: ActionReceipt, label: &str, step: &Step, now: u64) -> (next: ActionReceipt)
    ensures
        next@ == marked(receipt@, label@, step@, now),
{
    match step {
        Step::Begin => ActionReceipt::begin_at(now, label),
        Step::Trigger => receipt.trigger_at(now),
        Step::Finish => receipt.finish_at(now),
        _ => receipt,
    }
}

fn take_step<P: Stage<Step, Error>>(step: &Step, stage: &mut P) -> (outcome: Result<()>)
    ensures
        takes(*old(stage), step@, outcome, *final(stage)),
{
    match step {
        Step::Begin | Step::Trigger | Step::Finish => Ok(()),
        Step::ModifierLift(_) => {
            let ghost before = *stage;
            let outcome = stage.perform(step);
            assert(P::goes(before, step@, outcome, *stage));
            Ok(())
        },
        _ => stage.perform(step),
    }
}

fn rescue<P: Stage<Step, Error>>(steps: &Vec<Step>, stage: &mut P)
    ensures
        rescues(*old(stage), gesture::steps_of(steps@), *final(stage)),
{
    let ghost views = gesture::steps_of(steps@);
    let ghost mut stages: Seq<P> = seq![*stage];
    let mut index: usize = 0;
    while index < steps.len()
        invariant
            index <= steps.len(),
            views == gesture::steps_of(steps@),
            stages.len() == index + 1,
            stages[0] == *old(stage),
            stages.last() == *stage,
            forall|i: int|
                0 <= i < index ==> tries(stages[i], #[trigger] views[i], stages[i + 1]),
        decreases steps.len() - index,
    {
        let ghost before = *stage;
        assert(views[index as int] == steps@[index as int]@);
        let outcome = take_step(&steps[index], stage);
        assert(takes(before, views[index as int], outcome, *stage));
        proof {
            stages = stages.push(*stage);
        }
        index = index + 1;
    }
    assert(tries_by(stages, views));
}

/// Carry out a plan under a label. The marks of the gesture go to its receipt, at
/// what `clock` reads for each.
pub fn carry_out<P: Stage<Step, Error>, C: Fn(&P, &Step) -> u64>(
    plan: &Vec<Planned>,
    label: &str,
    receipt: ActionReceipt,
    stage: &mut P,
    clock: &C,
) -> (outcome: Result<ActionReceipt>)
    requires
        readable(clock),
    ensures
        match outcome {
            Ok(after) => completes(
                clock,
                gesture::plan_of(plan@),
                label@,
                *old(stage),
                receipt@,
                *final(stage),
                after@,
            ),
            Err(error) => breaks_off(
                clock,
                gesture::plan_of(plan@),
                *old(stage),
                error,
                *final(stage),
            ),
        },
{
    let ghost views = gesture::plan_of(plan@);
    let ghost before = receipt@;
    let ghost mut stages: Seq<P> = seq![*stage];
    let ghost mut readings: Seq<u64> = Seq::empty();
    let mut receipt = receipt;
    let mut index: usize = 0;
    assert(views.take(0) =~= Seq::<PlannedView>::empty());
    while index < plan.len()
        invariant
            index <= plan.len(),
            views == gesture::plan_of(plan@),
            readable(clock),
            carries_by(clock, views.take(index as int), stages, readings),
            stages[0] == *old(stage),
            stages.last() == *stage,
            receipt@ == stamped(views.take(index as int), label@, before, readings),
        decreases plan.len() - index,
    {
        let ghost here = *stage;
        let ghost taken = views.take(index as int);
        assert(views[index as int] == plan@[index as int]@);
        match take_step(&plan[index].step, stage) {
            Ok(unit) => {
                assert(unit == ());
            },
            Err(error) => {
                let ghost failed = *stage;
                rescue(&plan[index].rescue, stage);
                assert(breaks_at(
                    clock,
                    views,
                    index as int,
                    stages,
                    readings,
                    failed,
                    error,
                    *stage,
                ));
                return Err(error);
            },
        }
        let mut now: u64 = 0;
        match &plan[index].step {
            Step::Begin | Step::Trigger | Step::Finish => {
                now = clock(&*stage, &plan[index].step);
                assert(reads(clock, here, views[index as int].step, now));
            },
            _ => {},
        }
        receipt = mark(receipt, label, &plan[index].step, now);
        proof {
            let longer = views.take(index + 1);
            let passed = stages.push(*stage);
            let told = readings.push(now);
            assert(longer.drop_last() =~= taken);
            assert(longer.last() == views[index as int]);
            assert(told.drop_last() =~= readings);
            assert(carries_by(clock, longer, passed, told)) by {
                assert forall|i: int| 0 <= i < longer.len() implies {
                    &&& takes(passed[i], (#[trigger] longer[i]).step, Ok(()), passed[i + 1])
                    &&& marks(longer[i].step) ==> reads(clock, passed[i], longer[i].step, told[i])
                } by {
                    if i < index {
                        assert(longer[i] == taken[i]);
                    }
                }
            }
            stages = passed;
            readings = told;
        }
        index = index + 1;
    }
    assert(views.take(index as int) =~= views);
    assert(carries_by(clock, views, stages, readings));
    Ok(receipt)
}

/// Whether carrying out a gesture can leave the stage so, with an outcome.
pub open spec fn plays<P: Stage<Step, Error>, C: Fn(&P, &Step) -> u64>(
    clock: &C,
    plan: Seq<PlannedView>,
    label: Seq<char>,
    before: P,
    outcome: Result<ActionReceipt>,
    after: P,
) -> bool {
    match outcome {
        Ok(receipt) => exists|opened: u64| #[trigger]
            reads(clock, before, StepView::Begin, opened) && completes(
                clock,
                plan,
                label,
                before,
                ActionReceiptView::begun_at(opened, label),
                after,
                receipt@,
            ),
        Err(error) => breaks_off(clock, plan, before, error, after),
    }
}

impl Gesture {
    /// Carry out the gesture.
    pub fn play<P: Stage<Step, Error>>(&self, stage: &mut P) -> (receipt: Result<ActionReceipt>)
        ensures
            plays(&reading::<P>, self@.plan, self@.label, *old(stage), receipt, *final(stage)),
    {
        self.play_by(stage, &reading::<P>)
    }

    /// Carry out the gesture by a clock.
    pub fn play_by<P: Stage<Step, Error>, C: Fn(&P, &Step) -> u64>(
        &self,
        stage: &mut P,
        clock: &C,
    ) -> (receipt: Result<ActionReceipt>)
        requires
            readable(clock),
        ensures
            plays(clock, self@.plan, self@.label, *old(stage), receipt, *final(stage)),
    {
        let now: u64 = clock(&*stage, &Step::Begin);
        assert(reads(clock, *stage, StepView::Begin, now));
        let receipt = ActionReceipt::begin_at(now, self.label.as_str());
        carry_out(&self.plan, self.label.as_str(), receipt, stage, clock)
    }
}

// ---------------------------------------------------------------------------
// Wheels
// ---------------------------------------------------------------------------

/// Whether the first ticks of a wheel gesture can be carried out in order, each once,
/// and what they make of a receipt.
pub open spec fn turns<P: Stage<Step, Error>, C: Fn(&P, &Step) -> u64>(
    clock: &C,
    wheel: WheelGesture,
    count: int,
    before: P,
    receipt: ActionReceiptView,
    after: P,
    next: ActionReceiptView,
) -> bool
    decreases count,
{
    if count <= 0 {
        after == before && next == receipt
    } else {
        exists|between: P, told: ActionReceiptView|
            turns(clock, wheel, count - 1, before, receipt, between, told) && #[trigger] completes(
                clock,
                wheel.tick_plan(count - 1),
                wheel.label@,
                between,
                told,
                after,
                next,
            )
    }
}

proof fn lemma_one_more_tick<P: Stage<Step, Error>, C: Fn(&P, &Step) -> u64>(
    clock: &C,
    wheel: WheelGesture,
    count: int,
    before: P,
    receipt: ActionReceiptView,
    between: P,
    told: ActionReceiptView,
    after: P,
    next: ActionReceiptView,
)
    requires
        0 < count,
        turns(clock, wheel, count - 1, before, receipt, between, told),
        completes(clock, wheel.tick_plan(count - 1), wheel.label@, between, told, after, next),
    ensures
        turns(clock, wheel, count, before, receipt, after, next),
{
}

/// Whether the pointer can be placed, and the ticks of a wheel gesture up to one of
/// them carried out, under a receipt opened there.
pub open spec fn turns_to<P: Stage<Step, Error>, C: Fn(&P, &Step) -> u64>(
    clock: &C,
    wheel: WheelGesture,
    count: int,
    before: P,
    placed: P,
    opened: u64,
    after: P,
    next: ActionReceiptView,
) -> bool {
    &&& takes(before, StepView::Move(wheel.place), Ok(()), placed)
    &&& reads(clock, placed, StepView::Begin, opened)
    &&& turns(
        clock,
        wheel,
        count,
        placed,
        ActionReceiptView::begun_at(opened, wheel.label@),
        after,
        next,
    )
}

/// Whether a wheel gesture can leave the stage so, with an outcome: the pointer moves
/// there, every tick is carried out once, and their delivery is awaited.
pub open spec fn spins<P: Stage<Step, Error>, C: Fn(&P, &Step) -> u64>(
    clock: &C,
    wheel: WheelGesture,
    before: P,
    outcome: Result<ActionReceipt>,
    after: P,
) -> bool {
    match outcome {
        Ok(receipt) => exists|placed: P, opened: u64, turned: P, told: ActionReceiptView, closed: u64|
            #[trigger] turns_to(
                clock,
                wheel,
                wheel.count as int,
                before,
                placed,
                opened,
                turned,
                told,
            ) && #[trigger] reads(clock, turned, StepView::Finish, closed) && receipt@
                == told.finished_at(closed) && if wheel.count > 0 {
                tries(turned, StepView::Rest(gesture::POINTER_DELIVERY_GUARD_NS as nat), after)
            } else {
                after == turned
            },
        Err(error) => {
            ||| takes(before, StepView::Move(wheel.place), Err(error), after)
            ||| exists|tick: int, placed: P, opened: u64, turned: P, told: ActionReceiptView|
                0 <= tick < wheel.count && #[trigger] turns_to(
                    clock,
                    wheel,
                    tick,
                    before,
                    placed,
                    opened,
                    turned,
                    told,
                ) && breaks_off(clock, wheel.tick_plan(tick), turned, error, after)
        },
    }
}

impl WheelGesture {
    /// Carry out the gesture.
    pub fn play<P: Stage<Step, Error>>(&self, stage: &mut P) -> (receipt: Result<ActionReceipt>)
        ensures
            spins(&reading::<P>, *self, *old(stage), receipt, *final(stage)),
    {
        self.play_by(stage, &reading::<P>)
    }

    /// Carry out the gesture by a clock.
    pub fn play_by<P: Stage<Step, Error>, C: Fn(&P, &Step) -> u64>(
        &self,
        stage: &mut P,
        clock: &C,
    ) -> (receipt: Result<ActionReceipt>)
        requires
            readable(clock),
        ensures
            spins(clock, *self, *old(stage), receipt, *final(stage)),
    {
        match take_step(&Step::Move(self.place), stage) {
            Ok(unit) => {
                assert(unit == ());
            },
            Err(error) => {
                return Err(error);
            },
        }
        let ghost placed = *stage;
        let now: u64 = clock(&*stage, &Step::Begin);
        assert(reads(clock, placed, StepView::Begin, now));
        let mut receipt = ActionReceipt::begin_at(now, self.label.as_str());
        let ghost before = receipt@;
        let mut tick: u32 = 0;
        while tick < self.count
            invariant
                tick <= self.count,
                readable(clock),
                before == ActionReceiptView::begun_at(now, self.label@),
                takes(*old(stage), StepView::Move(self.place), Ok(()), placed),
                reads(clock, placed, StepView::Begin, now),
                turns(clock, *self, tick as int, placed, before, *stage, receipt@),
            decreases self.count - tick,
        {
            let plan = self.tick(tick);
            let ghost between = *stage;
            let ghost told = receipt@;
            assert(gesture::plan_of(plan@) == self.tick_plan(tick as int));
            assert(turns_to(clock, *self, tick as int, *old(stage), placed, now, between, told));
            match carry_out(&plan, self.label.as_str(), receipt, stage, clock) {
                Ok(next) => {
                    proof {
                        lemma_one_more_tick(
                            clock,
                            *self,
                            tick + 1,
                            placed,
                            before,
                            between,
                            told,
                            *stage,
                            next@,
                        );
                    }
                    receipt = next;
                },
                Err(error) => {
                    return Err(error);
                },
            }
            tick = tick + 1;
        }
        let ghost turned = *stage;
        let ghost told = receipt@;
        assert(turns_to(clock, *self, tick as int, *old(stage), placed, now, turned, told));
        let closed: u64 = clock(&*stage, &Step::Finish);
        assert(reads(clock, turned, StepView::Finish, closed));
        let receipt = receipt.finish_at(closed);
        assert(receipt@ == told.finished_at(closed));
        match self.delivery_guard() {
            Some(guard) => {
                let rested = take_step(&Step::Rest(guard), stage);
                assert(takes(turned, StepView::Rest(guard@), rested, *stage));
            },
            None => {},
        }
        Ok(receipt)
    }
}

/// Whether a plan can be carried out to its end, whatever it makes of its receipt.
pub open spec fn ends<P: Stage<Step, Error>, C: Fn(&P, &Step) -> u64>(
    clock: &C,
    plan: Seq<PlannedView>,
    before: P,
    after: P,
) -> bool {
    exists|stages: Seq<P>, readings: Seq<u64>| #[trigger]
        carries_by(clock, plan, stages, readings) && stage::spans(stages, before, after)
}

/// Whether a plan can be gone through: carried out to its end, or broken off.
pub open spec fn gone_through<P: Stage<Step, Error>, C: Fn(&P, &Step) -> u64>(
    clock: &C,
    plan: Seq<PlannedView>,
    before: P,
    after: P,
) -> bool {
    ends(clock, plan, before, after) || exists|error: Error| #[trigger]
        breaks_off(clock, plan, before, error, after)
}

/// Whether a wheel gesture under modifiers can leave the stage so, with an outcome.
/// Once the modifiers are held, they are released, whatever became of the wheel; its
/// own failure is reported first.
pub open spec fn spins_modified<P: Stage<Step, Error>, C: Fn(&P, &Step) -> u64>(
    clock: &C,
    wheel: WheelGesture,
    around: ModifiedWheel,
    before: P,
    outcome: Result<ActionReceipt>,
    after: P,
) -> bool {
    let hold = gesture::plan_of(around.before@);
    let release = gesture::plan_of(around.after@);
    ||| outcome matches Err(error) && breaks_off(clock, hold, before, error, after)
    ||| exists|held: P, spun: Result<ActionReceipt>, turned: P|
        #[trigger] ends(clock, hold, before, held) && #[trigger] spins(
            clock,
            wheel,
            held,
            spun,
            turned,
        ) && match spun {
            Err(error) => outcome == Err::<ActionReceipt, Error>(error) && gone_through(
                clock,
                release,
                turned,
                after,
            ),
            Ok(receipt) => match outcome {
                Ok(renamed) => ends(clock, release, turned, after) && renamed@.action
                    == around.label@ && renamed@.gesture_started_ns
                    == receipt@.gesture_started_ns && renamed@.triggered_ns
                    == receipt@.triggered_ns && renamed@.completed_ns == receipt@.completed_ns,
                Err(error) => breaks_off(clock, release, turned, error, after),
            },
        }
}

impl ModifiedWheel {
    /// Carry out a wheel gesture between acquiring and releasing the modifiers.
    pub fn play<P: Stage<Step, Error>>(&self, wheel: &WheelGesture, stage: &mut P) -> (receipt:
        Result<ActionReceipt>)
        ensures
            spins_modified(
                &reading::<P>,
                *wheel,
                *self,
                *old(stage),
                receipt,
                *final(stage),
            ),
    {
        self.play_by(wheel, stage, &reading::<P>)
    }

    /// Carry out a wheel gesture by a clock, between acquiring and releasing the
    /// modifiers.
    pub fn play_by<P: Stage<Step, Error>, C: Fn(&P, &Step) -> u64>(
        &self,
        wheel: &WheelGesture,
        stage: &mut P,
        clock: &C,
    ) -> (receipt: Result<ActionReceipt>)
        requires
            readable(clock),
        ensures
            spins_modified(clock, *wheel, *self, *old(stage), receipt, *final(stage)),
    {
        let label = self.label.as_str();
        match carry_out(&self.before, label, ActionReceipt::begin_at(0, label), stage, clock) {
            Ok(_) => {},
            Err(error) => {
                return Err(error);
            },
        }
        let ghost held = *stage;
        assert(ends(clock, gesture::plan_of(self.before@), *old(stage), held));
        let spun = wheel.play_by(stage, clock);
        let ghost turned = *stage;
        let ghost outcome = spun;
        assert(spins(clock, *wheel, held, outcome, turned));
        let released = carry_out(&self.after, label, ActionReceipt::begin_at(0, label), stage, clock);
        assert(released is Ok ==> ends(clock, gesture::plan_of(self.after@), turned, *stage));
        assert(gone_through(clock, gesture::plan_of(self.after@), turned, *stage));
        match spun {
            Err(error) => Err(error),
            Ok(receipt) => match released {
                Err(error) => Err(error),
                Ok(_) => Ok(receipt.relabel(label)),
            },
        }
    }
}

// ---------------------------------------------------------------------------
// Laws
// ---------------------------------------------------------------------------

/// The steps of a plan that are performed.
pub open spec fn performed(plan: Seq<PlannedView>) -> Seq<StepView>
    decreases plan.len(),
{
    if plan.len() == 0 {
        Seq::empty()
    } else if marks(plan.last().step) {
        performed(plan.drop_last())
    } else {
        performed(plan.drop_last()).push(plan.last().step)
    }
}

/// A plan carried out to its end asks for each of its steps once, in their order, and
/// for nothing else.
pub proof fn law_plans_are_performed_to_the_letter<C: Fn(&Rehearsal<Step>, &Step) -> u64>(
    clock: &C,
    plan: Seq<PlannedView>,
    stages: Seq<Rehearsal<Step>>,
    readings: Seq<u64>,
)
    requires
        carries_by(clock, plan, stages, readings),
    ensures
        stages.last()@ == stages[0]@ + performed(plan),
    decreases plan.len(),
{
    if plan.len() == 0 {
        assert(stages.last()@ =~= stages[0]@ + performed(plan));
    } else {
        let last = plan.len() - 1;
        let shorter = plan.drop_last();
        let fewer = stages.drop_last();
        let told = readings.drop_last();
        assert(carries_by(clock, shorter, fewer, told)) by {
            assert forall|i: int| 0 <= i < shorter.len() implies {
                &&& takes(fewer[i], (#[trigger] shorter[i]).step, Ok(()), fewer[i + 1])
                &&& marks(shorter[i].step) ==> reads(clock, fewer[i], shorter[i].step, told[i])
            } by {
                assert(shorter[i] == plan[i]);
            }
        }
        law_plans_are_performed_to_the_letter(clock, shorter, fewer, told);
        assert(takes(stages[last], plan[last].step, Ok(()), stages[last + 1]));
        assert(stages.last()@ =~= stages[0]@ + performed(plan));
    }
}

proof fn lemma_stamps_are_bounded(
    plan: Seq<PlannedView>,
    label: Seq<char>,
    opened: u64,
    readings: Seq<u64>,
    bound: u64,
)
    requires
        readings.len() == plan.len(),
        opened <= bound,
        forall|i: int| 0 <= i < plan.len() && marks(plan[i].step) ==> #[trigger] readings[i] <= bound,
    ensures
        ({
            let receipt = stamped(plan, label, ActionReceiptView::begun_at(opened, label), readings);
            &&& receipt.gesture_started_ns <= bound
            &&& receipt.triggered_ns <= bound
            &&& receipt.completed_ns <= bound
        }),
    decreases plan.len(),
{
    if plan.len() > 0 {
        let last = plan.len() - 1;
        assert forall|i: int| 0 <= i < last && marks(plan.drop_last()[i].step) implies (
        #[trigger] readings.drop_last()[i]) <= bound by {
            assert(plan.drop_last()[i] == plan[i]);
            assert(readings.drop_last()[i] == readings[i]);
        }
        assert(marks(plan[last].step) ==> readings[last] <= bound);
        lemma_stamps_are_bounded(plan.drop_last(), label, opened, readings.drop_last(), bound);
    }
}

/// Over readings of a clock that never falls back, a gesture starts no later than
/// its trigger, and where its plan closes it last, its trigger is no later than its
/// end.
pub proof fn law_gestures_are_timed_in_order(
    plan: Seq<PlannedView>,
    label: Seq<char>,
    opened: u64,
    readings: Seq<u64>,
)
    requires
        readings.len() == plan.len(),
        forall|i: int| 0 <= i < plan.len() && marks(plan[i].step) ==> opened <= #[trigger] readings[i],
        forall|i: int, j: int|
            0 <= i <= j < plan.len() && marks(plan[i].step) && marks(plan[j].step)
                ==> #[trigger] readings[i] <= #[trigger] readings[j],
    ensures
        ({
            let receipt = stamped(plan, label, ActionReceiptView::begun_at(opened, label), readings);
            &&& receipt.gesture_started_ns <= receipt.triggered_ns
            &&& plan.len() > 0 && plan.last().step is Finish ==> receipt.triggered_ns
                <= receipt.completed_ns
        }),
    decreases plan.len(),
{
    if plan.len() > 0 {
        let last = plan.len() - 1;
        let shorter = plan.drop_last();
        let fewer = readings.drop_last();
        assert forall|i: int| 0 <= i < last implies #[trigger] fewer[i] == readings[i] && shorter[i]
            == plan[i] by {}
        law_gestures_are_timed_in_order(shorter, label, opened, fewer);
        if marks(plan[last].step) {
            assert(opened <= readings[last]);
            assert forall|i: int| 0 <= i < last && marks(shorter[i].step) implies (
            #[trigger] fewer[i]) <= readings[last] by {
                assert(readings[i] <= readings[last]);
            }
            lemma_stamps_are_bounded(shorter, label, opened, fewer, readings[last]);
        }
    }
}

} // verus!
