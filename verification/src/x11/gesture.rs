//! Native gestures as plans: what is injected, in which order, and what is
//! undone when a step fails.
use crate::duration::Duration;
use crate::error::{Error, ErrorView, Result};
use crate::input::{Button, Drag, Key, Modifiers, Motion, Stroke, Wheel, ALT_L, CONTROL_L, SHIFT_L, SUPER_L};
use crate::stage;
use crate::stage::{Act, Rehearsal, Stage};
use crate::text;
use crate::text::{decimal_text, glue2, glue3, glue4, glue5, signed_decimal_text};
use crate::timing::{ActionReceipt, ActionReceiptView};
use crate::x11::keyboard::Keymap;
use crate::x11::play;
use crate::x11::pointer::Place;
use vstd::prelude::*;

verus! {

// ---------------------------------------------------------------------------
// Steps
// ---------------------------------------------------------------------------

/// One step of a gesture.
#[derive(Clone, Copy, Debug)]
pub enum Step {
    /// Move the pointer to a window-relative place.
    Move(Place),
    /// Carry the pointer along a line, in equal steps with a pause between them.
    Transport { from: Place, to: Place, steps: u16, pause: Duration },
    /// Press a pointer button.
    ButtonPress(u8),
    /// Release a pointer button.
    ButtonRelease(u8),
    /// Press a key.
    KeyPress(u8),
    /// Release a key.
    KeyRelease(u8),
    /// Press the key that the keyboard map binds to a modifier's symbol.
    ModifierPress(u32),
    /// Release a modifier's key, whether or not the server agrees.
    ModifierLift(u32),
    /// Hand everything injected so far to the server.
    Flush(&'static str),
    /// Let time pass.
    Rest(Duration),
    /// The gesture begins.
    Begin,
    /// The next input is the one that should cause a reaction.
    Trigger,
    /// The gesture ends.
    Finish,
}

/// Content of a [`Step`].
#[verifier::ext_equal]
pub enum StepView {
    Move(Place),
    Transport { from: Place, to: Place, steps: u16, pause: nat },
    ButtonPress(u8),
    ButtonRelease(u8),
    KeyPress(u8),
    KeyRelease(u8),
    ModifierPress(u32),
    ModifierLift(u32),
    Flush(Seq<char>),
    Rest(nat),
    Begin,
    Trigger,
    Finish,
}

impl View for Step {
    type V = StepView;

    open spec fn view(&self) -> StepView {
        match *self {
            Step::Move(place) => StepView::Move(place),
            Step::Transport { from, to, steps, pause } => StepView::Transport {
                from,
                to,
                steps,
                pause: pause@,
            },
            Step::ButtonPress(button) => StepView::ButtonPress(button),
            Step::ButtonRelease(button) => StepView::ButtonRelease(button),
            Step::KeyPress(keycode) => StepView::KeyPress(keycode),
            Step::KeyRelease(keycode) => StepView::KeyRelease(keycode),
            Step::ModifierPress(symbol) => StepView::ModifierPress(symbol),
            Step::ModifierLift(symbol) => StepView::ModifierLift(symbol),
            Step::Flush(operation) => StepView::Flush(operation@),
            Step::Rest(span) => StepView::Rest(span@),
            Step::Begin => StepView::Begin,
            Step::Trigger => StepView::Trigger,
            Step::Finish => StepView::Finish,
        }
    }
}

impl Act for Step {
    fn noted(&self) -> (copy: Self) {
        *self
    }
}

/// The contents of steps.
pub open spec fn steps_of(list: Seq<Step>) -> Seq<StepView> {
    Seq::new(list.len(), |i: int| list[i]@)
}

/// A step, and what to attempt when it fails before the failure is reported.
#[derive(Debug)]
pub struct Planned {
    pub step: Step,
    pub rescue: Vec<Step>,
}

/// Content of a [`Planned`] step.
#[verifier::ext_equal]
pub struct PlannedView {
    pub step: StepView,
    pub rescue: Seq<StepView>,
}

impl View for Planned {
    type V = PlannedView;

    open spec fn view(&self) -> PlannedView {
        PlannedView { step: self.step@, rescue: steps_of(self.rescue@) }
    }
}

/// The contents of a plan.
pub open spec fn plan_of(list: Seq<Planned>) -> Seq<PlannedView> {
    Seq::new(list.len(), |i: int| list[i]@)
}

/// A step that leaves nothing to undo.
pub open spec fn plain(step: StepView) -> Seq<PlannedView> {
    seq![PlannedView { step, rescue: seq![] }]
}

/// A step with something to attempt when it fails.
pub open spec fn guarded(step: StepView, rescue: Seq<StepView>) -> Seq<PlannedView> {
    seq![PlannedView { step, rescue }]
}

/// One native gesture.
#[derive(Debug)]
pub struct Gesture {
    pub label: String,
    pub plan: Vec<Planned>,
}

/// Content of a [`Gesture`].
#[verifier::ext_equal]
pub struct GestureView {
    pub label: Seq<char>,
    pub plan: Seq<PlannedView>,
}

impl View for Gesture {
    type V = GestureView;

    open spec fn view(&self) -> GestureView {
        GestureView { label: self.label@, plan: plan_of(self.plan@) }
    }
}

fn push_plain(plan: &mut Vec<Planned>, step: Step)
    ensures
        plan_of(final(plan)@) == plan_of(old(plan)@) + plain(step@),
{
    plan.push(Planned { step, rescue: Vec::new() });
    assert(steps_of(plan@.last().rescue@) =~= seq![]);
    assert(plan_of(plan@) =~= plan_of(old(plan)@) + plain(step@));
}

fn push_guarded(plan: &mut Vec<Planned>, step: Step, rescue: Vec<Step>)
    ensures
        plan_of(final(plan)@) == plan_of(old(plan)@) + guarded(step@, steps_of(rescue@)),
{
    plan.push(Planned { step, rescue });
    assert(plan_of(plan@) =~= plan_of(old(plan)@) + guarded(step@, steps_of(rescue@)));
}

fn push_step(list: &mut Vec<Step>, step: Step)
    ensures
        steps_of(final(list)@) == steps_of(old(list)@).push(step@),
{
    list.push(step);
    assert(steps_of(list@) =~= steps_of(old(list)@).push(step@));
}

// ---------------------------------------------------------------------------
// Modifiers
// ---------------------------------------------------------------------------

/// A symbol that is listed only when it is held.
pub open spec fn held_symbol(held: bool, symbol: u32) -> Seq<u32> {
    if held {
        seq![symbol]
    } else {
        seq![]
    }
}

/// The symbols of held modifiers, in the order in which they are pressed.
pub open spec fn symbols(modifiers: Modifiers) -> Seq<u32> {
    held_symbol(modifiers.shift, SHIFT_L) + held_symbol(modifiers.ctrl, CONTROL_L) + held_symbol(
        modifiers.alt,
        ALT_L,
    ) + held_symbol(modifiers.logo, SUPER_L)
}

/// Release pressed modifiers, the last one first.
pub open spec fn lifts(pressed: Seq<u32>) -> Seq<StepView> {
    Seq::new(pressed.len(), |i: int| StepView::ModifierLift(pressed[pressed.len() - 1 - i]))
}

/// Press modifiers one by one. Should one fail, those before it are released.
pub open spec fn presses(pressed: Seq<u32>) -> Seq<PlannedView> {
    Seq::new(
        pressed.len(),
        |i: int|
            PlannedView {
                step: StepView::ModifierPress(pressed[i]),
                rescue: lifts(pressed.take(i)),
            },
    )
}

/// Release modifiers as steps of a plan.
pub open spec fn releases(pressed: Seq<u32>) -> Seq<PlannedView> {
    Seq::new(
        pressed.len(),
        |i: int| PlannedView { step: lifts(pressed)[i], rescue: seq![] },
    )
}

/// The guard around input under modifiers, in nanoseconds.
pub const MODIFIER_GUARD_NS: u64 = 32_000_000;

/// The guard, when there is something to guard.
pub open spec fn guard(pressed: Seq<u32>) -> Seq<PlannedView> {
    if pressed.len() == 0 {
        seq![]
    } else {
        plain(StepView::Rest(MODIFIER_GUARD_NS as nat))
    }
}

fn held_symbols(modifiers: Modifiers) -> (pressed: Vec<u32>)
    ensures
        pressed@ == symbols(modifiers),
{
    let mut pressed: Vec<u32> = Vec::new();
    if modifiers.shift {
        pressed.push(SHIFT_L);
    }
    if modifiers.ctrl {
        pressed.push(CONTROL_L);
    }
    if modifiers.alt {
        pressed.push(ALT_L);
    }
    if modifiers.logo {
        pressed.push(SUPER_L);
    }
    assert(pressed@ =~= symbols(modifiers));
    pressed
}

/// The releases of the first `count` pressed modifiers.
fn lift_steps(pressed: &Vec<u32>, count: usize) -> (list: Vec<Step>)
    requires
        count <= pressed.len(),
    ensures
        steps_of(list@) == lifts(pressed@.take(count as int)),
{
    let mut list: Vec<Step> = Vec::new();
    let mut left: usize = count;
    while left > 0
        invariant
            left <= count <= pressed.len(),
            list@.len() == count - left,
            forall|i: int|
                0 <= i < list@.len() ==> (#[trigger] list@[i])@ == StepView::ModifierLift(
                    pressed@[count - 1 - i],
                ),
        decreases left,
    {
        list.push(Step::ModifierLift(pressed[left - 1]));
        left = left - 1;
    }
    assert(steps_of(list@) =~= lifts(pressed@.take(count as int)));
    list
}

fn push_presses(plan: &mut Vec<Planned>, pressed: &Vec<u32>)
    ensures
        plan_of(final(plan)@) == plan_of(old(plan)@) + presses(pressed@),
{
    let mut index: usize = 0;
    assert(presses(pressed@).take(0) =~= seq![]);
    while index < pressed.len()
        invariant
            index <= pressed.len(),
            plan_of(plan@) =~= plan_of(old(plan)@) + presses(pressed@).take(index as int),
        decreases pressed.len() - index,
    {
        let rescue = lift_steps(pressed, index);
        push_guarded(plan, Step::ModifierPress(pressed[index]), rescue);
        assert(presses(pressed@).take(index + 1) =~= presses(pressed@).take(index as int)
            + guarded(
            StepView::ModifierPress(pressed@[index as int]),
            lifts(pressed@.take(index as int)),
        ));
        index = index + 1;
    }
    assert(presses(pressed@).take(index as int) =~= presses(pressed@));
}

fn push_releases(plan: &mut Vec<Planned>, pressed: &Vec<u32>)
    ensures
        plan_of(final(plan)@) == plan_of(old(plan)@) + releases(pressed@),
{
    let list = lift_steps(pressed, pressed.len());
    assert(pressed@.take(pressed@.len() as int) =~= pressed@);
    assert(steps_of(list@) == lifts(pressed@));
    assert(list@.len() == steps_of(list@).len());
    let mut index: usize = 0;
    assert(releases(pressed@).take(0) =~= seq![]);
    while index < list.len()
        invariant
            index <= list.len(),
            list.len() == pressed@.len(),
            steps_of(list@) == lifts(pressed@),
            plan_of(plan@) =~= plan_of(old(plan)@) + releases(pressed@).take(index as int),
        decreases list.len() - index,
    {
        assert(lifts(pressed@)[index as int] == list@[index as int]@);
        push_plain(plan, list[index]);
        assert(releases(pressed@).take(index + 1) =~= releases(pressed@).take(index as int)
            + plain(lifts(pressed@)[index as int]));
        index = index + 1;
    }
    assert(releases(pressed@).take(index as int) =~= releases(pressed@));
}

fn push_guard(plan: &mut Vec<Planned>, pressed: &Vec<u32>)
    ensures
        plan_of(final(plan)@) == plan_of(old(plan)@) + guard(pressed@),
{
    if pressed.len() > 0 {
        push_plain(plan, Step::Rest(Duration::from_nanos(MODIFIER_GUARD_NS)));
    } else {
        assert(plan_of(plan@) + guard(pressed@) =~= plan_of(plan@));
    }
}

/// The releases of all pressed modifiers, and a flush behind them.
fn lifted_and_flushed(pressed: &Vec<u32>, operation: &'static str) -> (list: Vec<Step>)
    ensures
        steps_of(list@) == lifts(pressed@).push(StepView::Flush(operation@)),
{
    let mut list = lift_steps(pressed, pressed.len());
    assert(pressed@.take(pressed@.len() as int) =~= pressed@);
    push_step(&mut list, Step::Flush(operation));
    list
}

// ---------------------------------------------------------------------------
// Labels
// ---------------------------------------------------------------------------

/// A place in parentheses.
pub open spec fn placed(place: Place) -> Seq<char> {
    "("@ + text::signed_decimal(place.0 as int) + ", "@ + text::signed_decimal(place.1 as int)
        + ")"@
}

fn place_text(place: Place) -> (text: String)
    ensures
        text@ == placed(place),
{
    glue5(
        "(",
        signed_decimal_text(place.0 as i64).as_str(),
        ", ",
        signed_decimal_text(place.1 as i64).as_str(),
        ")",
    )
}

// ---------------------------------------------------------------------------
// Pointer gestures
// ---------------------------------------------------------------------------

/// A click under modifiers. The modifiers are acquired before the click and
/// released behind it, and every failure releases those held.
pub open spec fn click_plan(place: Place, button: Button, modifiers: Modifiers) -> Seq<PlannedView> {
    let pressed = symbols(modifiers);
    let undo = lifts(pressed).push(StepView::Flush("release click modifiers"@));
    plain(StepView::Move(place)) + presses(pressed) + guarded(
        StepView::Flush("acquire click modifiers"@),
        lifts(pressed).push(StepView::Flush("recover click modifiers"@)),
    ) + guard(pressed) + plain(StepView::Begin) + guarded(
        StepView::ButtonPress(button.number()),
        undo,
    ) + guarded(StepView::ButtonRelease(button.number()), undo) + guarded(
        StepView::Flush("click pointer"@),
        undo,
    ) + guard(pressed) + releases(pressed) + plain(StepView::Flush("release click modifiers"@))
        + plain(StepView::Finish)
}

/// Plan a click under modifiers.
pub fn modified_click(place: Place, button: Button, modifiers: Modifiers) -> (gesture: Gesture)
    ensures
        gesture@ == (GestureView {
            label: modifiers.rendered() + " "@ + button.name() + " click at "@ + placed(place),
            plan: click_plan(place, button, modifiers),
        }),
{
    let pressed = held_symbols(modifiers);
    let mut plan: Vec<Planned> = Vec::new();
    push_plain(&mut plan, Step::Move(place));
    push_presses(&mut plan, &pressed);
    let recover = lifted_and_flushed(&pressed, "recover click modifiers");
    push_guarded(&mut plan, Step::Flush("acquire click modifiers"), recover);
    push_guard(&mut plan, &pressed);
    push_plain(&mut plan, Step::Begin);
    let undo = lifted_and_flushed(&pressed, "release click modifiers");
    push_guarded(&mut plan, Step::ButtonPress(button.detail()), undo);
    let undo = lifted_and_flushed(&pressed, "release click modifiers");
    push_guarded(&mut plan, Step::ButtonRelease(button.detail()), undo);
    let undo = lifted_and_flushed(&pressed, "release click modifiers");
    push_guarded(&mut plan, Step::Flush("click pointer"), undo);
    push_guard(&mut plan, &pressed);
    push_releases(&mut plan, &pressed);
    push_plain(&mut plan, Step::Flush("release click modifiers"));
    push_plain(&mut plan, Step::Finish);
    assert(plan_of(plan@) =~= click_plan(place, button, modifiers));
    Gesture {
        label: glue5(
            modifiers.text().as_str(),
            " ",
            button.text(),
            " click at ",
            place_text(place).as_str(),
        ),
        plan,
    }
}

/// Plan a click.
pub fn click(place: Place, button: Button) -> (gesture: Gesture)
    ensures
        gesture@ == (GestureView {
            label: Modifiers::none().rendered() + " "@ + button.name() + " click at "@ + placed(
                place,
            ),
            plan: click_plan(place, button, Modifiers::none()),
        }),
{
    modified_click(place, button, Modifiers::empty())
}

/// Plan a jump of the pointer.
pub fn move_to(place: Place) -> (gesture: Gesture)
    ensures
        gesture@ == (GestureView {
            label: "pointer motion to "@ + placed(place),
            plan: plain(StepView::Begin) + plain(StepView::Move(place)) + plain(StepView::Finish),
        }),
{
    let mut plan: Vec<Planned> = Vec::new();
    push_plain(&mut plan, Step::Begin);
    push_plain(&mut plan, Step::Move(place));
    push_plain(&mut plan, Step::Finish);
    Gesture { label: glue2("pointer motion to ", place_text(place).as_str()), plan }
}

/// Plan the press of a button that stays held.
pub fn button_down(place: Place, button: Button) -> (gesture: Gesture)
    ensures
        gesture@ == (GestureView {
            label: button.name() + " down at "@ + placed(place),
            plan: plain(StepView::Move(place)) + plain(StepView::Begin) + plain(
                StepView::ButtonPress(button.number()),
            ) + plain(StepView::Flush("press pointer button"@)) + plain(StepView::Finish),
        }),
{
    let mut plan: Vec<Planned> = Vec::new();
    push_plain(&mut plan, Step::Move(place));
    push_plain(&mut plan, Step::Begin);
    push_plain(&mut plan, Step::ButtonPress(button.detail()));
    push_plain(&mut plan, Step::Flush("press pointer button"));
    push_plain(&mut plan, Step::Finish);
    Gesture { label: glue3(button.text(), " down at ", place_text(place).as_str()), plan }
}

/// Plan the release of a held button.
pub fn button_up(button: Button) -> (gesture: Gesture)
    ensures
        gesture@ == (GestureView {
            label: button.name() + " up"@,
            plan: plain(StepView::Begin) + plain(StepView::ButtonRelease(button.number())) + plain(
                StepView::Flush("release pointer button"@),
            ) + plain(StepView::Finish),
        }),
{
    let mut plan: Vec<Planned> = Vec::new();
    push_plain(&mut plan, Step::Begin);
    push_plain(&mut plan, Step::ButtonRelease(button.detail()));
    push_plain(&mut plan, Step::Flush("release pointer button"));
    push_plain(&mut plan, Step::Finish);
    Gesture { label: glue2(button.text(), " up"), plan }
}

/// Two places with an arrow between them.
pub open spec fn between(from: Place, to: Place) -> Seq<char> {
    placed(from) + " \u{2192} "@ + placed(to)
}

/// Plan the transport of the pointer without a held button.
pub fn motion(from: Place, to: Place, policy: Motion) -> (gesture: Result<Gesture>)
    ensures
        match gesture {
            Ok(gesture) => policy.steps > 0 && gesture@ == (GestureView {
                label: "pointer motion "@ + between(from, to),
                plan: plain(StepView::Move(from)) + plain(StepView::Begin) + plain(
                    StepView::Transport {
                        from,
                        to,
                        steps: policy.steps,
                        pause: policy.duration@ / policy.steps as nat,
                    },
                ) + plain(StepView::Trigger) + plain(StepView::Finish),
            }),
            Err(error) => policy.steps == 0 && error@ == (ErrorView::X11 {
                operation: "transport pointer"@,
                detail: "pointer motion requires at least one step"@,
            }),
        },
{
    if policy.steps == 0 {
        return Err(
            Error::X11 {
                operation: "transport pointer",
                detail: "pointer motion requires at least one step".to_owned(),
            },
        );
    }
    let mut plan: Vec<Planned> = Vec::new();
    push_plain(&mut plan, Step::Move(from));
    push_plain(&mut plan, Step::Begin);
    push_plain(
        &mut plan,
        Step::Transport {
            from,
            to,
            steps: policy.steps,
            pause: policy.duration.share(policy.steps as u32),
        },
    );
    push_plain(&mut plan, Step::Trigger);
    push_plain(&mut plan, Step::Finish);
    let label = glue4(
        "pointer motion ",
        place_text(from).as_str(),
        " \u{2192} ",
        place_text(to).as_str(),
    );
    assert(label@ =~= "pointer motion "@ + between(from, to));
    Ok(Gesture { label, plan })
}

/// Carry the pointer over the legs up to a knot. A leg that fails releases the
/// button.
pub open spec fn legs(knots: Seq<Place>, policy: Stroke, count: int) -> Seq<PlannedView>
    decreases count,
{
    if count <= 0 {
        seq![]
    } else {
        legs(knots, policy, count - 1) + guarded(
            StepView::Transport {
                from: knots[count - 1],
                to: knots[count],
                steps: policy.steps_per_leg,
                pause: policy.leg_duration@ / policy.steps_per_leg as nat,
            },
            seq![
                StepView::ButtonRelease(policy.button.number()),
                StepView::Flush("abort pointer stroke"@),
            ],
        ) + resting(policy.knot_dwell@)
    }
}

/// A pause, when it is one.
pub open spec fn resting(span: nat) -> Seq<PlannedView> {
    if span == 0 {
        seq![]
    } else {
        plain(StepView::Rest(span))
    }
}

/// A stroke along knots under a held button.
pub open spec fn stroke_plan(knots: Seq<Place>, policy: Stroke) -> Seq<PlannedView> {
    let button = policy.button.number();
    plain(StepView::Move(knots[0])) + plain(StepView::Begin) + plain(StepView::ButtonPress(button))
        + plain(StepView::Flush("begin pointer stroke"@)) + resting(policy.press_duration@) + legs(
        knots,
        policy,
        knots.len() - 1,
    ) + plain(StepView::Trigger) + guarded(
        StepView::ButtonRelease(button),
        seq![
            StepView::ButtonRelease(button),
            StepView::Flush("recover pointer stroke release"@),
        ],
    ) + plain(StepView::Flush("finish pointer stroke"@)) + plain(StepView::Finish)
}

/// Why a stroke cannot be carried out, when it cannot.
pub open spec fn stroke_fault(knots: Seq<Place>, policy: Stroke) -> Option<ErrorView> {
    if knots.len() < 2 {
        Some(
            ErrorView::X11 {
                operation: "stroke pointer"@,
                detail: "pointer stroke requires at least two knots"@,
            },
        )
    } else if policy.steps_per_leg == 0 {
        Some(
            ErrorView::X11 {
                operation: "stroke pointer"@,
                detail: "pointer stroke requires at least one step per leg"@,
            },
        )
    } else {
        None
    }
}

/// What a stroke is called.
pub open spec fn stroke_label(knots: Seq<Place>, policy: Stroke) -> Seq<char> {
    policy.button.name() + " stroke "@ + text::decimal(knots.len()) + " knot(s) "@ + between(
        knots[0],
        knots.last(),
    )
}

fn push_rest(plan: &mut Vec<Planned>, span: Duration)
    ensures
        plan_of(final(plan)@) == plan_of(old(plan)@) + resting(span@),
{
    if !span.is_zero() {
        push_plain(plan, Step::Rest(span));
    } else {
        assert(plan_of(plan@) + resting(span@) =~= plan_of(plan@));
    }
}

/// A release of a button and a flush behind it.
fn released_and_flushed(button: Button, operation: &'static str) -> (list: Vec<Step>)
    ensures
        steps_of(list@) == seq![
            StepView::ButtonRelease(button.number()),
            StepView::Flush(operation@),
        ],
{
    let mut list: Vec<Step> = Vec::new();
    list.push(Step::ButtonRelease(button.detail()));
    list.push(Step::Flush(operation));
    assert(steps_of(list@) =~= seq![
        StepView::ButtonRelease(button.number()),
        StepView::Flush(operation@),
    ]);
    list
}

/// Plan a stroke along knots under a held button.
pub fn stroke(knots: &[Place], policy: Stroke) -> (gesture: Result<Gesture>)
    ensures
        match gesture {
            Ok(gesture) => stroke_fault(knots@, policy) is None && gesture@ == (GestureView {
                label: stroke_label(knots@, policy),
                plan: stroke_plan(knots@, policy),
            }),
            Err(error) => stroke_fault(knots@, policy) == Some(error@),
        },
{
    if knots.len() < 2 {
        return Err(
            Error::X11 {
                operation: "stroke pointer",
                detail: "pointer stroke requires at least two knots".to_owned(),
            },
        );
    }
    if policy.steps_per_leg == 0 {
        return Err(
            Error::X11 {
                operation: "stroke pointer",
                detail: "pointer stroke requires at least one step per leg".to_owned(),
            },
        );
    }
    let mut plan: Vec<Planned> = Vec::new();
    push_plain(&mut plan, Step::Move(knots[0]));
    push_plain(&mut plan, Step::Begin);
    push_plain(&mut plan, Step::ButtonPress(policy.button.detail()));
    push_plain(&mut plan, Step::Flush("begin pointer stroke"));
    push_rest(&mut plan, policy.press_duration);
    let ghost opening = plan_of(plan@);
    let mut index: usize = 1;
    assert(opening + legs(knots@, policy, 0) =~= opening);
    while index < knots.len()
        invariant
            1 <= index <= knots.len(),
            policy.steps_per_leg > 0,
            plan_of(plan@) == opening + legs(knots@, policy, index - 1),
        decreases knots.len() - index,
    {
        let abort = released_and_flushed(policy.button, "abort pointer stroke");
        push_guarded(
            &mut plan,
            Step::Transport {
                from: knots[index - 1],
                to: knots[index],
                steps: policy.steps_per_leg,
                pause: policy.leg_duration.share(policy.steps_per_leg as u32),
            },
            abort,
        );
        push_rest(&mut plan, policy.knot_dwell);
        assert(plan_of(plan@) =~= opening + legs(knots@, policy, index as int));
        index = index + 1;
    }
    push_plain(&mut plan, Step::Trigger);
    let recover = released_and_flushed(policy.button, "recover pointer stroke release");
    push_guarded(&mut plan, Step::ButtonRelease(policy.button.detail()), recover);
    push_plain(&mut plan, Step::Flush("finish pointer stroke"));
    push_plain(&mut plan, Step::Finish);
    assert(plan_of(plan@) =~= stroke_plan(knots@, policy));
    let mut label = glue5(
        policy.button.text(),
        " stroke ",
        decimal_text(knots.len() as u128).as_str(),
        " knot(s) ",
        place_text(knots[0]).as_str(),
    );
    label.append(" \u{2192} ");
    label.append(place_text(knots[knots.len() - 1]).as_str());
    assert(label@ =~= stroke_label(knots@, policy));
    Ok(Gesture { label, plan })
}

/// The stroke that a drag amounts to: one leg, and no dwell.
pub open spec fn drags_as(policy: Drag, stroke: Stroke) -> bool {
    &&& stroke.button == policy.button
    &&& stroke.press_duration == policy.press_duration
    &&& stroke.steps_per_leg == policy.steps
    &&& stroke.leg_duration == policy.duration
    &&& stroke.knot_dwell@ == 0
}

/// The stroke that a drag amounts to.
pub fn drag_stroke(policy: Drag) -> (stroke: Stroke)
    ensures
        drags_as(policy, stroke),
{
    Stroke {
        button: policy.button,
        press_duration: policy.press_duration,
        steps_per_leg: policy.steps,
        leg_duration: policy.duration,
        knot_dwell: Duration::zero(),
    }
}

/// Plan a drag.
pub fn drag(from: Place, to: Place, policy: Drag) -> (gesture: Result<Gesture>)
    ensures
        forall|stroke: Stroke|
            #[trigger] drags_as(policy, stroke) ==> match gesture {
                Ok(gesture) => stroke_fault(seq![from, to], stroke) is None && gesture@
                    == (GestureView {
                    label: stroke_label(seq![from, to], stroke),
                    plan: stroke_plan(seq![from, to], stroke),
                }),
                Err(error) => stroke_fault(seq![from, to], stroke) == Some(error@),
            },
{
    let knots: [Place; 2] = [from, to];
    assert(knots@ =~= seq![from, to]);
    let policy = drag_stroke(policy);
    proof {
        assert forall|other: Stroke| other.knot_dwell@ == 0 implies other.knot_dwell
            == policy.knot_dwell by {
            crate::duration::lemma_nanoseconds_determine_span(
                other.knot_dwell,
                policy.knot_dwell,
            );
        }
    }
    stroke(&knots, policy)
}

// ---------------------------------------------------------------------------
// Wheel gestures
// ---------------------------------------------------------------------------

/// The guard behind a wheel gesture, in nanoseconds.
pub const POINTER_DELIVERY_GUARD_NS: u64 = 32_000_000;

/// A wheel gesture: a number of ticks in one direction.
#[derive(Debug)]
pub struct WheelGesture {
    pub label: String,
    pub place: Place,
    /// The button that one tick presses.
    pub detail: u8,
    pub count: u32,
    pub pause: Duration,
}

impl WheelGesture {
    /// One tick. The last one is the trigger; a pause follows every other one.
    pub open spec fn tick_plan(&self, tick: int) -> Seq<PlannedView> {
        (if tick + 1 == self.count {
            plain(StepView::Trigger)
        } else {
            seq![]
        }) + plain(StepView::ButtonPress(self.detail)) + plain(
            StepView::ButtonRelease(self.detail),
        ) + plain(StepView::Flush("scroll pointer"@)) + (if tick + 1 < self.count {
            resting(self.pause@)
        } else {
            seq![]
        })
    }

    /// Plan one tick.
    pub fn tick(&self, tick: u32) -> (plan: Vec<Planned>)
        requires
            tick < self.count,
        ensures
            plan_of(plan@) == self.tick_plan(tick as int),
    {
        let mut plan: Vec<Planned> = Vec::new();
        assert(plan_of(plan@) =~= seq![]);
        if tick + 1 == self.count {
            push_plain(&mut plan, Step::Trigger);
        }
        push_plain(&mut plan, Step::ButtonPress(self.detail));
        push_plain(&mut plan, Step::ButtonRelease(self.detail));
        push_plain(&mut plan, Step::Flush("scroll pointer"));
        if tick + 1 < self.count {
            push_rest(&mut plan, self.pause);
        }
        assert(plan_of(plan@) =~= self.tick_plan(tick as int));
        plan
    }

    /// The pause behind the gesture: a guard for the delivery of the ticks, when
    /// there were any.
    pub fn delivery_guard(&self) -> (guard: Option<Duration>)
        ensures
            match guard {
                Some(guard) => self.count > 0 && guard@ == POINTER_DELIVERY_GUARD_NS,
                None => self.count == 0,
            },
    {
        if self.count > 0 {
            Some(Duration::from_nanos(POINTER_DELIVERY_GUARD_NS))
        } else {
            None
        }
    }
}

/// What a wheel gesture is called.
pub open spec fn wheel_label(place: Place, ticks: i32) -> Seq<char> {
    "scroll "@ + text::signed_decimal(ticks as int) + " ticks at "@ + placed(place)
}

/// Plan a wheel gesture. Negative ticks scroll up, by the fourth button; others
/// scroll down, by the fifth.
pub fn wheel(place: Place, vertical_ticks: i32, policy: Wheel) -> (gesture: WheelGesture)
    ensures
        gesture.label@ == wheel_label(place, vertical_ticks),
        gesture.place == place,
        gesture.detail == if vertical_ticks < 0 {
            4u8
        } else {
            5u8
        },
        gesture.count == if vertical_ticks < 0 {
            -vertical_ticks
        } else {
            vertical_ticks as int
        },
        gesture.pause == policy.tick_duration,
{
    let wide: i64 = vertical_ticks as i64;
    let count: u32 = if wide < 0 {
        (-wide) as u32
    } else {
        wide as u32
    };
    WheelGesture {
        label: glue4(
            "scroll ",
            signed_decimal_text(wide).as_str(),
            " ticks at ",
            place_text(place).as_str(),
        ),
        place,
        detail: if wide < 0 {
            4
        } else {
            5
        },
        count,
        pause: policy.tick_duration,
    }
}

/// Plan a wheel gesture without pauses.
pub fn scroll(place: Place, vertical_ticks: i32) -> (gesture: WheelGesture)
    ensures
        gesture.label@ == wheel_label(place, vertical_ticks),
        gesture.place == place,
        gesture.detail == if vertical_ticks < 0 {
            4u8
        } else {
            5u8
        },
        gesture.count == if vertical_ticks < 0 {
            -vertical_ticks
        } else {
            vertical_ticks as int
        },
        gesture.pause@ == 0,
{
    wheel(place, vertical_ticks, Wheel { tick_duration: Duration::zero() })
}

/// A wheel gesture under modifiers.
#[derive(Debug)]
pub struct ModifiedWheel {
    /// Acquires the modifiers.
    pub before: Vec<Planned>,
    /// Releases them, whatever became of the wheel gesture.
    pub after: Vec<Planned>,
    pub label: String,
}

/// Acquire modifiers for a wheel gesture.
pub open spec fn wheel_acquisition(place: Place, modifiers: Modifiers) -> Seq<PlannedView> {
    let pressed = symbols(modifiers);
    plain(StepView::Move(place)) + presses(pressed) + guarded(
        StepView::Flush("acquire wheel modifiers"@),
        lifts(pressed).push(StepView::Flush("recover wheel modifiers"@)),
    ) + guard(pressed)
}

/// Plan what surrounds a wheel gesture under modifiers.
pub fn modified_wheel(gesture: &WheelGesture, modifiers: Modifiers) -> (around: ModifiedWheel)
    ensures
        plan_of(around.before@) == wheel_acquisition(gesture.place, modifiers),
        plan_of(around.after@) == releases(symbols(modifiers)) + plain(
            StepView::Flush("release wheel modifiers"@),
        ),
        around.label@ == modifiers.rendered() + " "@ + gesture.label@,
{
    let pressed = held_symbols(modifiers);
    let mut before: Vec<Planned> = Vec::new();
    push_plain(&mut before, Step::Move(gesture.place));
    push_presses(&mut before, &pressed);
    let recover = lifted_and_flushed(&pressed, "recover wheel modifiers");
    push_guarded(&mut before, Step::Flush("acquire wheel modifiers"), recover);
    push_guard(&mut before, &pressed);
    assert(plan_of(before@) =~= wheel_acquisition(gesture.place, modifiers));
    let mut after: Vec<Planned> = Vec::new();
    push_releases(&mut after, &pressed);
    push_plain(&mut after, Step::Flush("release wheel modifiers"));
    assert(plan_of(after@) =~= releases(symbols(modifiers)) + plain(
        StepView::Flush("release wheel modifiers"@),
    ));
    ModifiedWheel {
        before,
        after,
        label: glue3(modifiers.text().as_str(), " ", gesture.label.as_str()),
    }
}

// ---------------------------------------------------------------------------
// Key gestures
// ---------------------------------------------------------------------------

/// A key struck under modifiers.
pub open spec fn chord_plan(keycode: u8, modifiers: Modifiers) -> Seq<PlannedView> {
    let pressed = symbols(modifiers);
    plain(StepView::Begin) + presses(pressed) + guarded(StepView::KeyPress(keycode), lifts(pressed))
        + guarded(StepView::KeyRelease(keycode), lifts(pressed)) + releases(pressed) + plain(
        StepView::Flush("send key"@),
    ) + plain(StepView::Finish)
}

/// Why a key cannot be struck, when it cannot.
pub open spec fn strike_fault(keymap: &Keymap, key: Key) -> Option<ErrorView> {
    if key.symbol_fault() is Some {
        key.symbol_fault()
    } else {
        keymap.binding_fault(key.symbol() as u32)
    }
}

/// The modifiers of a chord: shift joins them where the key needs it.
pub open spec fn chord_modifiers(keymap: &Keymap, key: Key, modifiers: Modifiers) -> Modifiers {
    if keymap.shifted(key.symbol() as u32) {
        Modifiers { shift: true, ..modifiers }
    } else {
        modifiers
    }
}

/// Plan a key struck under modifiers.
pub fn chord(keymap: &Keymap, modifiers: Modifiers, key: Key) -> (gesture: Result<Gesture>)
    requires
        keymap.readable(),
    ensures
        match gesture {
            Ok(gesture) => strike_fault(keymap, key) is None && gesture@ == (GestureView {
                label: chord_modifiers(keymap, key, modifiers).rendered() + "+"@ + key.rendered(),
                plan: chord_plan(
                    keymap.code(key.symbol() as u32),
                    chord_modifiers(keymap, key, modifiers),
                ),
            }),
            Err(error) => strike_fault(keymap, key) == Some(error@),
        },
{
    let symbol: u32 = match key.keysym() {
        Ok(symbol) => symbol,
        Err(error) => {
            return Err(error);
        },
    };
    let (keycode, shift) = match keymap.keycode(symbol) {
        Ok(binding) => binding,
        Err(error) => {
            return Err(error);
        },
    };
    let modifiers = if shift {
        modifiers.union(Modifiers::shift())
    } else {
        modifiers
    };
    let pressed = held_symbols(modifiers);
    let mut plan: Vec<Planned> = Vec::new();
    push_plain(&mut plan, Step::Begin);
    push_presses(&mut plan, &pressed);
    assert(pressed@.take(pressed@.len() as int) =~= pressed@);
    let undo = lift_steps(&pressed, pressed.len());
    push_guarded(&mut plan, Step::KeyPress(keycode), undo);
    let undo = lift_steps(&pressed, pressed.len());
    push_guarded(&mut plan, Step::KeyRelease(keycode), undo);
    push_releases(&mut plan, &pressed);
    push_plain(&mut plan, Step::Flush("send key"));
    push_plain(&mut plan, Step::Finish);
    assert(plan_of(plan@) =~= chord_plan(keycode, modifiers));
    Ok(Gesture { label: glue3(modifiers.text().as_str(), "+", key.text().as_str()), plan })
}

/// A key that shift would be needed for cannot be held.
pub open spec fn shifted_hold(detail: Seq<char>) -> ErrorView {
    ErrorView::Unsupported { capability: "held shifted key"@, detail }
}

/// Plan the press of a key that stays held.
pub fn key_down(keymap: &Keymap, key: Key) -> (gesture: Result<Gesture>)
    requires
        keymap.readable(),
    ensures
        match gesture {
            Ok(gesture) => strike_fault(keymap, key) is None && !keymap.shifted(
                key.symbol() as u32,
            ) && gesture@ == (GestureView {
                label: key.rendered() + " down"@,
                plan: plain(StepView::Begin) + plain(
                    StepView::KeyPress(keymap.code(key.symbol() as u32)),
                ) + plain(StepView::Flush("press key"@)) + plain(StepView::Finish),
            }),
            Err(error) => if strike_fault(keymap, key) is Some {
                strike_fault(keymap, key) == Some(error@)
            } else {
                keymap.shifted(key.symbol() as u32) && error@ == shifted_hold(
                    "hold Shift explicitly and use the unshifted key"@,
                )
            },
        },
{
    let keycode: u8 = match held_keycode(
        keymap,
        key,
        "hold Shift explicitly and use the unshifted key",
    ) {
        Ok(keycode) => keycode,
        Err(error) => {
            return Err(error);
        },
    };
    let mut plan: Vec<Planned> = Vec::new();
    push_plain(&mut plan, Step::Begin);
    push_plain(&mut plan, Step::KeyPress(keycode));
    push_plain(&mut plan, Step::Flush("press key"));
    push_plain(&mut plan, Step::Finish);
    Ok(Gesture { label: glue2(key.text().as_str(), " down"), plan })
}

/// Plan the release of a held key.
pub fn key_up(keymap: &Keymap, key: Key) -> (gesture: Result<Gesture>)
    requires
        keymap.readable(),
    ensures
        match gesture {
            Ok(gesture) => strike_fault(keymap, key) is None && !keymap.shifted(
                key.symbol() as u32,
            ) && gesture@ == (GestureView {
                label: key.rendered() + " up"@,
                plan: plain(StepView::Begin) + plain(
                    StepView::KeyRelease(keymap.code(key.symbol() as u32)),
                ) + plain(StepView::Flush("release key"@)) + plain(StepView::Finish),
            }),
            Err(error) => if strike_fault(keymap, key) is Some {
                strike_fault(keymap, key) == Some(error@)
            } else {
                keymap.shifted(key.symbol() as u32) && error@ == shifted_hold(
                    "release the unshifted key and Shift explicitly"@,
                )
            },
        },
{
    let keycode: u8 = match held_keycode(
        keymap,
        key,
        "release the unshifted key and Shift explicitly",
    ) {
        Ok(keycode) => keycode,
        Err(error) => {
            return Err(error);
        },
    };
    let mut plan: Vec<Planned> = Vec::new();
    push_plain(&mut plan, Step::Begin);
    push_plain(&mut plan, Step::KeyRelease(keycode));
    push_plain(&mut plan, Step::Flush("release key"));
    push_plain(&mut plan, Step::Finish);
    Ok(Gesture { label: glue2(key.text().as_str(), " up"), plan })
}

fn held_keycode(keymap: &Keymap, key: Key, advice: &str) -> (keycode: Result<u8>)
    requires
        keymap.readable(),
    ensures
        match keycode {
            Ok(keycode) => strike_fault(keymap, key) is None && !keymap.shifted(
                key.symbol() as u32,
            ) && keycode == keymap.code(key.symbol() as u32),
            Err(error) => if strike_fault(keymap, key) is Some {
                strike_fault(keymap, key) == Some(error@)
            } else {
                keymap.shifted(key.symbol() as u32) && error@ == shifted_hold(advice@)
            },
        },
{
    let symbol: u32 = match key.keysym() {
        Ok(symbol) => symbol,
        Err(error) => {
            return Err(error);
        },
    };
    match keymap.keycode(symbol) {
        Ok((keycode, shift)) => {
            if shift {
                return Err(
                    Error::Unsupported {
                        capability: "held shifted key",
                        detail: advice.to_owned(),
                    },
                );
            }
            Ok(keycode)
        },
        Err(error) => Err(error),
    }
}

/// What typing a text is called.
pub fn typing_label(text: &str) -> (label: String)
    ensures
        label@ == typing(text@),
{
    let count: usize = text::characters(text).len();
    glue3("type ", decimal_text(count as u128).as_str(), " character(s)")
}

/// What typing a text is called, as its receipt tells.
pub open spec fn typing(text: Seq<char>) -> Seq<char> {
    "type "@ + text::decimal(text.len()) + " character(s)"@
}

/// The key of a character.
pub open spec fn character_key(c: char) -> Key {
    Key::Character(c)
}

/// Whether the first characters of a text were struck in order, each once, by way of
/// these stages.
pub open spec fn struck<G: Stage<Key, Error>>(
    text: Seq<char>,
    count: int,
    stages: Seq<G>,
) -> bool {
    &&& stages.len() == count + 1
    &&& forall|i: int|
        0 <= i < count ==> G::goes(
            stages[i],
            character_key(#[trigger] text[i]),
            Ok(()),
            stages[i + 1],
        )
}

/// Whether a receipt is that of typing a text: opened before the first key,
/// triggered before the last one, if there is any, and closed behind it.
pub open spec fn typed_at<G, C: Fn(&G, &Step) -> u64>(
    clock: &C,
    text: Seq<char>,
    stages: Seq<G>,
    receipt: ActionReceiptView,
) -> bool {
    exists|opened: u64, triggered: u64, closed: u64|
        #[trigger] play::reads(clock, stages[0], StepView::Begin, opened)
            && #[trigger] play::reads(clock, stages.last(), StepView::Finish, closed)
            && if text.len() == 0 {
            triggered == opened && receipt == ActionReceiptView::begun_at(
                opened,
                typing(text),
            ).finished_at(closed)
        } else {
            play::reads(clock, stages[text.len() - 1], StepView::Trigger, triggered) && receipt
                == #[trigger] ActionReceiptView::begun_at(opened, typing(text)).triggered_at(
                triggered,
            ).finished_at(closed)
        }
}

/// Whether typing a text can leave the typist so, with an outcome.
pub open spec fn types<G: Stage<Key, Error>, C: Fn(&G, &Step) -> u64>(
    clock: &C,
    text: Seq<char>,
    before: G,
    outcome: Result<ActionReceipt>,
    after: G,
) -> bool {
    match outcome {
        Ok(receipt) => exists|stages: Seq<G>| #[trigger]
            struck(text, text.len() as int, stages) && stage::spans(stages, before, after)
                && typed_at(clock, text, stages, receipt@),
        Err(error) => exists|at: int, stages: Seq<G>|
            0 <= at < text.len() && #[trigger] struck(text, at, stages) && stages[0] == before
                && G::goes(stages.last(), character_key(text[at]), Err(error), after),
    }
}

/// Type a text, one key after another. The last key is the one that should cause
/// the reaction; the first key that fails ends the typing.
pub fn type_text<G: Stage<Key, Error>>(text: &str, typist: &mut G) -> (receipt: Result<
    ActionReceipt,
>)
    ensures
        types(&play::reading::<G>, text@, *old(typist), receipt, *final(typist)),
{
    type_text_by(text, typist, &play::reading::<G>)
}

/// Type a text by a clock.
pub fn type_text_by<G: Stage<Key, Error>, C: Fn(&G, &Step) -> u64>(
    text: &str,
    typist: &mut G,
    clock: &C,
) -> (receipt: Result<ActionReceipt>)
    requires
        play::readable(clock),
    ensures
        types(clock, text@, *old(typist), receipt, *final(typist)),
{
    let opened: u64 = clock(&*typist, &Step::Begin);
    assert(play::reads(clock, *typist, StepView::Begin, opened));
    let mut receipt = ActionReceipt::begin_at(opened, typing_label(text).as_str());
    let spelled = text::characters(text);
    let ghost mut triggered = opened;
    let ghost mut stages: Seq<G> = seq![*typist];
    let mut index: usize = 0;
    while index < spelled.len()
        invariant
            index <= spelled.len(),
            spelled@ == text@,
            play::readable(clock),
            struck(text@, index as int, stages),
            stages[0] == *old(typist),
            stages.last() == *typist,
            if index < spelled@.len() || spelled@.len() == 0 {
                triggered == opened && receipt@ == ActionReceiptView::begun_at(
                    opened,
                    typing(text@),
                )
            } else {
                play::reads(clock, stages[index - 1], StepView::Trigger, triggered) && receipt@
                    == ActionReceiptView::begun_at(opened, typing(text@)).triggered_at(triggered)
            },
        decreases spelled.len() - index,
    {
        let ghost here = *typist;
        if index + 1 == spelled.len() {
            let now: u64 = clock(&*typist, &Step::Trigger);
            assert(play::reads(clock, here, StepView::Trigger, now));
            receipt = receipt.trigger_at(now);
            proof {
                triggered = now;
            }
        }
        let next = Key::Character(spelled[index]);
        assert(text@[index as int] == spelled@[index as int]);
        match typist.perform(&next) {
            Ok(unit) => {
                assert(unit == ());
            },
            Err(error) => {
                return Err(error);
            },
        }
        proof {
            let passed = stages.push(*typist);
            assert(struck(text@, index + 1, passed)) by {
                assert forall|i: int| 0 <= i < index + 1 implies G::goes(
                    passed[i],
                    character_key(#[trigger] text@[i]),
                    Ok(()),
                    passed[i + 1],
                ) by {}
            }
            stages = passed;
        }
        index = index + 1;
    }
    let closed: u64 = clock(&*typist, &Step::Finish);
    assert(play::reads(clock, *typist, StepView::Finish, closed));
    let receipt = receipt.finish_at(closed);
    assert(typed_at(clock, text@, stages, receipt@)) by {
        let begun = ActionReceiptView::begun_at(opened, typing(text@));
        assert(begun.triggered_at(triggered).finished_at(closed) == begun.triggered_at(
            triggered,
        ).finished_at(closed));
    }
    Ok(receipt)
}

/// A text typed to its end strikes each of its characters once, in their order, and
/// nothing else.
pub proof fn law_texts_are_typed_to_the_letter(
    text: Seq<char>,
    count: int,
    stages: Seq<Rehearsal<Key>>,
)
    requires
        0 <= count <= text.len(),
        struck(text, count, stages),
    ensures
        stages.last()@ == stages[0]@ + text.take(count).map_values(|c: char| character_key(c)),
    decreases count,
{
    let keys = text.take(count).map_values(|c: char| character_key(c));
    if count == 0 {
        assert(stages.last()@ =~= stages[0]@ + keys);
    } else {
        let fewer = stages.drop_last();
        assert(struck(text, count - 1, fewer));
        law_texts_are_typed_to_the_letter(text, count - 1, fewer);
        let last = text[count - 1];
        assert(<Rehearsal<Key> as Stage<Key, Error>>::goes(
            stages[count - 1],
            character_key(last),
            Ok(()),
            stages[count],
        ));
        assert(keys =~= text.take(count - 1).map_values(|c: char| character_key(c)).push(
            character_key(last),
        ));
        assert(stages.last()@ =~= stages[0]@ + keys);
    }
}

// ---------------------------------------------------------------------------
// Laws
// ---------------------------------------------------------------------------

/// The modifiers that a step leaves pressed, in the order in which they were
/// pressed: a release takes the last of them.
pub open spec fn still_held(held: Seq<u32>, step: StepView) -> Seq<u32> {
    match step {
        StepView::ModifierPress(symbol) => held.push(symbol),
        StepView::ModifierLift(symbol) => if held.len() > 0 && held.last() == symbol {
            held.drop_last()
        } else {
            held
        },
        _ => held,
    }
}

/// The modifiers that a plan leaves pressed.
pub open spec fn held_after(held: Seq<u32>, plan: Seq<PlannedView>) -> Seq<u32>
    decreases plan.len(),
{
    if plan.len() == 0 {
        held
    } else {
        still_held(held_after(held, plan.drop_last()), plan.last().step)
    }
}

/// The modifiers that a rescue leaves pressed.
pub open spec fn rescued(held: Seq<u32>, rescue: Seq<StepView>) -> Seq<u32>
    decreases rescue.len(),
{
    if rescue.len() == 0 {
        held
    } else {
        still_held(rescued(held, rescue.drop_last()), rescue.last())
    }
}

/// Whether a step can fail. Those that pass time, mark the gesture, or release a
/// modifier whatever the server says cannot.
pub open spec fn fallible(step: StepView) -> bool {
    !(step is Rest || step is ModifierLift || step is Begin || step is Trigger || step is Finish)
}

/// Whether no failure of a plan leaves a modifier pressed once its rescue was
/// carried out.
pub open spec fn safe(held: Seq<u32>, plan: Seq<PlannedView>) -> bool {
    forall|index: int|
        0 <= index < plan.len() && fallible((#[trigger] plan[index]).step) ==> rescued(
            held_after(held, plan.take(index)),
            plan[index].rescue,
        ) == Seq::<u32>::empty()
}

/// Whether a plan lets go of every modifier, both when it is carried out to its
/// end and when one of its steps fails.
pub open spec fn lets_go(plan: Seq<PlannedView>) -> bool {
    held_after(seq![], plan) == Seq::<u32>::empty() && safe(seq![], plan)
}

proof fn lemma_held_after_both(held: Seq<u32>, front: Seq<PlannedView>, back: Seq<PlannedView>)
    ensures
        held_after(held, front + back) == held_after(held_after(held, front), back),
    decreases back.len(),
{
    if back.len() == 0 {
        assert(front + back =~= front);
    } else {
        lemma_held_after_both(held, front, back.drop_last());
        assert((front + back).drop_last() =~= front + back.drop_last());
    }
}

proof fn lemma_safe_both(held: Seq<u32>, front: Seq<PlannedView>, back: Seq<PlannedView>)
    requires
        safe(held, front),
        safe(held_after(held, front), back),
    ensures
        safe(held, front + back),
        held_after(held, front + back) == held_after(held_after(held, front), back),
{
    lemma_held_after_both(held, front, back);
    let plan = front + back;
    assert forall|index: int|
        0 <= index < plan.len() && fallible((#[trigger] plan[index]).step) implies rescued(
        held_after(held, plan.take(index)),
        plan[index].rescue,
    ) == Seq::<u32>::empty() by {
        if index < front.len() {
            assert(plan[index] == front[index]);
            assert(plan.take(index) =~= front.take(index));
        } else {
            let at = index - front.len();
            assert(plan[index] == back[at]);
            assert(plan.take(index) =~= front + back.take(at));
            lemma_held_after_both(held, front, back.take(at));
        }
    }
}

proof fn lemma_single(held: Seq<u32>, step: StepView, rescue: Seq<StepView>)
    requires
        fallible(step) ==> rescued(held, rescue) == Seq::<u32>::empty(),
    ensures
        safe(held, guarded(step, rescue)),
        held_after(held, guarded(step, rescue)) == still_held(held, step),
{
    let plan = guarded(step, rescue);
    assert(plan.drop_last() =~= seq![]);
    assert(held_after(held, plan.drop_last()) == held);
    assert(plan.take(0) =~= seq![]);
}

proof fn lemma_lifts(pressed: Seq<u32>)
    ensures
        rescued(pressed, lifts(pressed)) == Seq::<u32>::empty(),
    decreases pressed.len(),
{
    lemma_lifts_down_to(pressed, pressed.len() as int);
    assert(lifts(pressed).take(pressed.len() as int) =~= lifts(pressed));
    assert(pressed.take(0) =~= seq![]);
}

proof fn lemma_lifts_down_to(pressed: Seq<u32>, count: int)
    requires
        0 <= count <= pressed.len(),
    ensures
        rescued(pressed, lifts(pressed).take(count)) == pressed.take(pressed.len() - count),
    decreases count,
{
    let list = lifts(pressed).take(count);
    if count > 0 {
        lemma_lifts_down_to(pressed, count - 1);
        assert(list.drop_last() =~= lifts(pressed).take(count - 1));
        let held = pressed.take(pressed.len() - (count - 1));
        assert(list.last() == StepView::ModifierLift(pressed[pressed.len() - count]));
        assert(held.drop_last() =~= pressed.take(pressed.len() - count));
    } else {
        assert(pressed.take(pressed.len() as int) =~= pressed);
    }
}

proof fn lemma_lifts_and_flush(pressed: Seq<u32>, operation: Seq<char>)
    ensures
        rescued(pressed, lifts(pressed).push(StepView::Flush(operation))) == Seq::<u32>::empty(),
{
    lemma_lifts(pressed);
    let list = lifts(pressed).push(StepView::Flush(operation));
    assert(list.drop_last() =~= lifts(pressed));
}

proof fn lemma_presses(pressed: Seq<u32>)
    ensures
        safe(seq![], presses(pressed)),
        held_after(seq![], presses(pressed)) == pressed,
{
    assert forall|count: int| 0 <= count <= pressed.len() implies #[trigger] held_after(
        seq![],
        presses(pressed).take(count),
    ) == pressed.take(count) by {
        lemma_presses_up_to(pressed, count);
    }
    assert(presses(pressed).take(pressed.len() as int) =~= presses(pressed));
    assert(pressed.take(pressed.len() as int) =~= pressed);
    assert(held_after(seq![], presses(pressed).take(pressed.len() as int)) == pressed);
    assert forall|index: int|
        0 <= index < presses(pressed).len() && fallible(
            (#[trigger] presses(pressed)[index]).step,
        ) implies rescued(
        held_after(seq![], presses(pressed).take(index)),
        presses(pressed)[index].rescue,
    ) == Seq::<u32>::empty() by {
        lemma_lifts(pressed.take(index));
    }
}

proof fn lemma_presses_up_to(pressed: Seq<u32>, count: int)
    requires
        0 <= count <= pressed.len(),
    ensures
        held_after(seq![], presses(pressed).take(count)) == pressed.take(count),
    decreases count,
{
    let list = presses(pressed).take(count);
    if count > 0 {
        lemma_presses_up_to(pressed, count - 1);
        assert(list.drop_last() =~= presses(pressed).take(count - 1));
        assert(pressed.take(count) =~= pressed.take(count - 1).push(pressed[count - 1]));
    } else {
        assert(pressed.take(0) =~= seq![]);
    }
}

proof fn lemma_releases(pressed: Seq<u32>)
    ensures
        safe(pressed, releases(pressed)),
        held_after(pressed, releases(pressed)) == Seq::<u32>::empty(),
{
    lemma_releases_up_to(pressed, pressed.len() as int);
    lemma_lifts(pressed);
    assert(releases(pressed).take(pressed.len() as int) =~= releases(pressed));
    assert(lifts(pressed).take(pressed.len() as int) =~= lifts(pressed));
}

proof fn lemma_releases_up_to(pressed: Seq<u32>, count: int)
    requires
        0 <= count <= pressed.len(),
    ensures
        held_after(pressed, releases(pressed).take(count)) == rescued(
            pressed,
            lifts(pressed).take(count),
        ),
    decreases count,
{
    if count > 0 {
        lemma_releases_up_to(pressed, count - 1);
        assert(releases(pressed).take(count).drop_last() =~= releases(pressed).take(count - 1));
        assert(lifts(pressed).take(count).drop_last() =~= lifts(pressed).take(count - 1));
    }
}

proof fn lemma_guard(pressed: Seq<u32>)
    ensures
        safe(pressed, guard(pressed)),
        held_after(pressed, guard(pressed)) == pressed,
{
    if pressed.len() > 0 {
        lemma_single(pressed, StepView::Rest(MODIFIER_GUARD_NS as nat), seq![]);
    }
}

/// However a click ends, it leaves no modifier pressed.
pub proof fn law_clicks_let_go_of_modifiers(place: Place, button: Button, modifiers: Modifiers)
    ensures
        lets_go(click_plan(place, button, modifiers)),
{
    let pressed = symbols(modifiers);
    let none = Seq::<u32>::empty();
    let undo = lifts(pressed).push(StepView::Flush("release click modifiers"@));
    let recover = lifts(pressed).push(StepView::Flush("recover click modifiers"@));
    lemma_lifts_and_flush(pressed, "release click modifiers"@);
    lemma_lifts_and_flush(pressed, "recover click modifiers"@);
    lemma_guard(pressed);
    let plan = plain(StepView::Move(place));
    lemma_single(none, StepView::Move(place), seq![]);
    lemma_presses(pressed);
    lemma_safe_both(none, plan, presses(pressed));
    let plan = plan + presses(pressed);
    let acquire = StepView::Flush("acquire click modifiers"@);
    lemma_single(pressed, acquire, recover);
    lemma_safe_both(none, plan, guarded(acquire, recover));
    let plan = plan + guarded(acquire, recover);
    lemma_safe_both(none, plan, guard(pressed));
    let plan = plan + guard(pressed);
    lemma_single(pressed, StepView::Begin, seq![]);
    lemma_safe_both(none, plan, plain(StepView::Begin));
    let plan = plan + plain(StepView::Begin);
    let press = StepView::ButtonPress(button.number());
    lemma_single(pressed, press, undo);
    lemma_safe_both(none, plan, guarded(press, undo));
    let plan = plan + guarded(press, undo);
    let release = StepView::ButtonRelease(button.number());
    lemma_single(pressed, release, undo);
    lemma_safe_both(none, plan, guarded(release, undo));
    let plan = plan + guarded(release, undo);
    let flush = StepView::Flush("click pointer"@);
    lemma_single(pressed, flush, undo);
    lemma_safe_both(none, plan, guarded(flush, undo));
    let plan = plan + guarded(flush, undo);
    lemma_safe_both(none, plan, guard(pressed));
    let plan = plan + guard(pressed);
    lemma_releases(pressed);
    lemma_safe_both(none, plan, releases(pressed));
    let plan = plan + releases(pressed);
    let last = StepView::Flush("release click modifiers"@);
    lemma_single(none, last, seq![]);
    lemma_safe_both(none, plan, plain(last));
    let plan = plan + plain(last);
    lemma_single(none, StepView::Finish, seq![]);
    lemma_safe_both(none, plan, plain(StepView::Finish));
}

/// However a chord ends, it leaves no modifier pressed.
pub proof fn law_chords_let_go_of_modifiers(keycode: u8, modifiers: Modifiers)
    ensures
        lets_go(chord_plan(keycode, modifiers)),
{
    let pressed = symbols(modifiers);
    let none = Seq::<u32>::empty();
    lemma_lifts(pressed);
    let plan = plain(StepView::Begin);
    lemma_single(none, StepView::Begin, seq![]);
    lemma_presses(pressed);
    lemma_safe_both(none, plan, presses(pressed));
    let plan = plan + presses(pressed);
    let press = StepView::KeyPress(keycode);
    lemma_single(pressed, press, lifts(pressed));
    lemma_safe_both(none, plan, guarded(press, lifts(pressed)));
    let plan = plan + guarded(press, lifts(pressed));
    let release = StepView::KeyRelease(keycode);
    lemma_single(pressed, release, lifts(pressed));
    lemma_safe_both(none, plan, guarded(release, lifts(pressed)));
    let plan = plan + guarded(release, lifts(pressed));
    lemma_releases(pressed);
    lemma_safe_both(none, plan, releases(pressed));
    let plan = plan + releases(pressed);
    let last = StepView::Flush("send key"@);
    lemma_single(none, last, seq![]);
    lemma_safe_both(none, plan, plain(last));
    let plan = plan + plain(last);
    lemma_single(none, StepView::Finish, seq![]);
    lemma_safe_both(none, plan, plain(StepView::Finish));
}

/// However the acquisition of a wheel gesture's modifiers ends, either none of
/// them is pressed or all are, and then the releases behind the gesture let go
/// of them.
pub proof fn law_wheels_let_go_of_modifiers(place: Place, modifiers: Modifiers)
    ensures
        safe(seq![], wheel_acquisition(place, modifiers)),
        held_after(seq![], wheel_acquisition(place, modifiers)) == symbols(modifiers),
        held_after(symbols(modifiers), releases(symbols(modifiers))) == Seq::<u32>::empty(),
{
    let pressed = symbols(modifiers);
    let none = Seq::<u32>::empty();
    let recover = lifts(pressed).push(StepView::Flush("recover wheel modifiers"@));
    lemma_lifts_and_flush(pressed, "recover wheel modifiers"@);
    lemma_guard(pressed);
    let plan = plain(StepView::Move(place));
    lemma_single(none, StepView::Move(place), seq![]);
    lemma_presses(pressed);
    lemma_safe_both(none, plan, presses(pressed));
    let plan = plan + presses(pressed);
    let acquire = StepView::Flush("acquire wheel modifiers"@);
    lemma_single(pressed, acquire, recover);
    lemma_safe_both(none, plan, guarded(acquire, recover));
    let plan = plan + guarded(acquire, recover);
    lemma_safe_both(none, plan, guard(pressed));
    lemma_releases(pressed);
}

} // verus!
