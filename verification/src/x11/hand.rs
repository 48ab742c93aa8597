//! What gestures do: the pointer, the buttons, and the keys as the display server
//! feels them, and what every planned gesture comes to in those terms.
use crate::duration::Duration;
use crate::error::Error;
use crate::input::{Button, Drag, Key, Modifiers, Motion, Stroke, Wheel};
use crate::x11::gesture;
use crate::x11::gesture::{
    Gesture, ModifiedWheel, Planned, PlannedView, StepView, WheelGesture,
};
use crate::x11::keyboard::Keymap;
use crate::x11::pointer::Place;
use vstd::prelude::*;

verus! {

/// Something that the display server feels, or a mark of the gesture's timing
/// between two such things.
pub enum Touch {
    /// The pointer jumps to a place.
    Jumped(Place),
    /// The pointer is carried from a place to another, in a number of steps with a
    /// pause between them.
    Carried { from: Place, to: Place, steps: u16, pause: nat },
    /// A button goes down where the pointer stands, under the modifiers that are held.
    Pressed { button: u8, at: Option<Place>, under: Set<u32> },
    /// A button goes up where the pointer stands, under the modifiers that are held.
    Released { button: u8, at: Option<Place>, under: Set<u32> },
    /// A key goes down under the modifiers that are held.
    Struck { key: u8, under: Set<u32> },
    /// A key goes up under the modifiers that are held.
    Lifted { key: u8, under: Set<u32> },
    Begun,
    Triggered,
    Finished,
}

/// The hand that carries out a gesture.
#[verifier::ext_equal]
pub struct Hand {
    /// Where the pointer stands, as far as it is known.
    pub place: Option<Place>,
    /// The buttons that are down.
    pub buttons: Set<u8>,
    /// The keys that are down.
    pub keys: Set<u8>,
    /// The modifiers that are held.
    pub held: Set<u32>,
    /// What was felt, in order.
    pub felt: Seq<Touch>,
    /// Whether some input still waits to be handed to the server.
    pub waiting: bool,
    /// Time that passed at rest.
    pub rested: nat,
    /// Whether the pointer was only ever carried on from where it stood.
    pub steady: bool,
}

impl Hand {
    /// The hand after a step.
    pub open spec fn does(self, step: StepView) -> Hand {
        match step {
            StepView::Move(place) => Hand {
                place: Some(place),
                felt: self.felt.push(Touch::Jumped(place)),
                ..self
            },
            StepView::Transport { from, to, steps, pause } => Hand {
                place: Some(to),
                felt: self.felt.push(Touch::Carried { from, to, steps, pause }),
                steady: self.steady && self.place == Some(from),
                ..self
            },
            StepView::ButtonPress(button) => Hand {
                buttons: self.buttons.insert(button),
                felt: self.felt.push(
                    Touch::Pressed { button, at: self.place, under: self.held },
                ),
                waiting: true,
                ..self
            },
            StepView::ButtonRelease(button) => Hand {
                buttons: self.buttons.remove(button),
                felt: self.felt.push(
                    Touch::Released { button, at: self.place, under: self.held },
                ),
                waiting: true,
                ..self
            },
            StepView::KeyPress(key) => Hand {
                keys: self.keys.insert(key),
                felt: self.felt.push(Touch::Struck { key, under: self.held }),
                waiting: true,
                ..self
            },
            StepView::KeyRelease(key) => Hand {
                keys: self.keys.remove(key),
                felt: self.felt.push(Touch::Lifted { key, under: self.held }),
                waiting: true,
                ..self
            },
            StepView::ModifierPress(symbol) => Hand {
                held: self.held.insert(symbol),
                waiting: true,
                ..self
            },
            StepView::ModifierLift(symbol) => Hand {
                held: self.held.remove(symbol),
                waiting: true,
                ..self
            },
            StepView::Flush(_) => Hand { waiting: false, ..self },
            StepView::Rest(span) => Hand { rested: self.rested + span, ..self },
            StepView::Begin => Hand { felt: self.felt.push(Touch::Begun), ..self },
            StepView::Trigger => Hand { felt: self.felt.push(Touch::Triggered), ..self },
            StepView::Finish => Hand { felt: self.felt.push(Touch::Finished), ..self },
        }
    }

    /// The hand after a plan of which no step fails.
    pub open spec fn follows(self, plan: Seq<PlannedView>) -> Hand
        decreases plan.len(),
    {
        if plan.len() == 0 {
            self
        } else {
            self.follows(plan.drop_last()).does(plan.last().step)
        }
    }

    /// The hand after the steps of a rescue.
    pub open spec fn recovers(self, rescue: Seq<StepView>) -> Hand
        decreases rescue.len(),
    {
        if rescue.len() == 0 {
            self
        } else {
            self.recovers(rescue.drop_last()).does(rescue.last())
        }
    }
}

/// A hand at rest: nothing is down, nothing was felt, and nothing waits. Where its
/// pointer stands is anybody's guess.
pub open spec fn at_rest(place: Option<Place>) -> Hand {
    Hand {
        place,
        buttons: Set::empty(),
        keys: Set::empty(),
        held: Set::empty(),
        felt: seq![],
        waiting: false,
        rested: 0,
        steady: true,
    }
}

/// What a gesture comes to in a hand at rest.
pub open spec fn done(gesture: Gesture, place: Option<Place>) -> Hand {
    at_rest(place).follows(gesture@.plan)
}

/// The hand once the first steps of a gesture succeeded, the next one failed, and its
/// rescue was carried out.
pub open spec fn undone(gesture: Gesture, place: Option<Place>, at: int) -> Hand {
    at_rest(place).follows(gesture@.plan.take(at)).recovers(gesture@.plan[at].rescue)
}

/// The number of a button in the core protocol: the primary button is the first, the
/// secondary one the third.
pub open spec fn pointer_button(button: Button) -> u8 {
    if button is Primary {
        1
    } else if button is Secondary {
        3
    } else {
        2
    }
}

/// The symbols of the left keys of held modifiers.
pub open spec fn modifier_keys(modifiers: Modifiers) -> Set<u32> {
    Set::new(
        |symbol: u32|
            (modifiers.shift && symbol == 0xffe1) || (modifiers.ctrl && symbol == 0xffe3) || (
            modifiers.alt && symbol == 0xffe9) || (modifiers.logo && symbol == 0xffeb),
    )
}

broadcast proof fn lemma_follows_both(hand: Hand, front: Seq<PlannedView>, back: Seq<PlannedView>)
    ensures
        #[trigger] hand.follows(front + back) == hand.follows(front).follows(back),
    decreases back.len(),
{
    if back.len() == 0 {
        assert(front + back =~= front);
    } else {
        lemma_follows_both(hand, front, back.drop_last());
        assert((front + back).drop_last() =~= front + back.drop_last());
    }
}

broadcast proof fn lemma_follows_plain(hand: Hand, step: StepView)
    ensures
        #[trigger] hand.follows(gesture::plain(step)) == hand.does(step),
{
    assert(gesture::plain(step).drop_last() =~= seq![]);
    assert(hand.follows(gesture::plain(step).drop_last()) == hand);
}

broadcast proof fn lemma_follows_guarded(hand: Hand, step: StepView, rescue: Seq<StepView>)
    ensures
        #[trigger] hand.follows(gesture::guarded(step, rescue)) == hand.does(step),
{
    assert(gesture::guarded(step, rescue).drop_last() =~= seq![]);
    assert(hand.follows(gesture::guarded(step, rescue).drop_last()) == hand);
}

broadcast proof fn lemma_follows_rest(hand: Hand, span: nat)
    ensures
        #[trigger] hand.follows(gesture::resting(span)) == (Hand { rested: hand.rested + span, ..hand }),
{
    broadcast use lemma_follows_plain;

}

broadcast proof fn lemma_follows_guard(hand: Hand, pressed: Seq<u32>)
    ensures
        #[trigger] hand.follows(gesture::guard(pressed)) == (Hand {
            rested: hand.rested + if pressed.len() == 0 {
                0nat
            } else {
                32_000_000nat
            },
            ..hand
        }),
{
    broadcast use lemma_follows_plain;

}

proof fn lemma_presses_take(hand: Hand, pressed: Seq<u32>, count: int)
    requires
        0 <= count <= pressed.len(),
    ensures
        hand.follows(gesture::presses(pressed).take(count)) == (Hand {
            held: hand.held.union(pressed.take(count).to_set()),
            waiting: hand.waiting || count > 0,
            ..hand
        }),
    decreases count,
{
    let list = gesture::presses(pressed).take(count);
    if count == 0 {
        assert(hand.held.union(pressed.take(0).to_set()) =~= hand.held);
    } else {
        lemma_presses_take(hand, pressed, count - 1);
        assert(list.drop_last() =~= gesture::presses(pressed).take(count - 1));
        assert(pressed.take(count) =~= pressed.take(count - 1).push(pressed[count - 1]));
        assert forall|symbol: u32|
            pressed.take(count).to_set().contains(symbol) == (pressed.take(
                count - 1,
            ).to_set().contains(symbol) || symbol == pressed[count - 1]) by {
            let (long, short) = (pressed.take(count), pressed.take(count - 1));
            if short.contains(symbol) {
                let i = choose|i: int| 0 <= i < short.len() && short[i] == symbol;
                assert(long[i] == symbol);
            }
            if long.contains(symbol) {
                let i = choose|i: int| 0 <= i < long.len() && long[i] == symbol;
                if i < short.len() {
                    assert(short[i] == symbol);
                }
            }
            assert(long[count - 1] == pressed[count - 1]);
        }
        assert(hand.held.union(pressed.take(count - 1).to_set()).insert(pressed[count - 1])
            =~= hand.held.union(pressed.take(count).to_set()));
    }
}

broadcast proof fn lemma_follows_presses(hand: Hand, pressed: Seq<u32>)
    ensures
        #[trigger] hand.follows(gesture::presses(pressed)) == (Hand {
            held: hand.held.union(pressed.to_set()),
            waiting: hand.waiting || pressed.len() > 0,
            ..hand
        }),
{
    lemma_presses_take(hand, pressed, pressed.len() as int);
    assert(gesture::presses(pressed).take(pressed.len() as int) =~= gesture::presses(pressed));
    assert(pressed.take(pressed.len() as int) =~= pressed);
}

proof fn lemma_releases_take(hand: Hand, pressed: Seq<u32>, count: int)
    requires
        0 <= count <= pressed.len(),
    ensures
        hand.follows(gesture::releases(pressed).take(count)) == (Hand {
            held: hand.held.difference(pressed.skip(pressed.len() - count).to_set()),
            waiting: hand.waiting || count > 0,
            ..hand
        }),
        hand.recovers(gesture::lifts(pressed).take(count)) == (Hand {
            held: hand.held.difference(pressed.skip(pressed.len() - count).to_set()),
            waiting: hand.waiting || count > 0,
            ..hand
        }),
    decreases count,
{
    let list = gesture::releases(pressed).take(count);
    let undo = gesture::lifts(pressed).take(count);
    if count == 0 {
        assert(hand.held.difference(pressed.skip(pressed.len() as int).to_set()) =~= hand.held);
    } else {
        lemma_releases_take(hand, pressed, count - 1);
        assert(list.drop_last() =~= gesture::releases(pressed).take(count - 1));
        assert(undo.drop_last() =~= gesture::lifts(pressed).take(count - 1));
        let last = pressed[pressed.len() - count];
        assert(list.last().step == StepView::ModifierLift(last));
        assert(undo.last() == StepView::ModifierLift(last));
        let (long, short) = (
            pressed.skip(pressed.len() - count),
            pressed.skip(pressed.len() - (count - 1)),
        );
        assert forall|symbol: u32|
            long.to_set().contains(symbol) == (short.to_set().contains(symbol) || symbol
                == last) by {
            if short.contains(symbol) {
                let i = choose|i: int| 0 <= i < short.len() && short[i] == symbol;
                assert(long[i + 1] == symbol);
            }
            if long.contains(symbol) {
                let i = choose|i: int| 0 <= i < long.len() && long[i] == symbol;
                if i > 0 {
                    assert(short[i - 1] == symbol);
                }
            }
            assert(long[0] == last);
        }
        assert(hand.held.difference(short.to_set()).remove(last) =~= hand.held.difference(
            long.to_set(),
        ));
    }
}

broadcast proof fn lemma_follows_releases(hand: Hand, pressed: Seq<u32>)
    ensures
        #[trigger] hand.follows(gesture::releases(pressed)) == (Hand {
            held: hand.held.difference(pressed.to_set()),
            waiting: hand.waiting || pressed.len() > 0,
            ..hand
        }),
{
    lemma_releases_take(hand, pressed, pressed.len() as int);
    assert(gesture::releases(pressed).take(pressed.len() as int) =~= gesture::releases(pressed));
    assert(pressed.skip(0) =~= pressed);
}

proof fn lemma_symbols(modifiers: Modifiers)
    ensures
        gesture::symbols(modifiers).to_set() == modifier_keys(modifiers),
        Set::<u32>::empty().union(gesture::symbols(modifiers).to_set()) == modifier_keys(modifiers),
        modifier_keys(modifiers).difference(gesture::symbols(modifiers).to_set()) == Set::<u32>::empty(),
        gesture::symbols(modifiers).len() == 0 <==> modifiers == Modifiers::none(),
{
    let list = gesture::symbols(modifiers);
    let keys = modifier_keys(modifiers);
    let after_shift: int = if modifiers.shift {
        1
    } else {
        0
    };
    let after_ctrl: int = if modifiers.ctrl {
        after_shift + 1
    } else {
        after_shift
    };
    let after_alt: int = if modifiers.alt {
        after_ctrl + 1
    } else {
        after_ctrl
    };
    assert(modifiers.shift ==> list[0] == 0xffe1u32);
    assert(modifiers.ctrl ==> list[after_shift] == 0xffe3u32);
    assert(modifiers.alt ==> list[after_ctrl] == 0xffe9u32);
    assert(modifiers.logo ==> list[after_alt] == 0xffebu32);
    assert forall|symbol: u32| list.to_set().contains(symbol) == keys.contains(symbol) by {
        if list.contains(symbol) {
            let i = choose|i: int| 0 <= i < list.len() && list[i] == symbol;
            assert(0 <= i < 4);
        }
    }
    assert(list.to_set() =~= keys);
    assert(Set::<u32>::empty().union(list.to_set()) =~= keys);
    assert(keys.difference(list.to_set()) =~= Set::<u32>::empty());
}

// ---------------------------------------------------------------------------
// Pointer
// ---------------------------------------------------------------------------

/// A click presses and releases its button once, at its place and under exactly its
/// modifiers, between the marks of its timing. It leaves nothing down and nothing
/// unsent, and rests only to guard modifiers.
pub proof fn law_clicks_press_at_their_place(
    place: Place,
    button: Button,
    modifiers: Modifiers,
    clicked: Gesture,
    stood: Option<Place>,
)
    requires
        gesture::modified_click.ensures((place, button, modifiers), clicked),
    ensures
        ({
            let hand = done(clicked, stood);
            let (number, keys) = (pointer_button(button), modifier_keys(modifiers));
            &&& hand.felt =~= seq![
                Touch::Jumped(place),
                Touch::Begun,
                Touch::Pressed { button: number, at: Some(place), under: keys },
                Touch::Released { button: number, at: Some(place), under: keys },
                Touch::Finished,
            ]
            &&& hand.place == Some(place)
            &&& hand.buttons =~= Set::empty()
            &&& hand.keys =~= Set::empty()
            &&& hand.held =~= Set::empty()
            &&& !hand.waiting
            &&& hand.rested == if modifiers == Modifiers::none() {
                0nat
            } else {
                64_000_000nat
            }
        }),
{
    broadcast use {
        lemma_follows_both,
        lemma_follows_plain,
        lemma_follows_guarded,
        lemma_follows_guard,
        lemma_follows_presses,
        lemma_follows_releases,
    };

    lemma_symbols(modifiers);
    assert(clicked@.plan == gesture::click_plan(place, button, modifiers));
}

/// A click without modifiers is one under none.
pub proof fn law_plain_clicks_hold_no_modifier(
    place: Place,
    button: Button,
    clicked: Gesture,
    stood: Option<Place>,
)
    requires
        gesture::click.ensures((place, button), clicked),
    ensures
        ({
            let hand = done(clicked, stood);
            let (number, keys) = (pointer_button(button), Set::<u32>::empty());
            &&& hand.felt =~= seq![
                Touch::Jumped(place),
                Touch::Begun,
                Touch::Pressed { button: number, at: Some(place), under: keys },
                Touch::Released { button: number, at: Some(place), under: keys },
                Touch::Finished,
            ]
            &&& hand.buttons =~= Set::empty()
            &&& !hand.waiting
            &&& hand.rested == 0
        }),
{
    broadcast use {
        lemma_follows_both,
        lemma_follows_plain,
        lemma_follows_guarded,
        lemma_follows_guard,
        lemma_follows_presses,
        lemma_follows_releases,
    };

    lemma_symbols(Modifiers::none());
    assert(modifier_keys(Modifiers::none()) =~= Set::<u32>::empty());
    assert(clicked@.plan == gesture::click_plan(place, button, Modifiers::none()));
}

/// A jump puts the pointer at its place, and touches nothing.
pub proof fn law_jumps_reach_their_place(place: Place, moved: Gesture, stood: Option<Place>)
    requires
        gesture::move_to.ensures((place,), moved),
    ensures
        done(moved, stood).place == Some(place),
        done(moved, stood).felt =~= seq![Touch::Begun, Touch::Jumped(place), Touch::Finished],
        done(moved, stood).rested == 0,
{
    broadcast use {lemma_follows_both, lemma_follows_plain};

}

/// A button that goes down at a place stays down, until the release of the same button
/// lets go of it where the pointer then stands.
pub proof fn law_held_buttons_come_in_pairs(
    place: Place,
    button: Button,
    pressed: Gesture,
    released: Gesture,
    stood: Option<Place>,
)
    requires
        gesture::button_down.ensures((place, button), pressed),
        gesture::button_up.ensures((button,), released),
    ensures
        ({
            let number = pointer_button(button);
            let down = done(pressed, stood);
            let up = done(released, stood);
            let both = down.follows(released@.plan);
            &&& down.felt =~= seq![
                Touch::Jumped(place),
                Touch::Begun,
                Touch::Pressed { button: number, at: Some(place), under: Set::empty() },
                Touch::Finished,
            ]
            &&& down.buttons =~= set![number]
            &&& !down.waiting
            &&& up.felt =~= seq![
                Touch::Begun,
                Touch::Released { button: number, at: stood, under: Set::empty() },
                Touch::Finished,
            ]
            &&& up.place == stood
            &&& both.buttons =~= Set::empty()
            &&& both.place == Some(place)
            &&& !both.waiting
        }),
{
    broadcast use {lemma_follows_both, lemma_follows_plain};

}

/// A motion carries the pointer from its origin to its destination without a button, in
/// its steps and within its duration, and then marks the trigger.
pub proof fn law_motions_reach_their_destination(
    from: Place,
    to: Place,
    policy: Motion,
    moved: Gesture,
    stood: Option<Place>,
)
    requires
        gesture::motion.ensures((from, to, policy), Ok(moved)),
    ensures
        ({
            let hand = done(moved, stood);
            &&& hand.place == Some(to)
            &&& hand.steady
            &&& hand.buttons =~= Set::empty()
            &&& hand.felt.len() == 5
            &&& hand.felt[0] == Touch::Jumped(from)
            &&& hand.felt[1] == Touch::Begun
            &&& hand.felt[2] matches Touch::Carried { from: start, to: end, steps, pause } && start
                == from && end == to && steps == policy.steps && steps > 0 && pause * steps
                <= policy.duration@ < (pause + 1) * steps
            &&& hand.felt[3] == Touch::Triggered
            &&& hand.felt[4] == Touch::Finished
        }),
{
    broadcast use {lemma_follows_both, lemma_follows_plain};

    lemma_shares(policy.duration@, policy.steps);
}

proof fn lemma_shares(span: nat, steps: u16)
    requires
        steps > 0,
    ensures
        (span / steps as nat) * steps <= span < (span / steps as nat + 1) * steps,
{
    vstd::arithmetic::div_mod::lemma_fundamental_div_mod(span as int, steps as int);
    vstd::arithmetic::div_mod::lemma_mod_bound(span as int, steps as int);
    let share = span / steps as nat;
    assert(steps * share == share * steps && (share + 1) * steps == share * steps + steps)
        by (nonlinear_arith);
}

/// One leg of a stroke, as it is felt.
pub open spec fn carried_on(from: Place, to: Place, policy: Stroke) -> Touch {
    Touch::Carried {
        from,
        to,
        steps: policy.steps_per_leg,
        pause: policy.leg_duration@ / policy.steps_per_leg as nat,
    }
}

/// The legs of a stroke, as they are felt.
pub open spec fn carried_along(knots: Seq<Place>, policy: Stroke, count: int) -> Seq<Touch> {
    Seq::new(count as nat, |i: int| carried_on(knots[i], knots[i + 1], policy))
}

/// One leg of a stroke, as it is planned.
spec fn leg(from: Place, to: Place, policy: Stroke) -> Seq<PlannedView> {
    gesture::guarded(
        StepView::Transport {
            from,
            to,
            steps: policy.steps_per_leg,
            pause: policy.leg_duration@ / policy.steps_per_leg as nat,
        },
        seq![
            StepView::ButtonRelease(policy.button.number()),
            StepView::Flush("abort pointer stroke"@),
        ],
    )
}

proof fn lemma_leg(hand: Hand, from: Place, to: Place, policy: Stroke)
    requires
        policy.steps_per_leg > 0,
        hand.place == Some(from),
    ensures
        hand.follows(leg(from, to, policy)) == (Hand {
            place: Some(to),
            felt: hand.felt.push(carried_on(from, to, policy)),
            ..hand
        }),
        leg(from, to, policy).len() == 1,
        aborts(leg(from, to, policy)[0].rescue, policy.button.number()),
{
    broadcast use lemma_follows_guarded;

}

proof fn lemma_legs(hand: Hand, knots: Seq<Place>, policy: Stroke, count: int)
    requires
        policy.steps_per_leg > 0,
        0 <= count < knots.len(),
        hand.place == Some(knots[0]),
    ensures
        hand.follows(gesture::legs(knots, policy, count)) == (Hand {
            place: Some(knots[count]),
            felt: hand.felt + carried_along(knots, policy, count),
            rested: hand.rested + count as nat * policy.knot_dwell@,
            ..hand
        }),
    decreases count,
{
    broadcast use {lemma_follows_both, lemma_follows_guarded, lemma_follows_rest};

    if count == 0 {
        assert(hand.felt + carried_along(knots, policy, 0) =~= hand.felt);
        assert(0nat * policy.knot_dwell@ == 0) by (nonlinear_arith);
    } else {
        lemma_legs(hand, knots, policy, count - 1);
        let before = hand.follows(gesture::legs(knots, policy, count - 1));
        lemma_leg(before, knots[count - 1], knots[count], policy);
        assert(gesture::legs(knots, policy, count) =~= gesture::legs(knots, policy, count - 1) + leg(
            knots[count - 1],
            knots[count],
            policy,
        ) + gesture::resting(policy.knot_dwell@));
        assert((count - 1) as nat * policy.knot_dwell@ + policy.knot_dwell@ == count as nat
            * policy.knot_dwell@) by (nonlinear_arith)
            requires
                count >= 1,
        ;
        assert(hand.felt + carried_along(knots, policy, count) =~= (hand.felt + carried_along(
            knots,
            policy,
            count - 1,
        )).push(carried_along(knots, policy, count)[count - 1]));
    }
}

/// What a stroke along knots must feel like: the button goes down at the first knot,
/// the pointer is carried from each knot to the next, and the button goes up at the
/// last knot, right behind the trigger.
pub open spec fn strokes_along(hand: Hand, knots: Seq<Place>, policy: Stroke) -> bool {
    let number = pointer_button(policy.button);
    let count = knots.len() - 1;
    let legs = hand.felt.subrange(3, 3 + count);
    &&& hand.felt.len() == count + 6
    &&& hand.felt[0] == Touch::Jumped(knots[0])
    &&& hand.felt[1] == Touch::Begun
    &&& hand.felt[2] =~~= (Touch::Pressed {
        button: number,
        at: Some(knots[0]),
        under: Set::empty(),
    })
    &&& forall|i: int|
        0 <= i < count ==> ((#[trigger] legs[i]) matches Touch::Carried { from, to, steps, pause }
            && from == knots[i] && to == knots[i + 1] && steps == policy.steps_per_leg && pause
            * steps <= policy.leg_duration@ < (pause + 1) * steps)
    &&& hand.felt[count + 3] == Touch::Triggered
    &&& hand.felt[count + 4] =~~= (Touch::Released {
        button: number,
        at: Some(knots.last()),
        under: Set::empty(),
    })
    &&& hand.felt[count + 5] == Touch::Finished
    &&& hand.place == Some(knots.last())
    &&& hand.steady
    &&& hand.buttons =~= Set::empty()
    &&& !hand.waiting
    &&& hand.rested == policy.press_duration@ + count * policy.knot_dwell@
}

proof fn lemma_stroke_plan(knots: Seq<Place>, policy: Stroke, stood: Option<Place>)
    requires
        knots.len() >= 2,
        policy.steps_per_leg > 0,
    ensures
        strokes_along(at_rest(stood).follows(gesture::stroke_plan(knots, policy)), knots, policy),
{
    broadcast use {
        lemma_follows_both,
        lemma_follows_plain,
        lemma_follows_guarded,
        lemma_follows_rest,
    };

    let number = policy.button.number();
    let count = knots.len() - 1;
    let opening = gesture::plain(StepView::Move(knots[0])) + gesture::plain(StepView::Begin) + gesture::plain(
        StepView::ButtonPress(number),
    ) + gesture::plain(StepView::Flush("begin pointer stroke"@)) + gesture::resting(policy.press_duration@);
    let opened = at_rest(stood).follows(opening);
    lemma_legs(opened, knots, policy, count);
    lemma_shares(policy.leg_duration@, policy.steps_per_leg);
    let hand = at_rest(stood).follows(gesture::stroke_plan(knots, policy));
    let carried = opened.follows(gesture::legs(knots, policy, count));
    assert(at_rest(stood).follows(opening + gesture::legs(knots, policy, count)) == carried);
    assert(carried.felt == opened.felt + carried_along(knots, policy, count));
    assert(hand.buttons =~= Set::empty());
    assert(count as nat * policy.knot_dwell@ == count * policy.knot_dwell@);
    assert forall|i: int| 0 <= i < count implies ((#[trigger] hand.felt.subrange(
        3,
        3 + count,
    )[i]) matches Touch::Carried { from, to, steps, pause } && from == knots[i] && to == knots[i
        + 1] && steps == policy.steps_per_leg && pause * steps <= policy.leg_duration@ < (pause
        + 1) * steps) by {
        assert(hand.felt[3 + i] == carried_along(knots, policy, count)[i]);
    }
}

/// A stroke presses its button at its first knot, carries the pointer from each knot to
/// the next one without a gap, and releases the button at its last knot. It is refused
/// only where it has fewer than two knots or no steps.
pub proof fn law_strokes_follow_their_knots(
    knots: &[Place],
    policy: Stroke,
    outcome: std::result::Result<Gesture, Error>,
    stood: Option<Place>,
)
    requires
        gesture::stroke.ensures((knots, policy), outcome),
    ensures
        outcome is Ok <==> knots@.len() >= 2 && policy.steps_per_leg > 0,
        outcome matches Ok(gesture) ==> strokes_along(done(gesture, stood), knots@, policy),
{
    if outcome is Ok {
        lemma_stroke_plan(knots@, policy, stood);
    }
}

/// A drag presses its button at its origin and releases it at its destination, once the
/// pointer was carried there. It is refused only where it has no steps.
pub proof fn law_drags_end_at_their_destination(
    from: Place,
    to: Place,
    policy: Drag,
    outcome: std::result::Result<Gesture, Error>,
    stood: Option<Place>,
)
    requires
        gesture::drag.ensures((from, to, policy), outcome),
    ensures
        outcome is Ok <==> policy.steps > 0,
        outcome matches Ok(gesture) ==> ({
            let hand = done(gesture, stood);
            let number = pointer_button(policy.button);
            &&& hand.felt.len() == 7
            &&& hand.felt[0] == Touch::Jumped(from)
            &&& hand.felt[1] == Touch::Begun
            &&& hand.felt[2] =~~= (Touch::Pressed {
                button: number,
                at: Some(from),
                under: Set::empty(),
            })
            &&& hand.felt[3] matches Touch::Carried { from: start, to: end, steps, pause } && start
                == from && end == to && steps == policy.steps && pause * steps
                <= policy.duration@ < (pause + 1) * steps
            &&& hand.felt[4] == Touch::Triggered
            &&& hand.felt[5] =~~= (Touch::Released {
                button: number,
                at: Some(to),
                under: Set::empty(),
            })
            &&& hand.felt[6] == Touch::Finished
            &&& hand.place == Some(to)
            &&& hand.steady
            &&& hand.buttons =~= Set::empty()
            &&& !hand.waiting
            &&& hand.rested == policy.press_duration@
        }),
{
    let whole = Stroke {
        button: policy.button,
        press_duration: policy.press_duration,
        steps_per_leg: policy.steps,
        leg_duration: policy.duration,
        knot_dwell: choose|span: Duration| span@ == 0,
    };
    crate::duration::lemma_no_time_is_a_span();
    assert(gesture::drags_as(policy, whole));
    let knots = seq![from, to];
    if outcome is Ok {
        lemma_stroke_plan(knots, whole, stood);
        let hand = done(outcome->Ok_0, stood);
        assert(hand.felt.subrange(3, 4)[0] == hand.felt[3]);
        assert(1 * whole.knot_dwell@ == 0);
    }
}

/// What to attempt when the carrying of a held button fails.
spec fn aborts(rescue: Seq<StepView>, button: u8) -> bool {
    rescue == seq![
        StepView::ButtonRelease(button),
        StepView::Flush("abort pointer stroke"@),
    ]
}

proof fn lemma_abort_lets_go(hand: Hand, rescue: Seq<StepView>, button: u8)
    requires
        aborts(rescue, button),
        hand.buttons =~= set![button],
    ensures
        hand.recovers(rescue).buttons =~= Set::empty(),
        !hand.recovers(rescue).waiting,
{
    reveal_with_fuel(Hand::recovers, 3);
    assert(rescue.drop_last() =~= seq![StepView::ButtonRelease(button)]);
    assert(rescue.drop_last().drop_last() =~= seq![]);
}

proof fn lemma_legs_abort(knots: Seq<Place>, policy: Stroke, count: int, at: int)
    requires
        policy.steps_per_leg > 0,
        0 <= at < gesture::legs(knots, policy, count).len(),
        gesture::legs(knots, policy, count)[at].step is Transport,
    ensures
        aborts(gesture::legs(knots, policy, count)[at].rescue, policy.button.number()),
    decreases count,
{
    if count > 0 {
        let before = gesture::legs(knots, policy, count - 1);
        if at < before.len() {
            assert(gesture::legs(knots, policy, count)[at] == before[at]);
            lemma_legs_abort(knots, policy, count - 1, at);
        } else if at == before.len() {
            let hand = Hand { place: Some(knots[count - 1]), ..at_rest(None) };
            lemma_leg(hand, knots[count - 1], knots[count], policy);
            assert(gesture::legs(knots, policy, count) =~= before + leg(
                knots[count - 1],
                knots[count],
                policy,
            ) + gesture::resting(policy.knot_dwell@));
            assert(gesture::legs(knots, policy, count)[at] == leg(
                knots[count - 1],
                knots[count],
                policy,
            )[0]);
        }
    }
}

/// A stroke whose pointer cannot be carried on lets go of its button at once.
pub proof fn law_broken_strokes_let_go(
    knots: &[Place],
    policy: Stroke,
    stroked: Gesture,
    at: int,
    hand: Hand,
)
    requires
        gesture::stroke.ensures((knots, policy), Ok(stroked)),
        0 <= at < stroked@.plan.len(),
        stroked@.plan[at].step is Transport,
        hand.buttons =~= set![pointer_button(policy.button)],
    ensures
        hand.recovers(stroked@.plan[at].rescue).buttons =~= Set::empty(),
        !hand.recovers(stroked@.plan[at].rescue).waiting,
{
    let count = knots@.len() - 1;
    let front = gesture::plain(StepView::Move(knots@[0])) + gesture::plain(StepView::Begin) + gesture::plain(
        StepView::ButtonPress(policy.button.number()),
    ) + gesture::plain(StepView::Flush("begin pointer stroke"@)) + gesture::resting(policy.press_duration@);
    let middle = gesture::legs(knots@, policy, count);
    let plan = stroked@.plan;
    assert(front.len() <= at < front.len() + middle.len());
    assert(plan[at] == middle[at - front.len()]);
    lemma_legs_abort(knots@, policy, count, at - front.len());
    lemma_abort_lets_go(hand, plan[at].rescue, policy.button.number());
}

// ---------------------------------------------------------------------------
// Wheel
// ---------------------------------------------------------------------------

/// A wheel gesture scrolls at its place, as many ticks as asked for: upwards, by the
/// fourth button, where the number is negative, and otherwise downwards, by the fifth.
pub proof fn law_wheels_turn_the_asked_way(
    place: Place,
    ticks: i32,
    policy: Wheel,
    turned: WheelGesture,
)
    requires
        gesture::wheel.ensures((place, ticks, policy), turned),
    ensures
        turned.place == place,
        ticks < 0 ==> turned.detail == 4 && turned.count + ticks == 0,
        ticks >= 0 ==> turned.detail == 5 && turned.count == ticks,
        turned.pause == policy.tick_duration,
{
}

/// Scrolling turns the wheel as a wheel gesture does, without a pause.
pub proof fn law_scrolls_turn_the_asked_way(place: Place, ticks: i32, turned: WheelGesture)
    requires
        gesture::scroll.ensures((place, ticks), turned),
    ensures
        turned.place == place,
        ticks < 0 ==> turned.detail == 4 && turned.count + ticks == 0,
        ticks >= 0 ==> turned.detail == 5 && turned.count == ticks,
        turned.pause@ == 0,
{
}

/// One tick of a wheel presses and releases its button once, where the pointer stands
/// and under the modifiers that are held, and is sent at once. The last tick is the
/// trigger, and only a tick that another one follows is followed by a pause.
pub proof fn law_ticks_are_distinct_inputs(
    turned: &WheelGesture,
    tick: u32,
    plan: Vec<Planned>,
    hand: Hand,
)
    requires
        WheelGesture::tick.ensures((turned, tick), plan),
        tick < turned.count,
    ensures
        ({
            let after = hand.follows(gesture::plan_of(plan@));
            let pressed = Touch::Pressed {
                button: turned.detail,
                at: hand.place,
                under: hand.held,
            };
            let released = Touch::Released {
                button: turned.detail,
                at: hand.place,
                under: hand.held,
            };
            &&& after.felt =~= if tick + 1 == turned.count {
                hand.felt + seq![Touch::Triggered, pressed, released]
            } else {
                hand.felt + seq![pressed, released]
            }
            &&& after.place == hand.place
            &&& after.held == hand.held
            &&& !after.buttons.contains(turned.detail)
            &&& !after.waiting
            &&& after.rested == hand.rested + if tick + 1 == turned.count {
                0nat
            } else {
                turned.pause@
            }
        }),
{
    broadcast use {lemma_follows_both, lemma_follows_plain, lemma_follows_rest};

    reveal_with_fuel(Hand::follows, 1);
    assert(hand.follows(seq![]) == hand);
}

/// Around a wheel gesture under modifiers, exactly those modifiers are held at its
/// place, and none of them afterwards.
pub proof fn law_wheels_turn_under_their_modifiers(
    turned: &WheelGesture,
    modifiers: Modifiers,
    around: ModifiedWheel,
    stood: Option<Place>,
)
    requires
        gesture::modified_wheel.ensures((turned, modifiers), around),
    ensures
        ({
            let before = at_rest(stood).follows(gesture::plan_of(around.before@));
            let after = before.follows(gesture::plan_of(around.after@));
            &&& before.place == Some(turned.place)
            &&& before.held =~= modifier_keys(modifiers)
            &&& before.felt =~= seq![Touch::Jumped(turned.place)]
            &&& !before.waiting
            &&& after.held =~= Set::empty()
            &&& after.felt == before.felt
            &&& !after.waiting
        }),
{
    broadcast use {
        lemma_follows_both,
        lemma_follows_plain,
        lemma_follows_guarded,
        lemma_follows_guard,
        lemma_follows_presses,
        lemma_follows_releases,
    };

    lemma_symbols(modifiers);
}

// ---------------------------------------------------------------------------
// Keys
// ---------------------------------------------------------------------------

/// The symbol of a key in the protocol: a Latin-1 character is its own symbol.
pub open spec fn key_symbol(key: Key) -> u32 {
    match key {
        Key::Character(character) => character as u32,
        Key::Return => 0xff0d,
        Key::Escape => 0xff1b,
        Key::Tab => 0xff09,
        Key::Backspace => 0xff08,
        Key::Delete => 0xffff,
        Key::Home => 0xff50,
        Key::End => 0xff57,
        Key::Left => 0xff51,
        Key::Right => 0xff53,
        Key::Up => 0xff52,
        Key::Down => 0xff54,
        Key::Function(number) => (0xffbe + (number - 1)) as u32,
        Key::Shift => 0xffe1,
        Key::Control => 0xffe3,
        Key::Alt => 0xffe9,
        Key::Super => 0xffeb,
    }
}

/// Whether a keyboard can give a key a symbol: any but a character beyond Latin-1 and a
/// function key beyond the twelve.
pub open spec fn portable(key: Key) -> bool {
    match key {
        Key::Character(character) => character as u32 <= 0xff,
        Key::Function(number) => 1 <= number <= 12,
        _ => true,
    }
}

/// Every key is given its symbol of the protocol, or refused where it has none.
pub proof fn law_keys_have_their_symbols(key: Key, outcome: std::result::Result<u32, Error>)
    requires
        Key::keysym.ensures((key,), outcome),
    ensures
        outcome is Ok <==> portable(key),
        outcome matches Ok(symbol) ==> symbol == key_symbol(key),
{
}

/// Whether a key of the keyboard gives a symbol: with shift where the symbol stands in
/// an odd column of the key's row, and without it otherwise.
pub open spec fn types_symbol(keymap: Keymap, keycode: u8, shift: bool, symbol: u32) -> bool {
    exists|row: int, column: int|
        row >= 0 && 0 <= column < keymap.keysyms_per_keycode && keycode == keymap.min_keycode + row
            && #[trigger] (row * keymap.keysyms_per_keycode + column) < keymap.keysyms@.len()
            && keymap.keysyms@[row * keymap.keysyms_per_keycode + column] == symbol && shift == (
        column % 2 == 1)
}

/// A keycode that the keyboard map gives for a symbol does give that symbol, with shift
/// exactly where it is told to be held.
pub proof fn law_keycodes_type_their_symbols(
    keymap: &Keymap,
    symbol: u32,
    keycode: u8,
    shift: bool,
)
    requires
        keymap.readable(),
        Keymap::keycode.ensures((keymap, symbol), Ok((keycode, shift))),
    ensures
        types_symbol(*keymap, keycode, shift, symbol),
{
    lemma_binding(keymap, symbol);
}

proof fn lemma_binding(keymap: &Keymap, symbol: u32)
    requires
        keymap.readable(),
        keymap.binding_fault(symbol) is None,
    ensures
        keymap.code(symbol) == keymap.min_keycode + keymap.row(symbol),
        types_symbol(*keymap, keymap.code(symbol), keymap.shifted(symbol), symbol),
{
    let at = crate::x11::keyboard::place_of(keymap.keysyms@, symbol);
    let stride = keymap.keysyms_per_keycode as int;
    crate::text::lemma_first_of_bounds(keymap.keysyms@, symbol);
    let (row, column) = (at / stride, at % stride);
    vstd::arithmetic::div_mod::lemma_fundamental_div_mod(at, stride);
    vstd::arithmetic::div_mod::lemma_mod_bound(at, stride);
    vstd::arithmetic::div_mod::lemma_div_pos_is_pos(at, stride);
    assert(row * stride == stride * row) by (nonlinear_arith);
    assert(row * keymap.keysyms_per_keycode + column == at);
    assert(keymap.keysyms@[row * keymap.keysyms_per_keycode + column] == symbol);
}

/// A chord strikes and lifts, once, a key that types its symbol, under exactly its
/// modifiers and the shift that the symbol needs, and leaves nothing down and nothing
/// unsent.
pub proof fn law_chords_strike_their_key(
    keymap: &Keymap,
    modifiers: Modifiers,
    key: Key,
    struck: Gesture,
    stood: Option<Place>,
)
    requires
        keymap.readable(),
        gesture::chord.ensures((keymap, modifiers, key), Ok(struck)),
    ensures
        portable(key),
        exists|keycode: u8, shift: bool| #[trigger]
            types_symbol(*keymap, keycode, shift, key_symbol(key)) && ({
                let hand = done(struck, stood);
                let keys = modifier_keys(
                    Modifiers { shift: modifiers.shift || shift, ..modifiers },
                );
                &&& hand.felt =~= seq![
                    Touch::Begun,
                    Touch::Struck { key: keycode, under: keys },
                    Touch::Lifted { key: keycode, under: keys },
                    Touch::Finished,
                ]
                &&& hand.place == stood
                &&& hand.keys =~= Set::empty()
                &&& hand.held =~= Set::empty()
                &&& !hand.waiting
            }),
{
    broadcast use {
        lemma_follows_both,
        lemma_follows_plain,
        lemma_follows_guarded,
        lemma_follows_presses,
        lemma_follows_releases,
    };

    let symbol = key.symbol() as u32;
    assert(symbol == key_symbol(key));
    let shift = keymap.shifted(symbol);
    lemma_binding(keymap, symbol);
    let whole = Modifiers { shift: modifiers.shift || shift, ..modifiers };
    assert(gesture::chord_modifiers(keymap, key, modifiers) == whole);
    lemma_symbols(whole);
    assert(types_symbol(*keymap, keymap.code(symbol), shift, key_symbol(key)));
    assert(struck@.plan == gesture::chord_plan(keymap.code(symbol), whole));
}

/// A key that goes down stays down, until the release of the same key lets go of it.
/// Both reach a key that types the symbol without shift.
pub proof fn law_held_keys_come_in_pairs(
    keymap: &Keymap,
    key: Key,
    pressed: Gesture,
    released: Gesture,
    stood: Option<Place>,
)
    requires
        keymap.readable(),
        gesture::key_down.ensures((keymap, key), Ok(pressed)),
        gesture::key_up.ensures((keymap, key), Ok(released)),
    ensures
        portable(key),
        exists|keycode: u8| #[trigger]
            types_symbol(*keymap, keycode, false, key_symbol(key)) && ({
                let down = done(pressed, stood);
                let up = done(released, stood);
                &&& down.felt =~= seq![
                    Touch::Begun,
                    Touch::Struck { key: keycode, under: Set::empty() },
                    Touch::Finished,
                ]
                &&& down.keys =~= set![keycode]
                &&& !down.waiting
                &&& up.felt =~= seq![
                    Touch::Begun,
                    Touch::Lifted { key: keycode, under: Set::empty() },
                    Touch::Finished,
                ]
                &&& down.follows(released@.plan).keys =~= Set::empty()
                &&& !up.waiting
            }),
{
    broadcast use {lemma_follows_both, lemma_follows_plain};

    let symbol = key.symbol() as u32;
    assert(symbol == key_symbol(key));
    lemma_binding(keymap, symbol);
    assert(types_symbol(*keymap, keymap.code(symbol), false, key_symbol(key)));
}

} // verus!
