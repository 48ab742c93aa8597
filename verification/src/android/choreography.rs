//! Android projection of the shared causal story stream.
use crate::android;
use crate::android::{AndroidDevice, AndroidDeviceView, Invocation, Parameter};
use crate::duration::Duration;
use crate::error::{ErrorView, Result};
use crate::pixels;
use crate::pixels::Frame;
use crate::story;
use crate::story::{action_event, EventView, Silent, StoryCue, StoryEvent, StoryFact, StoryObserver, StorySurface, StoryTempo};
use crate::text;
use crate::text::{decimal_text, glue2, signed_decimal_text};
use crate::timing;
use crate::timing::{ActionReceipt, ActionReceiptView, Mark};
use vstd::prelude::*;

verus! {

/// Two-finger, centroid-preserving spread or contraction in physical pixels.
#[derive(Clone, Copy, Debug, Eq, PartialEq)]
pub struct AndroidPinch {
    pub first: [i32; 2],
    pub second: [i32; 2],
    /// Each finger moves this far away from the initial centroid. Negative
    /// components contract toward it.
    pub spread: [i32; 2],
    pub steps: u16,
    pub duration: Duration,
}

/// Effectful Android projection of the shared causal story stream.
///
/// This is deliberately coordinate-bearing rather than a persisted replay
/// format. Product scenarios remain responsible for deriving coordinates from
/// the current surface or a platform-specific layout contract.
#[derive(Debug)]
pub struct AndroidChoreography<O> {
    device: AndroidDevice,
    observer: O,
}

/// Content of an [`AndroidChoreography`].
pub struct AndroidChoreographyView<O> {
    pub device: AndroidDeviceView,
    pub observer: O,
}

impl<O> View for AndroidChoreography<O> {
    type V = AndroidChoreographyView<O>;

    closed spec fn view(&self) -> AndroidChoreographyView<O> {
        AndroidChoreographyView { device: self.device@, observer: self.observer }
    }
}

/// A coordinate brought into the stream's range.
pub open spec fn narrowed(axis: i32) -> int {
    if axis < i16::MIN {
        i16::MIN as int
    } else if axis > i16::MAX {
        i16::MAX as int
    } else {
        axis as int
    }
}

/// A place brought into the stream's range.
pub open spec fn narrow_place(point: [i32; 2], narrow: [i16; 2]) -> bool {
    narrow[0] == narrowed(point[0]) && narrow[1] == narrowed(point[1])
}

/// Bring a place into the stream's range.
pub fn narrow(point: [i32; 2]) -> (narrow: [i16; 2])
    ensures
        narrow_place(point, narrow),
{
    [narrow_axis(point[0]), narrow_axis(point[1])]
}

fn narrow_axis(axis: i32) -> (narrow: i16)
    ensures
        narrow == narrowed(axis),
{
    if axis < -32768 {
        -32768
    } else if axis > 32767 {
        32767
    } else {
        axis as i16
    }
}

/// The middle of two coordinates, rounded towards zero.
pub open spec fn middle(left: int, right: int) -> int {
    let sum = left + right;
    if sum >= 0 {
        sum / 2
    } else {
        -((-sum) / 2)
    }
}

fn midpoint(left: i32, right: i32) -> (between: i32)
    ensures
        between == middle(left as int, right as int),
{
    let sum: i64 = left as i64 + right as i64;
    if sum >= 0 {
        (sum / 2) as i32
    } else {
        let positive: i64 = -sum;
        (-(positive / 2)) as i32
    }
}

/// A span in milliseconds, at least one.
pub open spec fn milliseconds(span: nat) -> nat {
    if span < 1_000_000 {
        1
    } else {
        span / 1_000_000
    }
}

fn duration_text(span: Duration) -> (text: String)
    ensures
        text@ == text::decimal(milliseconds(span@)),
{
    let millis: u128 = span.as_millis();
    decimal_text(
        if millis < 1 {
            1
        } else {
            millis
        },
    )
}

/// A whole number as a parameter's value.
pub open spec fn number(value: i32) -> Seq<char> {
    text::signed_decimal(value as int)
}

fn numeric(name: &'static str, value: i32) -> (parameter: Parameter)
    ensures
        parameter.name@ == name@,
        parameter.value@ == number(value),
{
    Parameter { name, value: signed_decimal_text(value as i64) }
}

// ---------------------------------------------------------------------------
// Gestures
// ---------------------------------------------------------------------------

/// What is asked of the instrumentation: a gesture's kind and parameters.
#[verifier::ext_equal]
pub struct Ask {
    pub gesture: Seq<char>,
    pub parameters: Seq<(Seq<char>, Seq<char>)>,
}

/// A tap.
pub open spec fn tap_ask(point: [i32; 2]) -> Ask {
    Ask { gesture: "tap"@, parameters: seq![("x"@, number(point[0])), ("y"@, number(point[1]))] }
}

/// A swipe.
pub open spec fn swipe_ask(origin: [i32; 2], destination: [i32; 2], duration: nat) -> Ask {
    Ask {
        gesture: "swipe"@,
        parameters: seq![
            ("x0"@, number(origin[0])),
            ("y0"@, number(origin[1])),
            ("x1"@, number(destination[0])),
            ("y1"@, number(destination[1])),
            ("steps"@, "12"@),
            ("duration_ms"@, text::decimal(milliseconds(duration))),
        ],
    }
}

/// A long press.
pub open spec fn hold_ask(point: [i32; 2], duration: nat) -> Ask {
    Ask {
        gesture: "hold"@,
        parameters: seq![
            ("x"@, number(point[0])),
            ("y"@, number(point[1])),
            ("steps"@, "12"@),
            ("duration_ms"@, text::decimal(milliseconds(duration))),
        ],
    }
}

/// A key.
pub open spec fn key_ask(code: Seq<char>) -> Ask {
    Ask { gesture: "key"@, parameters: seq![("key"@, "KEYCODE_"@ + code)] }
}

/// A text.
pub open spec fn text_ask(text: Seq<char>) -> Ask {
    Ask { gesture: "text"@, parameters: seq![("text"@, text)] }
}

/// A pinch.
pub open spec fn pinch_ask(gesture: AndroidPinch) -> Ask {
    Ask {
        gesture: "pinch"@,
        parameters: seq![
            ("x0"@, number(gesture.first[0])),
            ("y0"@, number(gesture.first[1])),
            ("x1"@, number(gesture.second[0])),
            ("y1"@, number(gesture.second[1])),
            ("dx"@, number(gesture.spread[0])),
            ("dy"@, number(gesture.spread[1])),
            ("steps"@, text::decimal(gesture.steps as nat)),
            ("duration_ms"@, text::decimal(milliseconds(gesture.duration@))),
        ],
    }
}

/// Whether an event aims the pointer at a place for an action.
pub open spec fn aims(event: EventView, action: Seq<char>, point: [i32; 2]) -> bool {
    event matches EventView::PointerAimed { target, pointer, anchor } && target == Some(action)
        && narrow_place(point, pointer) && anchor is None
}

/// Whether aiming for an action can leave the observer so. An action without a
/// place aims at nothing.
pub open spec fn aimed<O: StoryObserver>(
    before: O,
    action: Seq<char>,
    point: Option<[i32; 2]>,
    outcome: Result<()>,
    after: O,
) -> bool {
    match point {
        None => outcome is Ok && after == before,
        Some(point) => exists|event: EventView|
            aims(event, action, point) && #[trigger] O::meets(before, event, outcome, after),
    }
}

/// Whether a dispatched action is told with a place.
pub open spec fn places(event: EventView, receipt: ActionReceiptView, point: Option<[i32; 2]>) -> bool {
    exists|pointer: Option<[i16; 2]>|
        event == #[trigger] story::dispatched(receipt, None, pointer) && match point {
            None => pointer is None,
            Some(point) => pointer matches Some(narrow) && narrow_place(point, narrow),
        }
}

/// Whether telling of a dispatched action can leave the observer so.
pub open spec fn told<O: StoryObserver>(
    before: O,
    receipt: ActionReceiptView,
    point: Option<[i32; 2]>,
    outcome: Result<()>,
    after: O,
) -> bool {
    exists|event: EventView|
        places(event, receipt, point) && #[trigger] O::meets(before, event, outcome, after)
}

/// Whether an action can come to an outcome: it aims, asks the instrumentation,
/// and tells of the action, each only when what came before succeeded. Its times are
/// what the clock read: it begins and is triggered before the instrumentation is
/// asked, and is finished once that was carried out.
pub open spec fn acts<
    O: StoryObserver,
    R: FnOnce(&Vec<Vec<u8>>) -> Invocation,
    T: Fn(Mark) -> u64,
>(
    before: AndroidChoreographyView<O>,
    run: R,
    clock: &T,
    action: Seq<char>,
    aim: Option<[i32; 2]>,
    ask: Ask,
    place: Option<[i32; 2]>,
    outcome: Result<ActionReceipt>,
    after: AndroidChoreographyView<O>,
) -> bool {
    ||| outcome matches Err(error) && aimed(
        before.observer,
        action,
        aim,
        Err(error),
        after.observer,
    )
    ||| exists|ready: O, invocation: Invocation|
        #![trigger reached(before, run, action, aim, ask, ready, invocation)]
        reached(before, run, action, aim, ask, ready, invocation) && match before.device.carried_out(
            action,
            invocation,
        ) {
            Err(refusal) => (outcome matches Err(error) && error@ == refusal) && after.observer
                == ready,
            Ok(_) => concludes(ready, clock, action, place, outcome, after.observer),
        }
}

/// Whether an action can reach the instrumentation.
pub open spec fn reached<O: StoryObserver, R: FnOnce(&Vec<Vec<u8>>) -> Invocation>(
    before: AndroidChoreographyView<O>,
    run: R,
    action: Seq<char>,
    aim: Option<[i32; 2]>,
    ask: Ask,
    ready: O,
    invocation: Invocation,
) -> bool {
    aimed(before.observer, action, aim, Ok(()), ready) && android::ran(
        run,
        before.device.line(before.device.instrumentation(ask.gesture, action, ask.parameters)),
        invocation,
    )
}

/// Whether an action may ask the instrumentation, once its aim was accepted and the
/// clock was read for its begin and its trigger. It may run that one command, and
/// before that none. The clock is read for its end once it was carried out.
pub open spec fn touchable<
    O: StoryObserver,
    R: FnOnce(&Vec<Vec<u8>>) -> Invocation,
    T: Fn(Mark) -> u64,
>(
    before: AndroidChoreographyView<O>,
    run: R,
    clock: &T,
    action: Seq<char>,
    aim: Option<[i32; 2]>,
    ask: Ask,
) -> bool {
    &&& forall|ready: O| #[trigger]
        aimed(before.observer, action, aim, Ok(()), ready) ==> {
            &&& clock.requires((Mark::Begin,))
            &&& forall|begun: u64| #[trigger]
                clock.ensures((Mark::Begin,), begun) ==> clock.requires((Mark::Trigger,))
            &&& forall|begun: u64, triggered: u64|
                #[trigger] clock.ensures((Mark::Begin,), begun) && #[trigger] clock.ensures(
                    (Mark::Trigger,),
                    triggered,
                ) ==> android::runnable(
                    run,
                    before.device.line(
                        before.device.instrumentation(ask.gesture, action, ask.parameters),
                    ),
                )
        }
    &&& forall|ready: O, invocation: Invocation|
        #![trigger reached(before, run, action, aim, ask, ready, invocation)]
        reached(before, run, action, aim, ask, ready, invocation) && before.device.carried_out(
            action,
            invocation,
        ) is Ok ==> clock.requires((Mark::Finish,))
}

/// Whether the screen can be captured for an observer. No other command is within
/// reach.
pub open spec fn visible<O, C: Fn(&Vec<Vec<u8>>) -> Invocation>(
    choreography: AndroidChoreographyView<O>,
    screen: &C,
) -> bool {
    android::repeatable(screen, choreography.device.capture_line())
}

/// Whether telling of a carried-out action can come to an outcome.
pub open spec fn tells<O: StoryObserver>(
    ready: O,
    receipt: ActionReceiptView,
    place: Option<[i32; 2]>,
    outcome: Result<ActionReceipt>,
    after: O,
) -> bool {
    match outcome {
        Ok(given) => given@ == receipt && told(ready, receipt, place, Ok(()), after),
        Err(error) => told(ready, receipt, place, Err(error), after),
    }
}

/// Whether a carried-out action can come to an outcome: its receipt holds what the
/// clock read for it, and is told of.
pub open spec fn concludes<O: StoryObserver, T: Fn(Mark) -> u64>(
    ready: O,
    clock: &T,
    action: Seq<char>,
    place: Option<[i32; 2]>,
    outcome: Result<ActionReceipt>,
    after: O,
) -> bool {
    exists|receipt: ActionReceiptView| #[trigger]
        timing::timed(clock, action, receipt) && tells(ready, receipt, place, outcome, after)
}

impl AndroidChoreography<Silent> {
    /// Bind a choreography to a device that is ready.
    pub fn bind<R: FnOnce(&Vec<Vec<u8>>) -> Invocation>(device: &AndroidDevice, run: R) -> (
        choreography: Result<Self>)
        requires
            android::runnable(run, device@.state_line()),
        ensures
            exists|invocation: Invocation| #[trigger]
                android::ran(run, device@.state_line(), invocation) && match choreography {
                    Ok(choreography) => device@.readiness(invocation) is Ok && choreography@
                        == (AndroidChoreographyView { device: device@, observer: Silent }),
                    Err(error) => device@.readiness(invocation) == Err::<(), _>(error@),
                },
    {
        match device.prove_ready(run) {
            Ok(_) => Ok(AndroidChoreography { device: device.clone(), observer: Silent }),
            Err(error) => Err(error),
        }
    }

    /// Attach one consumer of the stream.
    pub fn with_observer<O: StoryObserver>(self, observer: O) -> (choreography: AndroidChoreography<
        O,
    >)
        ensures
            choreography@ == (AndroidChoreographyView { device: self@.device, observer }),
    {
        AndroidChoreography { device: self.device, observer }
    }
}

/// Capture a device's screen, by a bridge that can be used again.
fn look<C: Fn(&Vec<Vec<u8>>) -> Invocation>(device: &AndroidDevice, screen: &C) -> (frame: Result<
    Frame,
>)
    requires
        android::repeatable(screen, device@.capture_line()),
    ensures
        exists|invocation: Invocation| #[trigger]
            android::ran(*screen, device@.capture_line(), invocation)
                && device@.captured(invocation, pixels::content(frame)),
{
    let once = |line: &Vec<Vec<u8>>| -> (invocation: Invocation)
        requires
            screen.requires((line,)),
        ensures
            screen.ensures((line,), invocation),
        { screen(line) };
    let frame = device.capture(once);
    proof {
        let invocation = choose|invocation: Invocation| #[trigger]
            android::ran(once, device@.capture_line(), invocation) && device@.captured(
                invocation,
                pixels::content(frame),
            );
        assert(android::ran(*screen, device@.capture_line(), invocation));
    }
    frame
}

impl<O: StoryObserver> AndroidChoreography<O> {
    fn emit<C: Fn(&Vec<Vec<u8>>) -> Invocation>(&mut self, event: StoryEvent<'_>, screen: &C) -> (
        outcome: Result<()>)
        requires
            visible(old(self)@, screen),
        ensures
            O::meets(old(self)@.observer, event@, outcome, final(self)@.observer),
            final(self)@.device == old(self)@.device,
    {
        let device = self.device.clone();
        let capture = || -> (frame: Result<Frame>)
            requires
                android::repeatable(screen, device@.capture_line()),
            { look(&device, screen) };
        self.observer.observe(event, StorySurface::new(&capture))
    }

    /// Emit an editorial chapter.
    pub fn chapter<C: Fn(&Vec<Vec<u8>>) -> Invocation>(&mut self, screen: &C, title: &str) -> (outcome:
        Result<()>)
        requires
            visible(old(self)@, screen),
        ensures
            O::meets(
                old(self)@.observer,
                EventView::Chapter { title: title@ },
                outcome,
                final(self)@.observer,
            ),
            final(self)@.device == old(self)@.device,
    {
        self.emit(StoryEvent::Cue(StoryCue::Chapter { title }), screen)
    }

    /// Offer recording observers a live interval.
    pub fn hold<C: Fn(&Vec<Vec<u8>>) -> Invocation>(&mut self, screen: &C, duration: Duration) -> (
        outcome: Result<()>)
        requires
            visible(old(self)@, screen),
        ensures
            O::meets(
                old(self)@.observer,
                EventView::Hold { duration: duration@ },
                outcome,
                final(self)@.observer,
            ),
            final(self)@.device == old(self)@.device,
    {
        self.emit(StoryEvent::Cue(StoryCue::Hold { duration }), screen)
    }

    /// Set the pace of the story.
    pub fn tempo<C: Fn(&Vec<Vec<u8>>) -> Invocation>(&mut self, screen: &C, tempo: StoryTempo<'_>) -> (
        outcome: Result<()>)
        requires
            visible(old(self)@, screen),
        ensures
            O::meets(
                old(self)@.observer,
                EventView::Tempo { name: tempo.name@ },
                outcome,
                final(self)@.observer,
            ),
            final(self)@.device == old(self)@.device,
    {
        self.emit(StoryEvent::Cue(StoryCue::Tempo { tempo }), screen)
    }

    /// Capture the screen.
    pub fn capture<R: FnOnce(&Vec<Vec<u8>>) -> Invocation>(&self, run: R) -> (frame: Result<Frame>)
        requires
            android::runnable(run, self@.device.capture_line()),
        ensures
            exists|invocation: Invocation| #[trigger]
                android::ran(run, self@.device.capture_line(), invocation)
                    && self@.device.captured(invocation, pixels::content(frame)),
    {
        assert(self@.device == self.device@);
        self.device.capture(run)
    }

    fn aim<C: Fn(&Vec<Vec<u8>>) -> Invocation>(&mut self, screen: &C, action: &str, point: [i32; 2]) -> (
        outcome: Result<()>)
        requires
            visible(old(self)@, screen),
        ensures
            aimed(
                old(self)@.observer,
                action@,
                Some(point),
                outcome,
                final(self)@.observer,
            ),
            final(self)@.device == old(self)@.device,
    {
        let event = StoryEvent::Fact(
            StoryFact::PointerAimed { target: Some(action), pointer: narrow(point), anchor: None },
        );
        assert(aims(event@, action@, point));
        self.emit(event, screen)
    }

    fn complete<C: Fn(&Vec<Vec<u8>>) -> Invocation>(
        &mut self,
        screen: &C,
        receipt: ActionReceipt,
        point: Option<[i32; 2]>,
    ) -> (outcome: Result<ActionReceipt>)
        requires
            visible(old(self)@, screen),
        ensures
            tells(
                old(self)@.observer,
                receipt@,
                point,
                outcome,
                final(self)@.observer,
            ),
            final(self)@.device == old(self)@.device,
    {
        let pointer: Option<[i16; 2]> = match point {
            Some(point) => Some(narrow(point)),
            None => None,
        };
        let ghost before = self@.observer;
        let event = action_event(&receipt, None, pointer);
        assert(places(event@, receipt@, point));
        let ghost told_event = event@;
        match self.emit(event, screen) {
            Ok(unit) => {
                assert(unit == ());
                assert(O::meets(before, told_event, Ok(()), self@.observer));
                Ok(receipt)
            },
            Err(error) => {
                assert(told(before, receipt@, point, Err(error), self@.observer));
                Err(error)
            },
        }
    }

    fn perform<
        C: Fn(&Vec<Vec<u8>>) -> Invocation,
        R: FnOnce(&Vec<Vec<u8>>) -> Invocation,
        T: Fn(Mark) -> u64,
    >(
        &mut self,
        screen: &C,
        run: R,
        clock: &T,
        action: &str,
        aim: Option<[i32; 2]>,
        gesture: &str,
        parameters: &Vec<Parameter>,
        place: Option<[i32; 2]>,
    ) -> (outcome: Result<ActionReceipt>)
        requires
            visible(old(self)@, screen),
            touchable(old(self)@, run, clock, action@, aim, (Ask { gesture: gesture@, parameters: android::parameters_of(parameters@) })),
        ensures
            acts(
                old(self)@,
                run,
                clock,
                action@,
                aim,
                Ask { gesture: gesture@, parameters: android::parameters_of(parameters@) },
                place,
                outcome,
                final(self)@,
            ),
            final(self)@.device == old(self)@.device,
    {
        let ghost before = self@;
        let ghost ask = Ask {
            gesture: gesture@,
            parameters: android::parameters_of(parameters@),
        };
        if let Some(point) = aim {
            match self.aim(screen, action, point) {
                Ok(unit) => {
                    assert(unit == ());
                },
                Err(error) => {
                    return Err(error);
                },
            }
        }
        let ghost ready = self@.observer;
        assert(aimed(before.observer, action@, aim, Ok(()), ready));
        let begun: u64 = clock(Mark::Begin);
        assert(clock.ensures((Mark::Begin,), begun));
        let triggered: u64 = clock(Mark::Trigger);
        assert(clock.ensures((Mark::Trigger,), triggered));
        let receipt = ActionReceipt::begin_at(begun, action).trigger_at(triggered);
        match self.device.instrument(run, gesture, action, parameters) {
            Ok(unit) => {
                assert(unit == ());
                let ghost invocation = choose|invocation: Invocation| #[trigger]
                    android::ran(
                        run,
                        before.device.line(
                            before.device.instrumentation(gesture@, action@, ask.parameters),
                        ),
                        invocation,
                    ) && Ok::<(), ErrorView>(()) == before.device.carried_out(action@, invocation);
                assert(reached(before, run, action@, aim, ask, ready, invocation));
                let finished: u64 = clock(Mark::Finish);
                assert(clock.ensures((Mark::Finish,), finished));
                let receipt = receipt.finish_at(finished);
                assert(timing::timed(clock, action@, receipt@));
                self.complete(screen, receipt, place)
            },
            Err(error) => {
                let ghost invocation = choose|invocation: Invocation| #[trigger]
                    android::ran(
                        run,
                        before.device.line(
                            before.device.instrumentation(gesture@, action@, ask.parameters),
                        ),
                        invocation,
                    ) && Err::<(), ErrorView>(error@) == before.device.carried_out(
                        action@,
                        invocation,
                    );
                assert(reached(before, run, action@, aim, ask, ready, invocation));
                Err(error)
            },
        }
    }

    /// Tap a place.
    pub fn tap<C: Fn(&Vec<Vec<u8>>) -> Invocation, R: FnOnce(&Vec<Vec<u8>>) -> Invocation>(
        &mut self,
        screen: &C,
        run: R,
        action: &str,
        point: [i32; 2],
    ) -> (outcome: Result<ActionReceipt>)
        requires
            visible(old(self)@, screen),
            touchable(old(self)@, run, &timing::reading, action@, Some(point), tap_ask(point)),
        ensures
            acts(
                old(self)@,
                run,
                &timing::reading,
                action@,
                Some(point),
                tap_ask(point),
                Some(point),
                outcome,
                final(self)@,
            ),
            final(self)@.device == old(self)@.device,
    {
        self.tap_by(screen, run, &timing::reading, action, point)
    }

    /// Tap a place, by a clock.
    pub fn tap_by<
        C: Fn(&Vec<Vec<u8>>) -> Invocation,
        R: FnOnce(&Vec<Vec<u8>>) -> Invocation,
        T: Fn(Mark) -> u64,
    >(
        &mut self,
        screen: &C,
        run: R,
        clock: &T,
        action: &str,
        point: [i32; 2],
    ) -> (outcome: Result<ActionReceipt>)
        requires
            visible(old(self)@, screen),
            touchable(old(self)@, run, clock, action@, Some(point), tap_ask(point)),
        ensures
            acts(
                old(self)@,
                run,
                clock,
                action@,
                Some(point),
                tap_ask(point),
                Some(point),
                outcome,
                final(self)@,
            ),
            final(self)@.device == old(self)@.device,
    {
        let mut parameters: Vec<Parameter> = Vec::new();
        parameters.push(numeric("x", point[0]));
        parameters.push(numeric("y", point[1]));
        assert(android::parameters_of(parameters@) =~= tap_ask(point).parameters);
        self.perform(screen, run, clock, action, Some(point), "tap", &parameters, Some(point))
    }

    /// Swipe between places.
    pub fn swipe<C: Fn(&Vec<Vec<u8>>) -> Invocation, R: FnOnce(&Vec<Vec<u8>>) -> Invocation>(
        &mut self,
        screen: &C,
        run: R,
        action: &str,
        origin: [i32; 2],
        destination: [i32; 2],
        duration: Duration,
    ) -> (outcome: Result<ActionReceipt>)
        requires
            visible(old(self)@, screen),
            touchable(old(self)@, run, &timing::reading, action@, Some(origin), swipe_ask(origin, destination, duration@)),
        ensures
            acts(
                old(self)@,
                run,
                &timing::reading,
                action@,
                Some(origin),
                swipe_ask(origin, destination, duration@),
                Some(destination),
                outcome,
                final(self)@,
            ),
            final(self)@.device == old(self)@.device,
    {
        self.swipe_by(screen, run, &timing::reading, action, origin, destination, duration)
    }

    /// Swipe between places, by a clock.
    pub fn swipe_by<
        C: Fn(&Vec<Vec<u8>>) -> Invocation,
        R: FnOnce(&Vec<Vec<u8>>) -> Invocation,
        T: Fn(Mark) -> u64,
    >(
        &mut self,
        screen: &C,
        run: R,
        clock: &T,
        action: &str,
        origin: [i32; 2],
        destination: [i32; 2],
        duration: Duration,
    ) -> (outcome: Result<ActionReceipt>)
        requires
            visible(old(self)@, screen),
            touchable(old(self)@, run, clock, action@, Some(origin), swipe_ask(origin, destination, duration@)),
        ensures
            acts(
                old(self)@,
                run,
                clock,
                action@,
                Some(origin),
                swipe_ask(origin, destination, duration@),
                Some(destination),
                outcome,
                final(self)@,
            ),
            final(self)@.device == old(self)@.device,
    {
        let mut parameters: Vec<Parameter> = Vec::new();
        parameters.push(numeric("x0", origin[0]));
        parameters.push(numeric("y0", origin[1]));
        parameters.push(numeric("x1", destination[0]));
        parameters.push(numeric("y1", destination[1]));
        parameters.push(Parameter { name: "steps", value: "12".to_owned() });
        parameters.push(Parameter { name: "duration_ms", value: duration_text(duration) });
        assert(android::parameters_of(parameters@) =~= swipe_ask(
            origin,
            destination,
            duration@,
        ).parameters);
        self.perform(screen, run, clock, action, Some(origin), "swipe", &parameters, Some(destination))
    }

    /// Hold one physical touch in place long enough to cross the platform's
    /// long-touch boundary.
    pub fn long_press<C: Fn(&Vec<Vec<u8>>) -> Invocation, R: FnOnce(&Vec<Vec<u8>>) -> Invocation>(
        &mut self,
        screen: &C,
        run: R,
        action: &str,
        point: [i32; 2],
        duration: Duration,
    ) -> (outcome: Result<ActionReceipt>)
        requires
            visible(old(self)@, screen),
            touchable(old(self)@, run, &timing::reading, action@, Some(point), hold_ask(point, duration@)),
        ensures
            acts(
                old(self)@,
                run,
                &timing::reading,
                action@,
                Some(point),
                hold_ask(point, duration@),
                Some(point),
                outcome,
                final(self)@,
            ),
            final(self)@.device == old(self)@.device,
    {
        self.long_press_by(screen, run, &timing::reading, action, point, duration)
    }

    /// Hold one physical touch in place long enough to cross the platform's long-touch
    /// boundary, by a clock.
    pub fn long_press_by<
        C: Fn(&Vec<Vec<u8>>) -> Invocation,
        R: FnOnce(&Vec<Vec<u8>>) -> Invocation,
        T: Fn(Mark) -> u64,
    >(
        &mut self,
        screen: &C,
        run: R,
        clock: &T,
        action: &str,
        point: [i32; 2],
        duration: Duration,
    ) -> (outcome: Result<ActionReceipt>)
        requires
            visible(old(self)@, screen),
            touchable(old(self)@, run, clock, action@, Some(point), hold_ask(point, duration@)),
        ensures
            acts(
                old(self)@,
                run,
                clock,
                action@,
                Some(point),
                hold_ask(point, duration@),
                Some(point),
                outcome,
                final(self)@,
            ),
            final(self)@.device == old(self)@.device,
    {
        let mut parameters: Vec<Parameter> = Vec::new();
        parameters.push(numeric("x", point[0]));
        parameters.push(numeric("y", point[1]));
        parameters.push(Parameter { name: "steps", value: "12".to_owned() });
        parameters.push(Parameter { name: "duration_ms", value: duration_text(duration) });
        assert(android::parameters_of(parameters@) =~= hold_ask(point, duration@).parameters);
        self.perform(screen, run, clock, action, Some(point), "hold", &parameters, Some(point))
    }

    /// Press a key by its code's name.
    pub fn key_code<C: Fn(&Vec<Vec<u8>>) -> Invocation, R: FnOnce(&Vec<Vec<u8>>) -> Invocation>(
        &mut self,
        screen: &C,
        run: R,
        action: &str,
        code: &str,
    ) -> (outcome: Result<ActionReceipt>)
        requires
            visible(old(self)@, screen),
            touchable(old(self)@, run, &timing::reading, action@, None, key_ask(code@)),
        ensures
            acts(
                old(self)@,
                run,
                &timing::reading,
                action@,
                None,
                key_ask(code@),
                None,
                outcome,
                final(self)@,
            ),
            final(self)@.device == old(self)@.device,
    {
        self.key_code_by(screen, run, &timing::reading, action, code)
    }

    /// Press a key by its code's name, by a clock.
    pub fn key_code_by<
        C: Fn(&Vec<Vec<u8>>) -> Invocation,
        R: FnOnce(&Vec<Vec<u8>>) -> Invocation,
        T: Fn(Mark) -> u64,
    >(
        &mut self,
        screen: &C,
        run: R,
        clock: &T,
        action: &str,
        code: &str,
    ) -> (outcome: Result<ActionReceipt>)
        requires
            visible(old(self)@, screen),
            touchable(old(self)@, run, clock, action@, None, key_ask(code@)),
        ensures
            acts(
                old(self)@,
                run,
                clock,
                action@,
                None,
                key_ask(code@),
                None,
                outcome,
                final(self)@,
            ),
            final(self)@.device == old(self)@.device,
    {
        let mut parameters: Vec<Parameter> = Vec::new();
        parameters.push(Parameter { name: "key", value: glue2("KEYCODE_", code) });
        assert(android::parameters_of(parameters@) =~= key_ask(code@).parameters);
        self.perform(screen, run, clock, action, None, "key", &parameters, None)
    }

    /// Type ASCII text through Android's virtual keyboard input path.
    pub fn text<C: Fn(&Vec<Vec<u8>>) -> Invocation, R: FnOnce(&Vec<Vec<u8>>) -> Invocation>(
        &mut self,
        screen: &C,
        run: R,
        action: &str,
        text: &str,
    ) -> (outcome: Result<ActionReceipt>)
        requires
            visible(old(self)@, screen),
            touchable(old(self)@, run, &timing::reading, action@, None, text_ask(text@)),
        ensures
            acts(
                old(self)@,
                run,
                &timing::reading,
                action@,
                None,
                text_ask(text@),
                None,
                outcome,
                final(self)@,
            ),
            final(self)@.device == old(self)@.device,
    {
        self.text_by(screen, run, &timing::reading, action, text)
    }

    /// Type ASCII text through Android's virtual keyboard input path, by a clock.
    pub fn text_by<
        C: Fn(&Vec<Vec<u8>>) -> Invocation,
        R: FnOnce(&Vec<Vec<u8>>) -> Invocation,
        T: Fn(Mark) -> u64,
    >(
        &mut self,
        screen: &C,
        run: R,
        clock: &T,
        action: &str,
        text: &str,
    ) -> (outcome: Result<ActionReceipt>)
        requires
            visible(old(self)@, screen),
            touchable(old(self)@, run, clock, action@, None, text_ask(text@)),
        ensures
            acts(
                old(self)@,
                run,
                clock,
                action@,
                None,
                text_ask(text@),
                None,
                outcome,
                final(self)@,
            ),
            final(self)@.device == old(self)@.device,
    {
        let mut parameters: Vec<Parameter> = Vec::new();
        parameters.push(Parameter { name: "text", value: text.to_owned() });
        assert(android::parameters_of(parameters@) =~= text_ask(text@).parameters);
        self.perform(screen, run, clock, action, None, "text", &parameters, None)
    }

    /// Pinch with two fingers. The pointer aims at the middle of them.
    pub fn pinch<C: Fn(&Vec<Vec<u8>>) -> Invocation, R: FnOnce(&Vec<Vec<u8>>) -> Invocation>(
        &mut self,
        screen: &C,
        run: R,
        action: &str,
        gesture: AndroidPinch,
    ) -> (outcome: Result<ActionReceipt>)
        requires
            visible(old(self)@, screen),
            forall|center: [i32; 2]| #[trigger]
                centers(gesture, center) ==> touchable(old(self)@, run, &timing::reading, action@, Some(center), pinch_ask(gesture)),
        ensures
            exists|center: [i32; 2]| #[trigger]
                centers(gesture, center) && acts(
                    old(self)@,
                    run,
                    &timing::reading,
                    action@,
                    Some(center),
                    pinch_ask(gesture),
                    Some(center),
                    outcome,
                    final(self)@,
                ),
            final(self)@.device == old(self)@.device,
    {
        self.pinch_by(screen, run, &timing::reading, action, gesture)
    }

    /// Pinch with two fingers, by a clock. The pointer aims at the middle of them.
    pub fn pinch_by<
        C: Fn(&Vec<Vec<u8>>) -> Invocation,
        R: FnOnce(&Vec<Vec<u8>>) -> Invocation,
        T: Fn(Mark) -> u64,
    >(
        &mut self,
        screen: &C,
        run: R,
        clock: &T,
        action: &str,
        gesture: AndroidPinch,
    ) -> (outcome: Result<ActionReceipt>)
        requires
            visible(old(self)@, screen),
            forall|center: [i32; 2]| #[trigger]
                centers(gesture, center) ==> touchable(old(self)@, run, clock, action@, Some(center), pinch_ask(gesture)),
        ensures
            exists|center: [i32; 2]| #[trigger]
                centers(gesture, center) && acts(
                    old(self)@,
                    run,
                    clock,
                    action@,
                    Some(center),
                    pinch_ask(gesture),
                    Some(center),
                    outcome,
                    final(self)@,
                ),
            final(self)@.device == old(self)@.device,
    {
        let center = [
            midpoint(gesture.first[0], gesture.second[0]),
            midpoint(gesture.first[1], gesture.second[1]),
        ];
        assert(centers(gesture, center));
        let mut parameters: Vec<Parameter> = Vec::new();
        parameters.push(numeric("x0", gesture.first[0]));
        parameters.push(numeric("y0", gesture.first[1]));
        parameters.push(numeric("x1", gesture.second[0]));
        parameters.push(numeric("y1", gesture.second[1]));
        parameters.push(numeric("dx", gesture.spread[0]));
        parameters.push(numeric("dy", gesture.spread[1]));
        parameters.push(Parameter { name: "steps", value: decimal_text(gesture.steps as u128) });
        parameters.push(
            Parameter { name: "duration_ms", value: duration_text(gesture.duration) },
        );
        assert(android::parameters_of(parameters@) =~= pinch_ask(gesture).parameters);
        self.perform(screen, run, clock, action, Some(center), "pinch", &parameters, Some(center))
    }

    /// Seal the observer and return it to the caller.
    pub fn finish<C: Fn(&Vec<Vec<u8>>) -> Invocation>(self, screen: &C) -> (observer: Result<O>)
        requires
            visible(self@, screen),
        ensures
            match observer {
                Ok(observer) => O::ends(self@.observer, Ok(()), observer),
                Err(error) => exists|observer: O| #[trigger]
                    O::ends(self@.observer, Err(error), observer),
            },
    {
        let ghost before = self@.observer;
        let AndroidChoreography { device, observer } = self;
        let mut observer = observer;
        let capture = || -> (frame: Result<Frame>)
            requires
                android::repeatable(screen, device@.capture_line()),
            { look(&device, screen) };
        match observer.finish(StorySurface::new(&capture)) {
            Ok(unit) => {
                assert(unit == ());
                assert(O::ends(before, Ok(()), observer));
                Ok(observer)
            },
            Err(error) => Err(error),
        }
    }
}

/// Whether a place is the middle of a pinch's fingers.
pub open spec fn centers(gesture: AndroidPinch, center: [i32; 2]) -> bool {
    &&& center[0] == middle(gesture.first[0] as int, gesture.second[0] as int)
    &&& center[1] == middle(gesture.first[1] as int, gesture.second[1] as int)
}

/// A refused gesture is never told as dispatched: the observer is left as aiming
/// left it.
pub proof fn law_refused_gestures_are_not_dispatched<
    O: StoryObserver,
    R: FnOnce(&Vec<Vec<u8>>) -> Invocation,
    T: Fn(Mark) -> u64,
>(
    before: AndroidChoreographyView<O>,
    run: R,
    clock: &T,
    action: Seq<char>,
    aim: Option<[i32; 2]>,
    ask: Ask,
    place: Option<[i32; 2]>,
    outcome: Result<ActionReceipt>,
    after: AndroidChoreographyView<O>,
)
    requires
        acts(before, run, clock, action, aim, ask, place, outcome, after),
        forall|invocation: Invocation|
            before.device.carried_out(action, invocation) is Ok ==> !#[trigger] android::ran(
                run,
                before.device.line(
                    before.device.instrumentation(ask.gesture, action, ask.parameters),
                ),
                invocation,
            ),
    ensures
        outcome is Err,
        exists|verdict: Result<()>| #[trigger]
            aimed(before.observer, action, aim, verdict, after.observer),
{
    if !(outcome matches Err(error) && aimed(
        before.observer,
        action,
        aim,
        Err(error),
        after.observer,
    )) {
        let (ready, invocation) = choose|ready: O, invocation: Invocation|
            #![trigger reached(before, run, action, aim, ask, ready, invocation)]
            reached(before, run, action, aim, ask, ready, invocation)
                && match before.device.carried_out(action, invocation) {
                Err(refusal) => (outcome matches Err(error) && error@ == refusal)
                    && after.observer == ready,
                Ok(_) => concludes(ready, clock, action, place, outcome, after.observer),
            };
        assert(aimed(before.observer, action, aim, Ok(()), ready));
    }
}

/// A place is told as it is, as far as the stream's coordinates reach, and else at their
/// end.
pub proof fn law_places_are_told_within_reach(point: [i32; 2], narrow: [i16; 2])
    requires
        self::narrow.ensures((point,), narrow),
    ensures
        -32768 <= point[0] <= 32767 ==> narrow[0] == point[0],
        -32768 <= point[1] <= 32767 ==> narrow[1] == point[1],
        point[0] > 32767 ==> narrow[0] == 32767,
        point[0] < -32768 ==> narrow[0] == -32768,
        point[1] > 32767 ==> narrow[1] == 32767,
        point[1] < -32768 ==> narrow[1] == -32768,
{
}

/// A span is asked for in whole milliseconds, rounded down, and never as none.
pub proof fn law_spans_are_asked_in_milliseconds(span: nat)
    ensures
        milliseconds(span) >= 1,
        span >= 1_000_000 ==> milliseconds(span) * 1_000_000 <= span < (milliseconds(span) + 1)
            * 1_000_000,
{
}

/// A pinch is told at the middle of its fingers.
pub proof fn law_pinches_are_told_at_their_middle(gesture: AndroidPinch, center: [i32; 2])
    requires
        centers(gesture, center),
    ensures
        -1 <= 2 * center[0] - (gesture.first[0] + gesture.second[0]) <= 1,
        -1 <= 2 * center[1] - (gesture.first[1] + gesture.second[1]) <= 1,
        (gesture.first[0] + gesture.second[0]) % 2 == 0 ==> 2 * center[0] == gesture.first[0]
            + gesture.second[0],
        (gesture.first[1] + gesture.second[1]) % 2 == 0 ==> 2 * center[1] == gesture.first[1]
            + gesture.second[1],
{
}

/// Whether an ask carries a parameter.
pub open spec fn carries(ask: Ask, name: &str, value: Seq<char>) -> bool {
    exists|i: int|
        0 <= i < ask.parameters.len() && (#[trigger] ask.parameters[i]).0 == name@
            && ask.parameters[i].1 == value
}

/// Every gesture is asked by its kind, with its own places, its own span, and its own text.
pub proof fn law_gestures_carry_their_places(
    point: [i32; 2],
    origin: [i32; 2],
    destination: [i32; 2],
    span: nat,
    code: Seq<char>,
    text: Seq<char>,
    pinch: AndroidPinch,
)
    ensures
        tap_ask(point).gesture == "tap"@,
        carries(tap_ask(point), "x", text::signed_decimal(point[0] as int)),
        carries(tap_ask(point), "y", text::signed_decimal(point[1] as int)),
        swipe_ask(origin, destination, span).gesture == "swipe"@,
        carries(
            swipe_ask(origin, destination, span),
            "x0",
            text::signed_decimal(origin[0] as int),
        ),
        carries(
            swipe_ask(origin, destination, span),
            "y0",
            text::signed_decimal(origin[1] as int),
        ),
        carries(
            swipe_ask(origin, destination, span),
            "x1",
            text::signed_decimal(destination[0] as int),
        ),
        carries(
            swipe_ask(origin, destination, span),
            "y1",
            text::signed_decimal(destination[1] as int),
        ),
        carries(swipe_ask(origin, destination, span), "steps", "12"@),
        carries(
            swipe_ask(origin, destination, span),
            "duration_ms",
            text::decimal(milliseconds(span)),
        ),
        hold_ask(point, span).gesture == "hold"@,
        carries(hold_ask(point, span), "x", text::signed_decimal(point[0] as int)),
        carries(hold_ask(point, span), "y", text::signed_decimal(point[1] as int)),
        carries(hold_ask(point, span), "steps", "12"@),
        carries(hold_ask(point, span), "duration_ms", text::decimal(milliseconds(span))),
        key_ask(code).gesture == "key"@,
        carries(key_ask(code), "key", "KEYCODE_"@ + code),
        text_ask(text).gesture == "text"@,
        carries(text_ask(text), "text", text),
        pinch_ask(pinch).gesture == "pinch"@,
        carries(pinch_ask(pinch), "x0", text::signed_decimal(pinch.first[0] as int)),
        carries(pinch_ask(pinch), "y0", text::signed_decimal(pinch.first[1] as int)),
        carries(pinch_ask(pinch), "x1", text::signed_decimal(pinch.second[0] as int)),
        carries(pinch_ask(pinch), "y1", text::signed_decimal(pinch.second[1] as int)),
        carries(pinch_ask(pinch), "dx", text::signed_decimal(pinch.spread[0] as int)),
        carries(pinch_ask(pinch), "dy", text::signed_decimal(pinch.spread[1] as int)),
        carries(pinch_ask(pinch), "steps", text::decimal(pinch.steps as nat)),
        carries(
            pinch_ask(pinch),
            "duration_ms",
            text::decimal(milliseconds(pinch.duration@)),
        ),
{
    let tap = tap_ask(point).parameters;
    assert(tap[0].0 == "x"@ && tap[1].0 == "y"@);
    let swipe = swipe_ask(origin, destination, span).parameters;
    assert(swipe[0].0 == "x0"@ && swipe[1].0 == "y0"@ && swipe[2].0 == "x1"@ && swipe[3].0 == "y1"@
        && swipe[4].0 == "steps"@ && swipe[5].0 == "duration_ms"@);
    let hold = hold_ask(point, span).parameters;
    assert(hold[0].0 == "x"@ && hold[1].0 == "y"@ && hold[2].0 == "steps"@ && hold[3].0
        == "duration_ms"@);
    assert(key_ask(code).parameters[0].0 == "key"@);
    assert(text_ask(text).parameters[0].0 == "text"@);
    let spread = pinch_ask(pinch).parameters;
    assert(spread[0].0 == "x0"@ && spread[1].0 == "y0"@ && spread[2].0 == "x1"@ && spread[3].0
        == "y1"@ && spread[4].0 == "dx"@ && spread[5].0 == "dy"@ && spread[6].0 == "steps"@
        && spread[7].0 == "duration_ms"@);
}

/// An action succeeds only where the instrumentation carried it out, and then it is told of
/// with the times of its receipt and the place it ended at.
pub proof fn law_carried_out_gestures_are_told<
    O: StoryObserver,
    R: FnOnce(&Vec<Vec<u8>>) -> Invocation,
    T: Fn(Mark) -> u64,
>(
    before: AndroidChoreographyView<O>,
    run: R,
    clock: &T,
    action: Seq<char>,
    aim: Option<[i32; 2]>,
    ask: Ask,
    place: Option<[i32; 2]>,
    receipt: ActionReceipt,
    after: AndroidChoreographyView<O>,
)
    requires
        acts(before, run, clock, action, aim, ask, place, Ok(receipt), after),
    ensures
        receipt@.action == action,
        exists|invocation: Invocation| #[trigger]
            android::ran(
                run,
                before.device.line(
                    before.device.instrumentation(ask.gesture, action, ask.parameters),
                ),
                invocation,
            ) && before.device.carried_out(action, invocation) is Ok,
        exists|ready: O, pointer: Option<[i16; 2]>|
            (pointer is Some <==> place is Some) && (pointer matches Some(p) ==> narrow_place(
                place->0,
                p,
            )) && #[trigger] O::meets(
                ready,
                EventView::ActionDispatched {
                    action,
                    target: None,
                    pointer,
                    gesture_started_ns: receipt@.gesture_started_ns,
                    triggered_ns: receipt@.triggered_ns,
                    completed_ns: receipt@.completed_ns,
                },
                Ok(()),
                after.observer,
            ),
{
    let (ready, invocation) = choose|ready: O, invocation: Invocation|
        #![trigger reached(before, run, action, aim, ask, ready, invocation)]
        reached(before, run, action, aim, ask, ready, invocation) && match before.device.carried_out(
            action,
            invocation,
        ) {
            Err(refusal) => false,
            Ok(_) => concludes(ready, clock, action, place, Ok(receipt), after.observer),
        };
    let given = choose|given: ActionReceiptView| #[trigger]
        timing::timed(clock, action, given) && tells(
            ready,
            given,
            place,
            Ok(receipt),
            after.observer,
        );
    let event = choose|event: EventView|
        places(event, given, place) && #[trigger] O::meets(ready, event, Ok(()), after.observer);
    let pointer = choose|pointer: Option<[i16; 2]>|
        event == #[trigger] story::dispatched(given, None, pointer) && match place {
            None => pointer is None,
            Some(point) => pointer matches Some(narrow) && narrow_place(point, narrow),
        };
    assert(O::meets(ready, story::dispatched(receipt@, None, pointer), Ok(()), after.observer));
}

} // verus!
