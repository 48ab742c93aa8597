//! Stories that act on an X11 application.
//!
//! A story tells its observer of every target that it resolved, every action
//! that it dispatched, and every observation that matched. What touches the
//! application is handed in: how a name resolves to an anchor, where an anchor's
//! center lies, and how a gesture is performed.
use crate::duration::Duration;
use crate::error::{Error, Result};
use crate::input::{Button, Drag, Key, Modifiers, Motion, Stroke, Wheel};
use crate::pixels::Frame;
use crate::probe::ProbeFrame;
use crate::story;
use crate::story::{action_event, admit_observer, conclude_drag, drag_action, drag_motion, modified_click_action, observation_event, target_action, target_event, EventView, Reaction, ReactionView, Silent, StoryCue, StoryEvent, StoryObserver, StoryPolicy, StorySurface, StoryTempo};
use crate::timing::{ActionReceipt, ActionReceiptView, ReactionBudget, ReactionBudgetView, Timed};
use crate::witness::anchor::Anchor;
use crate::x11::pointer::Place;
use vstd::prelude::*;

verus! {

/// One executing story.
#[derive(Debug)]
pub struct Story<O> {
    policy: StoryPolicy,
    observer: O,
}

/// Content of a [`Story`].
pub struct StoryView<O> {
    pub policy: StoryPolicy,
    pub observer: O,
}

impl<O> View for Story<O> {
    type V = StoryView<O>;

    closed spec fn view(&self) -> StoryView<O> {
        StoryView { policy: self.policy, observer: self.observer }
    }
}

/// A place, as events carry it.
pub open spec fn spot(place: Place) -> [i16; 2] {
    [place.0, place.1]
}

/// A place that may be absent, as events carry it.
pub open spec fn spotted(place: Option<Place>) -> Option<[i16; 2]> {
    match place {
        Some(place) => Some(spot(place)),
        None => None,
    }
}

/// The fact that an observation matched.
pub open spec fn matched<S>(description: Seq<char>, frame: ProbeFrame<S>) -> EventView {
    EventView::ObservationMatched {
        description,
        schema: frame.schema,
        frame: frame.frame,
        begun_ns: frame.begun_ns,
        observed_ns: frame.observed_ns,
        surface_presented_ns: frame.surface_presented_ns,
        surface_sequence: frame.surface_sequence,
    }
}

// ---------------------------------------------------------------------------
// What can come of a step
// ---------------------------------------------------------------------------

/// Whether telling of a resolved target can leave the observer so. Nothing is
/// told of a target that was not found.
pub open spec fn reveals<O: StoryObserver>(
    before: O,
    target: Seq<char>,
    found: Result<Anchor>,
    outcome: Result<Anchor>,
    after: O,
) -> bool {
    match found {
        Err(_) => outcome == found && after == before,
        Ok(anchor) => match outcome {
            Ok(_) => outcome == found && O::meets(
                before,
                EventView::TargetResolved { target, anchor },
                Ok(()),
                after,
            ),
            Err(error) => O::meets(
                before,
                EventView::TargetResolved { target, anchor },
                Err(error),
                after,
            ),
        },
    }
}

/// Whether resolving a target can come to an outcome.
pub open spec fn resolves<O: StoryObserver, L: FnOnce(&str, Duration) -> Result<Anchor>>(
    resolve: L,
    timeout: Duration,
    before: O,
    target: Seq<char>,
    outcome: Result<Anchor>,
    after: O,
) -> bool {
    exists|name: &str, found: Result<Anchor>|
        name@ == target && #[trigger] resolve.ensures((name, timeout), found) && reveals(
            before,
            target,
            found,
            outcome,
            after,
        )
}

/// Whether an action that was performed can come to an outcome: it is told of
/// before it awaits its reaction. Nothing is told of an action that failed.
pub open spec fn acted<O: StoryObserver>(
    before: O,
    performed: Result<ActionReceipt>,
    budget: ReactionBudgetView,
    target: Option<Seq<char>>,
    pointer: Option<Place>,
    description: Option<Seq<char>>,
    outcome: Result<Reaction>,
    after: O,
) -> bool {
    match performed {
        Err(error) => outcome == Err::<Reaction, Error>(error) && after == before,
        Ok(receipt) => match outcome {
            Ok(reaction) => O::meets(
                before,
                story::dispatched(receipt@, target, spotted(pointer)),
                Ok(()),
                after,
            ) && reaction@ == (ReactionView {
                receipt: receipt@,
                budget,
                description: match description {
                    Some(description) => description,
                    None => receipt@.action,
                },
            }),
            Err(error) => O::meets(
                before,
                story::dispatched(receipt@, target, spotted(pointer)),
                Err(error),
                after,
            ),
        },
    }
}

/// Whether an action that aims at no named target can come to an outcome: its
/// reaction goes by the name of the action.
pub open spec fn unaimed<O: StoryObserver>(
    policy: StoryPolicy,
    before: O,
    performed: Result<ActionReceipt>,
    pointer: Option<Place>,
    outcome: Result<Reaction>,
    after: O,
) -> bool {
    acted(before, performed, policy.reaction_budget@, None, pointer, None, outcome, after)
}

/// Whether telling of an observation can come to an outcome. Nothing is told of a
/// wait that failed.
pub open spec fn retains<O: StoryObserver, S>(
    before: O,
    description: Seq<char>,
    waited: Result<ProbeFrame<S>>,
    outcome: Result<ProbeFrame<S>>,
    after: O,
) -> bool {
    match waited {
        Err(_) => outcome == waited && after == before,
        Ok(seen) => match outcome {
            Ok(_) => outcome == waited && O::meets(
                before,
                matched(description, seen),
                Ok(()),
                after,
            ),
            Err(error) => O::meets(before, matched(description, seen), Err(error), after),
        },
    }
}

/// Whether an action at an anchor's center can come to an outcome. The event
/// tells of the center, unless the action ends elsewhere.
pub open spec fn lands<
    O: StoryObserver,
    C: Fn(&Anchor) -> Place,
    A,
    G: FnOnce(Place, A) -> Result<ActionReceipt>,
>(
    budget: ReactionBudgetView,
    before: O,
    center: &C,
    perform: G,
    argument: A,
    anchor: Anchor,
    target: Seq<char>,
    end: Option<Place>,
    description: Seq<char>,
    outcome: Result<Reaction>,
    after: O,
) -> bool {
    exists|place: Place, performed: Result<ActionReceipt>|
        center.ensures((&anchor,), place) && #[trigger] perform.ensures(
            (place, argument),
            performed,
        ) && acted(
            before,
            performed,
            budget,
            Some(target),
            if end is Some {
                end
            } else {
                Some(place)
            },
            Some(description),
            outcome,
            after,
        )
}

/// Whether an action on a named target can come to an outcome: the target is
/// resolved, then the action is performed at its center.
pub open spec fn strikes<
    O: StoryObserver,
    L: FnOnce(&str, Duration) -> Result<Anchor>,
    C: Fn(&Anchor) -> Place,
    A,
    G: FnOnce(Place, A) -> Result<ActionReceipt>,
>(
    policy: StoryPolicy,
    before: O,
    resolve: L,
    center: &C,
    perform: G,
    argument: A,
    target: Seq<char>,
    end: Option<Place>,
    description: Seq<char>,
    outcome: Result<Reaction>,
    after: O,
) -> bool {
    exists|found: Result<Anchor>, ready: O| #[trigger]
        resolves(resolve, policy.target_timeout, before, target, found, ready) && match found {
            Err(error) => outcome == Err::<Reaction, Error>(error) && after == ready,
            Ok(anchor) => lands(
                policy.reaction_budget@,
                ready,
                center,
                perform,
                argument,
                anchor,
                target,
                end,
                description,
                outcome,
                after,
            ),
        }
}

/// Whether a target may be looked for, under its name and no other.
pub open spec fn seekable<L: FnOnce(&str, Duration) -> Result<Anchor>>(
    resolve: L,
    timeout: Duration,
    target: Seq<char>,
) -> bool {
    forall|name: &str| name@ == target ==> #[trigger] resolve.requires((name, timeout))
}

/// Whether a named target may be acted on: it is looked for, and the action is
/// performed at its center once it was found and told of.
pub open spec fn strikable<
    O: StoryObserver,
    L: FnOnce(&str, Duration) -> Result<Anchor>,
    C: Fn(&Anchor) -> Place,
    A,
    G: FnOnce(Place, A) -> Result<ActionReceipt>,
>(
    policy: StoryPolicy,
    before: O,
    resolve: L,
    center: &C,
    perform: G,
    argument: A,
    target: Seq<char>,
) -> bool {
    &&& seekable(resolve, policy.target_timeout, target)
    &&& forall|anchor: Anchor, ready: O, place: Place|
        #![trigger resolves(resolve, policy.target_timeout, before, target, Ok(anchor), ready), center.ensures((&anchor,), place)]
        resolves(resolve, policy.target_timeout, before, target, Ok(anchor), ready)
            && center.ensures((&anchor,), place) ==> perform.requires((place, argument))
}

/// Whether a reaction's condition may be waited for, under its own description. A
/// wait that would be contaminated is never begun.
pub open spec fn awaitable<
    O: StoryObserver,
    S,
    W: FnOnce(&str, &ActionReceipt, ReactionBudget) -> Result<Timed<ProbeFrame<S>>>,
>(before: O, reaction: ReactionView, condition: Seq<char>, wait: W) -> bool {
    reaction.budget.production is None || before.admissible() ==> forall|
        name: &str,
        receipt: &ActionReceipt,
        budget: ReactionBudget,
    |
        name@ == reaction.description + "; await "@ + condition && receipt@ == reaction.receipt
            && budget@ == reaction.budget ==> #[trigger] wait.requires((name, receipt, budget))
}

/// Whether telling of a frame that was waited for can leave the observer so.
pub open spec fn observes<O: StoryObserver, S>(
    before: O,
    description: Seq<char>,
    waited: Result<Timed<ProbeFrame<S>>>,
    outcome: Result<Timed<ProbeFrame<S>>>,
    after: O,
) -> bool {
    match waited {
        Err(_) => outcome == waited && after == before,
        Ok(timed) => match outcome {
            Ok(_) => outcome == waited && O::meets(
                before,
                matched(description, timed.subject()),
                Ok(()),
                after,
            ),
            Err(error) => O::meets(
                before,
                matched(description, timed.subject()),
                Err(error),
                after,
            ),
        },
    }
}

/// Whether waiting for a reaction's condition can come to an outcome. A wait that
/// judges latency is refused to an observer that would contaminate it.
pub open spec fn awaits<
    O: StoryObserver,
    S,
    W: FnOnce(&str, &ActionReceipt, ReactionBudget) -> Result<Timed<ProbeFrame<S>>>,
>(
    before: O,
    reaction: ReactionView,
    condition: Seq<char>,
    wait: W,
    outcome: Result<Timed<ProbeFrame<S>>>,
    after: O,
) -> bool {
    if reaction.budget.production is Some && !before.admissible() {
        (outcome matches Err(error) && error@ == story::contaminated()) && after == before
    } else {
        exists|
            name: &str,
            receipt: &ActionReceipt,
            budget: ReactionBudget,
            waited: Result<Timed<ProbeFrame<S>>>,
        |
            name@ == reaction.description + "; await "@ + condition && receipt@ == reaction.receipt
                && budget@ == reaction.budget && #[trigger] wait.ensures(
                (name, receipt, budget),
                waited,
            ) && observes(before, name@, waited, outcome, after)
    }
}

/// The condition that any next frame meets.
pub open spec fn any_frame() -> Seq<char> {
    "a fresh surface-presented frame"@
}

// ---------------------------------------------------------------------------
// The story
// ---------------------------------------------------------------------------

impl Story<Silent> {
    /// Begin a story that nothing listens to.
    pub fn bind(reaction_budget: ReactionBudget) -> (story: Self)
        ensures
            story@.observer == Silent,
            story@.policy.reaction_budget == reaction_budget,
            story@.policy.target_timeout@ == 8_000_000_000,
            story@.policy.wait_timeout@ == 10_000_000_000,
    {
        Story { policy: StoryPolicy::bind(reaction_budget), observer: Silent }
    }

    /// Attach one consumer of the stream before executing the story. A story whose
    /// latency is judged refuses a consumer that would contaminate the verdict.
    pub fn with_observer<O: StoryObserver>(self, observer: O) -> (story: Result<Story<O>>)
        ensures
            match story {
                Ok(story) => (self@.policy.reaction_budget@.production is None
                    || observer.admissible()) && story@ == (StoryView {
                    policy: self@.policy,
                    observer,
                }),
                Err(error) => self@.policy.reaction_budget@.production is Some
                    && !observer.admissible() && error@ == story::contaminated(),
            },
    {
        match admit_observer(self.policy.reaction_budget, &observer) {
            Ok(_) => Ok(Story { policy: self.policy, observer }),
            Err(error) => Err(error),
        }
    }
}

impl<O: StoryObserver> Story<O> {
    /// Wait this long for targets.
    pub fn with_target_timeout(self, timeout: Duration) -> (story: Self)
        ensures
            story@ == (StoryView {
                policy: StoryPolicy { target_timeout: timeout, ..self@.policy },
                observer: self@.observer,
            }),
    {
        Story { policy: self.policy.with_target_timeout(timeout), observer: self.observer }
    }

    /// Wait this long for conditions.
    pub fn with_wait_timeout(self, timeout: Duration) -> (story: Self)
        ensures
            story@ == (StoryView {
                policy: StoryPolicy { wait_timeout: timeout, ..self@.policy },
                observer: self@.observer,
            }),
    {
        Story { policy: self.policy.with_wait_timeout(timeout), observer: self.observer }
    }

    /// What the story goes by.
    pub fn policy(&self) -> (policy: StoryPolicy)
        ensures
            policy == self@.policy,
    {
        self.policy
    }

    fn emit<F: Fn() -> Result<Frame>>(&mut self, event: StoryEvent<'_>, surface: &F) -> (outcome:
        Result<()>)
        requires
            surface.requires(()),
        ensures
            O::meets(old(self)@.observer, event@, outcome, final(self)@.observer),
            final(self)@.policy == old(self)@.policy,
    {
        self.observer.observe(event, StorySurface::new(surface))
    }

    /// Emit an editorial chapter without changing ordinary test behavior.
    pub fn chapter<F: Fn() -> Result<Frame>>(&mut self, title: &str, surface: &F) -> (outcome: Result<
        (),
    >)
        requires
            surface.requires(()),
        ensures
            O::meets(
                old(self)@.observer,
                EventView::Chapter { title: title@ },
                outcome,
                final(self)@.observer,
            ),
            final(self)@.policy == old(self)@.policy,
    {
        self.emit(StoryEvent::Cue(StoryCue::Chapter { title }), surface)
    }

    /// Offer recording observers a live interval while ordinary tests proceed
    /// immediately.
    pub fn hold<F: Fn() -> Result<Frame>>(&mut self, duration: Duration, surface: &F) -> (outcome:
        Result<()>)
        requires
            surface.requires(()),
        ensures
            O::meets(
                old(self)@.observer,
                EventView::Hold { duration: duration@ },
                outcome,
                final(self)@.observer,
            ),
            final(self)@.policy == old(self)@.policy,
    {
        self.emit(StoryEvent::Cue(StoryCue::Hold { duration }), surface)
    }

    /// Set the pace of the story.
    pub fn tempo<F: Fn() -> Result<Frame>>(&mut self, tempo: StoryTempo<'_>, surface: &F) -> (outcome:
        Result<()>)
        requires
            surface.requires(()),
        ensures
            O::meets(
                old(self)@.observer,
                EventView::Tempo { name: tempo.name@ },
                outcome,
                final(self)@.observer,
            ),
            final(self)@.policy == old(self)@.policy,
    {
        self.emit(StoryEvent::Cue(StoryCue::Tempo { tempo }), surface)
    }

    /// Seal the observer and return it to the caller.
    pub fn finish<F: Fn() -> Result<Frame>>(self, surface: &F) -> (observer: Result<O>)
        requires
            surface.requires(()),
        ensures
            match observer {
                Ok(observer) => O::ends(self@.observer, Ok(()), observer),
                Err(error) => exists|observer: O| #[trigger]
                    O::ends(self@.observer, Err(error), observer),
            },
    {
        let ghost before = self@.observer;
        let Story { policy: _, observer } = self;
        let mut observer = observer;
        match observer.finish(StorySurface::new(surface)) {
            Ok(unit) => {
                assert(unit == ());
                assert(O::ends(before, Ok(()), observer));
                Ok(observer)
            },
            Err(error) => Err(error),
        }
    }

    /// Resolve a target by its name and tell of it. A target that was not found
    /// leaves a last capture behind.
    pub fn anchor<L: FnOnce(&str, Duration) -> Result<Anchor>, F: Fn() -> Result<Frame>>(
        &mut self,
        target: &str,
        resolve: L,
        surface: &F,
    ) -> (anchor: Result<Anchor>)
        requires
            seekable(resolve, old(self)@.policy.target_timeout, target@),
            surface.requires(()),
        ensures
            resolves(
                resolve,
                old(self)@.policy.target_timeout,
                old(self)@.observer,
                target@,
                anchor,
                final(self)@.observer,
            ),
            final(self)@.policy == old(self)@.policy,
    {
        let ghost before = self@;
        let found = resolve(target, self.policy.target_timeout);
        match found {
            Err(error) => {
                let _capture = surface();
                assert(reveals(before.observer, target@, found, Err(error), self@.observer));
                Err(error)
            },
            Ok(anchor) => {
                let told = self.emit(target_event(target, &anchor), surface);
                match told {
                    Ok(unit) => {
                        assert(unit == ());
                        assert(reveals(before.observer, target@, found, Ok(anchor), self@.observer));
                        Ok(anchor)
                    },
                    Err(error) => {
                        assert(reveals(before.observer, target@, found, Err(error), self@.observer));
                        Err(error)
                    },
                }
            },
        }
    }

    fn dispatch<F: Fn() -> Result<Frame>>(
        &mut self,
        performed: Result<ActionReceipt>,
        target: Option<&str>,
        pointer: Option<Place>,
        description: Option<String>,
        surface: &F,
    ) -> (reaction: Result<Reaction>)
        requires
            surface.requires(()),
        ensures
            acted(
                old(self)@.observer,
                performed,
                old(self)@.policy.reaction_budget@,
                story::named(target),
                pointer,
                match description {
                    Some(description) => Some(description@),
                    None => None,
                },
                reaction,
                final(self)@.observer,
            ),
            final(self)@.policy == old(self)@.policy,
    {
        let receipt = match performed {
            Ok(receipt) => receipt,
            Err(error) => {
                return Err(error);
            },
        };
        let place: Option<[i16; 2]> = match pointer {
            Some(place) => Some([place.0, place.1]),
            None => None,
        };
        match self.emit(action_event(&receipt, target, place), surface) {
            Err(error) => Err(error),
            Ok(unit) => {
                assert(unit == ());
                match description {
                    Some(description) => Ok(
                        Reaction::named(receipt, self.policy.reaction_budget, description),
                    ),
                    None => Ok(Reaction::of(receipt, self.policy.reaction_budget)),
                }
            },
        }
    }

    /// Click at a place.
    pub fn click_at<
        G: FnOnce(Place, Button) -> Result<ActionReceipt>,
        F: Fn() -> Result<Frame>,
    >(&mut self, point: Place, button: Button, press: G, surface: &F) -> (reaction: Result<Reaction>)
        requires
            press.requires((point, button)),
            surface.requires(()),
        ensures
            exists|performed: Result<ActionReceipt>| #[trigger]
                press.ensures((point, button), performed) && unaimed(
                    old(self)@.policy,
                    old(self)@.observer,
                    performed,
                    Some(point),
                    reaction,
                    final(self)@.observer,
                ),
            final(self)@.policy == old(self)@.policy,
    {
        let performed = press(point, button);
        self.dispatch(performed, None, Some(point), None, surface)
    }

    /// Click where the pointer is. `pointer` asks for its place.
    pub fn click_current<
        Q: FnOnce() -> Result<Place>,
        G: FnOnce(Place, Button) -> Result<ActionReceipt>,
        F: Fn() -> Result<Frame>,
    >(&mut self, button: Button, pointer: Q, press: G, surface: &F) -> (reaction: Result<Reaction>)
        requires
            pointer.requires(()),
            forall|place: Place|
                pointer.ensures((), Ok::<Place, Error>(place)) ==> #[trigger] press.requires(
                    (place, button),
                ),
            surface.requires(()),
        ensures
            exists|asked: Result<Place>| #[trigger]
                pointer.ensures((), asked) && match asked {
                    Err(error) => reaction == Err::<Reaction, Error>(error) && final(self)@
                        == old(self)@,
                    Ok(place) => exists|performed: Result<ActionReceipt>| #[trigger]
                        press.ensures((place, button), performed) && unaimed(
                            old(self)@.policy,
                            old(self)@.observer,
                            performed,
                            Some(place),
                            reaction,
                            final(self)@.observer,
                        ),
                },
            final(self)@.policy == old(self)@.policy,
    {
        let place = match pointer() {
            Ok(place) => place,
            Err(error) => {
                return Err(error);
            },
        };
        self.click_at(place, button, press, surface)
    }

    /// Glide to a place.
    pub fn motion_to<
        G: FnOnce(Place, Motion) -> Result<ActionReceipt>,
        F: Fn() -> Result<Frame>,
    >(&mut self, destination: Place, policy: Motion, glide: G, surface: &F) -> (reaction: Result<Reaction>)
        requires
            glide.requires((destination, policy)),
            surface.requires(()),
        ensures
            exists|performed: Result<ActionReceipt>| #[trigger]
                glide.ensures((destination, policy), performed) && unaimed(
                    old(self)@.policy,
                    old(self)@.observer,
                    performed,
                    Some(destination),
                    reaction,
                    final(self)@.observer,
                ),
            final(self)@.policy == old(self)@.policy,
    {
        let performed = glide(destination, policy);
        self.dispatch(performed, None, Some(destination), None, surface)
    }

    /// Click at a place under modifiers.
    pub fn modified_click_at<
        G: FnOnce(Place, Button, Modifiers) -> Result<ActionReceipt>,
        F: Fn() -> Result<Frame>,
    >(&mut self, point: Place, button: Button, modifiers: Modifiers, press: G, surface: &F) -> (reaction: Result<Reaction>)
        requires
            press.requires((point, button, modifiers)),
            surface.requires(()),
        ensures
            exists|performed: Result<ActionReceipt>| #[trigger]
                press.ensures((point, button, modifiers), performed) && unaimed(
                    old(self)@.policy,
                    old(self)@.observer,
                    performed,
                    Some(point),
                    reaction,
                    final(self)@.observer,
                ),
            final(self)@.policy == old(self)@.policy,
    {
        let performed = press(point, button, modifiers);
        self.dispatch(performed, None, Some(point), None, surface)
    }

    /// Drag between places.
    pub fn drag_from<
        G: FnOnce(Place, Place, Drag) -> Result<ActionReceipt>,
        F: Fn() -> Result<Frame>,
    >(&mut self, origin: Place, destination: Place, policy: Drag, haul: G, surface: &F) -> (reaction: Result<Reaction>)
        requires
            haul.requires((origin, destination, policy)),
            surface.requires(()),
        ensures
            exists|performed: Result<ActionReceipt>| #[trigger]
                haul.ensures((origin, destination, policy), performed) && unaimed(
                    old(self)@.policy,
                    old(self)@.observer,
                    performed,
                    Some(destination),
                    reaction,
                    final(self)@.observer,
                ),
            final(self)@.policy == old(self)@.policy,
    {
        let performed = haul(origin, destination, policy);
        self.dispatch(performed, None, Some(destination), None, surface)
    }

    /// Draw a stroke through knots.
    pub fn stroke<
        G: FnOnce(&[Place], Stroke) -> Result<ActionReceipt>,
        F: Fn() -> Result<Frame>,
    >(&mut self, knots: &[Place], policy: Stroke, draw: G, surface: &F) -> (reaction: Result<Reaction>)
        requires
            draw.requires((knots, policy)),
            surface.requires(()),
        ensures
            exists|performed: Result<ActionReceipt>| #[trigger]
                draw.ensures((knots, policy), performed) && unaimed(
                    old(self)@.policy,
                    old(self)@.observer,
                    performed,
                    if knots@.len() == 0 {
                        None
                    } else {
                        Some(knots@.last())
                    },
                    reaction,
                    final(self)@.observer,
                ),
            final(self)@.policy == old(self)@.policy,
    {
        let end: Option<Place> = if knots.len() == 0 {
            None
        } else {
            Some(knots[knots.len() - 1])
        };
        let performed = draw(knots, policy);
        self.dispatch(performed, None, end, None, surface)
    }

    /// Turn the wheel at a place.
    pub fn wheel<
        G: FnOnce(Place, i32, Wheel) -> Result<ActionReceipt>,
        F: Fn() -> Result<Frame>,
    >(&mut self, point: Place, ticks: i32, policy: Wheel, turn: G, surface: &F) -> (reaction: Result<Reaction>)
        requires
            turn.requires((point, ticks, policy)),
            surface.requires(()),
        ensures
            exists|performed: Result<ActionReceipt>| #[trigger]
                turn.ensures((point, ticks, policy), performed) && unaimed(
                    old(self)@.policy,
                    old(self)@.observer,
                    performed,
                    Some(point),
                    reaction,
                    final(self)@.observer,
                ),
            final(self)@.policy == old(self)@.policy,
    {
        let performed = turn(point, ticks, policy);
        self.dispatch(performed, None, Some(point), None, surface)
    }

    /// Turn the wheel at a place under modifiers.
    pub fn modified_wheel<
        G: FnOnce(Place, i32, Wheel, Modifiers) -> Result<ActionReceipt>,
        F: Fn() -> Result<Frame>,
    >(&mut self, point: Place, ticks: i32, policy: Wheel, modifiers: Modifiers, turn: G, surface: &F) -> (reaction: Result<Reaction>)
        requires
            turn.requires((point, ticks, policy, modifiers)),
            surface.requires(()),
        ensures
            exists|performed: Result<ActionReceipt>| #[trigger]
                turn.ensures((point, ticks, policy, modifiers), performed) && unaimed(
                    old(self)@.policy,
                    old(self)@.observer,
                    performed,
                    Some(point),
                    reaction,
                    final(self)@.observer,
                ),
            final(self)@.policy == old(self)@.policy,
    {
        let performed = turn(point, ticks, policy, modifiers);
        self.dispatch(performed, None, Some(point), None, surface)
    }

    /// Scroll at a place.
    pub fn scroll<
        G: FnOnce(Place, i32) -> Result<ActionReceipt>,
        F: Fn() -> Result<Frame>,
    >(&mut self, point: Place, ticks: i32, turn: G, surface: &F) -> (reaction: Result<Reaction>)
        requires
            turn.requires((point, ticks)),
            surface.requires(()),
        ensures
            exists|performed: Result<ActionReceipt>| #[trigger]
                turn.ensures((point, ticks), performed) && unaimed(
                    old(self)@.policy,
                    old(self)@.observer,
                    performed,
                    Some(point),
                    reaction,
                    final(self)@.observer,
                ),
            final(self)@.policy == old(self)@.policy,
    {
        let performed = turn(point, ticks);
        self.dispatch(performed, None, Some(point), None, surface)
    }

    /// Strike one key.
    pub fn key<
        G: FnOnce(Key) -> Result<ActionReceipt>,
        F: Fn() -> Result<Frame>,
    >(&mut self, key: Key, strike: G, surface: &F) -> (reaction: Result<Reaction>)
        requires
            strike.requires((key,)),
            surface.requires(()),
        ensures
            exists|performed: Result<ActionReceipt>| #[trigger]
                strike.ensures((key,), performed) && unaimed(
                    old(self)@.policy,
                    old(self)@.observer,
                    performed,
                    None,
                    reaction,
                    final(self)@.observer,
                ),
            final(self)@.policy == old(self)@.policy,
    {
        let performed = strike(key);
        self.dispatch(performed, None, None, None, surface)
    }

    /// Play one chord.
    pub fn chord<
        G: FnOnce(Modifiers, Key) -> Result<ActionReceipt>,
        F: Fn() -> Result<Frame>,
    >(&mut self, modifiers: Modifiers, key: Key, play: G, surface: &F) -> (reaction: Result<Reaction>)
        requires
            play.requires((modifiers, key)),
            surface.requires(()),
        ensures
            exists|performed: Result<ActionReceipt>| #[trigger]
                play.ensures((modifiers, key), performed) && unaimed(
                    old(self)@.policy,
                    old(self)@.observer,
                    performed,
                    None,
                    reaction,
                    final(self)@.observer,
                ),
            final(self)@.policy == old(self)@.policy,
    {
        let performed = play(modifiers, key);
        self.dispatch(performed, None, None, None, surface)
    }

    /// Type a text.
    pub fn type_text<
        G: FnOnce(&str) -> Result<ActionReceipt>,
        F: Fn() -> Result<Frame>,
    >(&mut self, text: &str, write: G, surface: &F) -> (reaction: Result<Reaction>)
        requires
            write.requires((text,)),
            surface.requires(()),
        ensures
            exists|performed: Result<ActionReceipt>| #[trigger]
                write.ensures((text,), performed) && unaimed(
                    old(self)@.policy,
                    old(self)@.observer,
                    performed,
                    None,
                    reaction,
                    final(self)@.observer,
                ),
            final(self)@.policy == old(self)@.policy,
    {
        let performed = write(text);
        self.dispatch(performed, None, None, None, surface)
    }

    /// Await the reaction to an action that was performed, under the name of the
    /// action.
    pub fn reaction(&self, receipt: ActionReceipt) -> (reaction: Reaction)
        ensures
            reaction@ == (ReactionView {
                receipt: receipt@,
                budget: self@.policy.reaction_budget@,
                description: receipt@.action,
            }),
    {
        Reaction::of(receipt, self.policy.reaction_budget)
    }

    fn strike<
        L: FnOnce(&str, Duration) -> Result<Anchor>,
        C: Fn(&Anchor) -> Place,
        A: Copy,
        G: FnOnce(Place, A) -> Result<ActionReceipt>,
        F: Fn() -> Result<Frame>,
    >(
        &mut self,
        target: &str,
        resolve: L,
        center: &C,
        perform: G,
        argument: A,
        end: Option<Place>,
        description: String,
        surface: &F,
    ) -> (reaction: Result<Reaction>)
        requires
            strikable(
                old(self)@.policy,
                old(self)@.observer,
                resolve,
                center,
                perform,
                argument,
                target@,
            ),
            forall|anchor: &Anchor| #[trigger] center.requires((anchor,)),
            surface.requires(()),
        ensures
            strikes(
                old(self)@.policy,
                old(self)@.observer,
                resolve,
                center,
                perform,
                argument,
                target@,
                end,
                description@,
                reaction,
                final(self)@.observer,
            ),
            final(self)@.policy == old(self)@.policy,
    {
        let ghost before = self@;
        let found = self.anchor(target, resolve, surface);
        let ghost ready = self@.observer;
        assert(resolves(
            resolve,
            before.policy.target_timeout,
            before.observer,
            target@,
            found,
            ready,
        ));
        let anchor = match found {
            Ok(anchor) => anchor,
            Err(error) => {
                return Err(error);
            },
        };
        let place = center(&anchor);
        let performed = perform(place, argument);
        let told = match end {
            Some(end) => Some(end),
            None => Some(place),
        };
        let ghost words = description@;
        let reaction = self.dispatch(performed, Some(target), told, Some(description), surface);
        assert(lands(
            before.policy.reaction_budget@,
            ready,
            center,
            perform,
            argument,
            anchor,
            target@,
            end,
            words,
            reaction,
            self@.observer,
        ));
        reaction
    }

    /// Click a named target.
    pub fn click<
        L: FnOnce(&str, Duration) -> Result<Anchor>,
        C: Fn(&Anchor) -> Place,
        G: FnOnce(Place, Button) -> Result<ActionReceipt>,
        F: Fn() -> Result<Frame>,
    >(&mut self, target: &str, resolve: L, center: &C, press: G, surface: &F) -> (reaction: Result<
        Reaction,
    >)
        requires
            strikable(
                old(self)@.policy,
                old(self)@.observer,
                resolve,
                center,
                press,
                Button::Primary,
                target@,
            ),
            forall|anchor: &Anchor| #[trigger] center.requires((anchor,)),
            surface.requires(()),
        ensures
            strikes(
                old(self)@.policy,
                old(self)@.observer,
                resolve,
                center,
                press,
                Button::Primary,
                target@,
                None,
                "click `"@ + target@ + "`"@,
                reaction,
                final(self)@.observer,
            ),
            final(self)@.policy == old(self)@.policy,
    {
        let description = crate::text::glue3("click `", target, "`");
        self.strike(target, resolve, center, press, Button::Primary, None, description, surface)
    }

    /// Click an anchor that is already resolved.
    pub fn click_anchor<
        C: Fn(&Anchor) -> Place,
        G: FnOnce(Place, Button) -> Result<ActionReceipt>,
        F: Fn() -> Result<Frame>,
    >(&mut self, anchor: &Anchor, center: &C, press: G, surface: &F) -> (reaction: Result<Reaction>)
        requires
            center.requires((anchor,)),
            forall|place: Place|
                center.ensures((anchor,), place) ==> #[trigger] press.requires(
                    (place, Button::Primary),
                ),
            surface.requires(()),
        ensures
            lands(
                old(self)@.policy.reaction_budget@,
                old(self)@.observer,
                center,
                press,
                Button::Primary,
                *anchor,
                anchor.name@,
                None,
                "click `"@ + anchor.name@ + "`"@,
                reaction,
                final(self)@.observer,
            ),
            final(self)@.policy == old(self)@.policy,
    {
        let place = center(anchor);
        let performed = press(place, Button::Primary);
        let description = crate::text::glue3("click `", anchor.name.as_str(), "`");
        self.dispatch(
            performed,
            Some(anchor.name.as_str()),
            Some(place),
            Some(description),
            surface,
        )
    }

    /// Click a named target under modifiers.
    pub fn modified_click<
        L: FnOnce(&str, Duration) -> Result<Anchor>,
        C: Fn(&Anchor) -> Place,
        G: FnOnce(Place, (Button, Modifiers)) -> Result<ActionReceipt>,
        F: Fn() -> Result<Frame>,
    >(
        &mut self,
        target: &str,
        button: Button,
        modifiers: Modifiers,
        resolve: L,
        center: &C,
        press: G,
        surface: &F,
    ) -> (reaction: Result<Reaction>)
        requires
            strikable(
                old(self)@.policy,
                old(self)@.observer,
                resolve,
                center,
                press,
                (button, modifiers),
                target@,
            ),
            forall|anchor: &Anchor| #[trigger] center.requires((anchor,)),
            surface.requires(()),
        ensures
            strikes(
                old(self)@.policy,
                old(self)@.observer,
                resolve,
                center,
                press,
                (button, modifiers),
                target@,
                None,
                modifiers.rendered() + " click `"@ + target@ + "`"@,
                reaction,
                final(self)@.observer,
            ),
            final(self)@.policy == old(self)@.policy,
    {
        let description = modified_click_action(modifiers, target);
        self.strike(target, resolve, center, press, (button, modifiers), None, description, surface)
    }

    /// Glide to a named semantic target without pressing a pointer button.
    pub fn point<
        L: FnOnce(&str, Duration) -> Result<Anchor>,
        C: Fn(&Anchor) -> Place,
        G: FnOnce(Place, Motion) -> Result<ActionReceipt>,
        F: Fn() -> Result<Frame>,
    >(
        &mut self,
        target: &str,
        policy: Motion,
        resolve: L,
        center: &C,
        glide: G,
        surface: &F,
    ) -> (reaction: Result<Reaction>)
        requires
            strikable(
                old(self)@.policy,
                old(self)@.observer,
                resolve,
                center,
                glide,
                policy,
                target@,
            ),
            forall|anchor: &Anchor| #[trigger] center.requires((anchor,)),
            surface.requires(()),
        ensures
            strikes(
                old(self)@.policy,
                old(self)@.observer,
                resolve,
                center,
                glide,
                policy,
                target@,
                None,
                "point at `"@ + target@ + "`"@,
                reaction,
                final(self)@.observer,
            ),
            final(self)@.policy == old(self)@.policy,
    {
        let description = crate::text::glue3("point at `", target, "`");
        self.strike(target, resolve, center, glide, policy, None, description, surface)
    }

    /// Drag a named target to a place.
    pub fn drag<
        L: FnOnce(&str, Duration) -> Result<Anchor>,
        C: Fn(&Anchor) -> Place,
        G: FnOnce(Place, (Place, Drag)) -> Result<ActionReceipt>,
        F: Fn() -> Result<Frame>,
    >(
        &mut self,
        target: &str,
        destination: Place,
        policy: Drag,
        resolve: L,
        center: &C,
        haul: G,
        surface: &F,
    ) -> (reaction: Result<Reaction>)
        requires
            strikable(
                old(self)@.policy,
                old(self)@.observer,
                resolve,
                center,
                haul,
                (destination, policy),
                target@,
            ),
            forall|anchor: &Anchor| #[trigger] center.requires((anchor,)),
            surface.requires(()),
        ensures
            strikes(
                old(self)@.policy,
                old(self)@.observer,
                resolve,
                center,
                haul,
                (destination, policy),
                target@,
                Some(destination),
                "drag `"@ + target@ + "`"@,
                reaction,
                final(self)@.observer,
            ),
            final(self)@.policy == old(self)@.policy,
    {
        let description = crate::text::glue3("drag `", target, "`");
        self.strike(
            target,
            resolve,
            center,
            haul,
            (destination, policy),
            Some(destination),
            description,
            surface,
        )
    }

    /// Tell of an observation that was waited for. A wait that failed leaves a
    /// last capture behind.
    fn retain_observation<S, F: Fn() -> Result<Frame>>(
        &mut self,
        description: &str,
        waited: Result<ProbeFrame<S>>,
        surface: &F,
    ) -> (frame: Result<ProbeFrame<S>>)
        requires
            surface.requires(()),
        ensures
            retains(
                old(self)@.observer,
                description@,
                waited,
                frame,
                final(self)@.observer,
            ),
            final(self)@.policy == old(self)@.policy,
    {
        match waited {
            Err(error) => {
                let _capture = surface();
                Err(error)
            },
            Ok(frame) => match self.emit(observation_event(description, &frame), surface) {
                Ok(unit) => {
                    assert(unit == ());
                    Ok(frame)
                },
                Err(error) => Err(error),
            },
        }
    }

    /// Wait for the first product frame to reach its surface.
    pub fn ready<S, W: FnOnce(Duration) -> Result<ProbeFrame<S>>, F: Fn() -> Result<Frame>>(
        &mut self,
        timeout: Duration,
        wait: W,
        surface: &F,
    ) -> (frame: Result<ProbeFrame<S>>)
        requires
            wait.requires((timeout,)),
            surface.requires(()),
        ensures
            exists|waited: Result<ProbeFrame<S>>| #[trigger]
                wait.ensures((timeout,), waited) && retains(
                    old(self)@.observer,
                    "first product frame to reach surface present"@,
                    waited,
                    frame,
                    final(self)@.observer,
                ),
            final(self)@.policy == old(self)@.policy,
    {
        let waited = wait(timeout);
        self.retain_observation("first product frame to reach surface present", waited, surface)
    }

    /// Observe the product as it is.
    pub fn frame<S, R: FnOnce() -> Result<ProbeFrame<S>>, F: Fn() -> Result<Frame>>(
        &mut self,
        read: R,
        surface: &F,
    ) -> (frame: Result<ProbeFrame<S>>)
        requires
            read.requires(()),
            surface.requires(()),
        ensures
            exists|seen: Result<ProbeFrame<S>>| #[trigger]
                read.ensures((), seen) && retains(
                    old(self)@.observer,
                    "current product observation"@,
                    seen,
                    frame,
                    final(self)@.observer,
                ),
            final(self)@.policy == old(self)@.policy,
    {
        let seen = read();
        self.retain_observation("current product observation", seen, surface)
    }

    /// Wait for a condition, by its description, as long as the story waits.
    pub fn wait<S, W: FnOnce(Duration, &str) -> Result<ProbeFrame<S>>, F: Fn() -> Result<Frame>>(
        &mut self,
        condition: &str,
        wait: W,
        surface: &F,
    ) -> (frame: Result<ProbeFrame<S>>)
        requires
            wait.requires((old(self)@.policy.wait_timeout, condition)),
            surface.requires(()),
        ensures
            exists|waited: Result<ProbeFrame<S>>| #[trigger]
                wait.ensures((old(self)@.policy.wait_timeout, condition), waited) && retains(
                    old(self)@.observer,
                    condition@,
                    waited,
                    frame,
                    final(self)@.observer,
                ),
            final(self)@.policy == old(self)@.policy,
    {
        let timeout = self.policy.wait_timeout;
        self.wait_within(timeout, condition, wait, surface)
    }

    /// Wait for a condition, by its description.
    pub fn wait_within<
        S,
        W: FnOnce(Duration, &str) -> Result<ProbeFrame<S>>,
        F: Fn() -> Result<Frame>,
    >(&mut self, timeout: Duration, condition: &str, wait: W, surface: &F) -> (frame: Result<
        ProbeFrame<S>,
    >)
        requires
            wait.requires((timeout, condition)),
            surface.requires(()),
        ensures
            exists|waited: Result<ProbeFrame<S>>| #[trigger]
                wait.ensures((timeout, condition), waited) && retains(
                    old(self)@.observer,
                    condition@,
                    waited,
                    frame,
                    final(self)@.observer,
                ),
            final(self)@.policy == old(self)@.policy,
    {
        let waited = wait(timeout, condition);
        self.retain_observation(condition, waited, surface)
    }

    /// Wait until a projection of the product stays as it is.
    pub fn wait_stable<
        S,
        W: FnOnce(Duration, Duration, &str) -> Result<ProbeFrame<S>>,
        F: Fn() -> Result<Frame>,
    >(
        &mut self,
        timeout: Duration,
        quiet: Duration,
        description: &str,
        wait: W,
        surface: &F,
    ) -> (frame: Result<ProbeFrame<S>>)
        requires
            wait.requires((timeout, quiet, description)),
            surface.requires(()),
        ensures
            exists|waited: Result<ProbeFrame<S>>| #[trigger]
                wait.ensures((timeout, quiet, description), waited) && retains(
                    old(self)@.observer,
                    description@,
                    waited,
                    frame,
                    final(self)@.observer,
                ),
            final(self)@.policy == old(self)@.policy,
    {
        let waited = wait(timeout, quiet, description);
        self.retain_observation(description, waited, surface)
    }

    /// Wait for a post-trigger witness condition.
    ///
    /// This fences subsequent external assertions; it does not itself prove that
    /// the gesture caused the observed state.
    pub fn until<
        S,
        W: FnOnce(&str, &ActionReceipt, ReactionBudget) -> Result<Timed<ProbeFrame<S>>>,
        F: Fn() -> Result<Frame>,
    >(&mut self, reaction: &Reaction, condition: &str, wait: W, surface: &F) -> (frame: Result<
        Timed<ProbeFrame<S>>,
    >)
        requires
            awaitable(old(self)@.observer, reaction@, condition@, wait),
            surface.requires(()),
        ensures
            awaits(
                old(self)@.observer,
                reaction@,
                condition@,
                wait,
                frame,
                final(self)@.observer,
            ),
            final(self)@.policy == old(self)@.policy,
    {
        let ghost before = self@.observer;
        let description = match reaction.until(condition, &self.observer) {
            Ok(description) => description,
            Err(error) => {
                return Err(error);
            },
        };
        let waited = wait(description.as_str(), reaction.receipt(), reaction.budget());
        let ghost given = waited;
        match waited {
            Err(error) => {
                let _capture = surface();
                assert(observes(before, description@, given, Err(error), self@.observer));
                Err(error)
            },
            Ok(timed) => {
                let told = self.emit(observation_event(description.as_str(), timed.value()), surface);
                match told {
                    Ok(unit) => {
                        assert(unit == ());
                        assert(observes(before, description@, given, Ok(timed), self@.observer));
                        Ok(timed)
                    },
                    Err(error) => {
                        assert(observes(before, description@, given, Err(error), self@.observer));
                        Err(error)
                    },
                }
            },
        }
    }

    /// Wait for any next frame.
    pub fn next_frame<
        S,
        W: FnOnce(&str, &ActionReceipt, ReactionBudget) -> Result<Timed<ProbeFrame<S>>>,
        F: Fn() -> Result<Frame>,
    >(&mut self, reaction: &Reaction, wait: W, surface: &F) -> (frame: Result<
        Timed<ProbeFrame<S>>,
    >)
        requires
            awaitable(old(self)@.observer, reaction@, any_frame(), wait),
            surface.requires(()),
        ensures
            awaits(
                old(self)@.observer,
                reaction@,
                any_frame(),
                wait,
                frame,
                final(self)@.observer,
            ),
            final(self)@.policy == old(self)@.policy,
    {
        self.until(reaction, Reaction::next_frame(), wait, surface)
    }
}

// ---------------------------------------------------------------------------
// Compound gestures
// ---------------------------------------------------------------------------

/// Whether a glide to a target and the wait for its next frame can come to an
/// outcome: nothing, or the failure of either.
pub open spec fn hovers<
    O: StoryObserver,
    S,
    L: FnOnce(&str, Duration) -> Result<Anchor>,
    C: Fn(&Anchor) -> Place,
    G: FnOnce(Place, Motion) -> Result<ActionReceipt>,
    W: FnOnce(&str, &ActionReceipt, ReactionBudget) -> Result<Timed<ProbeFrame<S>>>,
>(
    policy: StoryPolicy,
    before: O,
    resolve: L,
    center: &C,
    glide: G,
    wait: W,
    motion: Motion,
    target: Seq<char>,
    outcome: Result<()>,
    after: O,
) -> bool {
    exists|pointed: Result<Reaction>, there: O| #[trigger]
        strikes(
            policy,
            before,
            resolve,
            center,
            glide,
            motion,
            target,
            None,
            "point at `"@ + target + "`"@,
            pointed,
            there,
        ) && match pointed {
            Err(error) => outcome == Err::<(), Error>(error) && after == there,
            Ok(reaction) => settles(there, reaction@, wait, outcome, after),
        }
}

/// Whether the wait for a reaction's next frame can come to an outcome that
/// carries nothing.
pub open spec fn settles<
    O: StoryObserver,
    S,
    W: FnOnce(&str, &ActionReceipt, ReactionBudget) -> Result<Timed<ProbeFrame<S>>>,
>(before: O, reaction: ReactionView, wait: W, outcome: Result<()>, after: O) -> bool {
    exists|frame: Result<Timed<ProbeFrame<S>>>| #[trigger]
        awaits(before, reaction, any_frame(), wait, frame, after) && match frame {
            Ok(_) => outcome is Ok,
            Err(error) => outcome == Err::<(), Error>(error),
        }
}

impl<O: StoryObserver> Story<O> {
    fn settle<
        S,
        W: FnOnce(&str, &ActionReceipt, ReactionBudget) -> Result<Timed<ProbeFrame<S>>>,
        F: Fn() -> Result<Frame>,
    >(&mut self, reaction: &Reaction, wait: W, surface: &F) -> (outcome: Result<()>)
        requires
            awaitable(old(self)@.observer, reaction@, any_frame(), wait),
            surface.requires(()),
        ensures
            settles(old(self)@.observer, reaction@, wait, outcome, final(self)@.observer),
            final(self)@.policy == old(self)@.policy,
    {
        match self.next_frame(reaction, wait, surface) {
            Ok(_) => Ok(()),
            Err(error) => Err(error),
        }
    }

    /// Glide to a live target, then resolve it again before clicking. `first` looks for
    /// the target to glide to, and `again` for the place to click at.
    pub fn tap<
        S,
        L: FnOnce(&str, Duration) -> Result<Anchor>,
        N: FnOnce(&str, Duration) -> Result<Anchor>,
        C: Fn(&Anchor) -> Place,
        M: FnOnce(Place, Motion) -> Result<ActionReceipt>,
        G: FnOnce(Place, Button) -> Result<ActionReceipt>,
        W: FnOnce(&str, &ActionReceipt, ReactionBudget) -> Result<Timed<ProbeFrame<S>>>,
        F: Fn() -> Result<Frame>,
    >(
        &mut self,
        target: &str,
        button: Button,
        policy: Motion,
        first: L,
        again: N,
        center: &C,
        glide: M,
        press: G,
        wait: W,
        surface: &F,
    ) -> (reaction: Result<Reaction>)
        requires
            strikable(
                old(self)@.policy,
                old(self)@.observer,
                first,
                center,
                glide,
                policy,
                target@,
            ),
            forall|pointed: Reaction, there: O| #[trigger]
                strikes(
                    old(self)@.policy,
                    old(self)@.observer,
                    first,
                    center,
                    glide,
                    policy,
                    target@,
                    None,
                    "point at `"@ + target@ + "`"@,
                    Ok(pointed),
                    there,
                ) ==> awaitable(there, pointed@, any_frame(), wait),
            forall|hovered: Result<()>, there: O| #[trigger]
                hovers(
                    old(self)@.policy,
                    old(self)@.observer,
                    first,
                    center,
                    glide,
                    wait,
                    policy,
                    target@,
                    hovered,
                    there,
                ) && hovered is Ok ==> strikable(
                    old(self)@.policy,
                    there,
                    again,
                    center,
                    press,
                    button,
                    target@,
                ),
            forall|anchor: &Anchor| #[trigger] center.requires((anchor,)),
            surface.requires(()),
        ensures
            exists|hovered: Result<()>, there: O| #[trigger]
                hovers(
                    old(self)@.policy,
                    old(self)@.observer,
                    first,
                    center,
                    glide,
                    wait,
                    policy,
                    target@,
                    hovered,
                    there,
                ) && match hovered {
                    Err(error) => reaction == Err::<Reaction, Error>(error) && final(self)@.observer
                        == there,
                    Ok(_) => strikes(
                        old(self)@.policy,
                        there,
                        again,
                        center,
                        press,
                        button,
                        target@,
                        None,
                        "tap `"@ + target@ + "`"@,
                        reaction,
                        final(self)@.observer,
                    ),
                },
            final(self)@.policy == old(self)@.policy,
    {
        let ghost before = self@;
        let pointed = self.point(target, policy, first, center, glide, surface);
        let ghost aimed = pointed;
        let ghost middle = self@.observer;
        let hover = match pointed {
            Ok(hover) => hover,
            Err(error) => {
                assert(hovers(
                    before.policy,
                    before.observer,
                    first,
                    center,
                    glide,
                    wait,
                    policy,
                    target@,
                    Err(error),
                    self@.observer,
                ));
                return Err(error);
            },
        };
        assert(aimed == Ok::<Reaction, Error>(hover));
        let settled = self.settle(&hover, wait, surface);
        assert(hovers(
            before.policy,
            before.observer,
            first,
            center,
            glide,
            wait,
            policy,
            target@,
            settled,
            self@.observer,
        ));
        match settled {
            Ok(_) => {},
            Err(error) => {
                return Err(error);
            },
        }
        let description = crate::text::glue3("tap `", target, "`");
        self.strike(target, again, center, press, button, None, description, surface)
    }

    /// Replace one text target through the same focus, selection, and typing
    /// sequence used by a person.
    pub fn replace_text<
        S,
        L: FnOnce(&str, Duration) -> Result<Anchor>,
        C: Fn(&Anchor) -> Place,
        G: FnOnce(Place, Button) -> Result<ActionReceipt>,
        W: FnOnce(&str, &ActionReceipt, ReactionBudget) -> Result<Timed<ProbeFrame<S>>>,
        H: FnOnce(Modifiers, Key) -> Result<ActionReceipt>,
        T: FnOnce(&str) -> Result<ActionReceipt>,
        F: Fn() -> Result<Frame>,
    >(
        &mut self,
        target: &str,
        text: &str,
        focused: &str,
        resolve: L,
        center: &C,
        press: G,
        wait: W,
        chord: H,
        write: T,
        surface: &F,
    ) -> (reaction: Result<Reaction>)
        requires
            strikable(
                old(self)@.policy,
                old(self)@.observer,
                resolve,
                center,
                press,
                Button::Primary,
                target@,
            ),
            forall|click: Reaction, there: O| #[trigger]
                strikes(
                    old(self)@.policy,
                    old(self)@.observer,
                    resolve,
                    center,
                    press,
                    Button::Primary,
                    target@,
                    None,
                    "click `"@ + target@ + "`"@,
                    Ok(click),
                    there,
                ) ==> awaitable(there, click@, focused@, wait),
            forall|
                click: Reaction,
                there: O,
                seen: Timed<ProbeFrame<S>>,
                ready: O,
            |
                #[trigger] strikes(
                    old(self)@.policy,
                    old(self)@.observer,
                    resolve,
                    center,
                    press,
                    Button::Primary,
                    target@,
                    None,
                    "click `"@ + target@ + "`"@,
                    Ok(click),
                    there,
                ) && #[trigger] awaits(there, click@, focused@, wait, Ok(seen), ready) ==> replaceable(
                    ready,
                    chord,
                    write,
                    text,
                ),
            forall|anchor: &Anchor| #[trigger] center.requires((anchor,)),
            surface.requires(()),
        ensures
            exists|clicked: Result<Reaction>, there: O| #[trigger]
                strikes(
                    old(self)@.policy,
                    old(self)@.observer,
                    resolve,
                    center,
                    press,
                    Button::Primary,
                    target@,
                    None,
                    "click `"@ + target@ + "`"@,
                    clicked,
                    there,
                ) && match clicked {
                    Err(error) => reaction == Err::<Reaction, Error>(error) && final(self)@.observer
                        == there,
                    Ok(click) => exists|seen: Result<Timed<ProbeFrame<S>>>, ready: O| #[trigger]
                        awaits(there, click@, focused@, wait, seen, ready) && match seen {
                            Err(error) => reaction == Err::<Reaction, Error>(error)
                                && final(self)@.observer == ready,
                            Ok(_) => replaces(
                                old(self)@.policy,
                                ready,
                                chord,
                                write,
                                text,
                                reaction,
                                final(self)@.observer,
                            ),
                        },
                },
            final(self)@.policy == old(self)@.policy,
    {
        let clicked = self.click(target, resolve, center, press, surface);
        let click = match clicked {
            Ok(click) => click,
            Err(error) => {
                return Err(error);
            },
        };
        match self.until(&click, focused, wait, surface) {
            Ok(_) => {},
            Err(error) => {
                return Err(error);
            },
        }
        self.replace_focused_text(text, chord, write, surface)
    }

    /// Select the content of a text editor that already owns focus, and type over
    /// it. `chord` plays a chord, and `write` types the replacement.
    pub fn replace_focused_text<
        H: FnOnce(Modifiers, Key) -> Result<ActionReceipt>,
        T: FnOnce(&str) -> Result<ActionReceipt>,
        F: Fn() -> Result<Frame>,
    >(&mut self, text: &str, chord: H, write: T, surface: &F) -> (reaction: Result<Reaction>)
        requires
            replaceable(old(self)@.observer, chord, write, text),
            surface.requires(()),
        ensures
            replaces(
                old(self)@.policy,
                old(self)@.observer,
                chord,
                write,
                text,
                reaction,
                final(self)@.observer,
            ),
            final(self)@.policy == old(self)@.policy,
    {
        let ghost before = self@.observer;
        let selected = chord(Modifiers::ctrl(), Key::Character('a'));
        let ghost played = selected;
        let receipt = match selected {
            Ok(receipt) => receipt,
            Err(error) => {
                assert(selects(before, chord, played, Err(error), self@.observer));
                return Err(error);
            },
        };
        let told = self.emit(action_event(&receipt, None, None), surface);
        assert(selects(before, chord, played, told, self@.observer));
        match told {
            Ok(_) => {},
            Err(error) => {
                return Err(error);
            },
        }
        self.type_text(text, write, surface)
    }
}

/// Whether typing over a text can come to an outcome: everything is selected, and
/// that is told, before anything is typed.
pub open spec fn replaces<
    O: StoryObserver,
    H: FnOnce(Modifiers, Key) -> Result<ActionReceipt>,
    T: FnOnce(&str) -> Result<ActionReceipt>,
>(
    policy: StoryPolicy,
    before: O,
    chord: H,
    write: T,
    text: &str,
    outcome: Result<Reaction>,
    after: O,
) -> bool {
    exists|selected: Result<ActionReceipt>, told: Result<()>, ready: O| #[trigger]
        selects(before, chord, selected, told, ready) && match told {
            Err(error) => outcome == Err::<Reaction, Error>(error) && after == ready,
            Ok(_) => exists|performed: Result<ActionReceipt>| #[trigger]
                write.ensures((text,), performed) && unaimed(
                    policy,
                    ready,
                    performed,
                    None,
                    outcome,
                    after,
                ),
        }
}

/// Whether a text may be typed over: everything is selected, and the text is typed
/// once that was told.
pub open spec fn replaceable<
    O: StoryObserver,
    H: FnOnce(Modifiers, Key) -> Result<ActionReceipt>,
    T: FnOnce(&str) -> Result<ActionReceipt>,
>(before: O, chord: H, write: T, text: &str) -> bool {
    &&& forall|modifiers: Modifiers|
        modifiers == (Modifiers { shift: false, ctrl: true, alt: false, logo: false })
            ==> #[trigger] chord.requires((modifiers, Key::Character('a')))
    &&& forall|selected: Result<ActionReceipt>, told: Result<()>, ready: O| #[trigger]
        selects(before, chord, selected, told, ready) && told is Ok ==> write.requires((text,))
}

/// Whether selecting everything can come to an outcome.
pub open spec fn selects<O: StoryObserver, H: FnOnce(Modifiers, Key) -> Result<ActionReceipt>>(
    before: O,
    chord: H,
    selected: Result<ActionReceipt>,
    outcome: Result<()>,
    after: O,
) -> bool {
    &&& exists|modifiers: Modifiers|
        modifiers == (Modifiers { shift: false, ctrl: true, alt: false, logo: false })
            && #[trigger] chord.ensures((modifiers, Key::Character('a')), selected)
    &&& match selected {
        Err(error) => outcome == Err::<(), Error>(error) && after == before,
        Ok(receipt) => O::meets(before, story::dispatched(receipt@, None, None), outcome, after),
    }
}

// ---------------------------------------------------------------------------
// Drags between targets
// ---------------------------------------------------------------------------

/// Whether carrying an acquired target to its destination can come to an outcome:
/// the destination is only resolved now, after grabbing may have moved it.
pub open spec fn carries<
    O: StoryObserver,
    L: FnOnce(&str, Duration) -> Result<Anchor>,
    C: Fn(&Anchor) -> Place,
    M: FnOnce(Place, Motion) -> Result<ActionReceipt>,
>(
    timeout: Duration,
    before: O,
    resolve: L,
    center: &C,
    glide: M,
    motion: Motion,
    destination: Seq<char>,
    outcome: Result<Place>,
    after: O,
) -> bool {
    exists|found: Result<Anchor>, ready: O| #[trigger]
        resolves(resolve, timeout, before, destination, found, ready) && match found {
            Err(error) => outcome == Err::<Place, Error>(error) && after == ready,
            Ok(anchor) => exists|end: Place, performed: Result<ActionReceipt>|
                center.ensures((&anchor,), end) && #[trigger] glide.ensures(
                    (end, motion),
                    performed,
                ) && match performed {
                    Err(error) => outcome == Err::<Place, Error>(error) && after == ready,
                    Ok(receipt) => match outcome {
                        Ok(place) => place == end && O::meets(
                            ready,
                            story::dispatched(receipt@, Some(destination), Some(spot(end))),
                            Ok(()),
                            after,
                        ),
                        Err(error) => O::meets(
                            ready,
                            story::dispatched(receipt@, Some(destination), Some(spot(end))),
                            Err(error),
                            after,
                        ),
                    },
                },
        }
}

/// Whether a press was held for a span.
pub open spec fn rested<R: FnOnce(Duration)>(rest: R, span: Duration) -> bool {
    span@ > 0 ==> rest.ensures((span,), ())
}

/// Whether what happens between press and release can come to an outcome.
pub open spec fn hauls<
    O: StoryObserver,
    S,
    L: FnOnce(&str, Duration) -> Result<Anchor>,
    C: Fn(&Anchor) -> Place,
    M: FnOnce(Place, Motion) -> Result<ActionReceipt>,
    W: FnOnce(&str, &ActionReceipt, ReactionBudget) -> Result<Timed<ProbeFrame<S>>>,
    R: FnOnce(Duration),
>(
    story: StoryPolicy,
    before: O,
    down: ActionReceiptView,
    start: Place,
    resolve: L,
    center: &C,
    glide: M,
    wait: W,
    rest: R,
    policy: Drag,
    origin: Seq<char>,
    destination: Seq<char>,
    outcome: Result<Place>,
    after: O,
) -> bool {
    exists|told: Result<()>, ready: O| #[trigger]
        O::meets(before, story::dispatched(down, Some(origin), Some(spot(start))), told, ready)
            && match told {
            Err(error) => outcome == Err::<Place, Error>(error) && after == ready,
            Ok(_) => rested(rest, policy.press_duration) && exists|acquired: Result<()>, held: O| #[trigger]
                settles(
                    ready,
                    acquisition(story, down, origin),
                    wait,
                    acquired,
                    held,
                ) && match acquired {
                    Err(error) => outcome == Err::<Place, Error>(error) && after == held,
                    Ok(_) => carries(
                        story.target_timeout,
                        held,
                        resolve,
                        center,
                        glide,
                        Motion { steps: policy.steps, duration: policy.duration },
                        destination,
                        outcome,
                        after,
                    ),
                },
        }
}

/// Whether an acquired target may be carried to its destination: the destination is
/// looked for, and the pointer glides there once it was found and told of.
pub open spec fn carriable<
    O: StoryObserver,
    L: FnOnce(&str, Duration) -> Result<Anchor>,
    C: Fn(&Anchor) -> Place,
    M: FnOnce(Place, Motion) -> Result<ActionReceipt>,
>(
    timeout: Duration,
    before: O,
    resolve: L,
    center: &C,
    glide: M,
    motion: Motion,
    destination: Seq<char>,
) -> bool {
    &&& seekable(resolve, timeout, destination)
    &&& forall|anchor: Anchor, ready: O, end: Place|
        #![trigger resolves(resolve, timeout, before, destination, Ok(anchor), ready), center.ensures((&anchor,), end)]
        resolves(resolve, timeout, before, destination, Ok(anchor), ready) && center.ensures(
            (&anchor,),
            end,
        ) ==> glide.requires((end, motion))
}

/// The reaction that a drag's press awaits.
pub open spec fn acquisition(
    story: StoryPolicy,
    down: ActionReceiptView,
    origin: Seq<char>,
) -> ReactionView {
    ReactionView {
        receipt: down,
        budget: story.reaction_budget@,
        description: "acquire `"@ + origin + "`"@,
    }
}

/// Whether a pressed target may be carried away: its press is told of, then its
/// acquisition is awaited, and then it is carried.
pub open spec fn haulable<
    O: StoryObserver,
    S,
    L: FnOnce(&str, Duration) -> Result<Anchor>,
    C: Fn(&Anchor) -> Place,
    M: FnOnce(Place, Motion) -> Result<ActionReceipt>,
    W: FnOnce(&str, &ActionReceipt, ReactionBudget) -> Result<Timed<ProbeFrame<S>>>,
    R: FnOnce(Duration),
>(
    story: StoryPolicy,
    before: O,
    down: ActionReceiptView,
    start: Place,
    resolve: L,
    center: &C,
    glide: M,
    wait: W,
    rest: R,
    policy: Drag,
    origin: Seq<char>,
    destination: Seq<char>,
) -> bool {
    let pressed = story::dispatched(down, Some(origin), Some(spot(start)));
    &&& forall|told: Result<()>, ready: O| #[trigger]
        O::meets(before, pressed, told, ready) && told is Ok ==> rest.requires(
            (policy.press_duration,),
        ) && (rested(rest, policy.press_duration) ==> awaitable(
            ready,
            acquisition(story, down, origin),
            any_frame(),
            wait,
        ))
    &&& forall|told: Result<()>, ready: O, acquired: Result<()>, held: O|
        #[trigger] O::meets(before, pressed, told, ready) && told is Ok && #[trigger] settles(
            ready,
            acquisition(story, down, origin),
            wait,
            acquired,
            held,
        ) && acquired is Ok ==> carriable(
            story.target_timeout,
            held,
            resolve,
            center,
            glide,
            Motion { steps: policy.steps, duration: policy.duration },
            destination,
        )
}

/// Whether a drag whose button is down may go on: the target is carried away, and
/// the button is released once that came to an end, whatever it was.
pub open spec fn draggable<
    O: StoryObserver,
    S,
    L: FnOnce(&str, Duration) -> Result<Anchor>,
    C: Fn(&Anchor) -> Place,
    M: FnOnce(Place, Motion) -> Result<ActionReceipt>,
    U: FnOnce(Button) -> Result<ActionReceipt>,
    W: FnOnce(&str, &ActionReceipt, ReactionBudget) -> Result<Timed<ProbeFrame<S>>>,
    R: FnOnce(Duration),
>(
    story: StoryPolicy,
    before: O,
    down: ActionReceiptView,
    start: Place,
    resolve: L,
    center: &C,
    glide: M,
    release: U,
    wait: W,
    rest: R,
    policy: Drag,
    origin: Seq<char>,
    destination: Seq<char>,
) -> bool {
    &&& haulable(
        story,
        before,
        down,
        start,
        resolve,
        center,
        glide,
        wait,
        rest,
        policy,
        origin,
        destination,
    )
    &&& forall|operation: Result<Place>, held: O| #[trigger]
        hauls(
            story,
            before,
            down,
            start,
            resolve,
            center,
            glide,
            wait,
            rest,
            policy,
            origin,
            destination,
            operation,
            held,
        ) ==> release.requires((policy.button,))
}

/// Whether a drag whose button is down can come to an outcome. However the drag
/// went, the button is released; the drag's own failure is reported first.
pub open spec fn releases<O: StoryObserver, U: FnOnce(Button) -> Result<ActionReceipt>>(
    budget: ReactionBudgetView,
    before: O,
    operation: Result<Place>,
    button: Button,
    release: U,
    origin: Seq<char>,
    destination: Seq<char>,
    outcome: Result<Reaction>,
    after: O,
) -> bool {
    exists|released: Result<ActionReceipt>| #[trigger]
        release.ensures((button,), released) && match operation {
            Err(error) => outcome == Err::<Reaction, Error>(error) && after == before,
            Ok(end) => acted(
                before,
                released,
                budget,
                Some(destination),
                Some(end),
                Some("drag `"@ + origin + "` to `"@ + destination + "`"@),
                outcome,
                after,
            ),
        }
}

impl<O: StoryObserver> Story<O> {
    fn carry<
        L: FnOnce(&str, Duration) -> Result<Anchor>,
        C: Fn(&Anchor) -> Place,
        M: FnOnce(Place, Motion) -> Result<ActionReceipt>,
        F: Fn() -> Result<Frame>,
    >(
        &mut self,
        destination: &str,
        motion: Motion,
        resolve: L,
        center: &C,
        glide: M,
        surface: &F,
    ) -> (outcome: Result<Place>)
        requires
            carriable(
                old(self)@.policy.target_timeout,
                old(self)@.observer,
                resolve,
                center,
                glide,
                motion,
                destination@,
            ),
            forall|anchor: &Anchor| #[trigger] center.requires((anchor,)),
            surface.requires(()),
        ensures
            carries(
                old(self)@.policy.target_timeout,
                old(self)@.observer,
                resolve,
                center,
                glide,
                motion,
                destination@,
                outcome,
                final(self)@.observer,
            ),
            final(self)@.policy == old(self)@.policy,
    {
        let ghost before = self@;
        let found = self.anchor(destination, resolve, surface);
        let ghost ready = self@.observer;
        assert(resolves(
            resolve,
            before.policy.target_timeout,
            before.observer,
            destination@,
            found,
            ready,
        ));
        let anchor = match found {
            Ok(anchor) => anchor,
            Err(error) => {
                return Err(error);
            },
        };
        let end = center(&anchor);
        let performed = glide(end, motion);
        let ghost given = performed;
        assert(glide.ensures((end, motion), given));
        let receipt = match performed {
            Ok(receipt) => receipt,
            Err(error) => {
                return Err(error);
            },
        };
        match self.emit(action_event(&receipt, Some(destination), Some([end.0, end.1])), surface) {
            Ok(unit) => {
                assert(unit == ());
                Ok(end)
            },
            Err(error) => Err(error),
        }
    }

    fn haul<
        S,
        L: FnOnce(&str, Duration) -> Result<Anchor>,
        C: Fn(&Anchor) -> Place,
        M: FnOnce(Place, Motion) -> Result<ActionReceipt>,
        W: FnOnce(&str, &ActionReceipt, ReactionBudget) -> Result<Timed<ProbeFrame<S>>>,
        R: FnOnce(Duration),
        F: Fn() -> Result<Frame>,
    >(
        &mut self,
        down: ActionReceipt,
        start: Place,
        origin: &str,
        destination: &str,
        policy: Drag,
        resolve: L,
        center: &C,
        glide: M,
        wait: W,
        rest: R,
        surface: &F,
    ) -> (outcome: Result<Place>)
        requires
            haulable(
                old(self)@.policy,
                old(self)@.observer,
                down@,
                start,
                resolve,
                center,
                glide,
                wait,
                rest,
                policy,
                origin@,
                destination@,
            ),
            forall|anchor: &Anchor| #[trigger] center.requires((anchor,)),
            surface.requires(()),
        ensures
            hauls(
                old(self)@.policy,
                old(self)@.observer,
                down@,
                start,
                resolve,
                center,
                glide,
                wait,
                rest,
                policy,
                origin@,
                destination@,
                outcome,
                final(self)@.observer,
            ),
            final(self)@.policy == old(self)@.policy,
    {
        let ghost before = self@.observer;
        let told = self.emit(action_event(&down, Some(origin), Some([start.0, start.1])), surface);
        let ghost ready = self@.observer;
        assert(O::meets(
            before,
            story::dispatched(down@, Some(origin@), Some(spot(start))),
            told,
            ready,
        ));
        match told {
            Ok(_) => {},
            Err(error) => {
                return Err(error);
            },
        }
        if !policy.press_duration.is_zero() {
            rest(policy.press_duration);
        }
        assert(rested(rest, policy.press_duration));
        let reaction = Reaction::named(
            down,
            self.policy.reaction_budget,
            target_action("acquire", origin),
        );
        assert(reaction@ == (ReactionView {
            receipt: down@,
            budget: self@.policy.reaction_budget@,
            description: "acquire `"@ + origin@ + "`"@,
        })) by {
            reveal_strlit("acquire");
            reveal_strlit(" `");
            reveal_strlit("acquire `");
            assert("acquire"@ + " `"@ =~= "acquire `"@);
        }
        let acquired = self.settle(&reaction, wait, surface);
        assert(settles(ready, reaction@, wait, acquired, self@.observer));
        match acquired {
            Ok(_) => {},
            Err(error) => {
                return Err(error);
            },
        }
        let motion = drag_motion(policy);
        self.carry(destination, motion, resolve, center, glide, surface)
    }

    /// Drag between targets resolved on opposite sides of button acquisition.
    ///
    /// Resolving the destination after the press keeps the gesture correct when
    /// grabbing the source changes layout: `resolve` looks for the origin, and `reach`
    /// for the destination. Every error path attempts release.
    pub fn drag_to<
        S,
        L: FnOnce(&str, Duration) -> Result<Anchor>,
        N: FnOnce(&str, Duration) -> Result<Anchor>,
        C: Fn(&Anchor) -> Place,
        G: FnOnce(Place, Button) -> Result<ActionReceipt>,
        M: FnOnce(Place, Motion) -> Result<ActionReceipt>,
        U: FnOnce(Button) -> Result<ActionReceipt>,
        W: FnOnce(&str, &ActionReceipt, ReactionBudget) -> Result<Timed<ProbeFrame<S>>>,
        R: FnOnce(Duration),
        F: Fn() -> Result<Frame>,
    >(
        &mut self,
        origin: &str,
        destination: &str,
        policy: Drag,
        resolve: L,
        reach: N,
        center: &C,
        press: G,
        glide: M,
        release: U,
        wait: W,
        rest: R,
        surface: &F,
    ) -> (reaction: Result<Reaction>)
        requires
            strikable(
                old(self)@.policy,
                old(self)@.observer,
                resolve,
                center,
                press,
                policy.button,
                origin@,
            ),
            forall|anchor: Anchor, ready: O, start: Place, down: ActionReceipt|
                #![trigger resolves(resolve, old(self)@.policy.target_timeout, old(self)@.observer, origin@, Ok(anchor), ready), center.ensures((&anchor,), start), press.ensures((start, policy.button), Ok::<ActionReceipt, Error>(down))]
                resolves(
                    resolve,
                    old(self)@.policy.target_timeout,
                    old(self)@.observer,
                    origin@,
                    Ok(anchor),
                    ready,
                ) && center.ensures((&anchor,), start) && press.ensures(
                    (start, policy.button),
                    Ok::<ActionReceipt, Error>(down),
                ) ==> draggable(
                    old(self)@.policy,
                    ready,
                    down@,
                    start,
                    reach,
                    center,
                    glide,
                    release,
                    wait,
                    rest,
                    policy,
                    origin@,
                    destination@,
                ),
            forall|anchor: &Anchor| #[trigger] center.requires((anchor,)),
            surface.requires(()),
        ensures
            exists|found: Result<Anchor>, ready: O| #[trigger]
                resolves(
                    resolve,
                    old(self)@.policy.target_timeout,
                    old(self)@.observer,
                    origin@,
                    found,
                    ready,
                ) && match found {
                    Err(error) => reaction == Err::<Reaction, Error>(error) && final(self)@.observer
                        == ready,
                    Ok(anchor) => grabs(
                        old(self)@.policy,
                        ready,
                        anchor,
                        reach,
                        center,
                        press,
                        glide,
                        release,
                        wait,
                        rest,
                        policy,
                        origin@,
                        destination@,
                        reaction,
                        final(self)@.observer,
                    ),
                },
            final(self)@.policy == old(self)@.policy,
    {
        let ghost before = self@;
        let found = self.anchor(origin, resolve, surface);
        let ghost ready = self@.observer;
        assert(resolves(
            resolve,
            before.policy.target_timeout,
            before.observer,
            origin@,
            found,
            ready,
        ));
        let anchor = match found {
            Ok(anchor) => anchor,
            Err(error) => {
                return Err(error);
            },
        };
        let start = center(&anchor);
        let pressed = press(start, policy.button);
        let ghost given = pressed;
        assert(press.ensures((start, policy.button), given));
        let down = match pressed {
            Ok(down) => down,
            Err(error) => {
                return Err(error);
            },
        };
        let operation = self.haul(
            down,
            start,
            origin,
            destination,
            policy,
            reach,
            center,
            glide,
            wait,
            rest,
            surface,
        );
        let ghost carried = operation;
        let ghost held = self@.observer;
        let released = release(policy.button);
        let ghost freed = released;
        assert(release.ensures((policy.button,), freed));
        let reaction = match conclude_drag(operation, released) {
            Ok((end, up)) => {
                let description = drag_action(origin, destination);
                self.dispatch(Ok(up), Some(destination), Some(end), Some(description), surface)
            },
            Err(error) => Err(error),
        };
        assert(releases(
            before.policy.reaction_budget@,
            held,
            carried,
            policy.button,
            release,
            origin@,
            destination@,
            reaction,
            self@.observer,
        ));
        reaction
    }
}

/// Whether grabbing a resolved target and carrying it away can come to an
/// outcome.
pub open spec fn grabs<
    O: StoryObserver,
    S,
    L: FnOnce(&str, Duration) -> Result<Anchor>,
    C: Fn(&Anchor) -> Place,
    G: FnOnce(Place, Button) -> Result<ActionReceipt>,
    M: FnOnce(Place, Motion) -> Result<ActionReceipt>,
    U: FnOnce(Button) -> Result<ActionReceipt>,
    W: FnOnce(&str, &ActionReceipt, ReactionBudget) -> Result<Timed<ProbeFrame<S>>>,
    R: FnOnce(Duration),
>(
    story: StoryPolicy,
    before: O,
    anchor: Anchor,
    reach: L,
    center: &C,
    press: G,
    glide: M,
    release: U,
    wait: W,
    rest: R,
    policy: Drag,
    origin: Seq<char>,
    destination: Seq<char>,
    outcome: Result<Reaction>,
    after: O,
) -> bool {
    exists|start: Place, pressed: Result<ActionReceipt>|
        center.ensures((&anchor,), start) && #[trigger] press.ensures(
            (start, policy.button),
            pressed,
        ) && match pressed {
            Err(error) => outcome == Err::<Reaction, Error>(error) && after == before,
            Ok(down) => exists|operation: Result<Place>, held: O| #[trigger]
                hauls(
                    story,
                    before,
                    down@,
                    start,
                    reach,
                    center,
                    glide,
                    wait,
                    rest,
                    policy,
                    origin,
                    destination,
                    operation,
                    held,
                ) && releases(
                    story.reaction_budget@,
                    held,
                    operation,
                    policy.button,
                    release,
                    origin,
                    destination,
                    outcome,
                    after,
                ),
        }
}

/// Once a drag has its button down, the button is let go again, whatever becomes
/// of the drag, and the drag succeeds only when that did.
pub proof fn law_drags_let_go<
    O: StoryObserver,
    S,
    L: FnOnce(&str, Duration) -> Result<Anchor>,
    C: Fn(&Anchor) -> Place,
    G: FnOnce(Place, Button) -> Result<ActionReceipt>,
    M: FnOnce(Place, Motion) -> Result<ActionReceipt>,
    U: FnOnce(Button) -> Result<ActionReceipt>,
    W: FnOnce(&str, &ActionReceipt, ReactionBudget) -> Result<Timed<ProbeFrame<S>>>,
    R: FnOnce(Duration),
>(
    story: StoryPolicy,
    before: O,
    anchor: Anchor,
    reach: L,
    center: &C,
    press: G,
    glide: M,
    release: U,
    wait: W,
    rest: R,
    policy: Drag,
    origin: Seq<char>,
    destination: Seq<char>,
    outcome: Result<Reaction>,
    after: O,
)
    requires
        grabs(
            story,
            before,
            anchor,
            reach,
            center,
            press,
            glide,
            release,
            wait,
            rest,
            policy,
            origin,
            destination,
            outcome,
            after,
        ),
        forall|start: Place, pressed: Result<ActionReceipt>| #[trigger]
            press.ensures((start, policy.button), pressed) ==> pressed is Ok,
    ensures
        exists|released: Result<ActionReceipt>| #[trigger]
            release.ensures((policy.button,), released),
        outcome is Ok ==> exists|released: Result<ActionReceipt>| #[trigger]
            release.ensures((policy.button,), released) && released is Ok,
{
}

/// Whether a gesture on a named target went through: the target was found under its name
/// in the story's time and told of with its anchor; then the gesture was performed at the
/// anchor's center and told of with its own times, the target, and the place it ended at.
pub open spec fn went_through<
    O: StoryObserver,
    L: FnOnce(&str, Duration) -> Result<Anchor>,
    C: Fn(&Anchor) -> Place,
    A,
    G: FnOnce(Place, A) -> Result<ActionReceipt>,
>(
    timeout: Duration,
    before: O,
    resolve: L,
    center: &C,
    perform: G,
    argument: A,
    target: Seq<char>,
    end: Option<Place>,
    anchor: Anchor,
    ready: O,
    place: Place,
    receipt: ActionReceipt,
    pointer: [i16; 2],
    after: O,
) -> bool {
    &&& exists|name: &str|
        name@ == target && #[trigger] resolve.ensures((name, timeout), Ok::<Anchor, Error>(anchor))
    &&& O::meets(before, EventView::TargetResolved { target, anchor }, Ok(()), ready)
    &&& center.ensures((&anchor,), place)
    &&& perform.ensures((place, argument), Ok::<ActionReceipt, Error>(receipt))
    &&& O::meets(
        ready,
        EventView::ActionDispatched {
            action: receipt@.action,
            target: Some(target),
            pointer: Some(pointer),
            gesture_started_ns: receipt@.gesture_started_ns,
            triggered_ns: receipt@.triggered_ns,
            completed_ns: receipt@.completed_ns,
        },
        Ok(()),
        after,
    )
    &&& match end {
        Some(end) => pointer[0] == end.0 && pointer[1] == end.1,
        None => pointer[0] == place.0 && pointer[1] == place.1,
    }
}

/// A gesture on a named target succeeds only where every step of it did, and its reaction
/// is that of the performed gesture, judged by the story's budget.
pub proof fn law_gestures_reach_their_targets<
    O: StoryObserver,
    L: FnOnce(&str, Duration) -> Result<Anchor>,
    C: Fn(&Anchor) -> Place,
    A,
    G: FnOnce(Place, A) -> Result<ActionReceipt>,
>(
    policy: StoryPolicy,
    before: O,
    resolve: L,
    center: &C,
    perform: G,
    argument: A,
    target: Seq<char>,
    end: Option<Place>,
    description: Seq<char>,
    reaction: Reaction,
    after: O,
)
    requires
        strikes(
            policy,
            before,
            resolve,
            center,
            perform,
            argument,
            target,
            end,
            description,
            Ok(reaction),
            after,
        ),
    ensures
        exists|
            anchor: Anchor,
            ready: O,
            place: Place,
            receipt: ActionReceipt,
            pointer: [i16; 2],
        | #[trigger]
            went_through(
                policy.target_timeout,
                before,
                resolve,
                center,
                perform,
                argument,
                target,
                end,
                anchor,
                ready,
                place,
                receipt,
                pointer,
                after,
            ) && reaction@.receipt == receipt@,
        reaction@.budget == policy.reaction_budget@,
        reaction@.description == description,
{
    let (found, ready) = choose|found: Result<Anchor>, ready: O| #[trigger]
        resolves(resolve, policy.target_timeout, before, target, found, ready) && match found {
            Err(error) => false,
            Ok(anchor) => lands(
                policy.reaction_budget@,
                ready,
                center,
                perform,
                argument,
                anchor,
                target,
                end,
                description,
                Ok(reaction),
                after,
            ),
        };
    let anchor = found->Ok_0;
    let (place, performed) = choose|place: Place, performed: Result<ActionReceipt>|
        center.ensures((&anchor,), place) && #[trigger] perform.ensures(
            (place, argument),
            performed,
        ) && acted(
            ready,
            performed,
            policy.reaction_budget@,
            Some(target),
            if end is Some {
                end
            } else {
                Some(place)
            },
            Some(description),
            Ok(reaction),
            after,
        );
    let receipt = performed->Ok_0;
    assert(performed == Ok::<ActionReceipt, Error>(receipt));
    let told = if end is Some {
        end->0
    } else {
        place
    };
    let pointer = spot(told);
    assert(pointer[0] == told.0 && pointer[1] == told.1);
    assert(found == Ok::<Anchor, Error>(anchor));
    assert(went_through(
        policy.target_timeout,
        before,
        resolve,
        center,
        perform,
        argument,
        target,
        end,
        anchor,
        ready,
        place,
        receipt,
        pointer,
        after,
    ));
}

/// A gesture at a bare place is told of without a target, at the place it went to, and its
/// reaction goes by the action's own name. A gesture that failed is not told of.
pub proof fn law_bare_gestures_are_told_at_their_place<O: StoryObserver>(
    policy: StoryPolicy,
    before: O,
    performed: Result<ActionReceipt>,
    place: Option<Place>,
    outcome: Result<Reaction>,
    after: O,
)
    requires
        unaimed(policy, before, performed, place, outcome, after),
    ensures
        performed is Err ==> outcome is Err && after == before,
        outcome matches Ok(reaction) ==> (performed matches Ok(receipt) && reaction@.receipt
            == receipt@ && reaction@.description == receipt@.action && reaction@.budget
            == policy.reaction_budget@ && exists|pointer: Option<[i16; 2]>|
            (pointer is Some <==> place is Some) && (pointer matches Some(p) ==> p[0] == (place->0).0
                && p[1] == (place->0).1) && #[trigger] O::meets(
                before,
                EventView::ActionDispatched {
                    action: receipt@.action,
                    target: None,
                    pointer,
                    gesture_started_ns: receipt@.gesture_started_ns,
                    triggered_ns: receipt@.triggered_ns,
                    completed_ns: receipt@.completed_ns,
                },
                Ok(()),
                after,
            )),
{
    if let Ok(reaction) = outcome {
        let receipt = performed->Ok_0;
        let pointer = spotted(place);
        assert(pointer matches Some(p) ==> p[0] == (place->0).0 && p[1] == (place->0).1);
        assert(O::meets(before, story::dispatched(receipt@, None, pointer), Ok(()), after));
    }
}

/// A reaction is awaited for its own gesture and budget, its frame is told of under the
/// wait's own name, and a wait whose verdict would be disturbed is never begun.
pub proof fn law_reactions_are_awaited_undisturbed<
    O: StoryObserver,
    S,
    W: FnOnce(&str, &ActionReceipt, ReactionBudget) -> Result<Timed<ProbeFrame<S>>>,
>(
    before: O,
    reaction: ReactionView,
    condition: Seq<char>,
    wait: W,
    outcome: Result<Timed<ProbeFrame<S>>>,
    after: O,
)
    requires
        awaits(before, reaction, condition, wait, outcome, after),
    ensures
        reaction.budget.production is Some && !before.admissible() ==> outcome is Err && after
            == before,
        outcome matches Ok(timed) ==> (exists|
            name: &str,
            receipt: &ActionReceipt,
            budget: ReactionBudget,
        |
            name@ == reaction.description + "; await "@ + condition && receipt@ == reaction.receipt
                && budget@ == reaction.budget && #[trigger] wait.ensures(
                (name, receipt, budget),
                Ok::<Timed<ProbeFrame<S>>, Error>(timed),
            )) && O::meets(
            before,
            EventView::ObservationMatched {
                description: reaction.description + "; await "@ + condition,
                schema: timed.subject().schema,
                frame: timed.subject().frame,
                begun_ns: timed.subject().begun_ns,
                observed_ns: timed.subject().observed_ns,
                surface_presented_ns: timed.subject().surface_presented_ns,
                surface_sequence: timed.subject().surface_sequence,
            },
            Ok(()),
            after,
        ),
{
    if let Ok(timed) = outcome {
        let (name, receipt, budget, waited) = choose|
            name: &str,
            receipt: &ActionReceipt,
            budget: ReactionBudget,
            waited: Result<Timed<ProbeFrame<S>>>,
        |
            name@ == reaction.description + "; await "@ + condition && receipt@ == reaction.receipt
                && budget@ == reaction.budget && #[trigger] wait.ensures(
                (name, receipt, budget),
                waited,
            ) && observes(before, name@, waited, outcome, after);
        assert(wait.ensures(
            (name, receipt, budget),
            Ok::<Timed<ProbeFrame<S>>, Error>(timed),
        ));
        assert(O::meets(before, matched(name@, timed.subject()), Ok(()), after));
    }
}

/// A frame that was waited for is told of with its own identity, and nothing is told of a
/// wait that failed.
pub proof fn law_waited_frames_are_told<O: StoryObserver, S>(
    before: O,
    description: Seq<char>,
    waited: Result<ProbeFrame<S>>,
    outcome: Result<ProbeFrame<S>>,
    after: O,
)
    requires
        retains(before, description, waited, outcome, after),
    ensures
        waited is Err ==> outcome == waited && after == before,
        outcome matches Ok(frame) ==> waited == outcome && O::meets(
            before,
            EventView::ObservationMatched {
                description,
                schema: frame.schema,
                frame: frame.frame,
                begun_ns: frame.begun_ns,
                observed_ns: frame.observed_ns,
                surface_presented_ns: frame.surface_presented_ns,
                surface_sequence: frame.surface_sequence,
            },
            Ok(()),
            after,
        ),
{
}

/// A text is typed over only once everything was selected with control and `a`; what was
/// typed is the replacement, and the reaction is that of the typing.
pub proof fn law_texts_are_selected_before_they_are_typed<
    O: StoryObserver,
    H: FnOnce(Modifiers, Key) -> Result<ActionReceipt>,
    T: FnOnce(&str) -> Result<ActionReceipt>,
>(
    policy: StoryPolicy,
    before: O,
    chord: H,
    write: T,
    text: &str,
    reaction: Reaction,
    after: O,
)
    requires
        replaces(policy, before, chord, write, text, Ok(reaction), after),
    ensures
        exists|modifiers: Modifiers, selection: ActionReceipt|
            modifiers.ctrl && !modifiers.shift && !modifiers.alt && !modifiers.logo
                && #[trigger] chord.ensures(
                (modifiers, Key::Character('a')),
                Ok::<ActionReceipt, Error>(selection),
            ),
        exists|typed: ActionReceipt| #[trigger]
            write.ensures((text,), Ok::<ActionReceipt, Error>(typed)) && reaction@.receipt
                == typed@ && reaction@.description == typed@.action,
        reaction@.budget == policy.reaction_budget@,
{
    let (selected, told, ready) = choose|
        selected: Result<ActionReceipt>,
        told: Result<()>,
        ready: O,
    | #[trigger]
        selects(before, chord, selected, told, ready) && match told {
            Err(error) => false,
            Ok(_) => exists|performed: Result<ActionReceipt>| #[trigger]
                write.ensures((text,), performed) && unaimed(
                    policy,
                    ready,
                    performed,
                    None,
                    Ok(reaction),
                    after,
                ),
        };
    let modifiers = choose|modifiers: Modifiers|
        modifiers == (Modifiers { shift: false, ctrl: true, alt: false, logo: false })
            && #[trigger] chord.ensures((modifiers, Key::Character('a')), selected);
    let selection = selected->Ok_0;
    assert(chord.ensures(
        (modifiers, Key::Character('a')),
        Ok::<ActionReceipt, Error>(selection),
    ));
    let performed = choose|performed: Result<ActionReceipt>| #[trigger]
        write.ensures((text,), performed) && unaimed(
            policy,
            ready,
            performed,
            None,
            Ok(reaction),
            after,
        );
    assert(write.ensures((text,), Ok::<ActionReceipt, Error>(performed->Ok_0)));
}

/// A grabbed target is carried to the center of its destination, which is looked for under
/// its own name once the target was grabbed, at the pace of the drag.
pub proof fn law_grabbed_targets_are_carried_to_their_destination<
    O: StoryObserver,
    S,
    L: FnOnce(&str, Duration) -> Result<Anchor>,
    C: Fn(&Anchor) -> Place,
    M: FnOnce(Place, Motion) -> Result<ActionReceipt>,
    W: FnOnce(&str, &ActionReceipt, ReactionBudget) -> Result<Timed<ProbeFrame<S>>>,
    R: FnOnce(Duration),
>(
    story: StoryPolicy,
    before: O,
    down: ActionReceiptView,
    start: Place,
    resolve: L,
    center: &C,
    glide: M,
    wait: W,
    rest: R,
    policy: Drag,
    origin: Seq<char>,
    destination: Seq<char>,
    place: Place,
    after: O,
)
    requires
        hauls(
            story,
            before,
            down,
            start,
            resolve,
            center,
            glide,
            wait,
            rest,
            policy,
            origin,
            destination,
            Ok(place),
            after,
        ),
    ensures
        policy.press_duration@ > 0 ==> rest.ensures((policy.press_duration,), ()),
        exists|name: &str, anchor: Anchor|
            name@ == destination && #[trigger] resolve.ensures(
                (name, story.target_timeout),
                Ok::<Anchor, Error>(anchor),
            ) && center.ensures((&anchor,), place),
        exists|motion: Motion, receipt: ActionReceipt|
            motion.steps == policy.steps && motion.duration == policy.duration
                && #[trigger] glide.ensures(
                (place, motion),
                Ok::<ActionReceipt, Error>(receipt),
            ),
{
    let (told, ready) = choose|told: Result<()>, ready: O| #[trigger]
        O::meets(before, story::dispatched(down, Some(origin), Some(spot(start))), told, ready)
            && match told {
            Err(error) => false,
            Ok(_) => rested(rest, policy.press_duration) && exists|acquired: Result<()>, held: O| #[trigger]
                settles(ready, acquisition(story, down, origin), wait, acquired, held)
                    && match acquired {
                    Err(error) => false,
                    Ok(_) => carries(
                        story.target_timeout,
                        held,
                        resolve,
                        center,
                        glide,
                        Motion { steps: policy.steps, duration: policy.duration },
                        destination,
                        Ok(place),
                        after,
                    ),
                },
        };
    let motion = Motion { steps: policy.steps, duration: policy.duration };
    let (acquired, held) = choose|acquired: Result<()>, held: O| #[trigger]
        settles(ready, acquisition(story, down, origin), wait, acquired, held) && match acquired {
            Err(error) => false,
            Ok(_) => carries(
                story.target_timeout,
                held,
                resolve,
                center,
                glide,
                motion,
                destination,
                Ok(place),
                after,
            ),
        };
    let (found, seen) = choose|found: Result<Anchor>, seen: O| #[trigger]
        resolves(resolve, story.target_timeout, held, destination, found, seen) && match found {
            Err(error) => false,
            Ok(anchor) => exists|end: Place, performed: Result<ActionReceipt>|
                center.ensures((&anchor,), end) && #[trigger] glide.ensures(
                    (end, motion),
                    performed,
                ) && match performed {
                    Err(error) => false,
                    Ok(receipt) => place == end,
                },
        };
    let anchor = found->Ok_0;
    let (name, looked) = choose|name: &str, looked: Result<Anchor>|
        name@ == destination && #[trigger] resolve.ensures((name, story.target_timeout), looked)
            && reveals(held, destination, looked, found, seen);
    assert(resolve.ensures((name, story.target_timeout), Ok::<Anchor, Error>(anchor)));
    let (end, performed) = choose|end: Place, performed: Result<ActionReceipt>|
        center.ensures((&anchor,), end) && #[trigger] glide.ensures((end, motion), performed)
            && match performed {
            Err(error) => false,
            Ok(receipt) => place == end,
        };
    assert(glide.ensures((place, motion), Ok::<ActionReceipt, Error>(performed->Ok_0)));
}

} // verus!
