//! Stories: the causal stream they emit, and what may listen to it.
use crate::duration::Duration;
use crate::error::{Error, ErrorView, Result};
use crate::input::{Drag, Modifiers, Motion};
use crate::pixels::Frame;
use crate::probe::ProbeFrame;
use crate::text::{glue3, glue4, glue5};
use crate::timing::{ActionReceipt, ActionReceiptView, ReactionBudget, ReactionBudgetView};
use crate::witness::anchor::Anchor;
use crate::x11::pointer::Place;
use vstd::prelude::*;

pub mod script;

verus! {

// ---------------------------------------------------------------------------
// Stream
// ---------------------------------------------------------------------------

/// Authored pace of a story, by name.
#[derive(Clone, Copy, Debug)]
pub struct StoryTempo<'a> {
    pub name: &'a str,
}

/// Authored editorial instruction carried by a live story stream.
#[derive(Clone, Copy, Debug)]
pub enum StoryCue<'a> {
    Chapter { title: &'a str },
    Hold { duration: Duration },
    Tempo { tempo: StoryTempo<'a> },
}

/// Immutable execution fact emitted while a story drives the product.
#[allow(inconsistent_fields)]
#[derive(Clone, Copy, Debug)]
pub enum StoryFact<'a> {
    TargetResolved {
        target: &'a str,
        anchor: &'a Anchor,
    },
    PointerAimed {
        target: Option<&'a str>,
        pointer: [i16; 2],
        anchor: Option<&'a Anchor>,
    },
    ActionDispatched {
        action: &'a str,
        target: Option<&'a str>,
        pointer: Option<[i16; 2]>,
        gesture_started_ns: u64,
        triggered_ns: u64,
        completed_ns: u64,
    },
    ObservationMatched {
        description: &'a str,
        schema: u32,
        frame: u64,
        begun_ns: u64,
        observed_ns: u64,
        surface_presented_ns: u64,
        surface_sequence: u64,
    },
}

/// One item in the causal stream produced by an executing story.
#[derive(Clone, Copy, Debug)]
pub enum StoryEvent<'a> {
    Cue(StoryCue<'a>),
    Fact(StoryFact<'a>),
}

/// Content of a [`StoryEvent`].
#[allow(inconsistent_fields)]
#[verifier::ext_equal]
pub enum EventView {
    Chapter { title: Seq<char> },
    Hold { duration: nat },
    Tempo { name: Seq<char> },
    TargetResolved { target: Seq<char>, anchor: Anchor },
    PointerAimed { target: Option<Seq<char>>, pointer: [i16; 2], anchor: Option<Anchor> },
    ActionDispatched {
        action: Seq<char>,
        target: Option<Seq<char>>,
        pointer: Option<[i16; 2]>,
        gesture_started_ns: u64,
        triggered_ns: u64,
        completed_ns: u64,
    },
    ObservationMatched {
        description: Seq<char>,
        schema: u32,
        frame: u64,
        begun_ns: u64,
        observed_ns: u64,
        surface_presented_ns: u64,
        surface_sequence: u64,
    },
}

/// The content of a name that may be absent.
pub open spec fn named(name: Option<&str>) -> Option<Seq<char>> {
    match name {
        Some(name) => Some(name@),
        None => None,
    }
}

impl<'a> View for StoryEvent<'a> {
    type V = EventView;

    open spec fn view(&self) -> EventView {
        match *self {
            StoryEvent::Cue(StoryCue::Chapter { title }) => EventView::Chapter { title: title@ },
            StoryEvent::Cue(StoryCue::Hold { duration }) => EventView::Hold { duration: duration@ },
            StoryEvent::Cue(StoryCue::Tempo { tempo }) => EventView::Tempo { name: tempo.name@ },
            StoryEvent::Fact(StoryFact::TargetResolved { target, anchor }) => EventView::TargetResolved {
                target: target@,
                anchor: *anchor,
            },
            StoryEvent::Fact(
                StoryFact::PointerAimed { target, pointer, anchor },
            ) => EventView::PointerAimed {
                target: named(target),
                pointer,
                anchor: match anchor {
                    Some(anchor) => Some(*anchor),
                    None => None,
                },
            },
            StoryEvent::Fact(
                StoryFact::ActionDispatched {
                    action,
                    target,
                    pointer,
                    gesture_started_ns,
                    triggered_ns,
                    completed_ns,
                },
            ) => EventView::ActionDispatched {
                action: action@,
                target: named(target),
                pointer,
                gesture_started_ns,
                triggered_ns,
                completed_ns,
            },
            StoryEvent::Fact(
                StoryFact::ObservationMatched {
                    description,
                    schema,
                    frame,
                    begun_ns,
                    observed_ns,
                    surface_presented_ns,
                    surface_sequence,
                },
            ) => EventView::ObservationMatched {
                description: description@,
                schema,
                frame,
                begun_ns,
                observed_ns,
                surface_presented_ns,
                surface_sequence,
            },
        }
    }
}

/// The fact that an action was dispatched.
pub open spec fn dispatched(
    receipt: ActionReceiptView,
    target: Option<Seq<char>>,
    pointer: Option<[i16; 2]>,
) -> EventView {
    EventView::ActionDispatched {
        action: receipt.action,
        target,
        pointer,
        gesture_started_ns: receipt.gesture_started_ns,
        triggered_ns: receipt.triggered_ns,
        completed_ns: receipt.completed_ns,
    }
}

/// State that an action was dispatched.
pub fn action_event<'a>(
    receipt: &'a ActionReceipt,
    target: Option<&'a str>,
    pointer: Option<[i16; 2]>,
) -> (event: StoryEvent<'a>)
    ensures
        event@ == dispatched(receipt@, named(target), pointer),
{
    StoryEvent::Fact(
        StoryFact::ActionDispatched {
            action: receipt.action(),
            target,
            pointer,
            gesture_started_ns: receipt.gesture_started_ns(),
            triggered_ns: receipt.triggered_ns(),
            completed_ns: receipt.completed_ns(),
        },
    )
}

/// State that an observation matched.
pub fn observation_event<'a, S>(description: &'a str, frame: &ProbeFrame<S>) -> (event: StoryEvent<
    'a,
>)
    ensures
        event@ == (EventView::ObservationMatched {
            description: description@,
            schema: frame.schema,
            frame: frame.frame,
            begun_ns: frame.begun_ns,
            observed_ns: frame.observed_ns,
            surface_presented_ns: frame.surface_presented_ns,
            surface_sequence: frame.surface_sequence,
        }),
{
    StoryEvent::Fact(
        StoryFact::ObservationMatched {
            description,
            schema: frame.schema,
            frame: frame.frame,
            begun_ns: frame.begun_ns,
            observed_ns: frame.observed_ns,
            surface_presented_ns: frame.surface_presented_ns,
            surface_sequence: frame.surface_sequence,
        },
    )
}

/// State that a target was resolved.
pub fn target_event<'a>(target: &'a str, anchor: &'a Anchor) -> (event: StoryEvent<'a>)
    ensures
        event@ == (EventView::TargetResolved { target: target@, anchor: *anchor }),
{
    StoryEvent::Fact(StoryFact::TargetResolved { target, anchor })
}

// ---------------------------------------------------------------------------
// Observers
// ---------------------------------------------------------------------------

/// Capture-only view of the private product surface offered to observers.
#[derive(Debug)]
pub struct StorySurface<'a, F> {
    surface: &'a F,
}

impl<'a, F: Fn() -> Result<Frame>> StorySurface<'a, F> {
    /// The function that captures the surface.
    pub closed spec fn source(self) -> F {
        *self.surface
    }

    /// Offer a surface.
    pub fn new(surface: &'a F) -> (offered: Self)
        ensures
            offered.source() == *surface,
    {
        StorySurface { surface }
    }

    /// Capture the surface.
    pub fn capture(&self) -> (frame: Result<Frame>)
        requires
            self.source().requires(()),
        ensures
            self.source().ensures((), frame),
    {
        (self.surface)()
    }
}

/// Synchronous consumer of one executing story's typed event stream.
pub trait StoryObserver: Sized {
    /// Whether meeting an event can leave the observer so, with an outcome.
    spec fn meets(before: Self, event: EventView, outcome: Result<()>, after: Self) -> bool;

    /// Whether the end of the story can leave the observer so, with an outcome.
    spec fn ends(before: Self, outcome: Result<()>, after: Self) -> bool;

    /// Whether the observer may listen while production latency is judged.
    spec fn admissible(&self) -> bool;

    /// Meet one event.
    fn observe<F: Fn() -> Result<Frame>>(
        &mut self,
        event: StoryEvent<'_>,
        surface: StorySurface<'_, F>,
    ) -> (outcome: Result<()>)
        requires
            surface.source().requires(()),
        ensures
            Self::meets(*old(self), event@, outcome, *final(self)),
    ;

    /// Meet the end of the story.
    fn finish<F: Fn() -> Result<Frame>>(&mut self, surface: StorySurface<'_, F>) -> (outcome:
        Result<()>)
        requires
            surface.source().requires(()),
        ensures
            Self::ends(*old(self), outcome, *final(self)),
    ;

    /// Whether this observer is admissible while production latency is judged.
    fn permits_performance_verdicts(&self) -> (permitted: bool)
        ensures
            permitted == self.admissible(),
    ;
}

/// Inert default observer used by ordinary acceptance stories.
#[derive(Clone, Copy, Debug, PartialEq, Eq, Structural)]
pub struct Silent;

impl Default for Silent {
    fn default() -> (silent: Self)
        ensures
            silent == Silent,
    {
        Silent
    }
}

impl StoryObserver for Silent {
    open spec fn meets(before: Self, event: EventView, outcome: Result<()>, after: Self) -> bool {
        outcome is Ok && after == before
    }

    open spec fn ends(before: Self, outcome: Result<()>, after: Self) -> bool {
        outcome is Ok && after == before
    }

    open spec fn admissible(&self) -> bool {
        true
    }

    fn observe<F: Fn() -> Result<Frame>>(
        &mut self,
        event: StoryEvent<'_>,
        surface: StorySurface<'_, F>,
    ) -> (outcome: Result<()>) {
        Ok(())
    }

    fn finish<F: Fn() -> Result<Frame>>(&mut self, surface: StorySurface<'_, F>) -> (outcome:
        Result<()>) {
        Ok(())
    }

    fn permits_performance_verdicts(&self) -> (permitted: bool) {
        true
    }
}

/// Listening would contaminate a latency verdict.
pub open spec fn contaminated() -> ErrorView {
    ErrorView::Unsupported {
        capability: "story observation during performance adjudication"@,
        detail: "recording or tracing would contaminate the production latency verdict"@,
    }
}

/// Refuse an observer that would contaminate the latency verdicts of a budget.
pub fn admit_observer<O: StoryObserver>(budget: ReactionBudget, observer: &O) -> (verdict: Result<
    (),
>)
    ensures
        match verdict {
            Ok(_) => budget@.production is None || observer.admissible(),
            Err(error) => budget@.production is Some && !observer.admissible() && error@
                == contaminated(),
        },
{
    if budget.production().is_some() && !observer.permits_performance_verdicts() {
        return Err(
            Error::Unsupported {
                capability: "story observation during performance adjudication",
                detail: "recording or tracing would contaminate the production latency verdict".to_owned(),
            },
        );
    }
    Ok(())
}

/// An ordinary story may always be judged for latency.
pub proof fn law_silence_never_contaminates(budget: ReactionBudgetView)
    ensures
        budget.production is None || Silent.admissible(),
{
}

// ---------------------------------------------------------------------------
// Stories
// ---------------------------------------------------------------------------

/// What a story goes by: how its reactions are judged, and how long it waits.
#[derive(Clone, Copy, Debug)]
pub struct StoryPolicy {
    pub reaction_budget: ReactionBudget,
    pub target_timeout: Duration,
    pub wait_timeout: Duration,
}

/// Time allowed for a story's window to appear, in seconds.
pub const WINDOW_TIMEOUT_SECS: u64 = 30;

impl StoryPolicy {
    /// The policy of a story that was just bound.
    pub fn bind(reaction_budget: ReactionBudget) -> (policy: Self)
        ensures
            policy.reaction_budget == reaction_budget,
            policy.target_timeout@ == 8_000_000_000,
            policy.wait_timeout@ == 10_000_000_000,
    {
        StoryPolicy {
            reaction_budget,
            target_timeout: Duration::from_secs(8),
            wait_timeout: Duration::from_secs(10),
        }
    }

    /// Wait this long for targets.
    pub fn with_target_timeout(self, timeout: Duration) -> (policy: Self)
        ensures
            policy == (StoryPolicy { target_timeout: timeout, ..self }),
    {
        StoryPolicy { target_timeout: timeout, ..self }
    }

    /// Wait this long for conditions.
    pub fn with_wait_timeout(self, timeout: Duration) -> (policy: Self)
        ensures
            policy == (StoryPolicy { wait_timeout: timeout, ..self }),
    {
        StoryPolicy { wait_timeout: timeout, ..self }
    }
}

/// One injected gesture awaiting a temporally eligible semantic cue.
#[derive(Debug)]
pub struct Reaction {
    receipt: ActionReceipt,
    budget: ReactionBudget,
    description: String,
}

/// Content of a [`Reaction`].
#[verifier::ext_equal]
pub struct ReactionView {
    pub receipt: ActionReceiptView,
    pub budget: ReactionBudgetView,
    pub description: Seq<char>,
}

impl View for Reaction {
    type V = ReactionView;

    closed spec fn view(&self) -> ReactionView {
        ReactionView {
            receipt: self.receipt@,
            budget: self.budget@,
            description: self.description@,
        }
    }
}

impl Reaction {
    /// A gesture under a description of its own.
    pub fn named(receipt: ActionReceipt, budget: ReactionBudget, description: String) -> (reaction:
        Self)
        ensures
            reaction@ == (ReactionView {
                receipt: receipt@,
                budget: budget@,
                description: description@,
            }),
    {
        Reaction { receipt, budget, description }
    }

    /// A gesture under the name of its action.
    pub fn of(receipt: ActionReceipt, budget: ReactionBudget) -> (reaction: Self)
        ensures
            reaction@ == (ReactionView {
                receipt: receipt@,
                budget: budget@,
                description: receipt@.action,
            }),
    {
        let description = receipt.action().to_owned();
        Self::named(receipt, budget, description)
    }

    /// Judge the reaction by another budget.
    pub fn within(self, budget: ReactionBudget) -> (reaction: Self)
        ensures
            reaction@ == (ReactionView { budget: budget@, ..self@ }),
    {
        Reaction { receipt: self.receipt, budget, description: self.description }
    }

    /// The gesture.
    pub fn receipt(&self) -> (receipt: &ActionReceipt)
        ensures
            receipt@ == self@.receipt,
    {
        &self.receipt
    }

    /// How the reaction is judged.
    pub fn budget(&self) -> (budget: ReactionBudget)
        ensures
            budget@ == self@.budget,
    {
        self.budget
    }

    /// Begin to wait for a condition: what the wait is called, unless listening
    /// to it would contaminate its verdict.
    pub fn until<O: StoryObserver>(&self, condition: &str, observer: &O) -> (waiting: Result<String>)
        ensures
            match waiting {
                Ok(waiting) => (self@.budget.production is None || observer.admissible())
                    && waiting@ == self@.description + "; await "@ + condition@,
                Err(error) => self@.budget.production is Some && !observer.admissible() && error@
                    == contaminated(),
            },
    {
        match admit_observer(self.budget, observer) {
            Ok(_) => Ok(glue3(self.description.as_str(), "; await ", condition)),
            Err(error) => Err(error),
        }
    }

    /// What waiting for the next frame is called, as a condition.
    pub fn next_frame() -> (condition: &'static str)
        ensures
            condition@ == "a fresh surface-presented frame"@,
    {
        "a fresh surface-presented frame"
    }
}

/// A pointer action on a target, in words: the action, and the target quoted.
pub fn target_action(action: &str, target: &str) -> (description: String)
    ensures
        description@ == action@ + " `"@ + target@ + "`"@,
{
    glue4(action, " `", target, "`")
}

/// A click under modifiers on a target, in words.
pub fn modified_click_action(modifiers: Modifiers, target: &str) -> (description: String)
    ensures
        description@ == modifiers.rendered() + " click `"@ + target@ + "`"@,
{
    glue4(modifiers.text().as_str(), " click `", target, "`")
}

/// A drag between targets, in words.
pub fn drag_action(origin: &str, destination: &str) -> (description: String)
    ensures
        description@ == "drag `"@ + origin@ + "` to `"@ + destination@ + "`"@,
{
    glue5("drag `", origin, "` to `", destination, "`")
}

/// The pointer transport of a drag, once its target was acquired.
pub fn drag_motion(policy: Drag) -> (motion: Motion)
    ensures
        motion.steps == policy.steps,
        motion.duration == policy.duration,
{
    Motion { steps: policy.steps, duration: policy.duration }
}

/// What a drag between targets comes to, once its button was released: the
/// failure of the drag itself, then that of the release.
pub fn conclude_drag(operation: Result<Place>, released: Result<ActionReceipt>) -> (outcome: Result<
    (Place, ActionReceipt),
>)
    ensures
        match (operation, released) {
            (Err(error), _) => outcome matches Err(found) && found == error,
            (Ok(_), Err(error)) => outcome matches Err(found) && found == error,
            (Ok(end), Ok(receipt)) => outcome matches Ok((place, up)) && place == end && up
                == receipt,
        },
{
    match operation {
        Err(error) => Err(error),
        Ok(end) => match released {
            Err(error) => Err(error),
            Ok(receipt) => Ok((end, receipt)),
        },
    }
}

/// Turn an external product fact into a first-class acceptance verdict.
pub fn demand(condition: bool, detail: &str) -> (verdict: Result<()>)
    ensures
        match verdict {
            Ok(_) => condition,
            Err(error) => !condition && error@ == (ErrorView::Verdict { detail: detail@ }),
        },
{
    if condition {
        Ok(())
    } else {
        Err(Error::Verdict { detail: detail.to_owned() })
    }
}

// ---------------------------------------------------------------------------
// Laws
// ---------------------------------------------------------------------------

/// An event tells exactly the times of its receipt, the target that was meant, and the
/// place that was touched.
pub proof fn law_actions_are_told_with_their_times<'a>(
    receipt: &'a ActionReceipt,
    target: Option<&'a str>,
    pointer: Option<[i16; 2]>,
    event: StoryEvent<'a>,
)
    requires
        action_event.ensures((receipt, target, pointer), event),
    ensures
        event@ matches EventView::ActionDispatched {
            action,
            target: named,
            pointer: place,
            gesture_started_ns,
            triggered_ns,
            completed_ns,
        } && action == receipt@.action && named is Some == target is Some && (target matches Some(
            name,
        ) ==> named == Some(name@)) && place == pointer && gesture_started_ns
            == receipt@.gesture_started_ns && triggered_ns == receipt@.triggered_ns && completed_ns
            == receipt@.completed_ns,
{
}

/// An observation is told with the identity and the times of its frame, and a target with
/// its anchor.
pub proof fn law_observations_are_told_with_their_frame<'a, S>(
    description: &'a str,
    frame: &'a ProbeFrame<S>,
    event: StoryEvent<'a>,
    target: &'a str,
    anchor: &'a Anchor,
    sighting: StoryEvent<'a>,
)
    requires
        observation_event::<S>.ensures((description, frame), event),
        target_event.ensures((target, anchor), sighting),
    ensures
        event@ == (EventView::ObservationMatched {
            description: description@,
            schema: frame.schema,
            frame: frame.frame,
            begun_ns: frame.begun_ns,
            observed_ns: frame.observed_ns,
            surface_presented_ns: frame.surface_presented_ns,
            surface_sequence: frame.surface_sequence,
        }),
        sighting@ == (EventView::TargetResolved { target: target@, anchor: *anchor }),
{
}

/// Only a story whose latency is not judged may be listened to by an observer that would
/// disturb it.
pub proof fn law_judged_stories_refuse_disturbance<O: StoryObserver>(
    budget: ReactionBudget,
    observer: O,
    verdict: Result<()>,
)
    requires
        admit_observer::<O>.ensures((budget, &observer), verdict),
    ensures
        verdict is Err <==> budget@.production is Some && !observer.admissible(),
        verdict matches Err(error) ==> error@ is Unsupported,
{
}

/// A story just bound waits eight seconds for its targets and ten for its conditions.
pub proof fn law_stories_begin_patient(
    budget: ReactionBudget,
    policy: StoryPolicy,
    timeout: Duration,
    hurried: StoryPolicy,
    brief: StoryPolicy,
)
    requires
        StoryPolicy::bind.ensures((budget,), policy),
        StoryPolicy::with_target_timeout.ensures((policy, timeout), hurried),
        StoryPolicy::with_wait_timeout.ensures((policy, timeout), brief),
    ensures
        policy.reaction_budget == budget,
        policy.target_timeout@ == 8_000_000_000,
        policy.wait_timeout@ == 10_000_000_000,
        hurried.target_timeout == timeout && hurried.wait_timeout == policy.wait_timeout
            && hurried.reaction_budget == budget,
        brief.wait_timeout == timeout && brief.target_timeout == policy.target_timeout
            && brief.reaction_budget == budget,
{
}

/// A reaction keeps its gesture, is judged by the budget it was last given, and is awaited
/// under its own description.
pub proof fn law_reactions_keep_their_gesture<O: StoryObserver>(
    receipt: ActionReceipt,
    budget: ReactionBudget,
    reaction: Reaction,
    other: ReactionBudget,
    rejudged: Reaction,
    condition: &str,
    observer: O,
    waiting: Result<String>,
)
    requires
        Reaction::of.ensures((receipt, budget), reaction),
        Reaction::within.ensures((reaction, other), rejudged),
        Reaction::until::<O>.ensures((&rejudged, condition, &observer), waiting),
    ensures
        reaction@.receipt == receipt@ && reaction@.budget == budget@ && reaction@.description
            == receipt@.action,
        rejudged@.receipt == receipt@ && rejudged@.budget == other@ && rejudged@.description
            == receipt@.action,
        waiting is Ok <==> other@.production is None || observer.admissible(),
        waiting matches Ok(waiting) ==> waiting@ == receipt@.action + "; await "@ + condition@,
{
}

/// A drag that failed is told as such, before the failure of its release, and one that
/// succeeded ends where it was carried.
pub proof fn law_drags_conclude_with_their_first_failure(
    operation: Result<Place>,
    released: Result<ActionReceipt>,
    outcome: Result<(Place, ActionReceipt)>,
    policy: Drag,
    motion: Motion,
)
    requires
        conclude_drag.ensures((operation, released), outcome),
        drag_motion.ensures((policy,), motion),
    ensures
        operation matches Err(error) ==> outcome == Err::<(Place, ActionReceipt), Error>(error),
        operation is Ok ==> (released matches Err(error) ==> outcome == Err::<
            (Place, ActionReceipt),
            Error,
        >(error)),
        outcome is Ok <==> operation is Ok && released is Ok,
        outcome matches Ok((place, receipt)) ==> operation == Ok::<Place, Error>(place) && released
            == Ok::<ActionReceipt, Error>(receipt),
        motion.steps == policy.steps,
        motion.duration == policy.duration,
{
}

/// A verdict is demanded, not asked for: only an unmet condition fails.
pub proof fn law_unmet_conditions_fail(condition: bool, detail: &str, verdict: Result<()>)
    requires
        demand.ensures((condition, detail), verdict),
    ensures
        verdict is Ok <==> condition,
        verdict matches Err(error) ==> error@ == (ErrorView::Verdict { detail: detail@ }),
{
}

/// Actions are called after what they do and to what.
pub proof fn law_actions_are_called_by_their_targets(
    action: &str,
    target: &str,
    described: String,
    modifiers: Modifiers,
    modified: String,
    destination: &str,
    dragged: String,
)
    requires
        target_action.ensures((action, target), described),
        modified_click_action.ensures((modifiers, target), modified),
        drag_action.ensures((target, destination), dragged),
    ensures
        described@ == action@ + " `"@ + target@ + "`"@,
        modified@ == modifiers.rendered() + " click `"@ + target@ + "`"@,
        dragged@ == "drag `"@ + target@ + "` to `"@ + destination@ + "`"@,
{
}

} // verus!
