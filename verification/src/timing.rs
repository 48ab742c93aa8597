//! Reaction latency: receipts of native input, and the budgets they are held to.
use crate::duration;
use crate::duration::Duration;
use crate::error::{Error, ErrorView, Result};
use crate::text;
use crate::text::{decimal_text, glue4};
use crate::witness::clock;
use crate::witness::clock::monotonic_ns;
use vstd::prelude::*;

verus! {

/// Product timestamp used to complete one reaction.
#[derive(Clone, Copy, Debug, Eq, PartialEq, Structural)]
pub enum ReactionEndpoint {
    /// Native input through completed product-state work, before telemetry.
    Observation,
    /// Native input through surface present submission.
    ///
    /// This is not a compositor scanout or physical-display completion proof.
    SurfacePresent,
}

impl Default for ReactionEndpoint {
    fn default() -> (endpoint: Self)
        ensures
            endpoint == ReactionEndpoint::Observation,
    {
        ReactionEndpoint::Observation
    }
}

impl ReactionEndpoint {
    /// The timestamp that ends a reaction.
    pub open spec fn chosen(self, observed_ns: u64, surface_presented_ns: u64) -> u64 {
        match self {
            ReactionEndpoint::Observation => observed_ns,
            ReactionEndpoint::SurfacePresent => surface_presented_ns,
        }
    }

    /// Choose the timestamp that ends a reaction.
    pub fn timestamp(self, observed_ns: u64, surface_presented_ns: u64) -> (ns: u64)
        ensures
            ns == self.chosen(observed_ns, surface_presented_ns),
    {
        match self {
            ReactionEndpoint::Observation => observed_ns,
            ReactionEndpoint::SurfacePresent => surface_presented_ns,
        }
    }
}

/// Monotonic bounds and reaction trigger for one native input gesture.
#[must_use]
#[derive(Debug)]
pub struct ActionReceipt {
    gesture_started_ns: u64,
    triggered_ns: u64,
    completed_ns: u64,
    action: String,
}

/// Content of an [`ActionReceipt`].
#[verifier::ext_equal]
pub struct ActionReceiptView {
    pub gesture_started_ns: u64,
    pub triggered_ns: u64,
    pub completed_ns: u64,
    pub action: Seq<char>,
}

impl ActionReceiptView {
    /// A gesture opened at a reading of the clock.
    pub open spec fn begun_at(now: u64, action: Seq<char>) -> Self {
        ActionReceiptView {
            gesture_started_ns: now,
            triggered_ns: now,
            completed_ns: now,
            action,
        }
    }

    /// The gesture with its decisive input at a reading of the clock.
    pub open spec fn triggered_at(self, now: u64) -> Self {
        ActionReceiptView { triggered_ns: now, ..self }
    }

    /// The gesture closed at a reading of the clock.
    pub open spec fn finished_at(self, now: u64) -> Self {
        ActionReceiptView { completed_ns: now, ..self }
    }
}

impl View for ActionReceipt {
    type V = ActionReceiptView;

    closed spec fn view(&self) -> ActionReceiptView {
        ActionReceiptView {
            gesture_started_ns: self.gesture_started_ns,
            triggered_ns: self.triggered_ns,
            completed_ns: self.completed_ns,
            action: self.action@,
        }
    }
}

impl Clone for ActionReceipt {
    fn clone(&self) -> (copy: Self)
        ensures
            copy@ == self@,
    {
        ActionReceipt {
            gesture_started_ns: self.gesture_started_ns,
            triggered_ns: self.triggered_ns,
            completed_ns: self.completed_ns,
            action: self.action.clone(),
        }
    }
}

impl ActionReceipt {
    /// Open a gesture now.
    pub fn begin(action: &str) -> (receipt: Self)
        ensures
            exists|now: u64| #[trigger]
                clock::clocked(now) && receipt@ == ActionReceiptView::begun_at(
                    now,
                    action@,
                ),
    {
        let now: u64 = monotonic_ns();
        Self::begin_at(now, action)
    }

    /// Open a gesture, given the clock's reading.
    pub fn begin_at(now: u64, action: &str) -> (receipt: Self)
        ensures
            receipt@ == ActionReceiptView::begun_at(now, action@),
    {
        Self::recorded(now, now, now, action)
    }

    /// Mark the input that should cause the reaction.
    pub fn trigger(self) -> (receipt: Self)
        ensures
            exists|now: u64| #[trigger]
                clock::clocked(now) && receipt@ == self@.triggered_at(now),
    {
        let now: u64 = monotonic_ns();
        self.trigger_at(now)
    }

    /// Mark the input that should cause the reaction, given the clock's reading.
    pub fn trigger_at(self, now: u64) -> (receipt: Self)
        ensures
            receipt@ == self@.triggered_at(now),
            receipt@ == (ActionReceiptView { triggered_ns: now, ..self@ }),
    {
        ActionReceipt {
            gesture_started_ns: self.gesture_started_ns,
            triggered_ns: now,
            completed_ns: self.completed_ns,
            action: self.action,
        }
    }

    /// Close the gesture now.
    pub fn finish(self) -> (receipt: Self)
        ensures
            exists|now: u64| #[trigger]
                clock::clocked(now) && receipt@ == self@.finished_at(now),
    {
        let now: u64 = monotonic_ns();
        self.finish_at(now)
    }

    /// Close the gesture, given the clock's reading.
    pub fn finish_at(self, now: u64) -> (receipt: Self)
        ensures
            receipt@ == self@.finished_at(now),
            receipt@ == (ActionReceiptView { completed_ns: now, ..self@ }),
    {
        ActionReceipt {
            gesture_started_ns: self.gesture_started_ns,
            triggered_ns: self.triggered_ns,
            completed_ns: now,
            action: self.action,
        }
    }

    /// Restore a gesture recorded earlier in the same epoch.
    pub fn recorded(
        gesture_started_ns: u64,
        triggered_ns: u64,
        completed_ns: u64,
        action: &str,
    ) -> (receipt: Self)
        ensures
            receipt@ == (ActionReceiptView {
                gesture_started_ns,
                triggered_ns,
                completed_ns,
                action: action@,
            }),
    {
        ActionReceipt { gesture_started_ns, triggered_ns, completed_ns, action: action.to_owned() }
    }

    /// Rename the gesture.
    pub fn relabel(self, action: &str) -> (receipt: Self)
        ensures
            receipt@ == (ActionReceiptView { action: action@, ..self@ }),
    {
        ActionReceipt {
            gesture_started_ns: self.gesture_started_ns,
            triggered_ns: self.triggered_ns,
            completed_ns: self.completed_ns,
            action: action.to_owned(),
        }
    }

    /// When the gesture started.
    pub fn gesture_started_ns(&self) -> (ns: u64)
        ensures
            ns == self@.gesture_started_ns,
    {
        self.gesture_started_ns
    }

    /// When the gesture's decisive input was injected.
    pub fn triggered_ns(&self) -> (ns: u64)
        ensures
            ns == self@.triggered_ns,
    {
        self.triggered_ns
    }

    /// When the gesture's last input was injected.
    pub fn completed_ns(&self) -> (ns: u64)
        ensures
            ns == self@.completed_ns,
    {
        self.completed_ns
    }

    /// What the gesture did.
    pub fn action(&self) -> (action: &str)
        ensures
            action@ == self@.action,
    {
        self.action.as_str()
    }
}

/// A moment of a gesture at which the clock is read.
#[derive(Clone, Copy, Debug, PartialEq, Eq, Structural)]
pub enum Mark {
    /// The gesture begins.
    Begin,
    /// The next input is the one that should cause the reaction.
    Trigger,
    /// The gesture ends.
    Finish,
}

/// Read the monotonic clock for a mark of a gesture.
pub fn reading(_mark: Mark) -> (now: u64)
    ensures
        clock::clocked(now),
{
    monotonic_ns()
}

/// Whether a receipt's times are what the clock read for its marks.
pub open spec fn timed<C: Fn(Mark) -> u64>(
    clock: &C,
    action: Seq<char>,
    receipt: ActionReceiptView,
) -> bool {
    exists|begun: u64, triggered: u64, finished: u64|
        #[trigger] clock.ensures((Mark::Begin,), begun) && #[trigger] clock.ensures(
            (Mark::Trigger,),
            triggered,
        ) && #[trigger] clock.ensures((Mark::Finish,), finished) && receipt
            == ActionReceiptView::begun_at(begun, action).triggered_at(triggered).finished_at(
            finished,
        )
}

/// Deadline for one reaction, optionally carrying a production latency limit.
///
/// A functional budget bounds a missing cue without making a performance
/// claim. A performance budget additionally rejects reactions whose product
/// timestamp breaches `production`. Observation ends before witness work;
/// surface-present ends after the corresponding present call. Harness
/// polling and witness I/O consume neither.
#[derive(Clone, Copy, Debug, Eq, PartialEq, Structural)]
pub struct ReactionBudget {
    production: Option<Duration>,
    timeout: Duration,
    endpoint: ReactionEndpoint,
}

/// Content of a [`ReactionBudget`].
#[verifier::ext_equal]
pub struct ReactionBudgetView {
    pub production: Option<nat>,
    pub timeout: nat,
    pub endpoint: ReactionEndpoint,
}

impl View for ReactionBudget {
    type V = ReactionBudgetView;

    closed spec fn view(&self) -> ReactionBudgetView {
        ReactionBudgetView {
            production: match self.production {
                Some(limit) => Some(limit@),
                None => None,
            },
            timeout: self.timeout@,
            endpoint: self.endpoint,
        }
    }
}

/// The missing-cue deadline of a production limit: ten times as long, at least
/// two seconds.
pub open spec fn generous(production: nat) -> nat {
    let scaled = if production * 10 <= duration::LONGEST_NS {
        production * 10
    } else {
        duration::LONGEST_NS as nat
    };
    if scaled >= 2_000_000_000 {
        scaled
    } else {
        2_000_000_000
    }
}

impl ReactionBudgetView {
    /// The verdict on a reaction that ended at `observed_ns`: its latency, or
    /// its failure.
    pub open spec fn verdict(
        self,
        operation: Seq<char>,
        triggered_ns: u64,
        observed_ns: u64,
    ) -> std::result::Result<nat, ErrorView> {
        if observed_ns < triggered_ns {
            Err(
                ErrorView::Timing {
                    operation,
                    detail: "application observation "@ + text::decimal(observed_ns as nat)
                        + " predates input trigger "@ + text::decimal(triggered_ns as nat),
                },
            )
        } else {
            let elapsed = (observed_ns - triggered_ns) as nat;
            match self.production {
                Some(limit) => if elapsed > limit {
                    Err(ErrorView::TooSlow { operation, budget: limit, elapsed })
                } else {
                    Ok(elapsed)
                },
                None => Ok(elapsed),
            }
        }
    }
}

impl ReactionBudget {
    /// Bound functional progress without adjudicating production latency.
    pub fn functional(timeout: Duration) -> (budget: Self)
        ensures
            budget@ == (ReactionBudgetView {
                production: None,
                timeout: timeout@,
                endpoint: ReactionEndpoint::Observation,
            }),
    {
        ReactionBudget { production: None, timeout, endpoint: ReactionEndpoint::Observation }
    }

    /// Adjudicate production latency, with a larger missing-cue deadline.
    pub fn performance(production: Duration) -> (budget: Self)
        ensures
            budget@ == (ReactionBudgetView {
                production: Some(production@),
                timeout: generous(production@),
                endpoint: ReactionEndpoint::Observation,
            }),
    {
        let timeout = production.saturating_mul(10).max(Duration::from_secs(2));
        ReactionBudget {
            production: Some(production),
            timeout,
            endpoint: ReactionEndpoint::Observation,
        }
    }

    /// Judge through surface present submission.
    pub fn through_surface_present(self) -> (budget: Self)
        ensures
            budget@ == (ReactionBudgetView {
                endpoint: ReactionEndpoint::SurfacePresent,
                ..self@
            }),
    {
        ReactionBudget {
            production: self.production,
            timeout: self.timeout,
            endpoint: ReactionEndpoint::SurfacePresent,
        }
    }

    /// Replace the missing-cue deadline.
    pub fn timeout(self, timeout: Duration) -> (budget: Self)
        ensures
            budget@ == (ReactionBudgetView { timeout: timeout@, ..self@ }),
    {
        ReactionBudget { production: self.production, timeout, endpoint: self.endpoint }
    }

    /// Production latency limit, when there is one.
    pub fn production(self) -> (production: Option<Duration>)
        ensures
            self@.production == match production {
                Some(limit) => Some(limit@),
                None => None,
            },
    {
        self.production
    }

    /// Missing-cue deadline.
    pub fn functional_timeout(self) -> (timeout: Duration)
        ensures
            timeout@ == self@.timeout,
    {
        self.timeout
    }

    /// Timestamp that ends the reaction.
    pub fn endpoint(self) -> (endpoint: ReactionEndpoint)
        ensures
            endpoint == self@.endpoint,
    {
        self.endpoint
    }

    /// Judge a reaction that ended at `observed_ns`.
    pub fn adjudicate<T>(
        self,
        operation: &str,
        receipt: &ActionReceipt,
        observed_ns: u64,
        value: T,
    ) -> (timed: Result<Timed<T>>)
        ensures
            match timed {
                Ok(timed) => self@.verdict(operation@, receipt@.triggered_ns, observed_ns) == Ok::<
                    nat,
                    ErrorView,
                >(timed.latency()) && timed.subject() == value,
                Err(error) => self@.verdict(operation@, receipt@.triggered_ns, observed_ns)
                    == Err::<nat, _>(error@),
            },
    {
        if observed_ns < receipt.triggered_ns {
            return Err(
                Error::Timing {
                    operation: operation.to_owned(),
                    detail: glue4(
                        "application observation ",
                        decimal_text(observed_ns as u128).as_str(),
                        " predates input trigger ",
                        decimal_text(receipt.triggered_ns as u128).as_str(),
                    ),
                },
            );
        }
        let elapsed = Duration::from_nanos(observed_ns - receipt.triggered_ns);
        match self.production {
            Some(production) => {
                if elapsed.exceeds(production) {
                    return Err(
                        Error::TooSlow {
                            operation: operation.to_owned(),
                            budget: production,
                            elapsed,
                        },
                    );
                }
            },
            None => {},
        }
        Ok(Timed { value, elapsed })
    }
}

/// Over readings of a clock that never falls back, a gesture starts no later than
/// its trigger, and its trigger is no later than its end. A gesture that was never
/// triggered counts as triggered when it started. Neither mark moves the start or
/// renames the gesture.
pub proof fn law_receipts_are_ordered(
    action: Seq<char>,
    started: u64,
    triggered: Option<u64>,
    completed: u64,
)
    requires
        started <= completed,
        triggered matches Some(triggered) ==> started <= triggered <= completed,
    ensures
        ({
            let begun = ActionReceiptView::begun_at(started, action);
            let marked = match triggered {
                Some(triggered) => begun.triggered_at(triggered),
                None => begun,
            };
            let receipt = marked.finished_at(completed);
            &&& receipt.gesture_started_ns <= receipt.triggered_ns <= receipt.completed_ns
            &&& triggered is None ==> receipt.triggered_ns == receipt.gesture_started_ns
            &&& receipt.gesture_started_ns == started
            &&& receipt.action == action
        }),
{
}

/// Replacing the missing-cue deadline never changes a latency verdict.
pub proof fn law_timeout_never_dilates_the_limit(
    budget: ReactionBudgetView,
    timeout: nat,
    operation: Seq<char>,
    triggered_ns: u64,
    observed_ns: u64,
)
    ensures
        (ReactionBudgetView { timeout, ..budget }).verdict(operation, triggered_ns, observed_ns)
            == budget.verdict(operation, triggered_ns, observed_ns),
{
}

/// A functional budget accepts every reaction that follows its trigger.
pub proof fn law_functional_budgets_make_no_latency_claim(
    budget: ReactionBudgetView,
    operation: Seq<char>,
    triggered_ns: u64,
    observed_ns: u64,
)
    requires
        budget.production is None,
        triggered_ns <= observed_ns,
    ensures
        budget.verdict(operation, triggered_ns, observed_ns) == Ok::<nat, ErrorView>(
            (observed_ns - triggered_ns) as nat,
        ),
{
}

/// Value accepted within its production budget.
#[derive(Debug)]
pub struct Timed<T> {
    value: T,
    elapsed: Duration,
}

impl<T> Timed<T> {
    /// Nanoseconds the reaction took.
    pub closed spec fn latency(&self) -> nat {
        self.elapsed@
    }

    /// The accepted value.
    pub closed spec fn subject(&self) -> T {
        self.value
    }

    /// How long the reaction took.
    pub fn elapsed(&self) -> (elapsed: Duration)
        ensures
            elapsed@ == self.latency(),
    {
        self.elapsed
    }

    /// Borrow the accepted value.
    pub fn value(&self) -> (value: &T)
        ensures
            *value == self.subject(),
    {
        &self.value
    }

    /// Release the accepted value.
    pub fn into_value(self) -> (value: T)
        ensures
            value == self.subject(),
    {
        self.value
    }
}

// ---------------------------------------------------------------------------
// Laws of receipts and budgets
// ---------------------------------------------------------------------------

/// The three marks of a gesture are the clock's readings at them: its start at the
/// opening, its trigger at the decisive input, or at the opening where none is marked, and
/// its end at the closing. No mark touches another one, nor the gesture's name.
pub proof fn law_receipts_keep_their_readings(
    action: &str,
    opened: u64,
    decided: u64,
    closed: u64,
    begun: ActionReceipt,
    triggered: ActionReceipt,
    finished: ActionReceipt,
)
    requires
        ActionReceipt::begin_at.ensures((opened, action), begun),
        ActionReceipt::trigger_at.ensures((begun, decided), triggered),
        ActionReceipt::finish_at.ensures((triggered, closed), finished),
    ensures
        begun@.gesture_started_ns == opened,
        begun@.triggered_ns == opened,
        begun@.completed_ns == opened,
        finished@.gesture_started_ns == opened,
        finished@.triggered_ns == decided,
        finished@.completed_ns == closed,
        finished@.action == action@,
{
}

/// A recorded gesture is restored as it was, and renaming it changes its name alone.
pub proof fn law_recorded_gestures_are_restored(
    started: u64,
    triggered: u64,
    completed: u64,
    action: &str,
    name: &str,
    restored: ActionReceipt,
    renamed: ActionReceipt,
)
    requires
        ActionReceipt::recorded.ensures((started, triggered, completed, action), restored),
        ActionReceipt::relabel.ensures((restored, name), renamed),
    ensures
        restored@.gesture_started_ns == started,
        restored@.triggered_ns == triggered,
        restored@.completed_ns == completed,
        restored@.action == action@,
        renamed@.gesture_started_ns == started,
        renamed@.triggered_ns == triggered,
        renamed@.completed_ns == completed,
        renamed@.action == name@,
{
}

/// A reaction takes the time from its trigger to its end. It is accepted exactly where it
/// does not end before its trigger and does not take longer than a declared limit, and it
/// is accepted with its value and its time. A refusal tells which of the two it was, and
/// by how much the limit was missed.
pub proof fn law_reactions_are_held_to_their_limit<T>(
    budget: ReactionBudget,
    operation: &str,
    receipt: &ActionReceipt,
    ended: u64,
    value: T,
    outcome: Result<Timed<T>>,
)
    requires
        ReactionBudget::adjudicate::<T>.ensures(
            (budget, operation, receipt, ended, value),
            outcome,
        ),
    ensures
        outcome is Ok <==> ended >= receipt@.triggered_ns && (budget@.production matches Some(
            limit,
        ) ==> ended - receipt@.triggered_ns <= limit),
        outcome matches Ok(timed) ==> timed.subject() == value && timed.latency() == ended
            - receipt@.triggered_ns,
        outcome matches Err(error) ==> match error@ {
            ErrorView::Timing { operation: told, .. } => told == operation@ && ended
                < receipt@.triggered_ns,
            ErrorView::TooSlow { operation: told, budget: limit, elapsed } => told == operation@
                && budget@.production == Some(limit) && elapsed == ended - receipt@.triggered_ns
                && elapsed > limit,
            _ => false,
        },
{
}

/// A functional budget sets a deadline and no limit. A performance budget limits the
/// reaction to what it was given, and waits for a missing one at least two seconds, and at
/// least ten times as long as the limit. Both judge the observation, unless they are told
/// to judge the presentation, and neither telling changes anything else.
pub proof fn law_budgets_separate_deadline_and_limit(
    span: Duration,
    functional: ReactionBudget,
    performance: ReactionBudget,
    budget: ReactionBudget,
    presented: ReactionBudget,
    extended: ReactionBudget,
)
    requires
        ReactionBudget::functional.ensures((span,), functional),
        ReactionBudget::performance.ensures((span,), performance),
        ReactionBudget::through_surface_present.ensures((budget,), presented),
        ReactionBudget::timeout.ensures((budget, span), extended),
    ensures
        functional@.production is None,
        functional@.timeout == span@,
        functional@.endpoint is Observation,
        performance@.production == Some(span@),
        performance@.timeout >= 2 * 1_000_000_000,
        10 * span@ <= duration::LONGEST_NS ==> performance@.timeout >= 10 * span@ && (
        performance@.timeout == 10 * span@ || performance@.timeout == 2 * 1_000_000_000),
        performance@.endpoint is Observation,
        presented@.endpoint is SurfacePresent,
        presented@.production == budget@.production,
        presented@.timeout == budget@.timeout,
        extended@.timeout == span@,
        extended@.production == budget@.production,
        extended@.endpoint == budget@.endpoint,
{
}

/// A reaction ends with the observation, or, where its presentation is judged, with that.
pub proof fn law_endpoints_choose_their_timestamp(
    endpoint: ReactionEndpoint,
    observed: u64,
    presented: u64,
    chosen: u64,
)
    requires
        ReactionEndpoint::timestamp.ensures((endpoint, observed, presented), chosen),
    ensures
        endpoint is Observation ==> chosen == observed,
        endpoint is SurfacePresent ==> chosen == presented,
{
}

} // verus!
