//! Product frame timing: traces, gesture isolation, and cadence budgets.
use crate::duration::Duration;
use crate::error::{Error, ErrorView, Result};
use crate::poll::Round;
use crate::text;
use crate::text::{copy_bytes, decimal_text, glue2, glue3, glue4};
use crate::timing::{ActionReceipt, ActionReceiptView};
use crate::witness::error as witness_error;
use crate::witness::frame_journal;
use crate::witness::frame_journal::{read_frame_journal, FrameSample};
use vstd::prelude::*;

verus! {

/// Reader for the lossless product frame-timing journal.
#[derive(Debug)]
pub struct FrameProbe {
    path: Vec<u8>,
    launch: String,
}

/// Content of a [`FrameProbe`].
#[verifier::ext_equal]
pub struct FrameProbeView {
    pub path: Seq<u8>,
    pub launch: Seq<char>,
}

impl View for FrameProbe {
    type V = FrameProbeView;

    closed spec fn view(&self) -> FrameProbeView {
        FrameProbeView { path: self.path@, launch: self.launch@ }
    }
}

impl FrameProbe {
    /// A reader of one launch's journal.
    pub fn sealed(path: &Vec<u8>, launch: &str) -> (probe: Self)
        ensures
            probe@ == (FrameProbeView { path: path@, launch: launch@ }),
    {
        FrameProbe { path: copy_bytes(path.as_slice()), launch: launch.to_owned() }
    }

    /// Read every complete frame from the journal's bytes.
    pub fn read(&self, bytes: &Vec<u8>) -> (trace: Result<FrameTrace>)
        ensures
            match trace {
                Ok(trace) => frame_journal::journal_reading(
                    self@.path,
                    bytes@,
                    self@.launch,
                ) == Ok::<_, witness_error::ErrorView>(trace@),
                Err(error) => frame_journal::journal_reading(
                    self@.path,
                    bytes@,
                    self@.launch,
                ) matches Err(cause) && error@ == (ErrorView::FrameJournal {
                    path: self@.path,
                    detail: cause.message(),
                }),
            },
    {
        match read_frame_journal(&self.path, bytes, self.launch.as_str()) {
            Ok(samples) => Ok(FrameTrace { samples }),
            Err(error) => Err(
                Error::FrameJournal {
                    path: copy_bytes(self.path.as_slice()),
                    detail: error.text(),
                },
            ),
        }
    }

    /// One round of waiting until the journal spans an input gesture. A journal
    /// that cannot be read yet is waited for; an invalid one is not.
    pub fn trace(
        &self,
        reading: Result<FrameTrace>,
        action: &ActionReceipt,
        expired: bool,
        timeout: Duration,
    ) -> (round: Result<Round<FrameTrace>>)
        ensures
            match reading {
                Ok(trace) => if spans(trace@, action@) {
                    round matches Ok(Round::Done(found)) && found@ == gesture_frames(
                        trace@,
                        action@,
                    )
                } else {
                    pending(round, action@, expired, timeout@)
                },
                Err(error) => if error@ is Io {
                    pending(round, action@, expired, timeout@)
                } else {
                    round matches Err(found) && found@ == error@
                },
            },
    {
        match reading {
            Ok(trace) => {
                let count: usize = trace.samples.len();
                if count > 0 && trace.samples[count - 1].begun_ns >= action.completed_ns() {
                    return Ok(Round::Done(trace.during(action)));
                }
            },
            Err(Error::Io { .. }) => {},
            Err(error) => {
                return Err(error);
            },
        }
        if expired {
            return Err(
                Error::Timeout { waiting: glue2("frame trace through ", action.action()), timeout },
            );
        }
        Ok(Round::Again(8))
    }

    /// The journal's path.
    pub fn path(&self) -> (path: &Vec<u8>)
        ensures
            path@ == self@.path,
    {
        &self.path
    }
}

/// A trace reaches past the end of a gesture.
pub open spec fn spans(samples: Seq<FrameSample>, action: ActionReceiptView) -> bool {
    samples.len() > 0 && samples.last().begun_ns >= action.completed_ns
}

/// A round that found nothing yet.
pub open spec fn pending(
    round: Result<Round<FrameTrace>>,
    action: ActionReceiptView,
    expired: bool,
    timeout: nat,
) -> bool {
    match round {
        Ok(Round::Done(_)) => false,
        Ok(Round::Again(pause)) => !expired && pause == 8,
        Err(error) => expired && error@ == (ErrorView::Timeout {
            waiting: "frame trace through "@ + action.action,
            timeout,
        }),
    }
}

/// A frame that began within a gesture.
pub open spec fn within_gesture(sample: FrameSample, action: ActionReceiptView) -> bool {
    action.gesture_started_ns <= sample.begun_ns <= action.completed_ns
}

/// The frames of a gesture, in order.
pub open spec fn gesture_frames(samples: Seq<FrameSample>, action: ActionReceiptView) -> Seq<
    FrameSample,
> {
    samples.filter(|sample: FrameSample| within_gesture(sample, action))
}

/// Ordered frame samples covering a launch or one input gesture.
#[derive(Debug)]
pub struct FrameTrace {
    samples: Vec<FrameSample>,
}

impl View for FrameTrace {
    type V = Seq<FrameSample>;

    closed spec fn view(&self) -> Seq<FrameSample> {
        self.samples@
    }
}

/// Why a trace breaches a budget, when it does: too few frames, then the first
/// breached percentile.
pub open spec fn cadence_fault(
    samples: Seq<FrameSample>,
    operation: Seq<char>,
    budget: CadenceBudgetView,
) -> Option<ErrorView> {
    if samples.len() < 2 {
        Some(
            ErrorView::Timing {
                operation,
                detail: "frame trace contains fewer than two samples"@,
            },
        )
    } else if samples.len() < budget.minimum_frames {
        Some(
            ErrorView::Timing {
                operation,
                detail: "observed "@ + text::decimal(samples.len()) + " frames, requires at least "@
                    + text::decimal(budget.minimum_frames),
            },
        )
    } else if breach(operation, "median cadence"@, p50_of(samples), budget.p50) is Some {
        breach(operation, "median cadence"@, p50_of(samples), budget.p50)
    } else if breach(operation, "p95 cadence"@, p95_of(samples), budget.p95) is Some {
        breach(operation, "p95 cadence"@, p95_of(samples), budget.p95)
    } else if breach(operation, "worst cadence"@, worst_of(samples), budget.worst) is Some {
        breach(operation, "worst cadence"@, worst_of(samples), budget.worst)
    } else {
        breach(operation, "p95 frame work"@, paint_p95_of(samples), budget.paint_p95)
    }
}

/// The failure of one measure that exceeds its limit.
pub open spec fn breach(
    operation: Seq<char>,
    name: Seq<char>,
    observed: nat,
    limit: Option<nat>,
) -> Option<ErrorView> {
    match limit {
        Some(limit) => if observed > limit {
            Some(
                ErrorView::TooSlow {
                    operation: operation + " "@ + name,
                    budget: limit,
                    elapsed: observed,
                },
            )
        } else {
            None
        },
        None => None,
    }
}

fn check_limit(
    operation: &str,
    name: &str,
    observed: Duration,
    limit: Option<Duration>,
) -> (verdict: Result<()>)
    ensures
        match verdict {
            Ok(_) => breach(operation@, name@, observed@, limit_of(limit)) is None,
            Err(error) => breach(operation@, name@, observed@, limit_of(limit)) == Some(error@),
        },
{
    match limit {
        Some(limit) => if observed.exceeds(limit) {
            Err(
                Error::TooSlow {
                    operation: glue3(operation, " ", name),
                    budget: limit,
                    elapsed: observed,
                },
            )
        } else {
            Ok(())
        },
        None => Ok(()),
    }
}

impl FrameTrace {
    /// A trace of ordered samples.
    pub fn new(samples: Vec<FrameSample>) -> (trace: Self)
        ensures
            trace@ == samples@,
    {
        FrameTrace { samples }
    }

    /// The samples in order.
    pub fn samples(&self) -> (samples: &Vec<FrameSample>)
        ensures
            samples@ == self@,
    {
        &self.samples
    }

    /// Isolate the frames that began within a gesture.
    pub fn during(&self, action: &ActionReceipt) -> (trace: Self)
        ensures
            trace@ == gesture_frames(self@, action@),
    {
        let ghost chosen = |sample: FrameSample| within_gesture(sample, action@);
        let mut samples: Vec<FrameSample> = Vec::new();
        let mut index: usize = 0;
        proof {
            reveal(Seq::filter);
            assert(self.samples@.take(0).filter(chosen) =~= Seq::<FrameSample>::empty());
        }
        while index < self.samples.len()
            invariant
                index <= self.samples.len(),
                chosen == (|sample: FrameSample| within_gesture(sample, action@)),
                samples@ == self.samples@.take(index as int).filter(chosen),
            decreases self.samples.len() - index,
        {
            let sample = self.samples[index];
            proof {
                reveal(Seq::filter);
                let longer = self.samples@.take(index + 1);
                assert(longer.drop_last() =~= self.samples@.take(index as int));
                assert(longer.last() == sample);
            }
            if sample.begun_ns >= action.gesture_started_ns() && sample.begun_ns
                <= action.completed_ns() {
                samples.push(sample);
            }
            index += 1;
        }
        assert(self.samples@.take(index as int) =~= self.samples@);
        FrameTrace { samples }
    }

    /// Hold the trace's cadence to a budget.
    pub fn adjudicate(&self, operation: &str, budget: CadenceBudget) -> (report: Result<
        CadenceReport,
    >)
        ensures
            match report {
                Ok(report) => cadence_fault(self@, operation@, budget@) is None
                    && report.measures(self@),
                Err(error) => cadence_fault(self@, operation@, budget@) == Some(error@),
            },
    {
        let report = match CadenceReport::forge(&self.samples) {
            Some(report) => report,
            None => {
                return Err(
                    Error::Timing {
                        operation: operation.to_owned(),
                        detail: "frame trace contains fewer than two samples".to_owned(),
                    },
                );
            },
        };
        if report.frames < budget.minimum_frames {
            return Err(
                Error::Timing {
                    operation: operation.to_owned(),
                    detail: glue4(
                        "observed ",
                        decimal_text(report.frames as u128).as_str(),
                        " frames, requires at least ",
                        decimal_text(budget.minimum_frames as u128).as_str(),
                    ),
                },
            );
        }
        match check_limit(operation, "median cadence", report.p50, budget.p50) {
            Ok(_) => {},
            Err(error) => {
                return Err(error);
            },
        }
        match check_limit(operation, "p95 cadence", report.p95, budget.p95) {
            Ok(_) => {},
            Err(error) => {
                return Err(error);
            },
        }
        match check_limit(operation, "worst cadence", report.worst, budget.worst) {
            Ok(_) => {},
            Err(error) => {
                return Err(error);
            },
        }
        match check_limit(operation, "p95 frame work", report.paint_p95, budget.paint_p95) {
            Ok(_) => {},
            Err(error) => {
                return Err(error);
            },
        }
        Ok(report)
    }
}

/// Content of an optional limit.
pub open spec fn limit_of(limit: Option<Duration>) -> Option<nat> {
    match limit {
        Some(limit) => Some(limit@),
        None => None,
    }
}

/// Distributional responsiveness contract for sustained interaction.
#[derive(Clone, Copy, Debug, Eq, PartialEq, Structural)]
pub struct CadenceBudget {
    minimum_frames: usize,
    p50: Option<Duration>,
    p95: Option<Duration>,
    worst: Option<Duration>,
    paint_p95: Option<Duration>,
}

/// Content of a [`CadenceBudget`].
#[verifier::ext_equal]
pub struct CadenceBudgetView {
    pub minimum_frames: nat,
    pub p50: Option<nat>,
    pub p95: Option<nat>,
    pub worst: Option<nat>,
    pub paint_p95: Option<nat>,
}

impl View for CadenceBudget {
    type V = CadenceBudgetView;

    closed spec fn view(&self) -> CadenceBudgetView {
        CadenceBudgetView {
            minimum_frames: self.minimum_frames as nat,
            p50: limit_of(self.p50),
            p95: limit_of(self.p95),
            worst: limit_of(self.worst),
            paint_p95: limit_of(self.paint_p95),
        }
    }
}

impl Default for CadenceBudget {
    fn default() -> (budget: Self)
        ensures
            budget@ == (CadenceBudgetView {
                minimum_frames: 2,
                p50: None,
                p95: None,
                worst: None,
                paint_p95: None,
            }),
    {
        CadenceBudget { minimum_frames: 2, p50: None, p95: None, worst: None, paint_p95: None }
    }
}

impl CadenceBudget {
    /// Demand at least this many frames.
    pub fn minimum_frames(self, minimum: usize) -> (budget: Self)
        ensures
            budget@ == (CadenceBudgetView { minimum_frames: minimum as nat, ..self@ }),
    {
        let mut budget = self;
        budget.minimum_frames = minimum;
        budget
    }

    /// Limit the median cadence.
    pub fn p50(self, limit: Duration) -> (budget: Self)
        ensures
            budget@ == (CadenceBudgetView { p50: Some(limit@), ..self@ }),
    {
        let mut budget = self;
        budget.p50 = Some(limit);
        budget
    }

    /// Limit the 95th-percentile cadence.
    pub fn p95(self, limit: Duration) -> (budget: Self)
        ensures
            budget@ == (CadenceBudgetView { p95: Some(limit@), ..self@ }),
    {
        let mut budget = self;
        budget.p95 = Some(limit);
        budget
    }

    /// Limit the worst cadence.
    pub fn worst(self, limit: Duration) -> (budget: Self)
        ensures
            budget@ == (CadenceBudgetView { worst: Some(limit@), ..self@ }),
    {
        let mut budget = self;
        budget.worst = Some(limit);
        budget
    }

    /// Limit the 95th-percentile frame work.
    pub fn paint_p95(self, limit: Duration) -> (budget: Self)
        ensures
            budget@ == (CadenceBudgetView { paint_p95: Some(limit@), ..self@ }),
    {
        let mut budget = self;
        budget.paint_p95 = Some(limit);
        budget
    }
}

// ---------------------------------------------------------------------------
// Statistics
// ---------------------------------------------------------------------------

/// One value subtracted from another, at least zero.
pub open spec fn apart(later: u64, earlier: u64) -> u64 {
    if later >= earlier {
        (later - earlier) as u64
    } else {
        0
    }
}

/// Nanoseconds between consecutive frame starts.
pub open spec fn cadence(samples: Seq<FrameSample>) -> Seq<u64> {
    Seq::new(
        (samples.len() - 1) as nat,
        |i: int| apart(samples[i + 1].begun_ns, samples[i].begun_ns),
    )
}

/// Nanoseconds from each frame's start to its presentation.
pub open spec fn paint(samples: Seq<FrameSample>) -> Seq<u64> {
    Seq::new(
        samples.len(),
        |i: int| apart(samples[i].surface_presented_ns, samples[i].begun_ns),
    )
}

/// Values in ascending order.
pub open spec fn ranked(values: Seq<u64>) -> Seq<u64> {
    values.sort_by(|a: u64, b: u64| a <= b)
}

/// Where a percentile stands among `count` ranked values.
pub open spec fn rank(count: nat, percentage: nat) -> int {
    let product = if percentage * count > usize::MAX {
        usize::MAX as int
    } else {
        (percentage * count) as int
    };
    let above = (product + 99) / 100;
    if above == 0 {
        0
    } else if above > count {
        count - 1
    } else {
        above - 1
    }
}

/// A percentile of values.
pub open spec fn percentile_of(values: Seq<u64>, percentage: nat) -> nat {
    ranked(values)[rank(values.len(), percentage)] as nat
}

/// Median cadence.
pub open spec fn p50_of(samples: Seq<FrameSample>) -> nat {
    percentile_of(cadence(samples), 50)
}

/// 95th-percentile cadence.
pub open spec fn p95_of(samples: Seq<FrameSample>) -> nat {
    percentile_of(cadence(samples), 95)
}

/// Worst cadence.
pub open spec fn worst_of(samples: Seq<FrameSample>) -> nat {
    ranked(cadence(samples)).last() as nat
}

/// 95th-percentile frame work.
pub open spec fn paint_p95_of(samples: Seq<FrameSample>) -> nat {
    percentile_of(paint(samples), 95)
}

/// Raw product frame statistics from timestamps captured on the UI thread.
#[derive(Clone, Copy, Debug, Eq, PartialEq, Structural)]
pub struct CadenceReport {
    pub frames: usize,
    pub p50: Duration,
    pub p95: Duration,
    pub worst: Duration,
    pub paint_p95: Duration,
}

impl CadenceReport {
    /// The report holds the statistics of these samples.
    pub open spec fn measures(self, samples: Seq<FrameSample>) -> bool {
        &&& self.frames == samples.len()
        &&& self.p50@ == p50_of(samples)
        &&& self.p95@ == p95_of(samples)
        &&& self.worst@ == worst_of(samples)
        &&& self.paint_p95@ == paint_p95_of(samples)
    }

    /// Measure samples, of which at least two are needed.
    pub fn forge(samples: &Vec<FrameSample>) -> (report: Option<Self>)
        ensures
            match report {
                Some(report) => samples@.len() >= 2 && report.measures(samples@),
                None => samples@.len() < 2,
            },
    {
        if samples.len() < 2 {
            return None;
        }
        let mut gaps: Vec<u64> = Vec::new();
        let mut work: Vec<u64> = Vec::new();
        let mut index: usize = 0;
        while index < samples.len()
            invariant
                index <= samples.len(),
                samples@.len() >= 2,
                work@ =~= paint(samples@).take(index as int),
                gaps@ =~= cadence(samples@).take(if index == 0 { 0 } else { index - 1 }),
            decreases samples.len() - index,
        {
            let sample = samples[index];
            work.push(
                if sample.surface_presented_ns >= sample.begun_ns {
                    sample.surface_presented_ns - sample.begun_ns
                } else {
                    0
                },
            );
            if index > 0 {
                let before = samples[index - 1];
                gaps.push(
                    if sample.begun_ns >= before.begun_ns {
                        sample.begun_ns - before.begun_ns
                    } else {
                        0
                    },
                );
            }
            index += 1;
        }
        assert(work@ =~= paint(samples@));
        assert(gaps@ =~= cadence(samples@));
        proof {
            lemma_ranked(cadence(samples@));
            lemma_ranked(paint(samples@));
        }
        let gaps = sort(gaps);
        let work = sort(work);
        Some(
            CadenceReport {
                frames: samples.len(),
                p50: Duration::from_nanos(percentile(&gaps, 50)),
                p95: Duration::from_nanos(percentile(&gaps, 95)),
                worst: Duration::from_nanos(gaps[gaps.len() - 1]),
                paint_p95: Duration::from_nanos(percentile(&work, 95)),
            },
        )
    }
}

/// Pick a percentile of ranked values.
pub fn percentile(sorted: &Vec<u64>, percentage: usize) -> (value: u64)
    requires
        sorted@.len() > 0,
    ensures
        value == sorted@[rank(sorted@.len(), percentage as nat)],
{
    let count: usize = sorted.len();
    assert(percentage * count <= 0xffff_ffff_ffff_ffff * 0xffff_ffff_ffff_ffff)
        by (nonlinear_arith)
        requires
            0 <= percentage <= 0xffff_ffff_ffff_ffff,
            0 <= count <= 0xffff_ffff_ffff_ffff,
    ;
    let product: u128 = percentage as u128 * count as u128;
    let product: u128 = if product > usize::MAX as u128 {
        usize::MAX as u128
    } else {
        product
    };
    let above: u128 = (product + 99) / 100;
    let at: usize = if above == 0 {
        0
    } else if above > sorted.len() as u128 {
        sorted.len() - 1
    } else {
        (above - 1) as usize
    };
    sorted[at]
}

/// Rank values.
pub fn sort(values: Vec<u64>) -> (sorted: Vec<u64>)
    ensures
        sorted@ == ranked(values@),
{
    let ghost leq = |a: u64, b: u64| a <= b;
    let mut sorted: Vec<u64> = Vec::new();
    let mut index: usize = 0;
    proof {
        assert(values@.take(0) =~= Seq::<u64>::empty());
    }
    while index < values.len()
        invariant
            index <= values.len(),
            sorted@.len() == index,
            forall|i: int, j: int| 0 <= i < j < sorted@.len() ==> sorted@[i] <= sorted@[j],
            sorted@.to_multiset() == values@.take(index as int).to_multiset(),
        decreases values.len() - index,
    {
        let value: u64 = values[index];
        let mut at: usize = sorted.len();
        while at > 0 && sorted[at - 1] > value
            invariant
                at <= sorted.len(),
                forall|i: int| at <= i < sorted@.len() ==> sorted@[i] > value,
            decreases at,
        {
            at -= 1;
        }
        let ghost before = sorted@;
        sorted.insert(at, value);
        proof {
            broadcast use vstd::seq_lib::group_to_multiset_ensures;

            assert(sorted@ =~= before.insert(at as int, value));
            let shorter = values@.take(index as int);
            assert(values@.take(index + 1) =~= shorter.push(value));
        }
        index += 1;
    }
    proof {
        assert(values@.take(index as int) =~= values@);
        values@.lemma_sort_by_ensures(leq);
        vstd::seq_lib::lemma_sorted_unique(sorted@, ranked(values@), leq);
    }
    sorted
}

// ---------------------------------------------------------------------------
// Laws
// ---------------------------------------------------------------------------

proof fn lemma_ranked(values: Seq<u64>)
    ensures
        ranked(values).len() == values.len(),
        forall|i: int, j: int|
            0 <= i <= j < ranked(values).len() ==> ranked(values)[i] <= ranked(values)[j],
{
    let leq = |a: u64, b: u64| a <= b;
    values.lemma_sort_by_ensures(leq);
    broadcast use vstd::seq_lib::group_to_multiset_ensures;

    assert(ranked(values).len() == ranked(values).to_multiset().len());
    assert(vstd::relations::sorted_by(ranked(values), leq));
    assert forall|i: int, j: int| 0 <= i <= j < ranked(values).len() implies ranked(values)[i]
        <= ranked(values)[j] by {
        if i < j {
            assert(leq(ranked(values)[i], ranked(values)[j]));
        }
    }
}

/// The median never exceeds the 95th percentile, nor that the worst.
pub proof fn law_percentiles_ascend(samples: Seq<FrameSample>)
    requires
        2 <= samples.len() <= usize::MAX,
    ensures
        p50_of(samples) <= p95_of(samples) <= worst_of(samples),
{
    let values = cadence(samples);
    lemma_ranked(values);
    assert(0 <= rank(values.len(), 50) <= rank(values.len(), 95) < values.len());
}

/// A gesture's frames are exactly the trace's frames that began within it, and
/// isolating them twice changes nothing.
pub proof fn law_gestures_isolate_their_frames(
    samples: Seq<FrameSample>,
    action: ActionReceiptView,
)
    ensures
        forall|sample: FrameSample| #[trigger]
            gesture_frames(samples, action).contains(sample) <==> samples.contains(sample)
                && within_gesture(sample, action),
        gesture_frames(gesture_frames(samples, action), action) == gesture_frames(samples, action),
{
    let chosen = |sample: FrameSample| within_gesture(sample, action);
    let once = samples.filter(chosen);
    assert forall|sample: FrameSample| #[trigger] once.contains(sample) <==> samples.contains(
        sample,
    ) && within_gesture(sample, action) by {
        lemma_filter_members(samples, chosen, sample);
    }
    assert forall|i: int| 0 <= i < once.len() implies chosen(#[trigger] once[i]) by {
        assert(once.contains(once[i]));
    }
    lemma_filter_keeps_all(once, chosen);
}

/// How many values satisfy a condition.
pub open spec fn tally(values: Seq<u64>, chosen: spec_fn(u64) -> bool) -> nat
    decreases values.len(),
{
    if values.len() == 0 {
        0
    } else {
        tally(values.drop_last(), chosen) + if chosen(values.last()) {
            1nat
        } else {
            0nat
        }
    }
}

/// Whether a value is a percentile of others, by nearest rank: it is one of them, at
/// least that share of them are no larger, and less than that share of them are smaller.
pub open spec fn is_percentile(values: Seq<u64>, percentage: nat, value: nat) -> bool {
    &&& exists|i: int| 0 <= i < values.len() && #[trigger] values[i] == value
    &&& 100 * tally(values, |other: u64| other <= value) >= percentage * values.len()
    &&& 100 * tally(values, |other: u64| other < value) < percentage * values.len()
}

/// Whether a value is the largest of others.
pub open spec fn is_largest(values: Seq<u64>, value: nat) -> bool {
    &&& exists|i: int| 0 <= i < values.len() && #[trigger] values[i] == value
    &&& forall|i: int| 0 <= i < values.len() ==> #[trigger] values[i] <= value
}

/// The time from the start of each frame to the start of the next one; none where the
/// clock went back.
pub open spec fn gaps(samples: Seq<FrameSample>) -> Seq<u64> {
    Seq::new(
        (samples.len() - 1) as nat,
        |i: int|
            (if samples[i].begun_ns <= samples[i + 1].begun_ns {
                samples[i + 1].begun_ns - samples[i].begun_ns
            } else {
                0
            }) as u64,
    )
}

/// The time that each frame took from its start to its presentation.
pub open spec fn efforts(samples: Seq<FrameSample>) -> Seq<u64> {
    Seq::new(
        samples.len(),
        |i: int|
            (if samples[i].begun_ns <= samples[i].surface_presented_ns {
                samples[i].surface_presented_ns - samples[i].begun_ns
            } else {
                0
            }) as u64,
    )
}

proof fn lemma_tally_of_multiset(values: Seq<u64>, chosen: spec_fn(u64) -> bool)
    ensures
        tally(values, chosen) == values.to_multiset().filter(chosen).len(),
    decreases values.len(),
{
    broadcast use vstd::seq_lib::group_to_multiset_ensures;
    broadcast use vstd::multiset::group_multiset_axioms;

    let all = values.to_multiset();
    if values.len() == 0 {
        assert(all =~= vstd::multiset::Multiset::empty());
        assert(all.filter(chosen) =~= vstd::multiset::Multiset::empty());
    } else {
        let fewer = values.drop_last();
        lemma_tally_of_multiset(fewer, chosen);
        assert(values =~= fewer.push(values.last()));
        assert(all =~= fewer.to_multiset().insert(values.last()));
        if chosen(values.last()) {
            assert(all.filter(chosen) =~= fewer.to_multiset().filter(chosen).insert(
                values.last(),
            ));
        } else {
            assert(all.filter(chosen) =~= fewer.to_multiset().filter(chosen));
        }
    }
}

proof fn lemma_tally_bounds(values: Seq<u64>, chosen: spec_fn(u64) -> bool, count: int)
    requires
        0 <= count <= values.len(),
    ensures
        (forall|i: int| 0 <= i < count ==> chosen(#[trigger] values[i])) ==> tally(values, chosen)
            >= count,
        (forall|i: int| count <= i < values.len() ==> !chosen(#[trigger] values[i])) ==> tally(
            values,
            chosen,
        ) <= count,
        tally(values, chosen) <= values.len(),
    decreases values.len(),
{
    if values.len() > 0 {
        let fewer = values.drop_last();
        assert forall|i: int| 0 <= i < fewer.len() implies fewer[i] == #[trigger] values[i] by {}
        if count < values.len() {
            lemma_tally_bounds(fewer, chosen, count);
            if forall|i: int| 0 <= i < count ==> chosen(#[trigger] values[i]) {
                assert forall|i: int| 0 <= i < count implies chosen(#[trigger] fewer[i]) by {
                    assert(chosen(values[i]));
                }
            }
            if forall|i: int| count <= i < values.len() ==> !chosen(#[trigger] values[i]) {
                assert forall|i: int| count <= i < fewer.len() implies !chosen(
                    #[trigger] fewer[i],
                ) by {
                    assert(!chosen(values[i]));
                }
                assert(!chosen(values[values.len() - 1]));
            }
        } else {
            lemma_tally_bounds(fewer, chosen, count - 1);
            if forall|i: int| 0 <= i < count ==> chosen(#[trigger] values[i]) {
                assert forall|i: int| 0 <= i < count - 1 implies chosen(#[trigger] fewer[i]) by {
                    assert(chosen(values[i]));
                }
                assert(chosen(values[values.len() - 1]));
            }
        }
    }
}

proof fn lemma_percentile(values: Seq<u64>, percentage: nat)
    requires
        values.len() > 0,
        0 < percentage <= 100,
        100 * values.len() <= usize::MAX,
    ensures
        is_percentile(values, percentage, percentile_of(values, percentage)),
{
    let sorted = ranked(values);
    lemma_ranked(values);
    let at = rank(values.len(), percentage);
    let product = percentage * values.len();
    assert(product <= 100 * values.len() && product >= values.len()) by (nonlinear_arith)
        requires
            product == percentage * values.len(),
            0 < percentage <= 100,
    ;
    assert(100 * at < product <= 100 * (at + 1));
    assert(0 <= at < values.len());
    let value = sorted[at];
    let up_to = |other: u64| other <= value;
    let below = |other: u64| other < value;
    values.lemma_sort_by_ensures(|a: u64, b: u64| a <= b);
    lemma_tally_of_multiset(values, up_to);
    lemma_tally_of_multiset(values, below);
    lemma_tally_of_multiset(sorted, up_to);
    lemma_tally_of_multiset(sorted, below);
    lemma_tally_bounds(sorted, up_to, at + 1);
    lemma_tally_bounds(sorted, below, at);
    let number = value as nat;
    lemma_same_tally(values, up_to, |other: u64| other <= number);
    lemma_same_tally(values, below, |other: u64| other < number);
    lemma_ranked_members(values, at);
}

proof fn lemma_same_tally(
    values: Seq<u64>,
    left: spec_fn(u64) -> bool,
    right: spec_fn(u64) -> bool,
)
    requires
        forall|value: u64| #[trigger] left(value) == right(value),
    ensures
        tally(values, left) == tally(values, right),
    decreases values.len(),
{
    if values.len() > 0 {
        lemma_same_tally(values.drop_last(), left, right);
        assert(left(values.last()) == right(values.last()));
    }
}

proof fn lemma_ranked_members(values: Seq<u64>, at: int)
    requires
        0 <= at < values.len(),
    ensures
        ranked(values).len() == values.len(),
        exists|i: int| 0 <= i < values.len() && #[trigger] values[i] == ranked(values)[at],
        forall|i: int|
            0 <= i < values.len() ==> exists|j: int|
                0 <= j < values.len() && #[trigger] ranked(values)[j] == #[trigger] values[i],
{
    broadcast use vstd::seq_lib::group_to_multiset_ensures;

    let sorted = ranked(values);
    lemma_ranked(values);
    values.lemma_sort_by_ensures(|a: u64, b: u64| a <= b);
    assert(sorted.contains(sorted[at]));
    assert(sorted.to_multiset().count(sorted[at]) > 0);
    assert(values.contains(sorted[at]));
    assert forall|i: int| 0 <= i < values.len() implies exists|j: int|
        0 <= j < values.len() && #[trigger] sorted[j] == #[trigger] values[i] by {
        assert(values.contains(values[i]));
        assert(values.to_multiset().count(values[i]) > 0);
        assert(sorted.contains(values[i]));
    }
}

proof fn lemma_largest(values: Seq<u64>)
    requires
        values.len() > 0,
    ensures
        is_largest(values, ranked(values).last() as nat),
{
    lemma_ranked(values);
    lemma_ranked_members(values, values.len() - 1);
    let sorted = ranked(values);
    assert forall|i: int| 0 <= i < values.len() implies #[trigger] values[i] <= sorted.last() by {
        let j = choose|j: int| 0 <= j < values.len() && #[trigger] sorted[j] == values[i];
        assert(sorted[j] <= sorted[values.len() - 1]);
    }
}

proof fn lemma_measures(samples: Seq<FrameSample>)
    requires
        2 <= samples.len(),
        100 * samples.len() <= usize::MAX,
    ensures
        is_percentile(gaps(samples), 50, p50_of(samples)),
        is_percentile(gaps(samples), 95, p95_of(samples)),
        is_largest(gaps(samples), worst_of(samples)),
        is_percentile(efforts(samples), 95, paint_p95_of(samples)),
{
    assert(gaps(samples) =~= cadence(samples));
    assert(efforts(samples) =~= paint(samples));
    lemma_percentile(gaps(samples), 50);
    lemma_percentile(gaps(samples), 95);
    lemma_percentile(efforts(samples), 95);
    lemma_largest(gaps(samples));
}

/// Whether a limit is declared and a value exceeds it.
pub open spec fn over(limit: Option<nat>, value: nat) -> bool {
    limit matches Some(limit) && value > limit
}

/// Cadence is accepted exactly where there are frames enough and none of the four
/// measures exceeds its declared limit. The report holds the measures themselves; a
/// refusal names a measure that exceeds its limit, with both.
pub proof fn law_adjudication_checks_every_limit(
    trace: &FrameTrace,
    operation: &str,
    budget: CadenceBudget,
    outcome: Result<CadenceReport>,
)
    requires
        FrameTrace::adjudicate.ensures((trace, operation, budget), outcome),
        100 * trace@.len() <= usize::MAX,
    ensures
        match outcome {
            Ok(report) => {
                &&& trace@.len() >= 2
                &&& trace@.len() >= budget@.minimum_frames
                &&& report.frames == trace@.len()
                &&& is_percentile(gaps(trace@), 50, report.p50@)
                &&& is_percentile(gaps(trace@), 95, report.p95@)
                &&& is_largest(gaps(trace@), report.worst@)
                &&& is_percentile(efforts(trace@), 95, report.paint_p95@)
                &&& !over(budget@.p50, report.p50@)
                &&& !over(budget@.p95, report.p95@)
                &&& !over(budget@.worst, report.worst@)
                &&& !over(budget@.paint_p95, report.paint_p95@)
            },
            Err(error) => match error@ {
                ErrorView::Timing { operation: told, .. } => told == operation@ && (trace@.len()
                    < 2 || trace@.len() < budget@.minimum_frames),
                ErrorView::TooSlow { operation: told, budget: limit, elapsed } => {
                    &&& trace@.len() >= 2
                    &&& trace@.len() >= budget@.minimum_frames
                    &&& elapsed > limit
                    &&& {
                        ||| budget@.p50 == Some(limit) && is_percentile(gaps(trace@), 50, elapsed)
                            && told == operation@ + " "@ + "median cadence"@
                        ||| budget@.p95 == Some(limit) && is_percentile(gaps(trace@), 95, elapsed)
                            && told == operation@ + " "@ + "p95 cadence"@
                        ||| budget@.worst == Some(limit) && is_largest(gaps(trace@), elapsed)
                            && told == operation@ + " "@ + "worst cadence"@
                        ||| budget@.paint_p95 == Some(limit) && is_percentile(
                            efforts(trace@),
                            95,
                            elapsed,
                        ) && told == operation@ + " "@ + "p95 frame work"@
                    }
                },
                _ => false,
            },
        },
{
    if trace@.len() >= 2 {
        lemma_measures(trace@);
    }
}

/// A fresh budget demands two frames and limits nothing, and each declaration changes
/// what it is about and nothing else.
pub proof fn law_budgets_limit_what_they_declare(
    fresh: CadenceBudget,
    budget: CadenceBudget,
    limit: Duration,
    minimum: usize,
    changed: CadenceBudget,
)
    requires
        <CadenceBudget as Default>::default.ensures((), fresh),
    ensures
        fresh@.minimum_frames == 2,
        fresh@.p50 is None,
        fresh@.p95 is None,
        fresh@.worst is None,
        fresh@.paint_p95 is None,
        CadenceBudget::minimum_frames.ensures((budget, minimum), changed) ==> {
            &&& changed@.minimum_frames == minimum
            &&& changed@.p50 == budget@.p50
            &&& changed@.p95 == budget@.p95
            &&& changed@.worst == budget@.worst
            &&& changed@.paint_p95 == budget@.paint_p95
        },
        CadenceBudget::p50.ensures((budget, limit), changed) ==> {
            &&& changed@.minimum_frames == budget@.minimum_frames
            &&& changed@.p50 == Some(limit@)
            &&& changed@.p95 == budget@.p95
            &&& changed@.worst == budget@.worst
            &&& changed@.paint_p95 == budget@.paint_p95
        },
        CadenceBudget::p95.ensures((budget, limit), changed) ==> {
            &&& changed@.minimum_frames == budget@.minimum_frames
            &&& changed@.p50 == budget@.p50
            &&& changed@.p95 == Some(limit@)
            &&& changed@.worst == budget@.worst
            &&& changed@.paint_p95 == budget@.paint_p95
        },
        CadenceBudget::worst.ensures((budget, limit), changed) ==> {
            &&& changed@.minimum_frames == budget@.minimum_frames
            &&& changed@.p50 == budget@.p50
            &&& changed@.p95 == budget@.p95
            &&& changed@.worst == Some(limit@)
            &&& changed@.paint_p95 == budget@.paint_p95
        },
        CadenceBudget::paint_p95.ensures((budget, limit), changed) ==> {
            &&& changed@.minimum_frames == budget@.minimum_frames
            &&& changed@.p50 == budget@.p50
            &&& changed@.p95 == budget@.p95
            &&& changed@.worst == budget@.worst
            &&& changed@.paint_p95 == Some(limit@)
        },
{
}

/// Isolating a gesture keeps exactly the frames that began between its start and its
/// end, both included, and keeps them in the order of the trace.
pub proof fn law_isolated_frames_began_within_the_gesture(
    trace: &FrameTrace,
    action: &ActionReceipt,
    isolated: FrameTrace,
)
    requires
        FrameTrace::during.ensures((trace, action), isolated),
    ensures
        forall|sample: FrameSample| #[trigger]
            isolated@.contains(sample) <==> trace@.contains(sample) && action@.gesture_started_ns
                <= sample.begun_ns && sample.begun_ns <= action@.completed_ns,
        isolated@.len() <= trace@.len(),
        (forall|i: int, j: int|
            0 <= i < j < trace@.len() ==> (#[trigger] trace@[i]).begun_ns <= (
            #[trigger] trace@[j]).begun_ns) ==> forall|i: int, j: int|
            0 <= i < j < isolated@.len() ==> (#[trigger] isolated@[i]).begun_ns <= (
            #[trigger] isolated@[j]).begun_ns,
{
    law_gestures_isolate_their_frames(trace@, action@);
    let chosen = |sample: FrameSample| within_gesture(sample, action@);
    if forall|i: int, j: int|
        0 <= i < j < trace@.len() ==> (#[trigger] trace@[i]).begun_ns <= (
        #[trigger] trace@[j]).begun_ns {
        lemma_filter_keeps_order(trace@, chosen);
    }
    lemma_filter_shortens(trace@, chosen);
}

proof fn lemma_filter_shortens(samples: Seq<FrameSample>, chosen: spec_fn(FrameSample) -> bool)
    ensures
        samples.filter(chosen).len() <= samples.len(),
    decreases samples.len(),
{
    reveal(Seq::filter);
    if samples.len() > 0 {
        lemma_filter_shortens(samples.drop_last(), chosen);
    }
}

proof fn lemma_filter_keeps_order(samples: Seq<FrameSample>, chosen: spec_fn(FrameSample) -> bool)
    requires
        forall|i: int, j: int|
            0 <= i < j < samples.len() ==> (#[trigger] samples[i]).begun_ns <= (
            #[trigger] samples[j]).begun_ns,
    ensures
        forall|i: int, j: int|
            0 <= i < j < samples.filter(chosen).len() ==> (#[trigger] samples.filter(
                chosen,
            )[i]).begun_ns <= (#[trigger] samples.filter(chosen)[j]).begun_ns,
    decreases samples.len(),
{
    reveal(Seq::filter);
    if samples.len() > 0 {
        let fewer = samples.drop_last();
        assert forall|i: int, j: int| 0 <= i < j < fewer.len() implies (
        #[trigger] fewer[i]).begun_ns <= (#[trigger] fewer[j]).begun_ns by {
            assert(samples[i].begun_ns <= samples[j].begun_ns);
        }
        lemma_filter_keeps_order(fewer, chosen);
        let kept = fewer.filter(chosen);
        let whole = samples.filter(chosen);
        assert forall|i: int, j: int| 0 <= i < j < whole.len() implies (
        #[trigger] whole[i]).begun_ns <= (#[trigger] whole[j]).begun_ns by {
            assert(whole[i] == kept[i]);
            if j < kept.len() {
                assert(whole[j] == kept[j]);
            } else {
                lemma_filter_members(fewer, chosen, kept[i]);
                assert(kept.contains(kept[i]));
                let k = choose|k: int| 0 <= k < fewer.len() && fewer[k] == kept[i];
                assert(samples[k].begun_ns <= samples[samples.len() - 1].begun_ns);
            }
        }
    }
}

/// A wait for the frames of a gesture ends with them only once a frame began at or
/// after the gesture's end; it goes on while there is time, and a journal that is there
/// but wrong ends it at once.
pub proof fn law_frame_waits_span_the_gesture(
    probe: &FrameProbe,
    reading: Result<FrameTrace>,
    action: &ActionReceipt,
    expired: bool,
    timeout: Duration,
    round: Result<Round<FrameTrace>>,
)
    requires
        FrameProbe::trace.ensures((probe, reading, action, expired, timeout), round),
    ensures
        round matches Ok(Round::Done(found)) ==> reading matches Ok(trace) && trace@.len() > 0
            && trace@[trace@.len() - 1].begun_ns >= action@.completed_ns && forall|
            sample: FrameSample,
        | #[trigger]
            found@.contains(sample) <==> trace@.contains(sample) && action@.gesture_started_ns
                <= sample.begun_ns && sample.begun_ns <= action@.completed_ns,
        (reading matches Ok(trace) && trace@.len() > 0 && trace@[trace@.len() - 1].begun_ns
            >= action@.completed_ns) ==> round matches Ok(Round::Done(_)),
        round matches Ok(Round::Again(_)) ==> !expired,
        (reading matches Err(error) && !(error@ is Io)) ==> round is Err,
{
    if let Ok(trace) = reading {
        law_gestures_isolate_their_frames(trace@, action@);
    }
}

proof fn lemma_filter_members(
    samples: Seq<FrameSample>,
    chosen: spec_fn(FrameSample) -> bool,
    sample: FrameSample,
)
    ensures
        samples.filter(chosen).contains(sample) <==> samples.contains(sample) && chosen(sample),
    decreases samples.len(),
{
    reveal(Seq::filter);
    if samples.len() > 0 {
        let shorter = samples.drop_last();
        let kept = shorter.filter(chosen);
        let whole = samples.filter(chosen);
        lemma_filter_members(shorter, chosen, sample);
        if samples.contains(sample) {
            let i = choose|i: int| 0 <= i < samples.len() && samples[i] == sample;
            if i < shorter.len() {
                assert(shorter[i] == sample);
            }
        }
        if shorter.contains(sample) {
            let i = choose|i: int| 0 <= i < shorter.len() && shorter[i] == sample;
            assert(samples[i] == sample);
        }
        if kept.contains(sample) {
            let i = choose|i: int| 0 <= i < kept.len() && kept[i] == sample;
            assert(whole[i] == sample);
        }
        if whole.contains(sample) {
            let i = choose|i: int| 0 <= i < whole.len() && whole[i] == sample;
            if i < kept.len() {
                assert(kept[i] == sample);
            } else {
                assert(samples[samples.len() - 1] == sample);
            }
        }
        if chosen(samples.last()) {
            assert(whole[kept.len() as int] == samples.last());
        }
    }
}

proof fn lemma_filter_keeps_all(samples: Seq<FrameSample>, chosen: spec_fn(FrameSample) -> bool)
    requires
        forall|i: int| 0 <= i < samples.len() ==> chosen(#[trigger] samples[i]),
    ensures
        samples.filter(chosen) == samples,
    decreases samples.len(),
{
    reveal(Seq::filter);
    if samples.len() > 0 {
        lemma_filter_keeps_all(samples.drop_last(), chosen);
        assert(samples.filter(chosen) =~= samples.drop_last().push(samples.last()));
        assert(samples.filter(chosen) =~= samples);
    } else {
        assert(samples.filter(chosen) =~= samples);
    }
}

} // verus!
