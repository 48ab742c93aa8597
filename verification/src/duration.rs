//! Spans of monotonic time in whole nanoseconds.
use vstd::prelude::*;

verus! {

/// Nanoseconds in one second.
pub const SECOND_NS: u128 = 1_000_000_000;

/// The longest representable span: the largest whole second count plus the
/// largest sub-second remainder.
pub const LONGEST_NS: u128 = 18_446_744_073_709_551_615_999_999_999;

/// A span of time, at most [`LONGEST_NS`] nanoseconds.
#[derive(Clone, Copy, Debug, PartialEq, Eq, PartialOrd, Ord, Structural)]
pub struct Duration {
    nanos: u128,
}

impl View for Duration {
    type V = nat;

    closed spec fn view(&self) -> nat {
        self.nanos as nat
    }
}

impl Duration {
    #[verifier::type_invariant]
    spec fn bounded(self) -> bool {
        self.nanos <= LONGEST_NS
    }

    /// Every span fits the bound.
    pub fn bound(self) -> (nanos: u128)
        ensures
            nanos == self@,
            self@ <= LONGEST_NS,
    {
        proof {
            use_type_invariant(&self);
        }
        self.nanos
    }

    /// The empty span.
    pub fn zero() -> (span: Self)
        ensures
            span@ == 0,
    {
        Duration { nanos: 0 }
    }

    pub fn from_nanos(nanos: u64) -> (span: Self)
        ensures
            span@ == nanos,
    {
        Duration { nanos: nanos as u128 }
    }

    pub fn from_millis(millis: u64) -> (span: Self)
        ensures
            span@ == millis * 1_000_000,
    {
        Duration { nanos: millis as u128 * 1_000_000 }
    }

    pub fn from_secs(secs: u64) -> (span: Self)
        ensures
            span@ == secs * 1_000_000_000,
    {
        Duration { nanos: secs as u128 * SECOND_NS }
    }

    /// A span of whole seconds plus a sub-second remainder.
    pub fn new(secs: u64, subsec_nanos: u32) -> (span: Self)
        requires
            subsec_nanos < 1_000_000_000,
        ensures
            span@ == secs * 1_000_000_000 + subsec_nanos,
    {
        Duration { nanos: secs as u128 * SECOND_NS + subsec_nanos as u128 }
    }

    pub fn as_nanos(self) -> (nanos: u128)
        ensures
            nanos == self@,
            self@ <= LONGEST_NS,
    {
        self.bound()
    }

    pub fn as_millis(self) -> (millis: u128)
        ensures
            millis == self@ / 1_000_000,
    {
        self.nanos / 1_000_000
    }

    /// Whole seconds.
    pub fn as_secs(self) -> (secs: u64)
        ensures
            secs == self@ / 1_000_000_000,
    {
        let nanos: u128 = self.bound();
        (nanos / SECOND_NS) as u64
    }

    /// Nanoseconds past the last whole second.
    pub fn subsec_nanos(self) -> (nanos: u32)
        ensures
            nanos == self@ % 1_000_000_000,
    {
        (self.nanos % SECOND_NS) as u32
    }

    pub fn is_zero(self) -> (zero: bool)
        ensures
            zero == (self@ == 0),
    {
        self.nanos == 0
    }

    /// Strictly longer than `other`.
    pub fn exceeds(self, other: Self) -> (longer: bool)
        ensures
            longer == (self@ > other@),
    {
        self.nanos > other.nanos
    }

    /// The span scaled by `factor`, clamped to the longest span.
    pub fn saturating_mul(self, factor: u32) -> (span: Self)
        ensures
            span@ == if self@ * factor <= LONGEST_NS {
                self@ * factor
            } else {
                LONGEST_NS as int
            },
    {
        let nanos: u128 = self.bound();
        assert(nanos * factor <= LONGEST_NS * 0xffff_ffff) by (nonlinear_arith)
            requires
                nanos <= LONGEST_NS,
                factor <= 0xffff_ffff,
        ;
        let product: u128 = nanos * factor as u128;
        if product <= LONGEST_NS {
            Duration { nanos: product }
        } else {
            Duration { nanos: LONGEST_NS }
        }
    }

    /// The longer of two spans.
    pub fn max(self, other: Self) -> (span: Self)
        ensures
            span@ == if self@ >= other@ {
                self@
            } else {
                other@
            },
    {
        if self.nanos >= other.nanos {
            self
        } else {
            other
        }
    }

    /// Diagnostic rendering with a unit suffix, such as `1.5s`.
    pub fn text(self) -> (text: String)
        ensures
            text@ == rendered(self@),
    {
        debug_text(self.as_secs(), self.subsec_nanos())
    }

    /// One of `parts` equal shares, rounded down to a nanosecond.
    pub fn share(self, parts: u32) -> (span: Self)
        requires
            parts > 0,
        ensures
            span@ == self@ / parts as nat,
    {
        let nanos: u128 = self.bound();
        let share: u128 = nanos / parts as u128;
        assert(share <= nanos) by (nonlinear_arith)
            requires
                share == nanos / (parts as u128),
                parts > 0,
        ;
        Duration { nanos: share }
    }
}

/// A span is determined by its nanoseconds.
pub proof fn lemma_nanoseconds_determine_span(left: Duration, right: Duration)
    ensures
        left@ == right@ ==> left == right,
{
}

/// Some span is empty.
pub proof fn lemma_no_time_is_a_span()
    ensures
        exists|span: Duration| span@ == 0,
{
    let span = Duration { nanos: 0 };
    assert(span@ == 0);
}

/// The diagnostic text of a standard duration of whole seconds plus a
/// sub-second remainder.
pub uninterp spec fn span_text(secs: u64, subsec_nanos: u32) -> Seq<char>;

/// The diagnostic text of a span.
pub open spec fn rendered(nanos: nat) -> Seq<char> {
    span_text((nanos / 1_000_000_000) as u64, (nanos % 1_000_000_000) as u32)
}

/// `Debug` for `std::time::Duration`: renders a duration with a unit suffix.
/// The rendering depends on the two parts alone; [`span_text`] names it.
#[verifier::external_body]
fn debug_text(secs: u64, subsec_nanos: u32) -> (text: String)
    requires
        subsec_nanos < 1_000_000_000,
    ensures
        text@ == span_text(secs, subsec_nanos),
{
    format!("{:?}", std::time::Duration::new(secs, subsec_nanos))
}

/// A span is built from its seconds, milliseconds or nanoseconds, and read back in them,
/// rounded down.
pub proof fn law_spans_keep_their_length(
    amount: u64,
    seconds: Duration,
    millis: Duration,
    nanos: Duration,
    span: Duration,
    whole: u64,
    thousandths: u128,
    rest: u32,
)
    requires
        Duration::from_secs.ensures((amount,), seconds),
        Duration::from_millis.ensures((amount,), millis),
        Duration::from_nanos.ensures((amount,), nanos),
        Duration::as_secs.ensures((span,), whole),
        Duration::as_millis.ensures((span,), thousandths),
        Duration::subsec_nanos.ensures((span,), rest),
    ensures
        nanos@ == amount,
        millis@ == 1_000_000 * amount,
        seconds@ == 1_000 * millis@,
        span@ == 1_000_000_000 * whole + rest,
        rest < 1_000_000_000,
        1_000_000 * thousandths <= span@ < 1_000_000 * (thousandths + 1),
{
}

/// Equal shares of a span fit into it and leave less than one nanosecond each over.
pub proof fn law_shares_fit_their_span(
    span: Duration,
    parts: u32,
    share: Duration,
    other: Duration,
    longer: bool,
    longest: Duration,
)
    requires
        parts > 0,
        Duration::share.ensures((span, parts), share),
        Duration::exceeds.ensures((span, other), longer),
        Duration::max.ensures((span, other), longest),
    ensures
        share@ * parts <= span@ < (share@ + 1) * parts,
        longer <==> other@ < span@,
        longest@ >= span@ && longest@ >= other@,
        longest@ == span@ || longest@ == other@,
{
    let part = parts as nat;
    vstd::arithmetic::div_mod::lemma_fundamental_div_mod(span@ as int, parts as int);
    vstd::arithmetic::div_mod::lemma_mod_bound(span@ as int, parts as int);
    assert(share@ * parts <= span@ && span@ < (share@ + 1) * parts) by (nonlinear_arith)
        requires
            span@ == parts * share@ + span@ % part,
            0 <= span@ % part < parts,
    ;
}

} // verus!
