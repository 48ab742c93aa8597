//! Projections that stay unchanged.
use crate::duration::Duration;
use vstd::prelude::*;
use vstd::std_specs::cmp::PartialEqSpec;

verus! {

/// How long a projection has stayed what it is. Times are spans since a common
/// epoch.
#[derive(Debug)]
pub struct Stability<T> {
    streak: Option<(T, Duration)>,
}

/// Time from one instant to a later one; none when it is not later.
pub open spec fn since(now: nat, earlier: nat) -> nat {
    if now > earlier {
        (now - earlier) as nat
    } else {
        0
    }
}

/// Whether a projection carries a streak on.
pub open spec fn carries_on<T: PartialEq>(streak: Option<(T, nat)>, value: T) -> bool {
    streak matches Some((prior, _)) && prior.eq_spec(&value)
}

/// The streak after a projection was observed.
pub open spec fn streak_after<T: PartialEq>(streak: Option<(T, nat)>, value: T, now: nat) -> Option<
    (T, nat),
> {
    if carries_on(streak, value) {
        streak
    } else {
        Some((value, now))
    }
}

/// Whether an observed projection has been quiet for long enough.
pub open spec fn settled<T: PartialEq>(
    streak: Option<(T, nat)>,
    value: T,
    now: nat,
    quiet: nat,
) -> bool {
    carries_on(streak, value) && since(now, streak.unwrap().1) >= quiet
}

impl<T> View for Stability<T> {
    type V = Option<(T, nat)>;

    closed spec fn view(&self) -> Option<(T, nat)> {
        match self.streak {
            Some((value, begun)) => Some((value, begun@)),
            None => None,
        }
    }
}

impl<T: PartialEq> Stability<T> {
    /// No streak yet.
    pub fn new() -> (stability: Self)
        ensures
            stability@ is None,
    {
        Stability { streak: None }
    }

    /// Observe a projection, and decide whether it has been quiet for long
    /// enough. A projection that differs from the streak begins another.
    pub fn observe(&mut self, value: T, now: Duration, quiet: Duration) -> (stable: bool)
        ensures
            T::obeys_eq_spec() ==> stable == settled(old(self)@, value, now@, quiet@),
            T::obeys_eq_spec() ==> final(self)@ == streak_after(old(self)@, value, now@),
            stable ==> (old(self)@ matches Some((_, begun)) && since(now@, begun) >= quiet@),
            stable ==> final(self)@ == old(self)@,
            final(self)@ == old(self)@ || final(self)@ == Some((value, now@)),
    {
        let begun = match &self.streak {
            Some((prior, begun)) => {
                if *prior == value {
                    Some(*begun)
                } else {
                    None
                }
            },
            None => None,
        };
        match begun {
            Some(begun) => {
                let later: u128 = now.as_nanos();
                let earlier: u128 = begun.as_nanos();
                let elapsed: u128 = if later > earlier {
                    later - earlier
                } else {
                    0
                };
                elapsed >= quiet.as_nanos()
            },
            None => {
                self.streak = Some((value, now));
                false
            },
        }
    }

    /// End the streak.
    pub fn break_streak(&mut self)
        ensures
            final(self)@ is None,
    {
        self.streak = None;
    }
}

/// The streak that a series of observations leaves. An absent projection breaks
/// it.
pub open spec fn streak_of<T: PartialEq>(series: Seq<Option<(T, nat)>>) -> Option<(T, nat)>
    decreases series.len(),
{
    if series.len() == 0 {
        None
    } else {
        match series.last() {
            Some((value, now)) => streak_after(streak_of(series.drop_last()), value, now),
            None => None,
        }
    }
}

/// Whether a streak began at one observation of a series and every later one
/// carried it on.
pub open spec fn unbroken<T: PartialEq>(
    series: Seq<Option<(T, nat)>>,
    begin: int,
    streak: (T, nat),
) -> bool {
    &&& 0 <= begin < series.len()
    &&& series[begin] == Some(streak)
    &&& forall|i: int|
        begin < i < series.len() ==> (#[trigger] series[i] matches Some((value, _))
            && streak.0.eq_spec(&value))
}

/// A projection counts as stable only when it was observed at least `quiet`
/// earlier and every observation since then agreed with it.
pub proof fn law_stability_needs_an_unbroken_quiet_interval<T: PartialEq>(
    series: Seq<Option<(T, nat)>>,
    value: T,
    now: nat,
    quiet: nat,
)
    requires
        settled(streak_of(series), value, now, quiet),
    ensures
        exists|begin: int|
            #![trigger series[begin]]
            0 <= begin < series.len() && (series[begin] matches Some(streak) && unbroken(
                series,
                begin,
                streak,
            ) && streak.0.eq_spec(&value) && since(now, streak.1) >= quiet),
{
    let streak = streak_of(series).unwrap();
    let begin = lemma_streak(series);
    assert(series[begin] == Some(streak));
}

proof fn lemma_streak<T: PartialEq>(series: Seq<Option<(T, nat)>>) -> (begin: int)
    requires
        streak_of(series) is Some,
    ensures
        unbroken(series, begin, streak_of(series).unwrap()),
    decreases series.len(),
{
    let (value, now) = series.last().unwrap();
    let front = series.drop_last();
    if carries_on(streak_of(front), value) {
        let begin = lemma_streak(front);
        let streak = streak_of(series).unwrap();
        assert forall|i: int| begin < i < series.len() implies (#[trigger] series[i] matches Some(
            (value, _),
        ) && streak.0.eq_spec(&value)) by {
            if i < front.len() {
                assert(front[i] == series[i]);
            }
        }
        assert(front[begin] == series[begin]);
        begin
    } else {
        series.len() - 1
    }
}

/// A projection is stable only once it was carried on for the whole quiet span since its
/// streak began, and a projection that differs begins a streak of its own at its own time.
pub proof fn law_streaks_begin_with_a_change<T: PartialEq>(
    streak: Option<(T, nat)>,
    value: T,
    now: nat,
    quiet: nat,
)
    ensures
        settled(streak, value, now, quiet) ==> (streak matches Some((held, begun)) && held.eq_spec(
            &value,
        ) && (quiet > 0 ==> begun + quiet <= now)),
        streak matches Some((held, begun)) ==> (held.eq_spec(&value) && begun + quiet <= now
            ==> settled(streak, value, now, quiet)),
        streak is None ==> !settled(streak, value, now, quiet) && streak_after(streak, value, now)
            == Some((value, now)),
        streak matches Some((held, _)) ==> (!held.eq_spec(&value) ==> streak_after(
            streak,
            value,
            now,
        ) == Some((value, now))),
        streak matches Some((held, _)) ==> (held.eq_spec(&value) ==> streak_after(
            streak,
            value,
            now,
        ) == streak),
{
}

} // verus!
