//! What a plan is carried out on.
use vstd::prelude::*;

verus! {

/// What does one act after another. Every act changes it, so that how often and in
/// which order it was asked shows in what it has become.
pub trait Stage<A: View, E>: Sized {
    /// Whether an act can leave the stage so, with an outcome.
    spec fn goes(before: Self, act: A::V, outcome: Result<(), E>, after: Self) -> bool;

    /// Do one act.
    fn perform(&mut self, act: &A) -> (outcome: Result<(), E>)
        ensures
            Self::goes(*old(self), act@, outcome, *final(self)),
    ;
}

/// Whether a series of stages begins and ends so.
pub open spec fn spans<P>(stages: Seq<P>, before: P, after: P) -> bool {
    stages.len() > 0 && stages[0] == before && stages.last() == after
}

/// Whether a series of acts was done in order, each once, by way of these stages.
pub open spec fn does_all<A: View, E, P: Stage<A, E>>(stages: Seq<P>, acts: Seq<A::V>) -> bool {
    &&& stages.len() == acts.len() + 1
    &&& forall|i: int|
        0 <= i < acts.len() ==> P::goes(stages[i], #[trigger] acts[i], Ok(()), stages[i + 1])
}

/// Whether a series of acts can fail at one of them, those before it done.
pub open spec fn fails_at<A: View, E, P: Stage<A, E>>(
    stages: Seq<P>,
    acts: Seq<A::V>,
    at: int,
    fault: E,
    after: P,
) -> bool {
    &&& 0 <= at < acts.len()
    &&& does_all::<A, E, P>(stages, acts.take(at))
    &&& P::goes(stages.last(), acts[at], Err(fault), after)
}

/// One act more.
pub proof fn lemma_one_more_act<A: View, E, P: Stage<A, E>>(
    stages: Seq<P>,
    acts: Seq<A::V>,
    at: int,
    after: P,
)
    requires
        0 <= at < acts.len(),
        does_all::<A, E, P>(stages, acts.take(at)),
        P::goes(stages.last(), acts[at], Ok(()), after),
    ensures
        does_all::<A, E, P>(stages.push(after), acts.take(at + 1)),
{
    let done = acts.take(at);
    let longer = acts.take(at + 1);
    let passed = stages.push(after);
    assert forall|i: int| 0 <= i < longer.len() implies P::goes(
        passed[i],
        #[trigger] longer[i],
        Ok(()),
        passed[i + 1],
    ) by {
        if i < at {
            assert(longer[i] == done[i]);
        }
    }
}

// ---------------------------------------------------------------------------
// Rehearsals
// ---------------------------------------------------------------------------

/// An act that can be noted.
pub trait Act: View + Sized {
    /// The same act once more.
    fn noted(&self) -> (copy: Self)
        ensures
            copy@ == self@,
    ;
}

/// A stage that does every act by noting it.
#[derive(Debug)]
pub struct Rehearsal<A> {
    pub acts: Vec<A>,
}

impl<A: View> View for Rehearsal<A> {
    type V = Seq<A::V>;

    open spec fn view(&self) -> Seq<A::V> {
        Seq::new(self.acts@.len(), |i: int| self.acts@[i]@)
    }
}

impl<A: View> Rehearsal<A> {
    /// Begin with nothing noted.
    pub fn new() -> (rehearsal: Self)
        ensures
            rehearsal@ == Seq::<A::V>::empty(),
    {
        let rehearsal = Rehearsal { acts: Vec::new() };
        assert(rehearsal@ =~= Seq::<A::V>::empty());
        rehearsal
    }
}

impl<A: Act, E> Stage<A, E> for Rehearsal<A> {
    open spec fn goes(before: Self, act: A::V, outcome: Result<(), E>, after: Self) -> bool {
        outcome is Ok && after@ == before@.push(act)
    }

    fn perform(&mut self, act: &A) -> (outcome: Result<(), E>) {
        let ghost before = self@;
        self.acts.push(act.noted());
        assert(self@ =~= before.push(act@));
        Ok(())
    }
}

/// What was done on a stage is each act once, in its order, and nothing else.
pub proof fn law_acts_are_done_to_the_letter<A: Act, E>(
    stages: Seq<Rehearsal<A>>,
    acts: Seq<A::V>,
)
    requires
        does_all::<A, E, Rehearsal<A>>(stages, acts),
    ensures
        stages.last()@ == stages[0]@ + acts,
    decreases acts.len(),
{
    if acts.len() > 0 {
        let last = acts.len() - 1;
        let shorter = acts.drop_last();
        let fewer = stages.drop_last();
        assert(does_all::<A, E, Rehearsal<A>>(fewer, shorter)) by {
            assert forall|i: int| 0 <= i < shorter.len() implies <Rehearsal<A> as Stage<
                A,
                E,
            >>::goes(fewer[i], #[trigger] shorter[i], Ok(()), fewer[i + 1]) by {
                assert(shorter[i] == acts[i]);
            }
        }
        law_acts_are_done_to_the_letter::<A, E>(fewer, shorter);
        assert(<Rehearsal<A> as Stage<A, E>>::goes(
            stages[last],
            acts[last],
            Ok(()),
            stages[last + 1],
        ));
    }
    assert(stages.last()@ =~= stages[0]@ + acts);
}

} // verus!
