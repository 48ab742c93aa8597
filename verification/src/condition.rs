//! Semantic predicates that say why they reject a state.
use crate::text::{glue2, glue3};
use vstd::prelude::*;
use vstd::std_specs::cmp::PartialEqSpec;

verus! {

/// What a judge says of a state: that it is acceptable, or why it is not.
pub type Verdict = std::result::Result<(), String>;

/// The content of a verdict.
pub open spec fn shown(verdict: Verdict) -> std::result::Result<(), Seq<char>> {
    match verdict {
        Ok(_) => Ok(()),
        Err(mismatch) => Err(mismatch@),
    }
}

/// A judge of states.
pub trait Judge<S> {
    /// Whether the judge can be asked about any state.
    spec fn ready(&self) -> bool;

    /// Whether the judge can give a verdict on a state.
    spec fn can(&self, state: S, verdict: std::result::Result<(), Seq<char>>) -> bool;

    /// Judge a state.
    fn judge(&self, state: &S) -> (verdict: Verdict)
        requires
            self.ready(),
        ensures
            self.can(*state, shown(verdict)),
    ;
}

/// A judge that asks a function for its verdict.
struct Asking<F> {
    judge: F,
}

impl<S, F: Fn(&S) -> Verdict> Judge<S> for Asking<F> {
    closed spec fn ready(&self) -> bool {
        forall|state: &S| #[trigger] self.judge.requires((state,))
    }

    closed spec fn can(&self, state: S, verdict: std::result::Result<(), Seq<char>>) -> bool {
        told(self.judge, state, verdict)
    }

    fn judge(&self, state: &S) -> (verdict: Verdict) {
        let verdict = (self.judge)(state);
        assert(told(self.judge, *state, shown(verdict)));
        verdict
    }
}

/// Whether a function can give a verdict on a state.
pub open spec fn told<S, F: Fn(&S) -> Verdict>(
    judge: F,
    state: S,
    verdict: std::result::Result<(), Seq<char>>,
) -> bool {
    exists|seen: &S, given: Verdict|
        *seen == state && shown(given) == verdict && #[trigger] judge.ensures((seen,), given)
}

/// A judge that asks a function whether a state is acceptable.
struct Whether<F> {
    predicate: F,
    rejection: String,
}

/// Whether a function can accept a state, or turn it down with a fixed reason.
pub open spec fn answered<S, F: Fn(&S) -> bool>(
    predicate: F,
    rejection: Seq<char>,
    state: S,
    verdict: std::result::Result<(), Seq<char>>,
) -> bool {
    exists|seen: &S, held: bool|
        *seen == state && #[trigger] predicate.ensures((seen,), held) && verdict == if held {
            Ok(())
        } else {
            Err::<(), Seq<char>>(rejection)
        }
}

impl<S, F: Fn(&S) -> bool> Judge<S> for Whether<F> {
    closed spec fn ready(&self) -> bool {
        forall|state: &S| #[trigger] self.predicate.requires((state,))
    }

    closed spec fn can(&self, state: S, verdict: std::result::Result<(), Seq<char>>) -> bool {
        answered(self.predicate, self.rejection@, state, verdict)
    }

    fn judge(&self, state: &S) -> (verdict: Verdict) {
        let held = (self.predicate)(state);
        assert(self.predicate.ensures((state,), held));
        let verdict = if held {
            Ok(())
        } else {
            Err(self.rejection.clone())
        };
        assert(answered(self.predicate, self.rejection@, *state, shown(verdict)));
        verdict
    }
}

/// A judge of a part of a state.
#[verifier::reject_recursive_types(S)]
struct Projected<S: 'static, F> {
    project: F,
    inner: Condition<S>,
}

/// Whether a function can select a part of a state.
pub open spec fn selected<T, S, F: for<'a> Fn(&'a T) -> &'a S>(project: F, state: T, part: S) -> bool {
    exists|seen: &T, given: &S|
        *seen == state && *given == part && #[trigger] project.ensures((seen,), given)
}

/// Whether a condition on a part of a state can give a verdict on the state.
pub open spec fn through<T, S, F: for<'a> Fn(&'a T) -> &'a S>(
    project: F,
    inner: &Condition<S>,
    state: T,
    verdict: std::result::Result<(), Seq<char>>,
) -> bool {
    exists|part: S| #[trigger] selected(project, state, part) && inner.allows(part, verdict)
}

impl<T, S: 'static, F: for<'a> Fn(&'a T) -> &'a S> Judge<T> for Projected<S, F> {
    closed spec fn ready(&self) -> bool {
        forall|state: &T| #[trigger] self.project.requires((state,))
    }

    closed spec fn can(&self, state: T, verdict: std::result::Result<(), Seq<char>>) -> bool {
        through(self.project, &self.inner, state, verdict)
    }

    fn judge(&self, state: &T) -> (verdict: Verdict) {
        let part = (self.project)(state);
        assert(selected(self.project, *state, *part));
        self.inner.evaluate(part)
    }
}

/// A judge that demands what two judges demand.
#[verifier::reject_recursive_types(S)]
struct Conjunction<S: 'static> {
    left: Condition<S>,
    right: Condition<S>,
}

/// What two verdicts come to when both must accept: every rejection is told.
pub open spec fn conjunction(
    left: std::result::Result<(), Seq<char>>,
    right: std::result::Result<(), Seq<char>>,
) -> std::result::Result<(), Seq<char>> {
    match (left, right) {
        (Ok(_), Ok(_)) => Ok(()),
        (Err(left), Ok(_)) => Err(left),
        (Ok(_), Err(right)) => Err(right),
        (Err(left), Err(right)) => Err(left + "; "@ + right),
    }
}

/// Whether two conditions together can give a verdict on a state.
pub open spec fn jointly<S>(
    left: &Condition<S>,
    right: &Condition<S>,
    state: S,
    verdict: std::result::Result<(), Seq<char>>,
) -> bool {
    exists|one: std::result::Result<(), Seq<char>>, other: std::result::Result<(), Seq<char>>|
        #[trigger] left.allows(state, one) && #[trigger] right.allows(state, other) && verdict
            == conjunction(one, other)
}

impl<S: 'static> Judge<S> for Conjunction<S> {
    closed spec fn ready(&self) -> bool {
        true
    }

    closed spec fn can(&self, state: S, verdict: std::result::Result<(), Seq<char>>) -> bool {
        jointly(&self.left, &self.right, state, verdict)
    }

    fn judge(&self, state: &S) -> (verdict: Verdict) {
        let left = self.left.evaluate(state);
        let right = self.right.evaluate(state);
        let ghost one = shown(left);
        let ghost other = shown(right);
        assert(self.left.allows(*state, one) && self.right.allows(*state, other));
        let verdict: Verdict = match (left, right) {
            (Ok(_), Ok(_)) => Ok(()),
            (Err(left), Ok(_)) => Err(left),
            (Ok(_), Err(right)) => Err(right),
            (Err(left), Err(right)) => Err(glue3(left.as_str(), "; ", right.as_str())),
        };
        assert(shown(verdict) == conjunction(one, other));
        verdict
    }
}

/// A judge that demands what one of two judges demands.
#[verifier::reject_recursive_types(S)]
struct Disjunction<S: 'static> {
    left: Condition<S>,
    right: Condition<S>,
}

/// What two rejections come to when either judge may accept.
pub open spec fn neither(left: Seq<char>, right: Seq<char>) -> Seq<char> {
    "neither alternative held: "@ + left + "; "@ + right
}

/// Whether one of two conditions can give a verdict on a state. The second one
/// is asked only when the first rejects.
pub open spec fn either<S>(
    left: &Condition<S>,
    right: &Condition<S>,
    state: S,
    verdict: std::result::Result<(), Seq<char>>,
) -> bool {
    ||| left.allows(state, Ok(())) && verdict == Ok::<(), Seq<char>>(())
    ||| exists|one: Seq<char>, other: std::result::Result<(), Seq<char>>|
        #[trigger] left.allows(state, Err(one)) && #[trigger] right.allows(state, other)
            && verdict == alternatives(one, other)
}

/// What a second verdict comes to behind a rejection.
pub open spec fn alternatives(
    left: Seq<char>,
    right: std::result::Result<(), Seq<char>>,
) -> std::result::Result<(), Seq<char>> {
    match right {
        Ok(_) => Ok(()),
        Err(right) => Err(neither(left, right)),
    }
}

/// Accept what either of two judges accepts. The second one is asked only when the
/// first rejected, and cannot be asked when it accepted.
pub fn alternative<R: FnOnce() -> Verdict>(left: Verdict, right: R) -> (verdict: Verdict)
    requires
        left is Err ==> right.requires(()),
    ensures
        match left {
            Ok(_) => verdict is Ok,
            Err(mismatch) => exists|other: Verdict| #[trigger]
                right.ensures((), other) && shown(verdict) == alternatives(
                    mismatch@,
                    shown(other),
                ),
        },
{
    match left {
        Ok(_) => Ok(()),
        Err(left) => {
            let other = right();
            let ghost given = other;
            assert(right.ensures((), given));
            match other {
                Ok(_) => Ok(()),
                Err(right) => {
                    let mut mismatch = glue2("neither alternative held: ", left.as_str());
                    mismatch.append("; ");
                    mismatch.append(right.as_str());
                    Err(mismatch)
                },
            }
        },
    }
}

impl<S: 'static> Judge<S> for Disjunction<S> {
    closed spec fn ready(&self) -> bool {
        true
    }

    closed spec fn can(&self, state: S, verdict: std::result::Result<(), Seq<char>>) -> bool {
        either(&self.left, &self.right, state, verdict)
    }

    fn judge(&self, state: &S) -> (verdict: Verdict) {
        let left = self.left.evaluate(state);
        let ghost one = shown(left);
        assert(self.left.allows(*state, one));
        let right = || -> (verdict: Verdict)
            ensures
                self.right.allows(*state, shown(verdict)),
            { self.right.evaluate(state) };
        let verdict = alternative(left, right);
        proof {
            lemma_accepted(one);
            if let Err(mismatch) = one {
                let other = choose|other: Verdict| #[trigger]
                    right.ensures((), other) && shown(verdict) == alternatives(
                        mismatch,
                        shown(other),
                    );
                assert(self.left.allows(*state, Err(mismatch)));
                assert(self.right.allows(*state, shown(other)));
            }
        }
        verdict
    }
}

/// A judge that demands what another judge rejects.
#[verifier::reject_recursive_types(S)]
struct Negation<S: 'static> {
    inner: Condition<S>,
    rejection: String,
}

/// Whether the opposite of a condition can give a verdict on a state.
pub open spec fn opposite<S>(
    inner: &Condition<S>,
    rejection: Seq<char>,
    state: S,
    verdict: std::result::Result<(), Seq<char>>,
) -> bool {
    exists|found: std::result::Result<(), Seq<char>>|
        #[trigger] inner.allows(state, found) && verdict == match found {
            Ok(_) => Err(rejection),
            Err(_) => Ok::<(), Seq<char>>(()),
        }
}

impl<S: 'static> Judge<S> for Negation<S> {
    closed spec fn ready(&self) -> bool {
        true
    }

    closed spec fn can(&self, state: S, verdict: std::result::Result<(), Seq<char>>) -> bool {
        opposite(&self.inner, self.rejection@, state, verdict)
    }

    fn judge(&self, state: &S) -> (verdict: Verdict) {
        let found = self.inner.evaluate(state);
        assert(self.inner.allows(*state, shown(found)));
        match found {
            Ok(_) => Err(self.rejection.clone()),
            Err(_) => Ok(()),
        }
    }
}

/// Reified semantic predicate with a diagnostic rejection.
#[verifier::reject_recursive_types(S)]
pub struct Condition<S: 'static> {
    description: String,
    judge: Box<dyn Judge<S>>,
}

impl<S: 'static> Condition<S> {
    #[verifier::type_invariant]
    spec fn inv(self) -> bool {
        self.judge.ready()
    }

    /// What the condition demands, in words.
    pub closed spec fn words(&self) -> Seq<char> {
        self.description@
    }

    /// Whether the condition can give a verdict on a state.
    pub closed spec fn allows(&self, state: S, verdict: std::result::Result<(), Seq<char>>) -> bool {
        self.judge.can(state, verdict)
    }

    /// A condition from a function that says why it rejects a state.
    pub fn diagnostic<F: Fn(&S) -> Verdict + 'static>(description: &str, judge: F) -> (condition:
        Self)
        requires
            forall|state: &S| #[trigger] judge.requires((state,)),
        ensures
            condition.words() == description@,
            forall|state: S, verdict: std::result::Result<(), Seq<char>>|
                #[trigger] condition.allows(state, verdict) == told(judge, state, verdict),
    {
        let judge = Asking { judge };
        assert(<Asking<F> as Judge<S>>::ready(&judge));
        Condition { description: description.to_owned(), judge: Box::new(judge) }
    }

    /// What the condition demands, in words.
    pub fn description(&self) -> (description: &str)
        ensures
            description@ == self.words(),
    {
        self.description.as_str()
    }

    /// Judge a state.
    pub fn evaluate(&self, state: &S) -> (verdict: Verdict)
        ensures
            self.allows(*state, shown(verdict)),
    {
        proof {
            use_type_invariant(self);
        }
        self.judge.judge(state)
    }
}

impl<S: 'static> Condition<S> {
    /// A condition from a function that accepts or rejects a state. A rejection
    /// repeats the description.
    pub fn new<F: Fn(&S) -> bool + 'static>(description: &str, predicate: F) -> (condition: Self)
        requires
            forall|state: &S| #[trigger] predicate.requires((state,)),
        ensures
            condition.words() == description@,
            forall|state: S, verdict: std::result::Result<(), Seq<char>>|
                #[trigger] condition.allows(state, verdict) == answered(
                    predicate,
                    description@,
                    state,
                    verdict,
                ),
    {
        let judge = Whether { predicate, rejection: description.to_owned() };
        assert(<Whether<F> as Judge<S>>::ready(&judge));
        Condition { description: description.to_owned(), judge: Box::new(judge) }
    }

    /// Ask the condition about a part of another state.
    pub fn contramap<T: 'static, F: for<'a> Fn(&'a T) -> &'a S + 'static>(self, project: F) -> (
        condition: Condition<T>)
        requires
            forall|state: &T| #[trigger] project.requires((state,)),
        ensures
            condition.words() == self.words(),
            forall|state: T, verdict: std::result::Result<(), Seq<char>>|
                #[trigger] condition.allows(state, verdict) == through(
                    project,
                    &self,
                    state,
                    verdict,
                ),
    {
        let description = self.description.clone();
        let judge = Projected { project, inner: self };
        assert(<Projected<S, F> as Judge<T>>::ready(&judge));
        Condition { description, judge: Box::new(judge) }
    }

    /// Demand both conditions. Both are asked, and every rejection is told.
    pub fn and(self, other: Self) -> (condition: Self)
        ensures
            condition.words() == self.words() + " and "@ + other.words(),
            forall|state: S, verdict: std::result::Result<(), Seq<char>>|
                #[trigger] condition.allows(state, verdict) == jointly(
                    &self,
                    &other,
                    state,
                    verdict,
                ),
    {
        let description = glue3(self.description.as_str(), " and ", other.description.as_str());
        let judge = Conjunction { left: self, right: other };
        assert(<Conjunction<S> as Judge<S>>::ready(&judge));
        Condition { description, judge: Box::new(judge) }
    }

    /// Demand one of two conditions.
    pub fn or(self, other: Self) -> (condition: Self)
        ensures
            condition.words() == self.words() + " or "@ + other.words(),
            forall|state: S, verdict: std::result::Result<(), Seq<char>>|
                #[trigger] condition.allows(state, verdict) == either(
                    &self,
                    &other,
                    state,
                    verdict,
                ),
    {
        let description = glue3(self.description.as_str(), " or ", other.description.as_str());
        let judge = Disjunction { left: self, right: other };
        assert(<Disjunction<S> as Judge<S>>::ready(&judge));
        Condition { description, judge: Box::new(judge) }
    }

    /// Demand that a condition is rejected.
    pub fn negate(self) -> (condition: Self)
        ensures
            condition.words() == "not "@ + self.words(),
            forall|state: S, verdict: std::result::Result<(), Seq<char>>|
                #[trigger] condition.allows(state, verdict) == opposite(
                    &self,
                    "not "@ + self.words(),
                    state,
                    verdict,
                ),
    {
        let description = glue2("not ", self.description.as_str());
        let rejection = description.clone();
        let judge = Negation { inner: self, rejection };
        assert(<Negation<S> as Judge<S>>::ready(&judge));
        Condition { description, judge: Box::new(judge) }
    }
}

impl<S: 'static> std::ops::BitAnd for Condition<S> {
    type Output = Self;

    fn bitand(self, rhs: Self) -> (condition: Self)
        ensures
            condition.words() == self.words() + " and "@ + rhs.words(),
            forall|state: S, verdict: std::result::Result<(), Seq<char>>|
                #[trigger] condition.allows(state, verdict) == jointly(&self, &rhs, state, verdict),
    {
        self.and(rhs)
    }
}

impl<S: 'static> vstd::std_specs::ops::BitAndSpecImpl for Condition<S> {
    open spec fn obeys_bitand_spec() -> bool {
        false
    }

    open spec fn bitand_req(self, rhs: Self) -> bool {
        true
    }

    open spec fn bitand_spec(self, rhs: Self) -> Self {
        arbitrary()
    }
}

impl<S: 'static> std::ops::BitOr for Condition<S> {
    type Output = Self;

    fn bitor(self, rhs: Self) -> (condition: Self)
        ensures
            condition.words() == self.words() + " or "@ + rhs.words(),
            forall|state: S, verdict: std::result::Result<(), Seq<char>>|
                #[trigger] condition.allows(state, verdict) == either(&self, &rhs, state, verdict),
    {
        self.or(rhs)
    }
}

impl<S: 'static> vstd::std_specs::ops::BitOrSpecImpl for Condition<S> {
    open spec fn obeys_bitor_spec() -> bool {
        false
    }

    open spec fn bitor_req(self, rhs: Self) -> bool {
        true
    }

    open spec fn bitor_spec(self, rhs: Self) -> Self {
        arbitrary()
    }
}

impl<S: 'static> std::ops::Not for Condition<S> {
    type Output = Self;

    fn not(self) -> (condition: Self)
        ensures
            condition.words() == "not "@ + self.words(),
            forall|state: S, verdict: std::result::Result<(), Seq<char>>|
                #[trigger] condition.allows(state, verdict) == opposite(
                    &self,
                    "not "@ + self.words(),
                    state,
                    verdict,
                ),
    {
        self.negate()
    }
}

impl<S: 'static> vstd::std_specs::ops::NotSpecImpl for Condition<S> {
    open spec fn obeys_not_spec() -> bool {
        false
    }

    open spec fn not_req(self) -> bool {
        true
    }

    open spec fn not_spec(self) -> Self {
        arbitrary()
    }
}

// ---------------------------------------------------------------------------
// Fields
// ---------------------------------------------------------------------------

/// A projection from states.
pub trait Select<S, V> {
    /// Whether the projection can be asked about any state.
    spec fn askable(&self) -> bool;

    /// Whether the projection can give a value of a state.
    spec fn gives(&self, state: S, value: V) -> bool;

    /// Project a state.
    fn select(&self, state: &S) -> (value: V)
        requires
            self.askable(),
        ensures
            self.gives(*state, value),
    ;
}

struct Selecting<F> {
    project: F,
}

/// Whether a function can give a value of a state.
pub open spec fn projected<S, V, F: Fn(&S) -> V>(project: F, state: S, value: V) -> bool {
    exists|seen: &S| *seen == state && #[trigger] project.ensures((seen,), value)
}

impl<S, V, F: Fn(&S) -> V> Select<S, V> for Selecting<F> {
    closed spec fn askable(&self) -> bool {
        forall|state: &S| #[trigger] self.project.requires((state,))
    }

    closed spec fn gives(&self, state: S, value: V) -> bool {
        projected(self.project, state, value)
    }

    fn select(&self, state: &S) -> (value: V) {
        (self.project)(state)
    }
}

/// A named projection from semantic state.
#[verifier::reject_recursive_types(S)]
#[verifier::reject_recursive_types(V)]
pub struct Field<S: 'static, V: 'static> {
    name: String,
    project: Box<dyn Select<S, V>>,
}

/// The `Debug` rendering of a value. A value's own implementation decides what
/// it is, so nothing is claimed of it.
#[verifier::external_body]
fn rendering<V: std::fmt::Debug>(value: &V) -> (text: String) {
    format!("{value:?}")
}

/// Whether a value's own `Debug` implementation can render it so.
pub closed spec fn debugs<V: std::fmt::Debug>(value: V, text: Seq<char>) -> bool {
    exists|seen: &V, given: String|
        *seen == value && given@ == text && #[trigger] rendering::<V>.ensures((seen,), given)
}

/// Render a value as its own `Debug` implementation decides.
pub fn debugged<V: std::fmt::Debug>(value: &V) -> (text: String)
    ensures
        debugs(*value, text@),
{
    let text = rendering(value);
    assert(rendering::<V>.ensures((value,), text));
    text
}

/// Compare two values by their own equality.
pub fn equal<V: PartialEq>(left: &V, right: &V) -> (verdict: bool)
    ensures
        V::obeys_eq_spec() ==> verdict == left.eq_spec(right),
        V::eq.ensures((left, right), verdict),
{
    left.eq(right)
}

/// Tell two values apart by their own inequality.
pub fn unequal<V: PartialEq>(left: &V, right: &V) -> (verdict: bool)
    ensures
        V::obeys_eq_spec() ==> verdict == !left.eq_spec(right),
        V::ne.ensures((left, right), verdict),
{
    left.ne(right)
}

/// Whether a value can render so.
pub open spec fn renders<V, R: Fn(&V) -> String>(render: R, value: V, text: Seq<char>) -> bool {
    exists|seen: &V, given: String|
        *seen == value && given@ == text && #[trigger] render.ensures((seen,), given)
}

/// Whether comparing two values can come out so.
pub open spec fn compares<V, E: Fn(&V, &V) -> bool>(
    compare: E,
    left: V,
    right: V,
    verdict: bool,
) -> bool {
    exists|one: &V, other: &V|
        *one == left && *other == right && #[trigger] compare.ensures((one, other), verdict)
}

/// Whether a type's own inequality is the opposite of its own equality against a value,
/// and neither of them wavers.
pub open spec fn opposed<V: PartialEq>(right: V) -> bool {
    forall|left: V, same: bool, apart: bool|
        #[trigger] compares(equal::<V>, left, right, same) && #[trigger] compares(
            unequal::<V>,
            left,
            right,
            apart,
        ) ==> apart == !same
}

/// Where a type keeps to its equality, its inequality is the opposite of it.
pub proof fn law_kept_equality_is_opposed<V: PartialEq>(right: V)
    requires
        V::obeys_eq_spec(),
    ensures
        opposed(right),
{
}

/// A rejection that names a field, what was expected of it, and what was
/// observed.
pub open spec fn contrast(name: Seq<char>, expected: Seq<char>, observed: Seq<char>) -> Seq<char> {
    name + " expected "@ + expected + ", observed "@ + observed
}

/// Say what was expected of a field, and what was observed.
pub fn contrast_text(name: &str, expected: &str, observed: &str) -> (mismatch: String)
    ensures
        mismatch@ == contrast(name@, expected@, observed@),
{
    let mut mismatch = glue3(name, " expected ", expected);
    mismatch.append(", observed ");
    mismatch.append(observed);
    mismatch
}

/// A rejection that names a field and what it still is.
pub open spec fn persistence(name: Seq<char>, observed: Seq<char>) -> Seq<char> {
    name + " unexpectedly remained "@ + observed
}

/// Say what a field still is.
pub fn persistence_text(name: &str, observed: &str) -> (mismatch: String)
    ensures
        mismatch@ == persistence(name@, observed@),
{
    glue3(name, " unexpectedly remained ", observed)
}

impl<S: 'static, V: 'static> Field<S, V> {
    #[verifier::type_invariant]
    spec fn inv(self) -> bool {
        self.project.askable()
    }

    /// The field's name.
    pub closed spec fn label(&self) -> Seq<char> {
        self.name@
    }

    /// Whether the field can have a value in a state.
    pub closed spec fn gives(&self, state: S, value: V) -> bool {
        self.project.gives(state, value)
    }

    fn select(&self, state: &S) -> (value: V)
        ensures
            self.gives(*state, value),
    {
        proof {
            use_type_invariant(self);
        }
        self.project.select(state)
    }
}

/// A judge of a field by a function.
#[verifier::reject_recursive_types(S)]
#[verifier::reject_recursive_types(V)]
struct Satisfying<S: 'static, V: 'static, F, R> {
    field: Field<S, V>,
    expectation: String,
    predicate: F,
    render: R,
}

/// Whether a function can judge the value of a field. A rejection contrasts what was
/// expected with how the observed value renders.
pub open spec fn satisfied<S, V, F: Fn(&V) -> bool, R: Fn(&V) -> String>(
    field: &Field<S, V>,
    expectation: Seq<char>,
    predicate: F,
    render: R,
    state: S,
    verdict: std::result::Result<(), Seq<char>>,
) -> bool {
    exists|value: V, held: bool|
        #[trigger] field.gives(state, value) && #[trigger] projected(predicate, value, held)
            && match verdict {
            Ok(_) => held,
            Err(mismatch) => !held && exists|observed: Seq<char>| #[trigger]
                renders(render, value, observed) && mismatch == contrast(
                    field.label(),
                    expectation,
                    observed,
                ),
        }
}

impl<S: 'static, V: 'static, F: Fn(&V) -> bool, R: Fn(&V) -> String> Judge<S> for Satisfying<
    S,
    V,
    F,
    R,
> {
    closed spec fn ready(&self) -> bool {
        &&& forall|value: &V| #[trigger] self.predicate.requires((value,))
        &&& forall|value: &V| #[trigger] self.render.requires((value,))
    }

    closed spec fn can(&self, state: S, verdict: std::result::Result<(), Seq<char>>) -> bool {
        satisfied(&self.field, self.expectation@, self.predicate, self.render, state, verdict)
    }

    fn judge(&self, state: &S) -> (verdict: Verdict) {
        let actual = self.field.select(state);
        let held = (self.predicate)(&actual);
        assert(projected(self.predicate, actual, held));
        if held {
            return Ok(());
        }
        let observed = (self.render)(&actual);
        assert(renders(self.render, actual, observed@));
        Err(
            contrast_text(self.field.name.as_str(), self.expectation.as_str(), observed.as_str()),
        )
    }
}

/// A judge of a field by a value that it must have.
#[verifier::reject_recursive_types(S)]
#[verifier::reject_recursive_types(V)]
struct Equalling<S: 'static, V: 'static, E, R> {
    field: Field<S, V>,
    expected: V,
    compare: E,
    render: R,
}

/// Whether a field can be judged by a value that it must have. A rejection contrasts
/// how that value renders with how the observed one does.
pub open spec fn matched<S, V, E: Fn(&V, &V) -> bool, R: Fn(&V) -> String>(
    field: &Field<S, V>,
    expected: V,
    compare: E,
    render: R,
    state: S,
    verdict: std::result::Result<(), Seq<char>>,
) -> bool {
    exists|value: V, same: bool|
        #[trigger] field.gives(state, value) && #[trigger] compares(compare, value, expected, same)
            && match verdict {
            Ok(_) => same,
            Err(mismatch) => !same && exists|wanted: Seq<char>, observed: Seq<char>|
                #[trigger] renders(render, expected, wanted) && #[trigger] renders(
                    render,
                    value,
                    observed,
                ) && mismatch == contrast(field.label(), wanted, observed),
        }
}

impl<S: 'static, V: 'static, E: Fn(&V, &V) -> bool, R: Fn(&V) -> String> Judge<S> for Equalling<
    S,
    V,
    E,
    R,
> {
    closed spec fn ready(&self) -> bool {
        &&& forall|left: &V, right: &V| #[trigger] self.compare.requires((left, right))
        &&& forall|value: &V| #[trigger] self.render.requires((value,))
    }

    closed spec fn can(&self, state: S, verdict: std::result::Result<(), Seq<char>>) -> bool {
        matched(&self.field, self.expected, self.compare, self.render, state, verdict)
    }

    fn judge(&self, state: &S) -> (verdict: Verdict) {
        let actual = self.field.select(state);
        let same = (self.compare)(&actual, &self.expected);
        assert(compares(self.compare, actual, self.expected, same));
        if same {
            return Ok(());
        }
        let wanted = (self.render)(&self.expected);
        assert(renders(self.render, self.expected, wanted@));
        let observed = (self.render)(&actual);
        assert(renders(self.render, actual, observed@));
        Err(contrast_text(self.field.name.as_str(), wanted.as_str(), observed.as_str()))
    }
}

/// A judge of a field by a value that it must not have.
#[verifier::reject_recursive_types(S)]
#[verifier::reject_recursive_types(V)]
struct Differing<S: 'static, V: 'static, E, R> {
    field: Field<S, V>,
    rejected: V,
    compare: E,
    render: R,
}

/// Whether a field can be judged by a value that it must not have. A rejection tells
/// how the observed value renders.
pub open spec fn differed<S, V, E: Fn(&V, &V) -> bool, R: Fn(&V) -> String>(
    field: &Field<S, V>,
    rejected: V,
    compare: E,
    render: R,
    state: S,
    verdict: std::result::Result<(), Seq<char>>,
) -> bool {
    exists|value: V, apart: bool|
        #[trigger] field.gives(state, value) && #[trigger] compares(compare, value, rejected, apart)
            && match verdict {
            Ok(_) => apart,
            Err(mismatch) => !apart && exists|observed: Seq<char>| #[trigger]
                renders(render, value, observed) && mismatch == persistence(
                    field.label(),
                    observed,
                ),
        }
}

impl<S: 'static, V: 'static, E: Fn(&V, &V) -> bool, R: Fn(&V) -> String> Judge<S> for Differing<
    S,
    V,
    E,
    R,
> {
    closed spec fn ready(&self) -> bool {
        &&& forall|left: &V, right: &V| #[trigger] self.compare.requires((left, right))
        &&& forall|value: &V| #[trigger] self.render.requires((value,))
    }

    closed spec fn can(&self, state: S, verdict: std::result::Result<(), Seq<char>>) -> bool {
        differed(&self.field, self.rejected, self.compare, self.render, state, verdict)
    }

    fn judge(&self, state: &S) -> (verdict: Verdict) {
        let actual = self.field.select(state);
        let apart = (self.compare)(&actual, &self.rejected);
        assert(compares(self.compare, actual, self.rejected, apart));
        if apart {
            return Ok(());
        }
        let observed = (self.render)(&actual);
        assert(renders(self.render, actual, observed@));
        Err(persistence_text(self.field.name.as_str(), observed.as_str()))
    }
}

/// Of a field that a state gives one value, exactly one of demanding a value and
/// demanding another accepts, wherever the type's inequality is the opposite of its
/// equality. What rejects the value tells how the observed one renders.
pub proof fn law_difference_opposes_equality<S, V: std::fmt::Debug + PartialEq>(
    field: &Field<S, V>,
    value: V,
    state: S,
    equality: std::result::Result<(), Seq<char>>,
    difference: std::result::Result<(), Seq<char>>,
)
    requires
        forall|one: V, other: V| #[trigger]
            field.gives(state, one) && #[trigger] field.gives(state, other) ==> one == other,
        opposed(value),
        matched(field, value, equal::<V>, debugged::<V>, state, equality),
        differed(field, value, unequal::<V>, debugged::<V>, state, difference),
    ensures
        equality is Ok <==> difference is Err,
        difference matches Err(mismatch) ==> exists|observed: V, rendered: Seq<char>|
            field.gives(state, observed) && #[trigger] renders(debugged::<V>, observed, rendered)
                && mismatch == persistence(field.label(), rendered),
{
}

/// A description that compares a field with a rendered value.
pub open spec fn compared(name: Seq<char>, sign: Seq<char>, rendered: Seq<char>) -> Seq<char> {
    name + sign + rendered
}

impl<S: 'static, V: 'static> Field<S, V> {
    /// Demand that a function accepts the field's value. `render` says what was
    /// observed.
    pub fn satisfies_by<F: Fn(&V) -> bool + 'static, R: Fn(&V) -> String + 'static>(
        self,
        expectation: &str,
        predicate: F,
        render: R,
    ) -> (condition: Condition<S>)
        requires
            forall|value: &V| #[trigger] predicate.requires((value,)),
            forall|value: &V| #[trigger] render.requires((value,)),
        ensures
            condition.words() == self.label() + " "@ + expectation@,
            forall|state: S, verdict: std::result::Result<(), Seq<char>>|
                #[trigger] condition.allows(state, verdict) == satisfied(
                    &self,
                    expectation@,
                    predicate,
                    render,
                    state,
                    verdict,
                ),
    {
        let description = glue3(self.name.as_str(), " ", expectation);
        let judge = Satisfying {
            field: self,
            expectation: expectation.to_owned(),
            predicate,
            render,
        };
        assert(<Satisfying<S, V, F, R> as Judge<S>>::ready(&judge));
        Condition { description, judge: Box::new(judge) }
    }

    /// Demand that the field has a value, by a comparison and a rendering.
    pub fn eq_by<E: Fn(&V, &V) -> bool + 'static, R: Fn(&V) -> String + 'static>(
        self,
        expected: V,
        compare: E,
        render: R,
    ) -> (condition: Condition<S>)
        requires
            forall|left: &V, right: &V| #[trigger] compare.requires((left, right)),
            forall|value: &V| #[trigger] render.requires((value,)),
        ensures
            exists|wanted: Seq<char>| #[trigger]
                renders(render, expected, wanted) && condition.words() == compared(
                    self.label(),
                    " == "@,
                    wanted,
                ),
            forall|state: S, verdict: std::result::Result<(), Seq<char>>|
                #[trigger] condition.allows(state, verdict) == matched(
                    &self,
                    expected,
                    compare,
                    render,
                    state,
                    verdict,
                ),
    {
        let wanted = render(&expected);
        assert(renders(render, expected, wanted@));
        let description = glue3(self.name.as_str(), " == ", wanted.as_str());
        let judge = Equalling { field: self, expected, compare, render };
        assert(<Equalling<S, V, E, R> as Judge<S>>::ready(&judge));
        Condition { description, judge: Box::new(judge) }
    }

    /// Demand that the field does not have a value, by a comparison that tells values
    /// apart and a rendering.
    pub fn ne_by<E: Fn(&V, &V) -> bool + 'static, R: Fn(&V) -> String + 'static>(
        self,
        rejected: V,
        compare: E,
        render: R,
    ) -> (condition: Condition<S>)
        requires
            forall|left: &V, right: &V| #[trigger] compare.requires((left, right)),
            forall|value: &V| #[trigger] render.requires((value,)),
        ensures
            exists|unwanted: Seq<char>| #[trigger]
                renders(render, rejected, unwanted) && condition.words() == compared(
                    self.label(),
                    " != "@,
                    unwanted,
                ),
            forall|state: S, verdict: std::result::Result<(), Seq<char>>|
                #[trigger] condition.allows(state, verdict) == differed(
                    &self,
                    rejected,
                    compare,
                    render,
                    state,
                    verdict,
                ),
    {
        let unwanted = render(&rejected);
        assert(renders(render, rejected, unwanted@));
        let description = glue3(self.name.as_str(), " != ", unwanted.as_str());
        let judge = Differing { field: self, rejected, compare, render };
        assert(<Differing<S, V, E, R> as Judge<S>>::ready(&judge));
        Condition { description, judge: Box::new(judge) }
    }
}

impl<S: 'static, V: std::fmt::Debug + 'static> Field<S, V> {
    /// Demand that a function accepts the field's value.
    pub fn satisfies<F: Fn(&V) -> bool + 'static>(self, expectation: &str, predicate: F) -> (
        condition: Condition<S>)
        requires
            forall|value: &V| #[trigger] predicate.requires((value,)),
        ensures
            condition.words() == self.label() + " "@ + expectation@,
            forall|state: S, verdict: std::result::Result<(), Seq<char>>|
                #[trigger] condition.allows(state, verdict) == satisfied(
                    &self,
                    expectation@,
                    predicate,
                    debugged::<V>,
                    state,
                    verdict,
                ),
    {
        self.satisfies_by(expectation, predicate, debugged::<V>)
    }
}

impl<S: 'static, V: std::fmt::Debug + PartialEq + 'static> Field<S, V> {
    /// Demand that the field has a value.
    pub fn eq(self, expected: V) -> (condition: Condition<S>)
        ensures
            exists|wanted: Seq<char>| #[trigger]
                renders(debugged::<V>, expected, wanted) && condition.words() == compared(
                    self.label(),
                    " == "@,
                    wanted,
                ),
            forall|state: S, verdict: std::result::Result<(), Seq<char>>|
                #[trigger] condition.allows(state, verdict) == matched(
                    &self,
                    expected,
                    equal::<V>,
                    debugged::<V>,
                    state,
                    verdict,
                ),
    {
        self.eq_by(expected, equal::<V>, debugged::<V>)
    }

    /// Demand that the field does not have a value.
    pub fn ne(self, rejected: V) -> (condition: Condition<S>)
        ensures
            exists|unwanted: Seq<char>| #[trigger]
                renders(debugged::<V>, rejected, unwanted) && condition.words() == compared(
                    self.label(),
                    " != "@,
                    unwanted,
                ),
            forall|state: S, verdict: std::result::Result<(), Seq<char>>|
                #[trigger] condition.allows(state, verdict) == differed(
                    &self,
                    rejected,
                    unequal::<V>,
                    debugged::<V>,
                    state,
                    verdict,
                ),
    {
        self.ne_by(rejected, unequal::<V>, debugged::<V>)
    }
}

/// A named projection from semantic state.
pub fn field<S: 'static, V: 'static, F: Fn(&S) -> V + 'static>(name: &str, project: F) -> (field:
    Field<S, V>)
    requires
        forall|state: &S| #[trigger] project.requires((state,)),
    ensures
        field.label() == name@,
        forall|state: S, value: V|
            #[trigger] field.gives(state, value) == projected(project, state, value),
{
    let project = Selecting { project };
    assert(<Selecting<F> as Select<S, V>>::askable(&project));
    Field { name: name.to_owned(), project: Box::new(project) }
}

// ---------------------------------------------------------------------------
// Laws
// ---------------------------------------------------------------------------

/// A conjunction accepts a state exactly when both of its conditions can.
pub proof fn law_conjunctions_accept_what_both_accept<S>(
    left: &Condition<S>,
    right: &Condition<S>,
    state: S,
)
    ensures
        jointly(left, right, state, Ok(())) == (left.allows(state, Ok(())) && right.allows(
            state,
            Ok(()),
        )),
{
    if left.allows(state, Ok(())) && right.allows(state, Ok(())) {
        assert(conjunction(Ok(()), Ok(())) == Ok::<(), Seq<char>>(()));
    }
    if jointly(left, right, state, Ok(())) {
        let (one, other) = choose|
            one: std::result::Result<(), Seq<char>>,
            other: std::result::Result<(), Seq<char>>,
        |
            #[trigger] left.allows(state, one) && #[trigger] right.allows(state, other) && Ok::<
                (),
                Seq<char>,
            >(()) == conjunction(one, other);
        lemma_accepted(one);
        lemma_accepted(other);
    }
}

proof fn lemma_accepted(verdict: std::result::Result<(), Seq<char>>)
    ensures
        verdict is Ok ==> verdict == Ok::<(), Seq<char>>(()),
{
    if let Ok(unit) = verdict {
        assert(unit == ());
    }
}

/// When both conditions of a conjunction reject, its rejection tells both.
pub proof fn law_conjunctions_report_every_rejection(left: Seq<char>, right: Seq<char>)
    ensures
        conjunction(Err(left), Err(right)) matches Err(mismatch) && crate::text::contains_run(
            mismatch,
            left,
        ) && crate::text::contains_run(mismatch, right),
{
    let mismatch = left + "; "@ + right;
    assert(mismatch.subrange(0, left.len() as int) =~= left);
    assert(crate::text::occurs_at(mismatch, left, 0));
    let at = (left + "; "@).len() as int;
    assert(mismatch.subrange(at, at + right.len()) =~= right);
    assert(crate::text::occurs_at(mismatch, right, at));
}

/// A disjunction accepts a state when its first condition does, and when its
/// second one does after the first rejected.
pub proof fn law_disjunctions_accept_either<S>(
    left: &Condition<S>,
    right: &Condition<S>,
    state: S,
    mismatch: Seq<char>,
)
    ensures
        left.allows(state, Ok(())) ==> either(left, right, state, Ok(())),
        left.allows(state, Err(mismatch)) && right.allows(state, Ok(())) ==> either(
            left,
            right,
            state,
            Ok(()),
        ),
        either(left, right, state, Ok(())) ==> left.allows(state, Ok(())) || right.allows(
            state,
            Ok(()),
        ),
{
    if either(left, right, state, Ok(())) && !left.allows(state, Ok(())) {
        let (one, other) = choose|one: Seq<char>, other: std::result::Result<(), Seq<char>>|
            #[trigger] left.allows(state, Err(one)) && #[trigger] right.allows(state, other)
                && Ok::<(), Seq<char>>(()) == alternatives(one, other);
        lemma_accepted(other);
    }
}

/// The opposite of a condition accepts exactly the states that the condition can
/// reject.
pub proof fn law_negations_accept_what_is_rejected<S>(
    inner: &Condition<S>,
    rejection: Seq<char>,
    state: S,
)
    ensures
        opposite(inner, rejection, state, Ok(())) == exists|mismatch: Seq<char>| #[trigger]
            inner.allows(state, Err(mismatch)),
{
    if opposite(inner, rejection, state, Ok(())) {
        let found = choose|found: std::result::Result<(), Seq<char>>|
            #[trigger] inner.allows(state, found) && Ok::<(), Seq<char>>(()) == match found {
                Ok(_) => Err(rejection),
                Err(_) => Ok::<(), Seq<char>>(()),
            };
        match found {
            Ok(_) => {},
            Err(mismatch) => {
                assert(inner.allows(state, Err(mismatch)));
            },
        }
    }
}

/// A condition accepts what its predicate accepts, and rejects what it rejects in the
/// condition's own words.
pub proof fn law_conditions_ask_their_predicate<S, F: Fn(&S) -> bool>(
    description: &str,
    predicate: F,
    condition: Condition<S>,
    state: S,
    mismatch: Seq<char>,
)
    requires
        Condition::<S>::new::<F>.ensures((description, predicate), condition),
    ensures
        condition.words() == description@,
        condition.allows(state, Ok(())) <==> exists|seen: &S|
            *seen == state && #[trigger] predicate.ensures((seen,), true),
        condition.allows(state, Err(mismatch)) <==> mismatch == description@ && exists|seen: &S|
            *seen == state && #[trigger] predicate.ensures((seen,), false),
{
    if exists|seen: &S| *seen == state && #[trigger] predicate.ensures((seen,), true) {
        let seen = choose|seen: &S| *seen == state && #[trigger] predicate.ensures((seen,), true);
        assert(answered(predicate, description@, state, Ok(())));
    }
    if mismatch == description@ && exists|seen: &S|
        *seen == state && #[trigger] predicate.ensures((seen,), false) {
        let seen = choose|seen: &S| *seen == state && #[trigger] predicate.ensures((seen,), false);
        assert(answered(predicate, description@, state, Err(mismatch)));
    }
}

/// Both conditions together accept exactly what each accepts, and reject only what one of
/// them rejects. One of two accepts only what one of them accepts, always what the first
/// accepts, and rejects only what both reject. The opposite accepts exactly what is
/// rejected, and rejects exactly what is accepted.
pub proof fn law_conditions_compose<S>(
    left: Condition<S>,
    right: Condition<S>,
    both: Condition<S>,
    one: Condition<S>,
    opposed: Condition<S>,
    state: S,
    mismatch: Seq<char>,
)
    requires
        Condition::<S>::and.ensures((left, right), both),
        Condition::<S>::or.ensures((left, right), one),
        Condition::<S>::negate.ensures((left,), opposed),
    ensures
        both.allows(state, Ok(())) <==> left.allows(state, Ok(())) && right.allows(state, Ok(())),
        both.allows(state, Err(mismatch)) ==> (exists|reason: Seq<char>| #[trigger]
            left.allows(state, Err(reason))) || (exists|reason: Seq<char>| #[trigger]
            right.allows(state, Err(reason))),
        left.allows(state, Ok(())) ==> one.allows(state, Ok(())),
        one.allows(state, Ok(())) ==> left.allows(state, Ok(())) || right.allows(state, Ok(())),
        one.allows(state, Err(mismatch)) ==> (exists|reason: Seq<char>| #[trigger]
            left.allows(state, Err(reason))) && (exists|reason: Seq<char>| #[trigger]
            right.allows(state, Err(reason))),
        opposed.allows(state, Ok(())) <==> exists|reason: Seq<char>| #[trigger]
            left.allows(state, Err(reason)),
        opposed.allows(state, Err(mismatch)) ==> left.allows(state, Ok(())),
        both.words() == left.words() + " and "@ + right.words(),
        one.words() == left.words() + " or "@ + right.words(),
        opposed.words() == "not "@ + left.words(),
{
    law_conjunctions_accept_what_both_accept(&left, &right, state);
    law_disjunctions_accept_either(&left, &right, state, mismatch);
    law_negations_accept_what_is_rejected(&left, "not "@ + left.words(), state);
    if both.allows(state, Err(mismatch)) {
        let (first, second) = choose|
            first: std::result::Result<(), Seq<char>>,
            second: std::result::Result<(), Seq<char>>,
        |
            #[trigger] left.allows(state, first) && #[trigger] right.allows(state, second) && Err::<
                (),
                Seq<char>,
            >(mismatch) == conjunction(first, second);
        match (first, second) {
            (Err(reason), _) => {
                assert(left.allows(state, Err(reason)));
            },
            (_, Err(reason)) => {
                assert(right.allows(state, Err(reason)));
            },
            _ => {},
        }
    }
    if one.allows(state, Err(mismatch)) {
        let (first, second) = choose|
            first: Seq<char>,
            second: std::result::Result<(), Seq<char>>,
        |
            #[trigger] left.allows(state, Err(first)) && #[trigger] right.allows(state, second)
                && Err::<(), Seq<char>>(mismatch) == alternatives(first, second);
        match second {
            Err(reason) => {
                assert(right.allows(state, Err(reason)));
            },
            Ok(_) => {},
        }
    }
    if opposed.allows(state, Err(mismatch)) {
        let found = choose|found: std::result::Result<(), Seq<char>>|
            #[trigger] left.allows(state, found) && Err::<(), Seq<char>>(mismatch) == match found {
                Ok(_) => Err("not "@ + left.words()),
                Err(_) => Ok::<(), Seq<char>>(()),
            };
        lemma_accepted(found);
    }
}

/// A field is held to a value by the type's own equality: where the type keeps to it, and
/// a state gives the field one value, demanding a value accepts exactly what equals it, and
/// demanding another exactly what does not.
pub proof fn law_fields_are_held_to_their_value<S, V: std::fmt::Debug + PartialEq>(
    field: Field<S, V>,
    expected: V,
    same: Condition<S>,
    other: Condition<S>,
    state: S,
    value: V,
)
    requires
        V::obeys_eq_spec(),
        Field::<S, V>::eq.ensures((field, expected), same),
        Field::<S, V>::ne.ensures((field, expected), other),
        field.gives(state, value),
        forall|given: V| #[trigger] field.gives(state, given) ==> given == value,
    ensures
        same.allows(state, Ok(())) ==> value.eq_spec(&expected),
        (exists|mismatch: Seq<char>| #[trigger] same.allows(state, Err(mismatch)))
            ==> !value.eq_spec(&expected),
        other.allows(state, Ok(())) ==> !value.eq_spec(&expected),
        (exists|mismatch: Seq<char>| #[trigger] other.allows(state, Err(mismatch)))
            ==> value.eq_spec(&expected),
{
}

} // verus!
