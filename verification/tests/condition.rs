use std::cell::Cell;
use std::rc::Rc;

use egui_tester::condition::{alternative, contrast_text, field, persistence_text, Condition};

#[derive(Debug)]
struct State {
    view: &'static str,
    count: usize,
}

#[test]
fn conjunction_reports_every_rejected_field() {
    let condition = field("view", |state: &State| state.view).eq("edit")
        & field("count", |state: &State| state.count).eq(2);
    let rejection = condition
        .evaluate(&State {
            view: "browse",
            count: 1,
        })
        .expect_err("both fields must reject");
    assert!(rejection.contains("view expected"));
    assert!(rejection.contains("count expected"));
}

#[test]
fn disjunction_accepts_either_branch() {
    let condition = field("view", |state: &State| state.view).eq("edit")
        | field("count", |state: &State| state.count).eq(1);
    assert!(condition
        .evaluate(&State {
            view: "browse",
            count: 1,
        })
        .is_ok());
}

#[test]
fn negation_and_projection() {
    let quiet = !Condition::new("busy", |state: &State| state.count > 0);
    assert!(quiet.evaluate(&State { view: "", count: 0 }).is_ok());
    assert!(quiet.evaluate(&State { view: "", count: 1 }).is_err());
    assert_eq!(quiet.description(), "not busy");
    let outer = Condition::new("busy", |state: &State| state.count > 0)
        .contramap(|pair: &(State, u8)| &pair.0);
    assert!(outer.evaluate(&(State { view: "", count: 1 }, 0)).is_ok());
    assert_eq!(
        outer.evaluate(&(State { view: "", count: 0 }, 0)),
        Err("busy".to_owned())
    );
    let odd = field("count", |state: &State| state.count).satisfies("odd", |count: &usize| count % 2 == 1);
    assert!(odd.evaluate(&State { view: "", count: 3 }).is_ok());
    let mismatch = odd
        .evaluate(&State { view: "", count: 4 })
        .expect_err("even");
    assert!(mismatch.contains("count"), "{mismatch}");
    assert!(mismatch.contains('4'), "{mismatch}");
    let other = field("count", |state: &State| state.count).ne(4);
    assert!(other.evaluate(&State { view: "", count: 4 }).is_err());
    assert!(other.evaluate(&State { view: "", count: 5 }).is_ok());
}

#[test]
fn rejections_render_what_was_expected_and_what_was_observed() {
    let state = State { view: "browse", count: 4 };
    let view = field("view", |state: &State| state.view).eq("edit");
    assert_eq!(view.description(), "view == \"edit\"");
    assert_eq!(
        view.evaluate(&state),
        Err("view expected \"edit\", observed \"browse\"".to_owned())
    );
    let other = field("count", |state: &State| state.count).ne(4);
    assert_eq!(other.description(), "count != 4");
    assert_eq!(other.evaluate(&state), Err("count unexpectedly remained 4".to_owned()));
    let odd = field("count", |state: &State| state.count)
        .satisfies("odd", |count: &usize| count % 2 == 1);
    assert_eq!(odd.description(), "count odd");
    assert_eq!(odd.evaluate(&state), Err("count expected odd, observed 4".to_owned()));
    assert_eq!(contrast_text("a", "b", "c"), "a expected b, observed c");
    assert_eq!(persistence_text("a", "c"), "a unexpectedly remained c");
}

#[test]
fn comparisons_and_renderings_may_be_the_callers_own() {
    let last = |left: &usize, right: &usize| left % 10 == right % 10;
    let spelled = |count: &usize| format!("<{count}>");
    let same = field("count", |state: &State| state.count).eq_by(7, last, spelled);
    assert_eq!(same.description(), "count == <7>");
    assert!(same.evaluate(&State { view: "", count: 17 }).is_ok());
    assert_eq!(
        same.evaluate(&State { view: "", count: 18 }),
        Err("count expected <7>, observed <18>".to_owned())
    );
    let apart = |left: &usize, right: &usize| left % 10 != right % 10;
    let other = field("count", |state: &State| state.count).ne_by(7, apart, spelled);
    assert_eq!(
        other.evaluate(&State { view: "", count: 17 }),
        Err("count unexpectedly remained <17>".to_owned())
    );
    let even = field("count", |state: &State| state.count)
        .satisfies_by("even", |count: &usize| count % 2 == 0, spelled);
    assert_eq!(
        even.evaluate(&State { view: "", count: 1 }),
        Err("count expected even, observed <1>".to_owned())
    );
}

#[derive(Debug)]
struct Erratic;

impl PartialEq for Erratic {
    fn eq(&self, _: &Self) -> bool {
        false
    }
}

#[test]
fn values_that_differ_from_themselves_are_never_equal() {
    let equal = field("value", |_: &()| Erratic).eq(Erratic);
    assert_eq!(equal.evaluate(&()), Err("value expected Erratic, observed Erratic".to_owned()));
    let unequal = field("value", |_: &()| Erratic).ne(Erratic);
    assert!(unequal.evaluate(&()).is_ok());
}

#[test]
fn second_alternatives_are_asked_only_after_a_rejection() {
    let asked = Rc::new(Cell::new(0));
    let counter = Rc::clone(&asked);
    let either = Condition::new("busy", |state: &State| state.count > 0)
        | Condition::new("named", move |state: &State| {
            counter.set(counter.get() + 1);
            !state.view.is_empty()
        });
    assert!(either.evaluate(&State { view: "", count: 1 }).is_ok());
    assert_eq!(asked.get(), 0);
    assert_eq!(
        either.evaluate(&State { view: "", count: 0 }),
        Err("neither alternative held: busy; named".to_owned())
    );
    assert_eq!(asked.get(), 1);
    assert!(alternative(Ok(()), || panic!("the first alternative held")).is_ok());
    assert!(alternative(Err("no".to_owned()), || Ok(())).is_ok());
}
