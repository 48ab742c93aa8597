use std::cell::RefCell;

use egui_tester::duration::Duration;
use egui_tester::error::{Error, Result};
use egui_tester::input::{Button, Drag, Key, Modifiers, Motion, Stroke, Wheel};
use egui_tester::pixels::Frame;
use egui_tester::probe::ProbeFrame;
use egui_tester::story::script::Story;
use egui_tester::story::{admit_observer, demand, EventView, Silent, StoryCue, StoryEvent, StoryFact, StoryObserver, StorySurface};
use egui_tester::timing::{ActionReceipt, ReactionBudget, Timed};
use egui_tester::witness::anchor::Anchor;
use egui_tester::witness::SCHEMA;

#[derive(Default)]
struct Filmed {
    events: Vec<String>,
    refuse: Option<&'static str>,
}

impl StoryObserver for Filmed {
    fn meets(_: Self, _: EventView, _: Result<()>, _: Self) -> bool {
        true
    }

    fn ends(_: Self, _: Result<()>, _: Self) -> bool {
        true
    }

    fn admissible(&self) -> bool {
        false
    }

    fn observe<F: Fn() -> Result<Frame>>(
        &mut self,
        event: StoryEvent<'_>,
        surface: StorySurface<'_, F>,
    ) -> Result<()> {
        let name = match event {
            StoryEvent::Cue(StoryCue::Chapter { title }) => format!("chapter {title}"),
            StoryEvent::Cue(StoryCue::Hold { .. }) => "hold".to_owned(),
            StoryEvent::Cue(StoryCue::Tempo { .. }) => "tempo".to_owned(),
            StoryEvent::Fact(StoryFact::TargetResolved { target, .. }) => format!("target {target}"),
            StoryEvent::Fact(StoryFact::PointerAimed { .. }) => "aim".to_owned(),
            StoryEvent::Fact(StoryFact::ActionDispatched { action, target, pointer, .. }) => {
                format!("action {action} {target:?} {pointer:?}")
            }
            StoryEvent::Fact(StoryFact::ObservationMatched { description, frame, .. }) => {
                format!("observed {frame} {description}")
            }
        };
        let _frame = surface.capture()?;
        let refused = self.refuse.is_some_and(|refuse| name.starts_with(refuse));
        self.events.push(name);
        if refused {
            return Err(Error::MissingTool("film"));
        }
        Ok(())
    }

    fn finish<F: Fn() -> Result<Frame>>(&mut self, _surface: StorySurface<'_, F>) -> Result<()> {
        self.events.push("finish".to_owned());
        Ok(())
    }

    fn permits_performance_verdicts(&self) -> bool {
        false
    }
}

fn surface() -> Result<Frame> {
    Ok(Frame::new(1, 1, vec![0; 4]))
}

fn resolve(name: &str, timeout: Duration) -> Result<Anchor> {
    assert_eq!(timeout, Duration::from_secs(8));
    if name == "absent" {
        return Err(Error::MissingTool("absent"));
    }
    Anchor::physical(name, [10.0_f32, 20.0, 30.0, 40.0].map(f32::to_bits))
        .map_err(|_| Error::MissingTool("anchor"))
}

fn center(anchor: &Anchor) -> (i16, i16) {
    let [left, top, right, bottom] = anchor.rect.map(f32::from_bits);
    (((left + right) / 2.0) as i16, ((top + bottom) / 2.0) as i16)
}

fn receipt(action: &str) -> Result<ActionReceipt> {
    Ok(ActionReceipt::recorded(1, 2, 3, action))
}

fn seen(_: &str, receipt: &ActionReceipt, budget: ReactionBudget) -> Result<Timed<ProbeFrame<()>>> {
    budget.adjudicate(
        "frame",
        receipt,
        9,
        ProbeFrame {
            schema: SCHEMA,
            launch: "launch".to_owned(),
            frame: 4,
            begun_ns: 7,
            observed_ns: 9,
            surface_presented_ns: 10,
            surface_sequence: 4,
            ppp: 1.0_f32.to_bits(),
            anchors: vec![],
            state: (),
        },
    )
}

fn budget() -> ReactionBudget {
    ReactionBudget::functional(Duration::from_secs(1))
}

fn filmed() -> Story<Filmed> {
    Story::bind(budget()).with_observer(Filmed::default()).expect("admitted")
}

fn glide(_: (i16, i16), _: Motion) -> Result<ActionReceipt> {
    receipt("glide")
}

fn press(_: (i16, i16), _: Button) -> Result<ActionReceipt> {
    receipt("press")
}

fn fantasy_abv_story<O: StoryObserver>(story: &mut Story<O>) -> Result<()> {
    let hovered = story.point("thumbnail:42", Motion::default(), &resolve, &center, &glide, &surface)?;
    let _hovered = story.next_frame(&hovered, &seen, &surface)?;
    story.hold(Duration::from_millis(400), &surface)?;

    let grid = center(&story.anchor("thumbnail-grid", &resolve, &surface)?);
    let zoomed = story.modified_wheel(
        grid,
        1,
        Wheel::default(),
        Modifiers::ctrl(),
        |_, _, _, _| receipt("zoom"),
        &surface,
    )?;
    let _zoomed = story.next_frame(&zoomed, &seen, &surface)?;
    let reparented = story.drag_to(
        "query-atom:0",
        "query-group:1",
        Drag::default(),
        &resolve,
        &resolve,
        &center,
        &press,
        &glide,
        |_| receipt("release"),
        &seen,
        |_| {},
        &surface,
    )?;
    let _reparented = story.next_frame(&reparented, &seen, &surface)?;
    let moved = story.motion_to((240, 180), Motion::default(), glide, &surface)?;
    let _moved = story.next_frame(&moved, &seen, &surface)?;
    let clicked = story.click_current(Button::Primary, || Ok((240, 180)), press, &surface)?;
    let _clicked = story.next_frame(&clicked, &seen, &surface)?;
    Ok(())
}

#[test]
fn abv_shaped_story_is_observer_agnostic() {
    let mut silent = Story::bind(budget());
    assert!(fantasy_abv_story::<Silent>(&mut silent).is_ok());
    let mut film = filmed();
    assert!(fantasy_abv_story::<Filmed>(&mut film).is_ok());
    let film = film.finish(&surface).expect("finished");
    assert_eq!(film.events.first().map(String::as_str), Some("target thumbnail:42"));
    assert_eq!(film.events.last().map(String::as_str), Some("finish"));
}

#[test]
fn clicks_resolve_then_act_then_tell() {
    let mut story = filmed();
    let reaction = story.click("ok", &resolve, &center, &press, &surface).expect("clicked");
    assert_eq!(reaction.receipt().action(), "press");
    let _seen = story.until(&reaction, "done", &seen, &surface).expect("seen");
    let film = story.finish(&surface).expect("finished");
    assert_eq!(
        film.events,
        [
            "target ok",
            "action press Some(\"ok\") Some([20, 30])",
            "observed 4 click `ok`; await done",
            "finish",
        ]
    );
}

#[test]
fn absent_targets_are_not_touched() {
    let captures = RefCell::new(0);
    let counted = || {
        *captures.borrow_mut() += 1;
        surface()
    };
    let mut story = Story::bind(budget());
    let outcome = story.click(
        "absent",
        &resolve,
        &center,
        |_, _| panic!("an absent target must not be clicked"),
        &counted,
    );
    assert!(matches!(outcome, Err(Error::MissingTool("absent"))));
    assert_eq!(captures.into_inner(), 1);
}

#[test]
fn drags_release_on_every_path() {
    for (destination, refuse, expected) in [
        ("group", None, true),
        ("absent", None, false),
        ("group", Some("action press"), false),
        ("group", Some("observed"), false),
        ("group", Some("action glide"), false),
    ] {
        let released = RefCell::new(0);
        let mut story = Story::bind(budget())
            .with_observer(Filmed { events: vec![], refuse })
            .expect("admitted");
        let outcome = story.drag_to(
            "atom",
            destination,
            Drag::default(),
            &resolve,
            &resolve,
            &center,
            &press,
            &glide,
            |_| {
                *released.borrow_mut() += 1;
                receipt("release")
            },
            &seen,
            |_| {},
            &surface,
        );
        assert_eq!(outcome.is_ok(), expected, "{destination} {refuse:?}");
        assert_eq!(released.into_inner(), 1, "{destination} {refuse:?}");
    }
}

#[test]
fn taps_resolve_their_target_twice() {
    let mut story = filmed();
    let _tapped = story
        .tap("ok", Button::Secondary, Motion::default(), &resolve, &resolve, &center, &glide, &press, &seen, &surface)
        .expect("tapped");
    let film = story.finish(&surface).expect("finished");
    assert_eq!(film.events.iter().filter(|event| *event == "target ok").count(), 2);
}

#[test]
fn taps_click_where_the_target_was_found_again() {
    let mut story = filmed();
    let pressed = RefCell::new(None);
    let _tapped = story
        .tap(
            "ok",
            Button::Primary,
            Motion::default(),
            &resolve,
            |name: &str, timeout: Duration| {
                let mut anchor = resolve(name, timeout)?;
                anchor.name = "moved".to_owned();
                Ok(anchor)
            },
            &|anchor: &Anchor| if anchor.name == "moved" { (9, 9) } else { (1, 1) },
            |place, _| {
                assert_eq!(place, (1, 1));
                receipt("glide")
            },
            |place, _| {
                *pressed.borrow_mut() = Some(place);
                receipt("press")
            },
            &seen,
            &surface,
        )
        .expect("tapped");
    assert_eq!(pressed.into_inner(), Some((9, 9)));
}

#[test]
fn replacing_text_selects_it_first() {
    let mut story = filmed();
    let _typed = story
        .replace_focused_text(
            "words",
            |modifiers: Modifiers, key: Key| {
                assert_eq!((modifiers, key), (Modifiers::ctrl(), Key::Character('a')));
                receipt("select")
            },
            |text: &str| receipt(text),
            &surface,
        )
        .expect("typed");
    let film = story.finish(&surface).expect("finished");
    assert_eq!(film.events, ["action select None None", "action words None None", "finish"]);
}

#[test]
fn recording_never_contaminates_a_latency_verdict() {
    let strict = ReactionBudget::performance(Duration::from_millis(20));
    assert!(admit_observer(strict, &Silent).is_ok());
    assert!(admit_observer(strict, &Filmed::default()).is_err());
    assert!(admit_observer(budget(), &Filmed::default()).is_ok());
    assert!(matches!(
        Story::bind(strict).with_observer(Filmed::default()),
        Err(Error::Unsupported { .. })
    ));
    assert!(Story::bind(strict).with_observer(Silent).is_ok());
    let mut story = filmed();
    let reaction = story
        .click("ok", &resolve, &center, &press, &surface)
        .expect("clicked")
        .within(strict);
    let waited = story.until(
        &reaction,
        "done",
        |_: &str, _: &ActionReceipt, _: ReactionBudget| -> Result<Timed<ProbeFrame<()>>> {
            panic!("a contaminated wait must not begin")
        },
        &surface,
    );
    assert!(matches!(waited, Err(Error::Unsupported { .. })));
}

#[test]
fn stories_keep_their_policy() {
    let story = Story::bind(budget())
        .with_target_timeout(Duration::from_secs(3))
        .with_wait_timeout(Duration::from_secs(4));
    assert_eq!(story.policy().target_timeout, Duration::from_secs(3));
    assert_eq!(story.policy().wait_timeout, Duration::from_secs(4));
    assert!(demand(true, "x").is_ok());
    assert_eq!(demand(false, "x").expect_err("failed").text(), "product verdict failed: x");
}

#[test]
fn unaimed_gestures_are_told_by_their_place() {
    let mut story = filmed();
    let at = |_: (i16, i16), _: Button| receipt("at");
    let _at = story.click_at((1, 2), Button::Primary, at, &surface).expect("clicked");
    let _shifted = story
        .modified_click_at((3, 4), Button::Primary, Modifiers::ctrl(), |_, _, _| receipt("shifted"), &surface)
        .expect("clicked");
    let _dragged = story
        .drag_from((1, 1), (9, 9), Drag::default(), |_, _, _| receipt("drag"), &surface)
        .expect("dragged");
    let _drawn = story
        .stroke(&[(1, 1), (5, 6)], Stroke::default(), |_, _| receipt("stroke"), &surface)
        .expect("drawn");
    let _nothing = story
        .stroke(&[], Stroke::default(), |_, _| receipt("none"), &surface)
        .expect("drawn");
    let _turned = story
        .wheel((7, 8), -1, Wheel::default(), |_, _, _| receipt("wheel"), &surface)
        .expect("turned");
    let _scrolled = story.scroll((7, 8), 2, |_, _| receipt("scroll"), &surface).expect("scrolled");
    let _struck = story
        .key(Key::Character('k'), |_| receipt("key"), &surface)
        .expect("struck");
    let _played = story
        .chord(Modifiers::ctrl(), Key::Character('s'), |_, _| receipt("chord"), &surface)
        .expect("played");
    let typed = story.type_text("hello", receipt, &surface).expect("typed");
    assert_eq!(typed.receipt().action(), "hello");
    let film = story.finish(&surface).expect("finished");
    assert_eq!(
        film.events,
        [
            "action at None Some([1, 2])",
            "action shifted None Some([3, 4])",
            "action drag None Some([9, 9])",
            "action stroke None Some([5, 6])",
            "action none None None",
            "action wheel None Some([7, 8])",
            "action scroll None Some([7, 8])",
            "action key None None",
            "action chord None None",
            "action hello None None",
            "finish",
        ]
    );
}

fn observed() -> Result<ProbeFrame<()>> {
    seen("", &receipt("none")?, budget()).map(Timed::into_value)
}

#[test]
fn waits_tell_what_they_saw() {
    let mut story = filmed();
    let _ready = story
        .ready(Duration::from_secs(1), |_| observed(), &surface)
        .expect("ready");
    let _now = story.frame(observed, &surface).expect("current");
    let _waited = story
        .wait(
            "count is 2",
            |timeout: Duration, _: &str| {
                assert_eq!(timeout, Duration::from_secs(10));
                observed()
            },
            &surface,
        )
        .expect("waited");
    let _stable = story
        .wait_stable(
            Duration::from_secs(1),
            Duration::from_millis(5),
            "still",
            |_, _, _: &str| observed(),
            &surface,
        )
        .expect("stable");
    let failed = story.wait_within(
        Duration::from_secs(1),
        "never",
        |_, _: &str| -> Result<ProbeFrame<()>> { Err(Error::MissingTool("never")) },
        &surface,
    );
    assert!(matches!(failed, Err(Error::MissingTool("never"))));
    let film = story.finish(&surface).expect("finished");
    assert_eq!(
        film.events,
        [
            "observed 4 first product frame to reach surface present",
            "observed 4 current product observation",
            "observed 4 count is 2",
            "observed 4 still",
            "finish",
        ]
    );
}

#[test]
fn replacing_a_target_focuses_it_first() {
    let mut story = filmed();
    let _typed = story
        .replace_text(
            "name",
            "Ada",
            "focused",
            &resolve,
            &center,
            &press,
            &seen,
            |_, _| receipt("select"),
            |text: &str| receipt(text),
            &surface,
        )
        .expect("replaced");
    let film = story.finish(&surface).expect("finished");
    assert_eq!(
        film.events,
        [
            "target name",
            "action press Some(\"name\") Some([20, 30])",
            "observed 4 click `name`; await focused",
            "action select None None",
            "action Ada None None",
            "finish",
        ]
    );
}
