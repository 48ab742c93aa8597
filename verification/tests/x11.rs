use std::cell::RefCell;

use bitflags::Flags;
use egui_tester::duration::Duration;
use egui_tester::error::{Error, Source, SourceKind};
use egui_tester::input::{Button, Drag, Key, Modifiers, Motion, Stroke, Wheel, ALT_L, CONTROL_L, SHIFT_L, SUPER_L};
use egui_tester::pixels::Frame;
use egui_tester::poll::Round;
use egui_tester::stage::{Act, Rehearsal, Stage};
use egui_tester::timing::ActionReceipt;
use egui_tester::x11::gesture::{button_down, button_up, chord, click, drag, key_down, key_up, modified_click, modified_wheel, motion, move_to, scroll, stroke, type_text, type_text_by, wheel, Gesture, Planned, Step};
use egui_tester::x11::image::{channel, decode, demand_area, read_capture, ImageOrder, ServerImage, Visual};
use egui_tester::x11::keyboard::Keymap;
use egui_tester::x11::pointer::{exterior_candidates, pointer_is_outside, screen_place, Extent};
use egui_tester::x11::session::{act, remember_result, reply, sample_presented, stem, transcript_failure, ReplyFault, TranscriptFault};
use egui_tester::x11::window::{activation_is_supported, activation_round, close_label, demand_embedded, find_named_child, read_title, redock_round, title_step, window_round, SearchStep, TitleProperty, TitleStep, Window, WindowQuery, WindowSearch};
use x11rb::image::{BitsPerPixel, Image, ScanlinePad};
use xkeysym::Keysym;

/// A stage whose acts are done by a function.
struct Doing<F>(F);

impl<A: Act, E, F: FnMut(&A) -> Result<(), E>> Stage<A, E> for Doing<F> {
    fn goes(_: Self, _: A::V, _: Result<(), E>, _: Self) -> bool {
        true
    }

    fn perform(&mut self, act: &A) -> Result<(), E> {
        (self.0)(act)
    }
}

fn receipt(action: &str) -> ActionReceipt {
    ActionReceipt::recorded(1, 2, 3, action)
}

fn image(order: ImageOrder, bits: u8, depth: u8, width: u16, data: Vec<u8>) -> ServerImage {
    ServerImage {
        width,
        height: 1,
        scanline_pad: 32,
        depth,
        bits_per_pixel: bits,
        byte_order: order,
        data,
    }
}

// ---------------------------------------------------------------------------
// Pixels
// ---------------------------------------------------------------------------

#[test]
fn rgb888_fast_path_decodes_both_x11_byte_orders() {
    for (order, source) in [
        (ImageOrder::LsbFirst, [3, 2, 1, 0, 30, 20, 10, 0]),
        (ImageOrder::MsbFirst, [0, 1, 2, 3, 0, 10, 20, 30]),
    ] {
        let image = image(order, 32, 24, 2, source.to_vec());
        assert_eq!(
            decode(&image, 0x00ff_0000, 0x0000_ff00, 0x0000_00ff),
            [1, 2, 3, 255, 10, 20, 30, 255]
        );
    }
}

#[test]
fn narrow_formats_are_read_through_the_server_image() {
    let data = vec![0xe0, 0x07, 0x1f, 0xf8];
    let ours = image(ImageOrder::LsbFirst, 16, 16, 2, data.clone());
    let theirs = Image::new(
        2,
        1,
        ScanlinePad::Pad32,
        16,
        BitsPerPixel::B16,
        x11rb::image::ImageOrder::LsbFirst,
        std::borrow::Cow::Owned(data),
    )
    .expect("forge X11 image");
    let mut expected = Vec::new();
    for x in 0..2 {
        let pixel = theirs.get_pixel(x, 0);
        expected.extend([
            channel(pixel, 0xf800),
            channel(pixel, 0x07e0),
            channel(pixel, 0x001f),
            255,
        ]);
    }
    assert_eq!(decode(&ours, 0xf800, 0x07e0, 0x001f), expected);
    assert_eq!(expected, [0, 255, 0, 255, 255, 0, 255, 255]);
}

#[test]
fn channels_scale_and_round() {
    assert_eq!(channel(0x1234, 0), 0);
    assert_eq!(channel(0x0000_8000, 0x0000_ff00), 0x80);
    assert_eq!(channel(0x10, 0x1f), 132);
    assert_eq!(channel(0x1f, 0x1f), 255);
}

#[test]
fn captures_need_an_area_and_a_visual() {
    assert!(demand_area(1, 1).is_ok());
    assert_eq!(
        demand_area(0, 4).expect_err("no area").text(),
        "X11 protocol failure while capture window: window has zero area"
    );
    let visual = Visual { id: 7, red_mask: 0x00ff_0000, green_mask: 0xff00, blue_mask: 0xff };
    let picture = image(ImageOrder::LsbFirst, 32, 24, 1, vec![3, 2, 1, 0]);
    let frame = read_capture(&picture, 7, &vec![visual]).expect("captured");
    assert_eq!(frame.rgba(), [1, 2, 3, 255]);
    assert_eq!(
        read_capture(&picture, 0x21, &vec![visual]).expect_err("unknown").text(),
        "X11 protocol failure while decode window pixels: server omitted visual 0x21"
    );
}

#[test]
fn packed_pixels_are_read_by_their_bits() {
    let data = vec![0b1010_0110, 0x21, 0x43, 0x65, 0x87, 0xa9, 0xcb, 0xed];
    let shown = |order, bits: u8, width, mask| {
        decode(&image(order, bits, bits, width, data.clone()), mask, 0, 0)
            .chunks_exact(4)
            .map(|pixel| pixel[0])
            .collect::<Vec<u8>>()
    };
    assert_eq!(shown(ImageOrder::LsbFirst, 1, 4, 1), [0, 255, 255, 0]);
    assert_eq!(shown(ImageOrder::MsbFirst, 1, 4, 1), [255, 0, 255, 0]);
    assert_eq!(shown(ImageOrder::LsbFirst, 4, 2, 0xf), [0xaa, 0x66]);
    assert_eq!(shown(ImageOrder::MsbFirst, 4, 2, 0xf), [0x66, 0xaa]);
    assert_eq!(shown(ImageOrder::LsbFirst, 8, 3, 0xff), [0xa6, 0x21, 0x43]);
    assert_eq!(shown(ImageOrder::LsbFirst, 16, 2, 0xff), [0xa6, 0x43]);
    assert_eq!(shown(ImageOrder::MsbFirst, 16, 2, 0xff), [0x21, 0x65]);
    assert_eq!(shown(ImageOrder::LsbFirst, 24, 2, 0xff_0000), [0x43, 0xa9]);
    assert_eq!(shown(ImageOrder::MsbFirst, 24, 2, 0xff_0000), [0xa6, 0x65]);
}

// ---------------------------------------------------------------------------
// Keys
// ---------------------------------------------------------------------------

fn keymap() -> Keymap {
    Keymap {
        min_keycode: 8,
        keysyms_per_keycode: 2,
        keysyms: vec![
            u32::from('a'), u32::from('A'),
            u32::from('1'), u32::from('!'),
            SHIFT_L, 0,
            CONTROL_L, 0,
            Keysym::Return.raw(), 0,
        ],
    }
}

#[test]
fn key_symbols_are_those_of_the_protocol() {
    for (ours, theirs) in [
        (SHIFT_L, Keysym::Shift_L),
        (CONTROL_L, Keysym::Control_L),
        (ALT_L, Keysym::Alt_L),
        (SUPER_L, Keysym::Super_L),
        (Key::Return.keysym().expect("key"), Keysym::Return),
        (Key::Escape.keysym().expect("key"), Keysym::Escape),
        (Key::Tab.keysym().expect("key"), Keysym::Tab),
        (Key::Backspace.keysym().expect("key"), Keysym::BackSpace),
        (Key::Delete.keysym().expect("key"), Keysym::Delete),
        (Key::Home.keysym().expect("key"), Keysym::Home),
        (Key::End.keysym().expect("key"), Keysym::End),
        (Key::Left.keysym().expect("key"), Keysym::Left),
        (Key::Right.keysym().expect("key"), Keysym::Right),
        (Key::Up.keysym().expect("key"), Keysym::Up),
        (Key::Down.keysym().expect("key"), Keysym::Down),
        (Key::Shift.keysym().expect("key"), Keysym::Shift_L),
        (Key::Control.keysym().expect("key"), Keysym::Control_L),
        (Key::Alt.keysym().expect("key"), Keysym::Alt_L),
        (Key::Super.keysym().expect("key"), Keysym::Super_L),
        (Key::Function(1).keysym().expect("key"), Keysym::F1),
        (Key::Function(12).keysym().expect("key"), Keysym::F12),
        (Key::Character('a').keysym().expect("key"), Keysym::a),
        (Key::Character('\u{e9}').keysym().expect("key"), Keysym::eacute),
    ] {
        assert_eq!(ours, theirs.raw());
    }
    assert!(matches!(Key::Character('\u{3bb}').keysym(), Err(Error::Unsupported { .. })));
    assert!(matches!(Key::Function(0).keysym(), Err(Error::Unsupported { .. })));
}

#[test]
fn keys_render_as_they_are_written() {
    assert_eq!(Key::Character('\'').text(), format!("Character({:?})", '\''));
    assert_eq!(Key::Return.text(), "Return");
    assert_eq!(Key::Function(7).text(), "Function(7)");
}

#[test]
fn keycodes_come_from_the_first_binding() {
    let map = keymap();
    assert_eq!(map.keycode(u32::from('a')).expect("bound"), (8, false));
    assert_eq!(map.keycode(u32::from('A')).expect("bound"), (8, true));
    assert_eq!(map.keycode(u32::from('!')).expect("bound"), (9, true));
    assert_eq!(
        map.keycode(u32::from('z')).expect_err("unbound").text(),
        format!(
            "backend capability `keyboard symbol` is unavailable: the X11 keymap has no binding for {:?}",
            Keysym::z
        )
    );
}

// ---------------------------------------------------------------------------
// Modifiers
// ---------------------------------------------------------------------------

struct Bits(u8);

const SHIFT: Bits = Bits(1);
const CTRL: Bits = Bits(2);
const ALT: Bits = Bits(4);
const SUPER: Bits = Bits(8);

impl Flags for Bits {
    const FLAGS: &'static [bitflags::Flag<Self>] = &[
        bitflags::Flag::new("SHIFT", SHIFT),
        bitflags::Flag::new("CTRL", CTRL),
        bitflags::Flag::new("ALT", ALT),
        bitflags::Flag::new("SUPER", SUPER),
    ];
    type Bits = u8;

    fn bits(&self) -> u8 {
        self.0
    }

    fn from_bits_retain(bits: u8) -> Self {
        Bits(bits)
    }
}

#[test]
fn modifiers_render_like_flags() {
    for bits in 0..16_u8 {
        let modifiers = Modifiers {
            shift: bits & 1 != 0,
            ctrl: bits & 2 != 0,
            alt: bits & 4 != 0,
            logo: bits & 8 != 0,
        };
        let mut names = String::new();
        bitflags::parser::to_writer(&Bits(bits), &mut names).expect("render");
        let expected = if bits == 0 { "Modifiers(0x0)".to_owned() } else { format!("Modifiers({names})") };
        assert_eq!(modifiers.text(), expected);
    }
    assert_eq!(
        Modifiers::shift().union(Modifiers::ctrl()),
        Modifiers { shift: true, ctrl: true, alt: false, logo: false }
    );
}

// ---------------------------------------------------------------------------
// Gestures
// ---------------------------------------------------------------------------

fn held_after(plan: &[Planned]) -> (usize, usize) {
    let mut keys = 0;
    let mut buttons = 0;
    for planned in plan {
        match planned.step {
            Step::ModifierPress(_) | Step::KeyPress(_) => keys += 1,
            Step::ModifierLift(_) | Step::KeyRelease(_) => keys -= 1,
            Step::ButtonPress(_) => buttons += 1,
            Step::ButtonRelease(_) => buttons -= 1,
            _ => {}
        }
    }
    (keys, buttons)
}

fn lets_go(gesture: &Gesture) -> bool {
    held_after(&gesture.plan) == (0, 0)
}

#[test]
fn clicks_and_chords_let_go_of_everything() {
    let both = Modifiers::shift().union(Modifiers::ctrl());
    let clicked = modified_click((3, 4), Button::Primary, both);
    assert!(lets_go(&clicked));
    assert_eq!(clicked.label, "Modifiers(SHIFT | CTRL) Primary click at (3, 4)");
    let pressed_at = clicked
        .plan
        .iter()
        .position(|planned| matches!(planned.step, Step::ButtonPress(1)))
        .expect("press");
    assert_eq!(clicked.plan[pressed_at].rescue.len(), 3);
    assert!(lets_go(&click((0, 0), Button::Secondary)));
    let upper = chord(&keymap(), Modifiers::ctrl(), Key::Character('A')).expect("chord");
    assert!(lets_go(&upper));
    assert!(upper.label.starts_with("Modifiers(SHIFT | CTRL)+"), "{}", upper.label);
    assert!(chord(&keymap(), Modifiers::empty(), Key::Character('z')).is_err());
}

#[test]
fn held_buttons_and_keys_come_in_pairs() {
    assert_eq!(held_after(&button_down((1, 2), Button::Primary).plan), (0, 1));
    assert!(button_up(Button::Primary)
        .plan
        .iter()
        .any(|planned| matches!(planned.step, Step::ButtonRelease(1))));
    assert!(key_down(&keymap(), Key::Character('a')).is_ok());
    assert!(key_up(&keymap(), Key::Character('a')).is_ok());
    assert!(matches!(
        key_down(&keymap(), Key::Character('A')),
        Err(Error::Unsupported { capability: "held shifted key", .. })
    ));
}

#[test]
fn transports_divide_their_duration() {
    let moved = motion(
        (0, 0),
        (10, 10),
        Motion { steps: 4, duration: Duration::from_millis(100) },
    )
    .expect("motion");
    assert_eq!(moved.label, "pointer motion (0, 0) \u{2192} (10, 10)");
    assert!(moved.plan.iter().any(|planned| matches!(
        planned.step,
        Step::Transport { from: (0, 0), to: (10, 10), steps: 4, pause } if pause == Duration::from_millis(25)
    )));
    assert!(motion((0, 0), (1, 1), Motion { steps: 0, duration: Duration::zero() }).is_err());
    let dragged = drag((0, 0), (9, 9), Drag::default()).expect("drag");
    assert!(lets_go(&dragged));
    let swept = stroke(&[(0, 0), (5, 5), (9, 0)], Stroke::default()).expect("stroke");
    assert!(lets_go(&swept));
    assert!(stroke(&[(0, 0)], Stroke::default()).is_err());
}

#[test]
fn wheels_scroll_tick_by_tick() {
    let up = wheel((5, 6), -3, Wheel::default());
    assert_eq!((up.detail, up.count), (4, 3));
    assert_eq!(up.label, "scroll -3 ticks at (5, 6)");
    let down = scroll((5, 6), 2);
    assert_eq!((down.detail, down.count), (5, 2));
    for tick in 0..2 {
        let plan = down.tick(tick);
        assert_eq!(held_after(&plan), (0, 0));
        assert_eq!(
            plan.iter().any(|planned| matches!(planned.step, Step::Trigger)),
            tick == 1
        );
    }
    assert_eq!(down.delivery_guard(), Some(Duration::from_millis(32)));
    assert_eq!(scroll((0, 0), 0).delivery_guard(), None);
    let around = modified_wheel(&down, Modifiers::ctrl());
    let (acquired, _) = held_after(&around.before);
    assert_eq!(acquired, 1);
    assert!(around.after.iter().any(|planned| matches!(planned.step, Step::ModifierLift(CONTROL_L))));
}

fn spelled(step: &Step) -> String {
    format!("{step:?}")
}

#[test]
fn plans_are_played_in_order() {
    let gesture = click((3, 4), Button::Primary);
    let seen = RefCell::new(vec![]);
    let receipt = gesture
        .play(&mut Doing(|step: &Step| {
            seen.borrow_mut().push(spelled(step));
            Ok(())
        }))
        .expect("played");
    assert_eq!(receipt.action(), gesture.label);
    assert!(receipt.gesture_started_ns() <= receipt.triggered_ns());
    assert!(receipt.triggered_ns() <= receipt.completed_ns());
    let planned: Vec<String> = gesture
        .plan
        .iter()
        .map(|planned| &planned.step)
        .filter(|step| !matches!(step, Step::Begin | Step::Trigger | Step::Finish))
        .map(spelled)
        .collect();
    assert_eq!(seen.into_inner(), planned);
}

#[test]
fn failed_steps_are_rescued() {
    let gesture = modified_click((3, 4), Button::Primary, Modifiers::ctrl());
    let seen = RefCell::new(vec![]);
    let outcome = gesture.play(&mut Doing(|step: &Step| {
        seen.borrow_mut().push(spelled(step));
        match step {
            Step::ButtonPress(_) => Err(Error::MissingTool("server")),
            _ => Ok(()),
        }
    }));
    assert!(matches!(outcome, Err(Error::MissingTool("server"))));
    let seen = seen.into_inner();
    let pressed = seen.iter().position(|step| step.starts_with("ButtonPress")).expect("pressed");
    assert!(seen[pressed + 1].starts_with("ModifierLift"), "{seen:?}");
    assert!(seen[pressed + 2].contains("release click modifiers"), "{seen:?}");
    assert_eq!(seen.len(), pressed + 3);
    let deaf = gesture.play(&mut Doing(|step: &Step| match step {
        Step::ModifierLift(_) => Err(Error::MissingTool("server")),
        _ => Ok(()),
    }));
    assert!(deaf.is_ok());
}

#[test]
fn wheels_are_played_tick_by_tick() {
    let turned = wheel((1, 2), -3, Wheel { tick_duration: Duration::from_millis(5) });
    let presses = RefCell::new(vec![]);
    let receipt = turned
        .play(&mut Doing(|step: &Step| {
            presses.borrow_mut().push(spelled(step));
            Ok(())
        }))
        .expect("turned");
    assert_eq!(receipt.action(), "scroll -3 ticks at (1, 2)");
    let steps = presses.into_inner();
    assert_eq!(steps.iter().filter(|step| *step == "ButtonPress(4)").count(), 3);
    assert_eq!(steps.iter().filter(|step| step.starts_with("Rest")).count(), 3);
    assert!(steps.last().expect("steps").starts_with("Rest"));
    let around = modified_wheel(&turned, Modifiers::ctrl());
    let seen = RefCell::new(vec![]);
    let outcome = around.play(&turned, &mut Doing(|step: &Step| {
        seen.borrow_mut().push(spelled(step));
        match step {
            Step::ButtonPress(_) => Err(Error::MissingTool("server")),
            _ => Ok(()),
        }
    }));
    assert!(matches!(outcome, Err(Error::MissingTool("server"))));
    assert!(seen.into_inner().last().expect("steps").contains("release wheel modifiers"));
    let played = around.play(&turned, &mut Doing(|_: &Step| Ok(()))).expect("turned");
    assert_eq!(played.action(), around.label);
}

#[test]
fn jumps_and_closes_are_named() {
    assert_eq!(move_to((-1, 7)).label, "pointer motion to (-1, 7)");
    assert_eq!(close_label(&Window::found(9, "editor".to_owned())), "close window `editor`");
}

#[test]
fn typing_stops_at_the_first_failure() {
    let struck = RefCell::new(Vec::new());
    let typed = type_text("abc", &mut Doing(|key: &Key| {
        struck.borrow_mut().push(*key);
        Ok(())
    }))
    .expect("typed");
    assert_eq!(typed.action(), "type 3 character(s)");
    assert_eq!(
        struck.into_inner(),
        [Key::Character('a'), Key::Character('b'), Key::Character('c')]
    );
    let count = RefCell::new(0);
    let failed = type_text("abc", &mut Doing(|key: &Key| {
        *count.borrow_mut() += 1;
        if *key == Key::Character('b') {
            Err(Error::MissingTool("keyboard"))
        } else {
            Ok(())
        }
    }));
    assert!(failed.is_err());
    assert_eq!(count.into_inner(), 2);
}

#[test]
fn repeated_acts_are_each_performed() {
    let mut typist = Rehearsal::new();
    type_text("hello", &mut typist).expect("typed");
    assert_eq!(typist.acts, ['h', 'e', 'l', 'l', 'o'].map(Key::Character));
    let mut stage = Rehearsal::new();
    wheel((1, 2), 4, Wheel { tick_duration: Duration::from_millis(5) })
        .play(&mut stage)
        .expect("turned");
    let presses = stage.acts.iter().filter(|step| matches!(step, Step::ButtonPress(_))).count();
    assert_eq!(presses, 4);
    let mut stage = Rehearsal::new();
    let gesture = click((3, 4), Button::Primary);
    gesture.play(&mut stage).expect("played");
    let planned: Vec<String> = gesture
        .plan
        .iter()
        .map(|planned| spelled(&planned.step))
        .filter(|step| !matches!(step.as_str(), "Begin" | "Trigger" | "Finish"))
        .collect();
    assert_eq!(stage.acts.iter().map(spelled).collect::<Vec<String>>(), planned);
}

#[test]
fn gestures_are_timed_at_their_marks() {
    let now = RefCell::new(0);
    let read = || {
        *now.borrow_mut() += 1;
        *now.borrow()
    };
    let dragged = drag((0, 0), (9, 9), Drag::default()).expect("planned");
    let carried = dragged.play_by(&mut Doing(|_: &Step| Ok(())), &|_, _: &Step| read()).expect("dragged");
    assert_eq!(
        (carried.gesture_started_ns(), carried.triggered_ns(), carried.completed_ns()),
        (2, 3, 4)
    );
    let begun = *now.borrow();
    let turned = wheel((1, 2), 2, Wheel { tick_duration: Duration::from_millis(5) });
    let spun = turned.play_by(&mut Doing(|_: &Step| Ok(())), &|_, _: &Step| read()).expect("turned");
    assert!(spun.gesture_started_ns() > begun);
    assert!(spun.gesture_started_ns() < spun.triggered_ns());
    assert!(spun.triggered_ns() < spun.completed_ns());
    assert_eq!(spun.completed_ns(), *now.borrow());
    let typed = type_text_by("ab", &mut Doing(|_: &Key| Ok(())), &|_, _: &Step| read()).expect("typed");
    let last = *now.borrow();
    assert_eq!(
        (typed.gesture_started_ns(), typed.triggered_ns(), typed.completed_ns()),
        (last - 2, last - 1, last)
    );
}

// ---------------------------------------------------------------------------
// Pointer
// ---------------------------------------------------------------------------

#[test]
fn pointers_leave_to_the_most_remote_corner() {
    assert_eq!(screen_place((10, 20), 5, -6), (15, 14));
    assert_eq!(screen_place((i16::MAX, 0), 5, 0), (i16::MAX, 0));
    let window = Extent { width: 100, height: 50 };
    assert!(!pointer_is_outside((99, 49), window));
    assert!(pointer_is_outside((100, 0), window));
    assert!(pointer_is_outside((-1, 0), window));
    let corners = exterior_candidates((0, 0), window, Extent { width: 200, height: 200 }).expect("free");
    assert_eq!(corners[0], (199, 199));
    assert_eq!(corners.len(), 3);
    assert!(!corners.contains(&(0, 0)));
    let covering = Extent { width: 400, height: 400 };
    assert!(exterior_candidates((0, 0), covering, Extent { width: 200, height: 200 }).is_err());
}

// ---------------------------------------------------------------------------
// Windows
// ---------------------------------------------------------------------------

#[test]
fn window_searches_are_breadth_first() {
    let query = WindowQuery::title_contains("fix");
    let mut search = WindowSearch::begin(1);
    let mut visited = Vec::new();
    loop {
        search = match search.step() {
            SearchStep::Tree(1) => search.tree(Some(vec![2, 3])),
            SearchStep::Tree(2) => search.tree(Some(vec![4])),
            SearchStep::Tree(3) => search.tree(None),
            SearchStep::Tree(_) => search.tree(Some(vec![])),
            SearchStep::Title(window) => {
                visited.push(window);
                let title = match window {
                    2 | 4 => Some("egui tester fixture".to_owned()),
                    _ => None,
                };
                search.title(&query, title)
            }
            SearchStep::Visibility(window) => search.visibility(window == 4),
            SearchStep::Finished => break,
        };
    }
    assert_eq!(visited, [2, 3, 4]);
    let matches = search.into_matches();
    assert_eq!(matches.len(), 1);
    assert_eq!((matches[0].id(), matches[0].title()), (4, "egui tester fixture"));
}

#[test]
fn queries_match_whole_or_part() {
    assert!(WindowQuery::title_exact("a").matches("a"));
    assert!(!WindowQuery::title_exact("a").matches("ab"));
    assert!(WindowQuery::from("a").matches("bab"));
    assert!(WindowQuery::from("a".to_owned()).matches("a"));
    assert!(matches!(title_step(None), TitleStep::Known(None)));
    assert!(matches!(title_step(Some(vec![])), TitleStep::Empty));
    match title_step(Some(b"title\0\0".to_vec())) {
        TitleStep::Known(Some(title)) => assert_eq!(title, "title"),
        other => panic!("unexpected {other:?}"),
    }
}

#[test]
fn window_waits_end_by_name() {
    let query = WindowQuery::title_exact("app");
    assert!(matches!(
        window_round(&query, vec![], false, Duration::from_secs(1)),
        Ok(Round::Again(15))
    ));
    assert!(matches!(
        window_round(&query, vec![], true, Duration::from_secs(1)),
        Err(Error::Timeout { .. })
    ));
    match window_round(&query, vec![Window::found(5, "app".to_owned())], true, Duration::zero()) {
        Ok(Round::Done(window)) => assert_eq!(window.id(), 5),
        other => panic!("unexpected {other:?}"),
    }
    let window = Window::found(5, "app".to_owned());
    assert!(demand_embedded(&window, 2, 1).is_ok());
    assert!(demand_embedded(&window, 1, 1).is_err());
    assert!(matches!(redock_round(&window, None, false, Duration::zero()), Ok(Round::Again(15))));
    assert!(redock_round(&window, None, true, Duration::zero()).is_err());
    assert!(activation_is_supported(&Some(vec![3, 4]), 4));
    assert!(!activation_is_supported(&None, 4));
    assert!(matches!(activation_round(&window, Some(5), true), Ok(Round::Done(()))));
    assert!(matches!(activation_round(&window, None, false), Ok(Round::Again(8))));
    assert_eq!(
        activation_round(&window, Some(6), true).expect_err("inactive").text(),
        "X11 protocol failure while activate window: EWMH window manager did not activate `app` within 2s"
    );
}

// ---------------------------------------------------------------------------
// Sessions
// ---------------------------------------------------------------------------

#[test]
fn session_actions_are_guarded_and_recorded() {
    let recorded = RefCell::new(0);
    let done = act(
        "pointer click",
        |waiting: &str| {
            assert_eq!(waiting, "pointer click");
            Ok(())
        },
        || Ok(receipt("click")),
        |receipt: &ActionReceipt| {
            assert_eq!(receipt.action(), "click");
            *recorded.borrow_mut() += 1;
            Ok(())
        },
    );
    assert_eq!(done.expect("done").action(), "click");
    assert_eq!(recorded.into_inner(), 1);
    let dead = act(
        "pointer click",
        |_: &str| Err(Error::MissingTool("application")),
        || panic!("a dead application must not be touched"),
        |_: &ActionReceipt| Ok(()),
    );
    assert!(dead.is_err());
    let unrecorded = act(
        "pointer click",
        |_: &str| Ok(()),
        || Ok(receipt("click")),
        |_: &ActionReceipt| Err(Error::MissingTool("transcript")),
    );
    assert!(matches!(unrecorded, Err(Error::MissingTool("transcript"))));
}

#[test]
fn pixel_waits_are_remembered() {
    let frame = || Frame::new(1, 1, vec![1, 2, 3, 4]);
    let kept = remember_result(Ok(frame()), |_: &Frame| Ok(()), || panic!("nothing failed"));
    assert_eq!(kept.expect("kept").rgba(), [1, 2, 3, 4]);
    let unsaved = remember_result(Ok(frame()), |_: &Frame| Err(Error::MissingTool("disk")), || Ok(frame()));
    assert!(unsaved.is_err());
    let captured = RefCell::new(false);
    let failed = remember_result(
        Err(Error::MissingTool("change")),
        |_: &Frame| panic!("nothing to save"),
        || {
            *captured.borrow_mut() = true;
            Ok(frame())
        },
    );
    assert!(matches!(failed, Err(Error::MissingTool("change"))));
    assert!(captured.into_inner());
}

#[test]
fn transcripts_and_replies_report_their_faults() {
    let source = || Source { kind: SourceKind::Other, text: "full".to_owned() };
    assert_eq!(
        transcript_failure(TranscriptFault::Encode("bad".to_owned())).text(),
        "X11 protocol failure while write action transcript: bad"
    );
    assert_eq!(
        transcript_failure(TranscriptFault::Write(source())).text(),
        "write X11 action transcript `<transcript>`: full"
    );
    assert_eq!(
        transcript_failure(TranscriptFault::Flush(source())).text(),
        "flush X11 action transcript `<transcript>`: full"
    );
    assert_eq!(reply("ask", Ok(3)).expect("answered"), Some(3));
    let gone: Result<i32, ReplyFault> = Err(ReplyFault { window: true, text: "gone".to_owned() });
    assert_eq!(reply("ask", gone).expect("gone"), None);
    let broken: Result<i32, ReplyFault> = Err(ReplyFault { window: false, text: "broken".to_owned() });
    assert_eq!(
        reply("ask", broken).expect_err("broken").text(),
        "X11 protocol failure while ask: broken"
    );
    assert_eq!(stem("egui-tester-1.service"), "egui-tester-1_service");
}

#[test]
fn titles_are_read_from_the_first_property_that_has_one() {
    let read = |first: Option<Vec<u8>>, second: Option<Vec<u8>>| {
        read_title(&move |property: TitleProperty| {
            Ok(match property {
                TitleProperty::NetName => first.clone(),
                TitleProperty::Name => second.clone(),
            })
        })
        .expect("read")
    };
    assert_eq!(read(Some(b"net\0".to_vec()), Some(b"old".to_vec())).as_deref(), Some("net"));
    assert_eq!(read(Some(vec![]), Some(b"old".to_vec())).as_deref(), Some("old"));
    assert_eq!(read(Some(vec![]), Some(vec![])), None);
    assert_eq!(read(None, Some(b"old".to_vec())), None);
    let refused = read_title(&|_: TitleProperty| {
        Err(Error::X11 { operation: "read window title", detail: "refused".to_owned() })
    });
    assert!(matches!(refused, Err(Error::X11 { .. })));
}

#[test]
fn named_children_are_asked_for_visibility_in_order() {
    let asked = std::cell::RefCell::new(Vec::new());
    let title = |child: u32| Ok((child > 7).then_some("app".to_owned()));
    let viewable = |child: u32| {
        asked.borrow_mut().push(child);
        Ok(child == 9)
    };
    let children = vec![7, 8, 9, 10];
    let found = find_named_child(&children, "app", &title, &viewable).expect("asked");
    assert_eq!(found.expect("named").id(), 9);
    assert_eq!(*asked.borrow(), [8, 9]);
    assert!(find_named_child(&children, "other", &title, &viewable).expect("asked").is_none());
    assert_eq!(*asked.borrow(), [8, 9]);
    let gone = |_: u32| Err(Error::X11 { operation: "inspect", detail: "gone".to_owned() });
    assert!(find_named_child(&children, "app", &title, &gone).is_err());
}

#[test]
fn presented_surfaces_are_sampled() {
    let frame = || Ok(Frame::new(1, 1, vec![1, 2, 3, 4]));
    assert!(sample_presented(Ok(()), frame).is_ok());
    let captured = std::cell::Cell::new(false);
    let failed: egui_tester::error::Result<()> =
        Err(Error::X11 { operation: "present", detail: "never".to_owned() });
    let sampled = sample_presented(failed, || {
        captured.set(true);
        frame()
    });
    assert!(captured.get());
    assert!(matches!(sampled, Err(Error::X11 { operation: "present", .. })));
}
