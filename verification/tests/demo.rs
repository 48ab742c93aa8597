use egui_tester::demo::encoder::{ignition_line, EncodingProfile};
use egui_tester::demo::paint::{blend, chapter_card, collect_glyphs, fill, paint_scene, ring, Point, Rect, Scene};
use egui_tester::demo::recorder::{compose, rest, Interval, Recorder, RecorderConfig, Shot, TRACE_SCHEMA};
use egui_tester::duration::Duration;
use egui_tester::error::{Error, Source, SourceKind};
use egui_tester::pixels::Frame;
use egui_tester::service::unit::CommandOutput;
use font8x8::UnicodeFonts;

fn source(text: &str) -> Source {
    Source { kind: SourceKind::Other, text: text.to_owned() }
}

fn recorder(path: &str) -> Recorder {
    Recorder::forge(
        RecorderConfig::new(&path.as_bytes().to_vec()),
        |_: &Vec<u8>| Ok(()),
        |_: &Vec<u8>| Ok(()),
    )
    .expect("forge recorder")
}

#[test]
fn scene_painting_changes_only_valid_rgba() {
    let mut rgba = vec![0; 64 * 48 * 4];
    paint_scene(
        &mut rgba,
        64,
        48,
        Some(Rect {
            left: 4,
            top: 4,
            right: 40,
            bottom: 30,
        }),
        Scene::Target {
            pointer: Point { x: 20, y: 20 },
        },
    );
    assert!(rgba.chunks_exact(4).any(|pixel| pixel != [0, 0, 0, 0]));
    assert!(rgba.chunks_exact(4).all(|pixel| pixel.len() == 4));
    assert_eq!(rgba.len(), 64 * 48 * 4);
}

#[test]
fn frame_count_rounds_up_without_vanishing() {
    let recorder = recorder("/tmp/demo/film.mp4");
    assert_eq!(recorder.config().rate(), 60);
    assert_eq!(recorder.config().profile(), EncodingProfile::Proof);
    assert_eq!(recorder.frames(Duration::zero()), 1);
    assert_eq!(recorder.frames(Duration::from_millis(84)), 6);
    assert_eq!(recorder.frames_due(Duration::zero()), 1);
    assert_eq!(recorder.frames_due(Duration::from_millis(16)), 1);
    assert_eq!(recorder.frames_due(Duration::from_millis(17)), 2);
}

#[test]
fn showpiece_profile_is_slow_and_animation_tuned() {
    assert!(!EncodingProfile::Proof.stages_lossless_capture());
    assert!(EncodingProfile::Showpiece.stages_lossless_capture());
    assert_eq!(
        EncodingProfile::Showpiece.x264(),
        ("slow", "12", Some("animation"))
    );
}

#[test]
fn recorders_demand_a_film_and_make_its_trace() {
    let made = std::cell::RefCell::new(Vec::new());
    let recorder = Recorder::forge(
        RecorderConfig::new(&b"/tmp/demo/film.mp4".to_vec()),
        |path: &Vec<u8>| {
            made.borrow_mut().push(path.clone());
            Ok(())
        },
        |path: &Vec<u8>| {
            made.borrow_mut().push(path.clone());
            Ok(())
        },
    )
    .expect("forge");
    assert_eq!(
        made.into_inner(),
        [b"/tmp/demo".to_vec(), b"/tmp/demo/film.events.jsonl".to_vec()]
    );
    assert_eq!(recorder.trace_path(), &b"/tmp/demo/film.events.jsonl".to_vec());
    assert_eq!(recorder.output(), &b"/tmp/demo/film.mp4".to_vec());
    assert_eq!(recorder.frames_written(), 0);
    let refused = Recorder::forge(
        RecorderConfig::new(&b"/tmp/film.mkv".to_vec()),
        |_: &Vec<u8>| panic!("nothing is made for a refused film"),
        |_: &Vec<u8>| Ok(()),
    );
    assert!(matches!(refused, Err(Error::Verdict { .. })));
    let undirected = Recorder::forge(
        RecorderConfig::new(&b"/tmp/film.mp4".to_vec()),
        |_: &Vec<u8>| Err(source("denied")),
        |_: &Vec<u8>| Ok(()),
    );
    match undirected {
        Err(Error::Io { operation, path, .. }) => {
            assert_eq!(operation, "create demo artifact directory");
            assert_eq!(path, b"/tmp".to_vec());
        }
        other => panic!("unexpected {other:?}"),
    }
    assert_eq!(TRACE_SCHEMA, "egui-demo.trace/2");
}

#[test]
fn the_film_clock_always_advances() {
    let interval = Interval::begin(Duration::from_millis(84), 60);
    assert_eq!((interval.count, interval.phase), (6, 0));
    assert!(interval.pending());
    assert_eq!(interval.due(Duration::zero(), 60), 1);
    assert_eq!(interval.due(Duration::from_millis(50), 60), 4);
    assert_eq!(interval.due(Duration::from_secs(9), 60), 6);
    let late = Interval { count: 6, phase: 4 };
    assert_eq!(late.due(Duration::zero(), 60), 5);
    let pause = rest(
        Duration::from_millis(16),
        1,
        Duration::from_millis(1),
        Duration::from_millis(2),
    );
    assert_eq!(pause, Duration::from_millis(13));
}

#[test]
fn shots_compose_their_scenes() {
    match compose(
        Shot::Flight { origin: Point { x: 0, y: 0 }, destination: Point { x: 10, y: 20 } },
        4,
        5,
    ) {
        Scene::Target { pointer } => assert_eq!(pointer, Point { x: 10, y: 20 }),
        other => panic!("unexpected {other:?}"),
    }
}

#[test]
fn points_travel_in_straight_lines() {
    let from = Point { x: 0, y: -10 };
    let to = Point { x: 10, y: 11 };
    assert_eq!(from.lerp(to, 0, 4), from);
    assert_eq!(from.lerp(to, 4, 4), to);
    assert_eq!(from.lerp(to, 2, 4), Point { x: 5, y: 0 });
    assert_eq!(Point::at((3, -4)), Point { x: 3, y: -4 });
}

#[test]
fn painting_stays_inside_the_picture() {
    let mut rgba = vec![0; 8 * 8 * 4];
    blend(&mut rgba, 8, 8, -1, 0, [255, 255, 255, 255]);
    blend(&mut rgba, 8, 8, 8, 0, [255, 255, 255, 255]);
    assert!(rgba.iter().all(|byte| *byte == 0));
    blend(&mut rgba, 8, 8, 1, 0, [200, 100, 50, 255]);
    assert_eq!(&rgba[4..8], &[200, 100, 50, 255]);
    fill(
        &mut rgba,
        8,
        8,
        Rect { left: 6, top: 6, right: 20, bottom: 20 },
        [10, 20, 30, 255],
    );
    assert_eq!(&rgba[(7 * 8 + 7) * 4..][..4], &[10, 20, 30, 255]);
    assert_eq!(&rgba[(5 * 8 + 5) * 4..][..4], &[0, 0, 0, 0]);
    let before = rgba.clone();
    ring(&mut rgba, 8, 8, Point { x: 100, y: 100 }, 3, 2, [255, 0, 0, 255]);
    assert_eq!(rgba, before);
}

#[test]
fn glyphs_come_from_the_basic_font() {
    let glyphs = collect_glyphs("A~");
    assert_eq!(glyphs.len(), 2);
    assert_eq!(glyphs[0], font8x8::BASIC_FONTS.get('A').expect("letter"));
    assert_eq!(glyphs[1], font8x8::BASIC_FONTS.get('~').expect("tilde"));
}

#[test]
fn chapter_cards_are_painted() {
    let mut rgba = vec![7; 320 * 200 * 4];
    chapter_card(&mut rgba, 320, 200, "Opening");
    assert!(rgba.chunks_exact(4).any(|pixel| pixel != [7, 7, 7, 7]));
    assert_eq!(rgba.len(), 320 * 200 * 4);
}

#[test]
fn ignition_lines_name_the_picture() {
    let line = ignition_line(&b"/tmp/film.mp4".to_vec(), 640, 480, 60, EncodingProfile::Proof);
    let words: Vec<String> = line
        .iter()
        .map(|word| String::from_utf8(word.clone()).expect("text"))
        .collect();
    assert_eq!(words[0], "ffmpeg");
    assert!(words.contains(&"640x480".to_owned()), "{words:?}");
    assert_eq!(words.last().map(String::as_str), Some("/tmp/film.mp4"));
}

#[test]
fn films_are_written_frame_by_frame_and_sealed_once() {
    let mut film = recorder("/tmp/demo/film.mp4");
    let frame = Frame::new(64, 48, vec![0; 64 * 48 * 4]);
    let started = std::cell::Cell::new(0);
    let mut interval = film.interval(Duration::from_millis(84));
    let due = interval.due(Duration::from_millis(50), film.config().rate());
    assert_eq!(due, 4);
    while interval.phase < due {
        interval = film
            .film(
                interval,
                &frame,
                Shot::Settled { pointer: None },
                |line: &Vec<Vec<u8>>| {
                    started.set(started.get() + 1);
                    assert_eq!(line[0], b"ffmpeg".to_vec());
                    Ok(true)
                },
                |bytes: &Vec<u8>| {
                    assert_eq!(bytes.len(), 64 * 48 * 4);
                    Ok(())
                },
            )
            .expect("filmed");
    }
    assert_eq!((interval.phase, interval.count), (4, 6));
    assert_eq!((film.frames_written(), started.get()), (4, 1));
    let torn = film.film(
        interval,
        &frame,
        Shot::Settled { pointer: None },
        |_: &Vec<Vec<u8>>| panic!("the encoder is already running"),
        |_: &Vec<u8>| Err(source("torn")),
    );
    assert!(torn.is_err());
    assert_eq!(film.frames_written(), 4);
    let ended = || {
        Ok(CommandOutput {
            success: true,
            status: "exit status: 0".to_owned(),
            stdout: vec![],
            stderr: vec![],
        })
    };
    assert!(film.seal(|| Ok(()), ended).is_ok());
    assert!(film.seal(|| panic!("a sealed film stays sealed"), || panic!("sealed")).is_ok());
}
