use std::cell::RefCell;

use egui_tester::error::{Source, SourceKind};
use egui_tester::ieee;
use egui_tester::stage::{Act, Stage};
use egui_tester::witness::anchor::{scale_is_usable, validate_anchors, Anchor, PendingFrame};
use egui_tester::witness::clock::{monotonic_ns, nanoseconds, FrameObservation, FramePulse, ProductInstant};
use egui_tester::witness::error::Error;
use egui_tester::witness::frame_journal::{append_frame, open_frame_journal, read_frame_journal, FrameSample};
use egui_tester::witness::observation_journal::{append_observation, open_observation_journal, ObservationJournal};
use egui_tester::witness::pass::AnchorPass;
use egui_tester::witness::publisher::{check_fault, flush_answer, lodge_writer_fault, FaultCell, FlushReply, PresentedFrame, Publisher, Reception, WireFrame, Writer};
use egui_tester::witness::target::{valid_identity, valid_kebab, TargetName};
use egui_tester::witness::{FRAMES_ENV, LAUNCH_ENV, PATH_ENV, SCHEMA};
use egui_tester::witness::raising::Groundwork;

/// A stage whose acts are done by a function.
struct Doing<F>(F);

impl<A: Act, E, F: FnMut(&A) -> Result<(), E>> Stage<A, E> for Doing<F> {
    fn goes(_: Self, _: A::V, _: Result<(), E>, _: Self) -> bool {
        true
    }

    fn perform(&mut self, act: &A) -> Result<(), E> {
        (self.0)(act)
    }
}

fn bytes(text: &str) -> Vec<u8> {
    text.as_bytes().to_vec()
}

fn rect(edges: [f32; 4]) -> [u32; 4] {
    edges.map(f32::to_bits)
}

fn scaled(edges: [f32; 4], pixels_per_point: f32) -> [u32; 4] {
    edges.map(|edge| (edge * pixels_per_point).to_bits())
}

fn mark(value: u8) -> Vec<u8> {
    let mut fields = serde_json::Map::new();
    fields.insert("value".to_owned(), serde_json::Value::from(value));
    serde_json::to_vec(&serde_json::Value::Object(fields)).expect("encode mark")
}

fn read_mark(record: &Vec<u8>) -> Result<u8, String> {
    let value: serde_json::Value =
        serde_json::from_slice(record).map_err(|error| error.to_string())?;
    value["value"]
        .as_u64()
        .and_then(|value| u8::try_from(value).ok())
        .ok_or_else(|| "no value".to_owned())
}

// ---------------------------------------------------------------------------
// Anchors
// ---------------------------------------------------------------------------

#[test]
fn anchor_contract_preserves_scale_legacy_focus_and_unique_identity() {
    let anchor = Anchor::logical("blade", scaled([1.0, 2.0, 3.0, 4.0], 1.5), 1.5_f32.to_bits())
        .expect("forge physical anchor");
    assert_eq!(anchor.rect, rect([1.5, 3.0, 4.5, 6.0]));
    assert!(!anchor.focused);

    let legacy: serde_json::Value =
        serde_json::from_str(r#"{"name":"blade","rect":[0,0,1,1]}"#).expect("decode legacy anchor");
    let legacy = Anchor {
        name: legacy["name"].as_str().expect("name").to_owned(),
        rect: rect([0.0, 0.0, 1.0, 1.0]),
        focused: legacy["focused"].as_bool().unwrap_or_default(),
    };
    assert!(!legacy.focused);

    let anchors = vec![
        Anchor::physical("blade", rect([0.0, 0.0, 1.0, 1.0])).expect("first anchor"),
        Anchor::physical("blade", rect([1.0, 1.0, 2.0, 2.0])).expect("second anchor"),
    ];
    assert!(PendingFrame::forge(1, 1.0_f32.to_bits(), anchors, ()).is_err());
}

#[test]
fn logical_rectangles_become_physical() {
    let anchor = Anchor::logical("blade", scaled([1.0, 2.0, 3.0, 4.0], 1.5), 1.5_f32.to_bits())
        .expect("forge physical anchor");
    assert_eq!(anchor.rect, rect([1.5, 3.0, 4.5, 6.0]));
}

#[test]
fn duplicate_names_are_rejected() {
    let anchors = vec![
        Anchor::physical("blade", rect([0.0, 0.0, 1.0, 1.0])).expect("first anchor"),
        Anchor::physical("blade", rect([1.0, 1.0, 2.0, 2.0])).expect("second anchor"),
    ];
    assert!(PendingFrame::forge(1, 1.0_f32.to_bits(), anchors, ()).is_err());
}

#[test]
fn unusable_anchors_name_their_fault() {
    let cases = [
        ("", [0.0, 0.0, 1.0, 1.0], "name is empty"),
        ("a", [f32::NAN, 0.0, 1.0, 1.0], "rectangle is not finite"),
        ("a", [0.0, 0.0, f32::INFINITY, 1.0], "rectangle is not finite"),
        ("a", [2.0, 0.0, 1.0, 1.0], "rectangle is inverted"),
        ("a", [0.0, 2.0, 1.0, 1.0], "rectangle is inverted"),
    ];
    for (name, edges, expected) in cases {
        match Anchor::physical(name, rect(edges)) {
            Err(Error::Anchor { name: named, detail }) => {
                assert_eq!(named, name);
                assert_eq!(detail, expected);
            }
            other => panic!("admitted {other:?}"),
        }
    }
    let degenerate = Anchor::physical("dot", rect([-0.0, 1.0, 0.0, 1.0])).expect("empty rectangle");
    assert_eq!(degenerate.rect, rect([-0.0, 1.0, 0.0, 1.0]));
    assert!(degenerate.with_focus(true).focused);
}

#[test]
fn scales_are_positive_and_finite() {
    for usable in [1.0_f32, 0.5, 3.25, f32::MIN_POSITIVE] {
        assert!(scale_is_usable(usable.to_bits()), "{usable}");
    }
    for unusable in [0.0_f32, -0.0, -1.0, f32::NAN, f32::INFINITY, f32::NEG_INFINITY] {
        assert!(!scale_is_usable(unusable.to_bits()), "{unusable}");
        match Anchor::logical("a", rect([0.0, 0.0, 1.0, 1.0]), unusable.to_bits()) {
            Err(Error::Anchor { detail, .. }) => {
                assert_eq!(detail, "pixels per point must be positive and finite");
            }
            other => panic!("admitted {other:?}"),
        }
    }
}

#[test]
fn validation_finds_the_first_bad_anchor() {
    let good = Anchor::physical("a", rect([0.0, 0.0, 1.0, 1.0])).expect("good");
    let bad = Anchor {
        name: "b".to_owned(),
        rect: rect([1.0, 0.0, 0.0, 1.0]),
        focused: false,
    };
    assert!(validate_anchors(&vec![good.clone()]).is_ok());
    assert!(validate_anchors(&vec![good.clone(), bad]).is_err());
    assert!(validate_anchors(&vec![good.clone(), good]).is_err());
}

#[test]
fn bit_patterns_order_like_their_numbers() {
    let samples = [
        -1.0e30_f32, -2.5, -1.0, -0.0, 0.0, 1.0e-40, 0.25, 0.5, 1.0, 1.5, 2.5, 3.99, 255.5,
        65_535.25, 1.0e9, 3.0e9, -3.0e9,
    ];
    for left in samples {
        assert_eq!(ieee::is_finite(left.to_bits()), left.is_finite());
        assert_eq!(ieee::floor(left.to_bits()), left.floor() as i32, "{left}");
        assert_eq!(ieee::ceil(left.to_bits()), left.ceil() as i32, "{left}");
        for right in samples {
            assert_eq!(ieee::exceeds(left.to_bits(), right.to_bits()), left > right, "{left} {right}");
        }
    }
    assert!(!ieee::is_finite(f32::NAN.to_bits()));
}

// ---------------------------------------------------------------------------
// Passes
// ---------------------------------------------------------------------------

fn scale_bits(edges: [u32; 4], pixels_per_point: u32) -> [u32; 4] {
    edges.map(|edge| (f32::from_bits(edge) * f32::from_bits(pixels_per_point)).to_bits())
}

#[test]
fn discarded_egui_passes_leave_only_the_presented_targets() {
    let mut collected = AnchorPass::default();
    let mut pass = 0;
    while pass < 2 {
        collected.reset();
        pass += 1;
        collected.record_rect(
            "blade".to_owned(),
            rect([pass as f32, 0.0, pass as f32 + 1.0, 1.0]),
        );
    }
    let anchors = collected
        .take(1.0_f32.to_bits(), &scale_bits)
        .expect("final-pass anchors");
    assert_eq!(pass, 2);
    assert_eq!(anchors.len(), 1);
    assert_eq!(anchors[0].rect, rect([2.0, 0.0, 3.0, 1.0]));
}

#[test]
fn final_egui_pass_projects_only_presented_targets_and_focus() {
    let mut collected = AnchorPass::default();
    let mut pass = 0;
    while pass < 2 {
        collected.reset();
        pass += 1;
        if pass == 1 {
            collected.record_rect("discarded".to_owned(), rect([1.0, 0.0, 2.0, 1.0]));
        }
        collected.record_response("blade".to_owned(), rect([0.0, 0.0, 4.0, 2.0]), true);
    }
    let anchors = collected
        .take(1.0_f32.to_bits(), &scale_bits)
        .expect("focused response anchors");
    assert_eq!(pass, 2);
    let [blade] = anchors.as_slice() else {
        panic!("expected only the final-pass blade, found {anchors:?}");
    };
    assert_eq!(blade.name, "blade");
    assert!(blade.focused);
    assert!(collected
        .take(1.0_f32.to_bits(), &scale_bits)
        .expect("consumed pass")
        .is_empty());
}

#[test]
fn a_pass_with_a_bad_target_yields_nothing() {
    let mut collected = AnchorPass::default();
    collected.record_rect("good".to_owned(), rect([0.0, 0.0, 1.0, 1.0]));
    collected.record_rect(String::new(), rect([0.0, 0.0, 1.0, 1.0]));
    assert!(collected.take(2.0_f32.to_bits(), &scale_bits).is_err());
    assert!(collected
        .take(2.0_f32.to_bits(), &scale_bits)
        .expect("the failed pass was consumed")
        .is_empty());
}

// ---------------------------------------------------------------------------
// Clocks
// ---------------------------------------------------------------------------

#[test]
fn clock_readings_become_nanoseconds() {
    assert_eq!(nanoseconds(0, 0), 0);
    assert_eq!(nanoseconds(3, 7), 3_000_000_007);
    assert_eq!(nanoseconds(-1, 5), 5);
    assert_eq!(nanoseconds(i64::MAX, 0), u64::MAX);
}

#[test]
fn observations_follow_their_beginning() {
    let earlier = monotonic_ns();
    let pulse = FramePulse::begin();
    let observed = pulse.observe();
    let (begun, seen) = observed.bounds();
    assert!(earlier <= begun);
    assert!(begun <= seen);
    assert!(ProductInstant::now().ns() >= seen);
    assert!(FrameObservation::from_instants(
        ProductInstant::recorded(5),
        ProductInstant::recorded(4)
    )
    .is_err());
    let bounded = FrameObservation::from_instants(
        ProductInstant::recorded(4),
        ProductInstant::recorded(5),
    )
    .expect("ordered");
    assert_eq!(bounded.bounds(), (4, 5));
    let late = FramePulse::begun_at(ProductInstant::recorded(9)).observe_at(ProductInstant::recorded(3));
    assert_eq!(late.bounds(), (9, 3));
}

// ---------------------------------------------------------------------------
// Journals
// ---------------------------------------------------------------------------

fn sample(frame: u64, surface_sequence: u64, begun_ns: u64) -> FrameSample {
    FrameSample {
        frame,
        surface_sequence,
        begun_ns,
        observed_ns: begun_ns + 10,
        surface_presented_ns: begun_ns + 20,
    }
}

fn frame_journal_round_trip() {
    let path = bytes("/journal");
    let mut output = open_frame_journal(&path, "launch").expect("journal header");
    let first = FrameSample {
        frame: 4,
        surface_sequence: 1,
        begun_ns: 10,
        observed_ns: 20,
        surface_presented_ns: 30,
    };
    let second = FrameSample {
        frame: 5,
        surface_sequence: 2,
        begun_ns: 40,
        observed_ns: 50,
        surface_presented_ns: 60,
    };
    append_frame(&mut output, first);
    append_frame(&mut output, second);
    output.extend([0xAA, 0xBB]);
    assert_eq!(
        read_frame_journal(&path, &output, "launch").expect("read journal"),
        vec![first, second]
    );
}

#[test]
fn lib_frame_journal_round_trips_complete_records() {
    frame_journal_round_trip();
}

#[test]
fn tests_frame_journal_round_trips_complete_records() {
    frame_journal_round_trip();
}

#[test]
fn frame_journals_refuse_what_is_not_theirs() {
    let path = bytes("/journal");
    let header = open_frame_journal(&path, "launch").expect("journal header");
    assert_eq!(&header[..8], b"EGUIFRM\0".as_slice());
    assert!(read_frame_journal(&path, &header, "launch").expect("empty journal").is_empty());
    for (damaged, launch) in [
        (header.clone(), "other"),
        (header[..4].to_vec(), "launch"),
        (header[..header.len() - 1].to_vec(), "launch"),
        ({
            let mut bytes = header.clone();
            bytes[0] ^= 1;
            bytes
        }, "launch"),
        ({
            let mut bytes = header.clone();
            bytes[8] ^= 1;
            bytes
        }, "launch"),
    ] {
        match read_frame_journal(&path, &damaged, launch) {
            Err(Error::FrameJournal { path: named, .. }) => assert_eq!(named, path),
            other => panic!("admitted {other:?}"),
        }
    }
}

#[test]
fn frame_journals_refuse_disordered_samples() {
    let path = bytes("/journal");
    let disordered = [
        vec![sample(2, 1, 10), sample(1, 2, 40)],
        vec![sample(1, 2, 10), sample(2, 2, 40)],
        vec![FrameSample { observed_ns: 5, ..sample(1, 1, 10) }],
        vec![FrameSample { surface_presented_ns: 15, ..sample(1, 1, 10) }],
    ];
    for samples in disordered {
        let mut output = open_frame_journal(&path, "launch").expect("journal header");
        for sample in &samples {
            append_frame(&mut output, *sample);
        }
        assert!(read_frame_journal(&path, &output, "launch").is_err(), "{samples:?}");
    }
}

fn observation_journal_retention() {
    let path = bytes("witness.observations");
    let mut output = open_observation_journal(&path, "launch").expect("journal header");
    let first = mark(1);
    append_observation(&mut output, &path, &first).expect("append first record");
    let second = mark(2);
    let length = u32::try_from(second.len()).expect("tiny record length").to_le_bytes();
    output.extend(length);
    output.extend(&second[..2]);

    let mut reader = ObservationJournal::sealed(&path, "launch");
    assert_eq!(
        reader.read_new(&output, &read_mark).expect("first read"),
        vec![1]
    );
    let position = usize::try_from(reader.position()).expect("position");
    assert!(reader
        .read_new(&output[position..], &read_mark)
        .expect("partial tail is not corruption")
        .is_empty());

    output.extend(&second[2..]);
    let position = usize::try_from(reader.position()).expect("position");
    assert_eq!(
        reader.read_new(&output[position..], &read_mark).expect("second read"),
        vec![2]
    );
}

#[test]
fn lib_observation_journal_retains_brief_and_partial_records() {
    observation_journal_retention();
}

#[test]
fn tests_observation_journal_retains_brief_and_partial_records() {
    observation_journal_retention();
}

#[test]
fn observation_journals_refuse_what_is_not_theirs() {
    let path = bytes("witness.observations");
    let header = open_observation_journal(&path, "launch").expect("journal header");
    let mut foreign = ObservationJournal::sealed(&path, "other");
    assert!(foreign.read_new(&header, &read_mark).is_err());
    let mut output = header.clone();
    append_observation(&mut output, &path, b"not json").expect("append");
    let mut reader = ObservationJournal::sealed(&path, "launch");
    assert!(reader.read_new(&output, &read_mark).is_err());
    let mut partial = ObservationJournal::sealed(&path, "launch");
    match partial.read_new(&header[..3], &read_mark) {
        Err(Error::Io { operation, source, .. }) => {
            assert_eq!(operation, "read header from");
            assert_eq!(source.text, "failed to fill whole buffer");
        }
        _ => panic!("a header under way is not a journal"),
    }
    assert_eq!(partial.position(), 0);
}

// ---------------------------------------------------------------------------
// Publishers
// ---------------------------------------------------------------------------

fn serialize(wire: &WireFrame<u8>) -> Result<Vec<u8>, String> {
    let mut fields = serde_json::Map::new();
    fields.insert(
        "surface_sequence".to_owned(),
        serde_json::Value::from(wire.surface_sequence),
    );
    fields.insert("state".to_owned(), serde_json::Value::from(wire.state));
    serde_json::to_vec(&serde_json::Value::Object(fields)).map_err(|error| error.to_string())
}

fn read_wire(record: &Vec<u8>) -> Result<(u64, u64), String> {
    let value: serde_json::Value =
        serde_json::from_slice(record).map_err(|error| error.to_string())?;
    Ok((
        value["surface_sequence"].as_u64().unwrap_or_default(),
        value["state"].as_u64().unwrap_or_default(),
    ))
}

fn calm() -> FaultCell {
    FaultCell { detail: None, poisoned: false }
}

fn publisher_drains_in_order() {
    let observations = bytes("/observations");
    let frames = bytes("/frames");
    let mut publisher =
        Publisher::sealed(observations.clone(), frames.clone(), "launch".to_owned());
    let mut queue: Vec<PresentedFrame<u8>> = Vec::new();
    for (frame, value) in [(7, 1u8), (7, 2u8)] {
        let begun = ProductInstant::recorded(u64::from(value) * 10);
        let observed = ProductInstant::recorded(begun.ns() + 1);
        let pending = PendingFrame::forge_at(
            FrameObservation::from_instants(begun, observed).expect("ordered observation"),
            frame,
            1.0_f32.to_bits(),
            vec![],
            value,
        )
        .expect("stage frame");
        let _sequence = publisher
            .surface_present_at(
                &calm(),
                pending,
                ProductInstant::recorded(observed.ns() + 1),
                |presented| {
                    queue.push(presented);
                    true
                },
            )
            .expect("enqueue frame");
    }
    let writer = Writer {
        path: observations.clone(),
        frame_path: frames.clone(),
        launch: "launch".to_owned(),
    };
    let mut observed = open_observation_journal(&observations, "launch").expect("observations");
    let mut timed = open_frame_journal(&frames, "launch").expect("frames");
    let mut fault = calm();
    for frame in queue {
        let reception = writer.receive(
            &mut fault,
            frame,
            serialize,
            |bytes: &Vec<u8>| {
                observed.extend(bytes);
                Ok(())
            },
            |bytes: &Vec<u8>| {
                timed.extend(bytes);
                Ok(())
            },
        );
        assert_eq!(reception, Reception::Appended);
    }
    assert!(writer.flush(|| Ok(()), || Ok(())).is_ok());
    assert!(check_fault(&fault).is_ok());

    let mut journal = ObservationJournal::sealed(&observations, "launch");
    assert_eq!(
        journal.read_new(&observed, &read_wire).expect("read observations"),
        [(1, 1), (2, 2)]
    );
    let samples = read_frame_journal(&frames, &timed, "launch").expect("read frame journal");
    assert_eq!(
        samples
            .iter()
            .map(|sample| sample.surface_sequence)
            .collect::<Vec<_>>(),
        [1, 2]
    );
}

#[test]
fn lib_publisher_drop_drains_both_journals_in_surface_order() {
    publisher_drains_in_order();
}

#[test]
fn tests_publisher_drop_drains_both_journals_in_surface_order() {
    publisher_drains_in_order();
}

#[test]
fn writer_faults_stick_to_the_first() {
    let writer = Writer {
        path: bytes("/o"),
        frame_path: bytes("/f"),
        launch: "launch".to_owned(),
    };
    let frame = |sequence| PresentedFrame {
        pending: PendingFrame::forge(1, 1.0_f32.to_bits(), vec![], 3u8).expect("stage frame"),
        surface_presented_ns: u64::MAX,
        surface_sequence: sequence,
    };
    let mut fault = calm();
    let reception = writer.receive(
        &mut fault,
        frame(1),
        |_: &WireFrame<u8>| Err("unserializable".to_owned()),
        |_: &Vec<u8>| Ok(()),
        |_: &Vec<u8>| Ok(()),
    );
    assert_eq!(reception, Reception::Faulted);
    let first = fault.detail.clone().expect("kept fault");
    assert!(first.contains("unserializable"), "{first}");
    let reception = writer.receive(
        &mut fault,
        frame(2),
        serialize,
        |_: &Vec<u8>| panic!("a faulted writer must not append"),
        |_: &Vec<u8>| Ok(()),
    );
    assert_eq!(reception, Reception::Skipped);
    lodge_writer_fault(&mut fault, "later".to_owned());
    assert_eq!(fault.detail, Some(first.clone()));
    assert!(check_fault(&fault).is_err());
    assert_eq!(flush_answer(Ok(()), &fault), Err(first));
}

#[test]
fn publishers_report_their_worker() {
    let publisher = Publisher::sealed(bytes("/o"), bytes("/f"), "launch".to_owned());
    for (reply, expected) in [
        (FlushReply::Retired, Some("writer thread retired unexpectedly")),
        (FlushReply::Silent, Some("writer thread retired before flush")),
        (FlushReply::Answered(Err("full".to_owned()), calm()), Some("full")),
        (FlushReply::Answered(Ok(()), calm()), None),
    ] {
        match (publisher.flush(&calm(), move || reply), expected) {
            (Ok(()), None) => {}
            (Err(Error::Writer(detail)), Some(expected)) => assert_eq!(detail, expected),
            (other, _) => panic!("unexpected {other:?}"),
        }
    }
}

#[test]
fn the_witness_environment_is_all_or_nothing() {
    let path = || Some(bytes("/w"));
    let launch = || Some(bytes("seal"));
    let frames = || Some(bytes("/f"));
    assert!(Publisher::from_env(None, None, None).expect("unarmed").is_none());
    let armed = Publisher::from_env(path(), launch(), frames())
        .expect("armed")
        .expect("publisher");
    assert_eq!(armed.path(), &bytes("/w"));
    assert_eq!(armed.frame_path(), &bytes("/f"));
    assert_eq!(armed.launch(), "seal");
    for (path, launch, frames, expected) in [
        (None, launch(), frames(), "EGUI_TESTER_LAUNCH and EGUI_TESTER_FRAMES require EGUI_TESTER_WITNESS"),
        (path(), None, frames(), "EGUI_TESTER_WITNESS and EGUI_TESTER_FRAMES require EGUI_TESTER_LAUNCH"),
        (path(), launch(), None, "EGUI_TESTER_WITNESS and EGUI_TESTER_LAUNCH require EGUI_TESTER_FRAMES"),
        (path(), Some(vec![0xff]), frames(), "EGUI_TESTER_LAUNCH is not valid Unicode"),
        (path(), Some(vec![]), frames(), "EGUI_TESTER_LAUNCH is empty"),
    ] {
        match Publisher::from_env(path, launch, frames) {
            Err(Error::Environment(detail)) => assert_eq!(detail, expected),
            other => panic!("unexpected {other:?}"),
        }
    }
    assert_eq!((SCHEMA, PATH_ENV, LAUNCH_ENV, FRAMES_ENV), (3, "EGUI_TESTER_WITNESS", "EGUI_TESTER_LAUNCH", "EGUI_TESTER_FRAMES"));
}

#[test]
fn presents_may_not_predate_their_observation() {
    let mut publisher = Publisher::sealed(bytes("/o"), bytes("/f"), "launch".to_owned());
    let pending = PendingFrame::forge_at(
        FrameObservation::from_instants(ProductInstant::recorded(1), ProductInstant::recorded(9))
            .expect("ordered"),
        1,
        1.0_f32.to_bits(),
        vec![],
        (),
    )
    .expect("stage");
    match publisher.surface_present_at(&calm(), pending, ProductInstant::recorded(8), |_| true) {
        Err(Error::FrameJournal { detail, .. }) => {
            assert_eq!(detail, "surface present 8 predates observation 9");
        }
        other => panic!("unexpected {other:?}"),
    }
}

// ---------------------------------------------------------------------------
// Target names
// ---------------------------------------------------------------------------

#[test]
fn canonical_names_separate_semantics_from_identity() {
    for name in [
        "eternalist.application.help",
        "hrrr.map.pin/0",
        "trailgen.editor.support.coordinates/12",
        "wrangler.card.activate/codex/0198f4f3-90cc-7a21-b846-7d632cf24b18",
        "abv.cabinet.filter.entry/work%2Fplay",
    ] {
        assert_eq!(
            TargetName::new(name).expect("canonical Target").as_str(),
            name
        );
    }
}

#[test]
fn rival_dialects_are_rejected() {
    for name in [
        "application",
        "panel/forecast",
        "recess:ui",
        "comparison.reject_stream/left",
        "abv.filter.entry/work play",
        "abv.filter.entry/work%2fplay",
        "abv.filter.entry/%41",
    ] {
        assert!(TargetName::new(name).is_err(), "admitted `{name}`");
    }
}

#[test]
fn target_grammar_at_its_edges() {
    assert!(valid_kebab(b"open-help2"));
    for bad in ["", "-a", "a-", "a--b", "A", "2a", "a_b"] {
        assert!(!valid_kebab(bad.as_bytes()), "{bad}");
    }
    assert!(valid_identity(b"a.b-c_d~%20"));
    for bad in ["", "%2", "%2g", "%7e", "a b"] {
        assert!(!valid_identity(bad.as_bytes()), "{bad}");
    }
    assert_eq!(
        TargetName::new("abv.help").expect("name").into_string(),
        "abv.help"
    );
}

#[test]
fn sinks_begin_both_journals_before_their_worker() {
    let publisher = Publisher::sealed(bytes("/w/o"), bytes("/w/f"), "launch".to_owned());
    let told: RefCell<Vec<String>> = RefCell::new(Vec::new());
    let raise = |refused: &str| {
        told.borrow_mut().clear();
        let ask = |act: &str, path: &Vec<u8>| {
            let line = format!("{act} {}", String::from_utf8_lossy(path));
            let stuck = line == refused;
            told.borrow_mut().push(line);
            if stuck {
                Err(Source { kind: SourceKind::Other, text: "full".to_owned() })
            } else {
                Ok(())
            }
        };
        publisher.raise(
            &mut Doing(|act: &Groundwork| match act {
                Groundwork::Directory(path) => ask("directory", path),
                Groundwork::File(path) => ask("file", path),
                Groundwork::Header(path, header) => {
                    let expected = if path == &bytes("/w/f") {
                        open_frame_journal(path, "launch")
                    } else {
                        open_observation_journal(path, "launch")
                    };
                    assert_eq!(header, &expected.expect("header"));
                    ask("header", path)
                }
            }),
            || ask("worker", &vec![]),
        )
    };
    assert!(raise("").is_ok());
    assert_eq!(
        *told.borrow(),
        [
            "directory /w",
            "file /w/f",
            "header /w/f",
            "directory /w",
            "file /w/o",
            "header /w/o",
            "worker ",
        ]
    );
    assert!(matches!(raise("directory /w"), Err(Error::Io { operation: "create parent for", .. })));
    assert!(matches!(raise("file /w/o"), Err(Error::Io { operation: "create", .. })));
    assert_eq!(told.borrow().len(), 5);
    assert!(matches!(raise("header /w/f"), Err(Error::Io { operation: "write header to", .. })));
    assert!(matches!(raise("worker "), Err(Error::Io { operation: "spawn writer for", .. })));
}
