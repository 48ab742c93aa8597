use egui_tester::duration::Duration;
use egui_tester::error::Error;
use egui_tester::probe::cues::{anchor_wait, focus_wait, fresh_wait, inspect_anchor, inspect_focus, inspect_fresh, inspect_presented, inspect_whether};
use egui_tester::probe::legacy::{Glance, LegacyProbe, LegacyProbeFrame, Sight};
use egui_tester::probe::reaction::judge_whether;
use egui_tester::probe::stability::Stability;
use egui_tester::probe::wait::{Look, Waiting};
use egui_tester::probe::{Probe, ProbeFrame};
use egui_tester::timing::{ActionReceipt, ReactionBudget};
use egui_tester::witness::anchor::Anchor;
use egui_tester::witness::error::Error as SealError;
use egui_tester::witness::observation_journal::{append_observation, open_observation_journal};
use egui_tester::witness::SCHEMA;

fn path() -> Vec<u8> {
    b"/unread".to_vec()
}

fn rect(edges: [f32; 4]) -> [u32; 4] {
    edges.map(f32::to_bits)
}

fn frame(anchors: Vec<Anchor>) -> ProbeFrame<()> {
    ProbeFrame {
        schema: SCHEMA,
        launch: "launch".to_owned(),
        frame: 1,
        begun_ns: 1,
        observed_ns: 2,
        surface_presented_ns: 3,
        surface_sequence: 1,
        ppp: 1.0_f32.to_bits(),
        anchors,
        state: (),
    }
}

fn wire_frame(frame: u64, surface_sequence: u64, begun_ns: u64) -> Vec<u8> {
    let mut fields = serde_json::Map::new();
    for (name, value) in [
        ("schema", u64::from(SCHEMA)),
        ("frame", frame),
        ("begun_ns", begun_ns),
        ("observed_ns", begun_ns + 1),
        ("surface_presented_ns", begun_ns + 2),
        ("surface_sequence", surface_sequence),
    ] {
        fields.insert(name.to_owned(), serde_json::Value::from(value));
    }
    fields.insert("launch".to_owned(), serde_json::Value::from("launch"));
    serde_json::to_vec(&serde_json::Value::Object(fields)).expect("encode witness fixture")
}

fn decode(record: &Vec<u8>) -> Result<ProbeFrame<()>, String> {
    let value: serde_json::Value =
        serde_json::from_slice(record).map_err(|error| error.to_string())?;
    let number = |name: &str| value[name].as_u64().ok_or_else(|| format!("missing `{name}`"));
    Ok(ProbeFrame {
        schema: u32::try_from(number("schema")?).map_err(|error| error.to_string())?,
        launch: value["launch"].as_str().unwrap_or_default().to_owned(),
        frame: number("frame")?,
        begun_ns: number("begun_ns")?,
        observed_ns: number("observed_ns")?,
        surface_presented_ns: number("surface_presented_ns")?,
        surface_sequence: number("surface_sequence")?,
        ppp: 1.0_f32.to_bits(),
        anchors: vec![],
        state: (),
    })
}

#[test]
fn duplicate_anchors_are_not_ambiguous() {
    let probe = Probe::sealed(&path(), "launch");
    let frame = frame(vec![
        Anchor::physical("same", rect([0.0, 0.0, 1.0, 1.0])).expect("first"),
        Anchor::physical("same", rect([1.0, 1.0, 2.0, 2.0])).expect("second"),
    ]);
    assert!(probe.validate(&frame).is_err());
}

#[test]
fn foreign_and_inconsistent_observations_are_refused() {
    let probe = Probe::sealed(&path(), "launch");
    assert!(probe.validate(&frame(vec![])).is_ok());
    assert!(probe.validate(&ProbeFrame { schema: SCHEMA + 1, ..frame(vec![]) }).is_err());
    assert!(probe
        .validate(&ProbeFrame { launch: "other".to_owned(), ..frame(vec![]) })
        .is_err());
    assert!(probe.validate(&ProbeFrame { observed_ns: 0, ..frame(vec![]) }).is_err());
    assert!(probe
        .validate(&ProbeFrame { surface_presented_ns: 1, ..frame(vec![]) })
        .is_err());
    assert!(probe
        .validate(&ProbeFrame { ppp: 0.0_f32.to_bits(), ..frame(vec![]) })
        .is_err());
}

#[test]
fn semantic_stability_restarts_when_the_projection_moves() {
    let quiet = Duration::from_millis(50);
    let mut stability = Stability::new();
    assert!(!stability.observe(1, Duration::zero(), quiet));
    assert!(!stability.observe(1, Duration::from_millis(40), quiet));
    assert!(!stability.observe(2, Duration::from_millis(60), quiet));
    assert!(stability.observe(2, Duration::from_millis(110), quiet));
}

#[test]
fn a_broken_streak_begins_again() {
    let quiet = Duration::from_millis(50);
    let mut stability = Stability::new();
    assert!(!stability.observe(1, Duration::zero(), quiet));
    stability.break_streak();
    assert!(!stability.observe(1, Duration::from_millis(60), quiet));
    assert!(stability.observe(1, Duration::from_millis(110), quiet));
}

#[test]
fn sealed_observations_are_ordered_by_surface_sequence() {
    let mut probe = Probe::sealed(&path(), "launch");
    probe.enqueue(&vec![
        wire_frame(7, 1, 10),
        wire_frame(7, 2, 20),
        wire_frame(8, 1, 30),
    ]);
    assert_eq!(
        probe
            .take_next(&decode)
            .expect("first observation")
            .expect("first frame")
            .surface_sequence,
        1
    );
    assert_eq!(
        probe
            .take_next(&decode)
            .expect("same product frame may be presented again")
            .expect("second frame")
            .surface_sequence,
        2
    );
    assert!(
        probe.take_next(&decode).is_err(),
        "surface identity regression was admitted"
    );
}

#[test]
fn a_refused_record_leaves_the_probe_where_it_was() {
    let mut probe = Probe::sealed(&path(), "launch");
    probe.enqueue(&vec![wire_frame(7, 1, 10), b"junk".to_vec(), wire_frame(7, 2, 20)]);
    assert!(probe.take_next(&decode).expect("first").is_some());
    let before = probe.cursor();
    assert!(probe.take_next(&decode).is_err());
    assert_eq!(probe.cursor(), before);
    assert!(probe.take_next(&decode).expect("third").is_some());
    assert!(probe.take_next(&decode).expect("drained").is_none());
    assert_eq!(
        probe.current(&decode).expect("newest").expect("held").surface_sequence,
        2
    );
}

fn journal(records: &[Vec<u8>]) -> Vec<u8> {
    let mut bytes = open_observation_journal(&path(), "launch").expect("header");
    for record in records {
        append_observation(&mut bytes, &path(), record).expect("append");
    }
    bytes
}

fn waiting(expired: bool) -> Waiting<'static> {
    Waiting {
        description: "frame two",
        timeout: Duration::from_secs(1),
        expired,
        known: None,
    }
}

#[test]
fn waits_look_again_until_their_time_is_up() {
    let mut probe = Probe::sealed(&path(), "launch");
    let second = |frame: &ProbeFrame<()>| inspect_whether(frame.frame == 2);
    match probe.wait_inspecting(Err(SealError::Io {
        operation: "open",
        path: path(),
        source: egui_tester::error::Source {
            kind: egui_tester::error::SourceKind::NotFound,
            text: "absent".to_owned(),
        },
    }), &decode, &second, waiting(false)) {
        Ok(Look::Nothing(None)) => {}
        other => panic!("unexpected {other:?}"),
    }
    let bytes = journal(&[wire_frame(1, 1, 10)]);
    match probe.wait_inspecting(Ok(bytes.clone()), &decode, &second, waiting(false)) {
        Ok(Look::Nothing(_)) => {}
        other => panic!("unexpected {other:?}"),
    }
    let error = probe
        .wait_inspecting(Ok(vec![]), &decode, &second, waiting(true))
        .expect_err("out of time");
    assert!(error.text().contains("frame two"), "{}", error.text());
    let longer = journal(&[wire_frame(1, 1, 10), wire_frame(2, 2, 20)]);
    let unread = longer[bytes.len()..].to_vec();
    match probe.wait_inspecting(Ok(unread), &decode, &second, waiting(true)) {
        Ok(Look::Found(frame)) => assert_eq!(frame.frame, 2),
        other => panic!("unexpected {other:?}"),
    }
}

#[test]
fn reading_gives_the_newest_record() {
    let mut probe = Probe::sealed(&path(), "launch");
    let bytes = journal(&[wire_frame(1, 1, 10), wire_frame(2, 2, 20)]);
    assert_eq!(probe.read(Ok(bytes), &decode).expect("newest").frame, 2);
    assert_eq!(probe.read(Ok(vec![]), &decode).expect("still newest").frame, 2);
    let mut empty = Probe::sealed(&path(), "launch");
    assert!(empty.read(Ok(vec![]), &decode).is_err());
}

#[test]
fn reactions_are_held_to_their_budget() {
    let receipt = ActionReceipt::recorded(5, 15, 16, "click");
    let accept = |_: &ProbeFrame<()>| judge_whether(true);
    for (budget, expected) in [
        (ReactionBudget::functional(Duration::from_secs(1)), true),
        (ReactionBudget::performance(Duration::from_nanos(3)), false),
        (ReactionBudget::performance(Duration::from_nanos(6)), true),
    ] {
        let mut probe = Probe::sealed(&path(), "launch");
        let bytes = journal(&[wire_frame(1, 1, 10), wire_frame(2, 2, 20)]);
        let outcome = probe.wait_budgeted_checked(
            Ok(bytes),
            &decode,
            &accept,
            0,
            &receipt,
            budget,
            waiting(false),
        );
        match outcome {
            Ok(Look::Found(timed)) => {
                assert!(expected);
                assert_eq!(timed.value().frame, 2);
                assert_eq!(timed.elapsed(), Duration::from_nanos(6));
            }
            Err(Error::TooSlow { .. }) => assert!(!expected),
            other => panic!("unexpected {other:?}"),
        }
    }
}

#[test]
fn cues_say_what_they_wait_for() {
    assert_eq!(anchor_wait("blade"), "witness anchor `blade`");
    assert_eq!(focus_wait("blade"), "focus on witness anchor `blade`");
    assert_eq!(fresh_wait(4), "surface-presented observation newer than 4");
    let mut seen = frame(vec![
        Anchor::physical("blade", rect([0.0, 0.0, 1.0, 1.0])).expect("blade"),
        Anchor::physical("hilt", rect([0.0, 0.0, 1.0, 1.0]))
            .expect("hilt")
            .with_focus(true),
    ]);
    assert!(inspect_anchor(&seen, "blade").is_ok());
    assert!(inspect_anchor(&seen, "guard").is_err());
    assert!(inspect_focus(&seen, "hilt").is_ok());
    assert!(inspect_focus(&seen, "blade").is_err());
    assert!(inspect_fresh(&seen, 0).is_ok());
    assert!(inspect_fresh(&seen, 1).is_err());
    assert!(inspect_presented(&seen).is_ok());
    assert_eq!(seen.anchor("blade").expect("found").name, "blade");
    assert!(seen.focused_anchor("blade").is_none());
    seen.anchors.clear();
    assert!(seen.anchor("blade").is_none());
}

fn decode_legacy(record: &Vec<u8>) -> Result<LegacyProbeFrame<()>, String> {
    let value: serde_json::Value =
        serde_json::from_slice(record).map_err(|error| error.to_string())?;
    Ok(LegacyProbeFrame {
        schema: 1,
        launch: String::new(),
        frame: value["frame"].as_u64().ok_or("missing frame")?,
        ppp: value["ppp"].as_f64().map(|ppp| (ppp as f32).to_bits()),
        anchors: vec![],
        state: (),
    })
}

#[test]
fn legacy_probes_read_unsealed_snapshots() {
    let probe = LegacyProbe::new(&path());
    let read = |text: &str| probe.read(Ok(text.as_bytes().to_vec()), &decode_legacy);
    assert_eq!(read(r#"{"frame":3}"#).expect("first").frame, 3);
    assert!(matches!(read(r#"{"frame":3,"ppp":0.0}"#), Err(Error::Probe { .. })));
    assert!(matches!(read("junk"), Err(Error::Probe { .. })));
    assert_eq!(probe.last_frame(), 0);
}

#[test]
fn legacy_waits_remember_the_last_fault() {
    let mut probe = LegacyProbe::new(&path());
    let later = |frame: &LegacyProbeFrame<()>| frame.frame > 3;
    let mut look = |text: &str, known: Option<Error>, expired: bool| {
        probe.wait(
            Ok(text.as_bytes().to_vec()),
            &decode_legacy,
            &later,
            known,
            expired,
            "frame four",
            Duration::from_secs(1),
        )
    };
    assert!(matches!(look(r#"{"frame":3}"#, None, false), Ok(Glance::Nothing(None))));
    let fault = match look("junk", None, false) {
        Ok(Glance::Nothing(Some(fault))) => fault,
        other => panic!("unexpected {other:?}"),
    };
    assert!(matches!(look("junk", Some(fault), true), Err(Error::Probe { .. })));
    assert_eq!(
        look(r#"{"frame":3}"#, None, true).expect_err("out of time").text(),
        "timed out after 1s waiting for frame four"
    );
    assert!(matches!(look(r#"{"frame":4}"#, None, true), Ok(Glance::Found(_))));
    assert_eq!(probe.last_frame(), 4);
}

fn decode_anchored(record: &Vec<u8>) -> Result<ProbeFrame<()>, String> {
    let mut seen = decode(record)?;
    let focused = seen.frame == 2;
    seen.anchors = vec![Anchor::physical("blade", rect([0.0, 0.0, 1.0, 1.0]))
        .expect("blade")
        .with_focus(focused)];
    Ok(seen)
}

#[test]
fn named_waits_resolve_what_they_name() {
    let second = Duration::from_secs(1);
    let bytes = journal(&[wire_frame(1, 1, 10), wire_frame(2, 2, 20)]);
    let mut probe = Probe::sealed(&path(), "launch");
    match probe.wait_anchor(Ok(bytes.clone()), &decode_anchored, "blade", second, false, None) {
        Ok(Look::Found(anchor)) => assert!(!anchor.focused),
        other => panic!("unexpected {other:?}"),
    }
    match probe.wait_focus(Ok(vec![]), &decode_anchored, "blade", second, false, None) {
        Ok(Look::Found(anchor)) => assert!(anchor.focused),
        other => panic!("unexpected {other:?}"),
    }
    let error = probe
        .wait_anchor(Ok(vec![]), &decode_anchored, "guard", second, true, None)
        .expect_err("no such anchor");
    assert!(
        error.text().contains("witness anchor `guard`"),
        "{}",
        error.text()
    );
}

#[test]
fn fresh_waits_pass_over_what_was_seen() {
    let second = Duration::from_secs(1);
    let bytes = journal(&[wire_frame(1, 1, 10), wire_frame(2, 2, 20)]);
    let mut probe = Probe::sealed(&path(), "launch");
    match probe.wait_fresh(Ok(bytes.clone()), &decode, 1, second, false, None) {
        Ok(Look::Found(frame)) => assert_eq!(frame.surface_sequence, 2),
        other => panic!("unexpected {other:?}"),
    }
    let mut probe = Probe::sealed(&path(), "launch");
    match probe.wait_surface_presented(Ok(bytes), &decode, second, false, None) {
        Ok(Look::Found(frame)) => assert_eq!(frame.surface_sequence, 1),
        other => panic!("unexpected {other:?}"),
    }
}

#[test]
fn checked_waits_report_their_last_objection() {
    let bytes = journal(&[wire_frame(1, 1, 10)]);
    let mut probe = Probe::sealed(&path(), "launch");
    let object = |_: &ProbeFrame<()>| Err("still closed".to_owned());
    let error = probe
        .wait_checked(Ok(bytes.clone()), &decode, &object, waiting(true))
        .expect_err("objected");
    assert!(error.text().contains("still closed"), "{}", error.text());
    let mut probe = Probe::sealed(&path(), "launch");
    match probe.wait(Ok(bytes), &decode, &|frame: &ProbeFrame<()>| frame.frame == 1, waiting(true)) {
        Ok(Look::Found(frame)) => assert_eq!(frame.frame, 1),
        other => panic!("unexpected {other:?}"),
    }
}

#[test]
fn budgeted_waits_time_the_first_cue_after_their_trigger() {
    let receipt = ActionReceipt::recorded(5, 15, 16, "click");
    let bytes = journal(&[wire_frame(1, 1, 10), wire_frame(2, 2, 20)]);
    let mut probe = Probe::sealed(&path(), "launch");
    let accept = |_: &ProbeFrame<()>| true;
    let budget = ReactionBudget::performance(Duration::from_nanos(6));
    match probe.wait_budgeted(Ok(bytes), &decode, &accept, 0, &receipt, budget, waiting(false)) {
        Ok(Look::Found(timed)) => {
            assert_eq!(timed.value().frame, 2);
            assert_eq!(timed.elapsed(), Duration::from_nanos(6));
        }
        other => panic!("unexpected {other:?}"),
    }
}

#[test]
fn legacy_named_waits_resolve_what_they_name() {
    let second = Duration::from_secs(1);
    let mut probe = LegacyProbe::new(&path());
    let anchored = |record: &Vec<u8>| {
        let mut seen = decode_legacy(record)?;
        seen.anchors = vec![Anchor::physical("blade", rect([0.0, 0.0, 1.0, 1.0])).expect("blade")];
        Ok(seen)
    };
    let third = br#"{"frame":3}"#.to_vec();
    match probe.wait_anchor(Ok(third.clone()), &anchored, "blade", None, false, second) {
        Ok(Sight::Found(anchor)) => assert_eq!(anchor.name, "blade"),
        other => panic!("unexpected {other:?}"),
    }
    match probe.wait_anchor(Ok(third.clone()), &anchored, "guard", None, false, second) {
        Ok(Sight::Nothing(None)) => {}
        other => panic!("unexpected {other:?}"),
    }
    match probe.wait_fresh(Ok(third), &anchored, 3, None, false, second) {
        Ok(Glance::Nothing(None)) => {}
        other => panic!("unexpected {other:?}"),
    }
    match probe.wait_fresh(Ok(br#"{"frame":4}"#.to_vec()), &anchored, 3, None, false, second) {
        Ok(Glance::Found(frame)) => assert_eq!(frame.frame, 4),
        other => panic!("unexpected {other:?}"),
    }
}
