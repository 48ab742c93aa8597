use std::cell::RefCell;

use egui_tester::android::choreography::{narrow, AndroidChoreography, AndroidPinch};
use egui_tester::android::perfetto::{AndroidPerfetto, LaunchFault};
use egui_tester::android::{judge_resumed, parse_size, AndroidDevice, Invocation};
use egui_tester::duration::Duration;
use egui_tester::error::{Error, Source, SourceKind};
use egui_tester::service::unit::CommandOutput;
use egui_tester::timing::Mark;

fn bytes(text: &str) -> Vec<u8> {
    text.as_bytes().to_vec()
}

fn answer(success: bool, stdout: &str, stderr: &str) -> Invocation {
    Invocation {
        rendering: "adb".to_owned(),
        outcome: Ok(CommandOutput {
            success,
            status: "exit status: 1".to_owned(),
            stdout: bytes(stdout),
            stderr: bytes(stderr),
        }),
    }
}

fn words(line: &[Vec<u8>]) -> Vec<String> {
    line.iter()
        .map(|word| String::from_utf8(word.clone()).expect("text"))
        .collect()
}

#[test]
fn devices_are_addressed_by_serial() {
    let device = AndroidDevice::new("emu").adb(bytes("/opt/adb")).driver("d/d.D");
    assert_eq!(words(&device.command(&vec![bytes("x")])), ["/opt/adb", "-s", "emu", "x"]);
    assert_eq!((device.serial(), device.bridge()), ("emu", &bytes("/opt/adb")));
    assert!(device.prove_ready(|_: &Vec<Vec<u8>>| answer(true, "device\n", "")).is_ok());
    assert_eq!(
        device
            .prove_ready(|_: &Vec<Vec<u8>>| answer(true, "offline", ""))
            .expect_err("offline")
            .text(),
        "product verdict failed: Android device `emu` is not ready"
    );
    match device.force_stop(|_: &Vec<Vec<u8>>| answer(false, "", "no device"), "p") {
        Err(Error::Command { command, stderr, .. }) => {
            assert_eq!((command.as_str(), stderr.as_str()), ("adb", "no device"));
        }
        other => panic!("unexpected {other:?}"),
    }
    let unstarted = device.start_native_activity(
        |_: &Vec<Vec<u8>>| Invocation {
            rendering: "adb".to_owned(),
            outcome: Err(Source { kind: SourceKind::NotFound, text: "gone".to_owned() }),
        },
        "p",
    );
    assert!(matches!(unstarted, Err(Error::Io { operation: "run ADB command", .. })));
}

#[test]
fn sizes_and_activities_are_parsed() {
    assert_eq!(parse_size("Physical size: 1080x2400\n").expect("size"), [1080, 2400]);
    assert!(parse_size("Override size: 1x1").is_err());
    assert!(parse_size("Physical size: 1080").is_err());
    assert!(parse_size("Physical size: 10x-1").is_err());
    let report = "x\n  mResumedActivity: ActivityRecord{1 u0 moe.app/android.app.NativeActivity t1}\n";
    assert!(judge_resumed("moe.app", report).is_ok());
    assert!(judge_resumed("moe", report).is_err());
    assert_eq!(
        judge_resumed("moe.app", "nothing").expect_err("absent").text(),
        "product verdict failed: Android choreography left `moe.app`; resumed Activity: absent"
    );
}

#[test]
fn choreographies_ask_the_instrumentation() {
    let lines = RefCell::new(Vec::new());
    let run = |line: &Vec<Vec<u8>>| {
        let line = words(line);
        let state = line.contains(&"get-state".to_owned());
        lines.borrow_mut().push(line);
        if state {
            answer(true, "device", "")
        } else {
            answer(true, "INSTRUMENTATION_CODE: -1", "")
        }
    };
    let mut story = AndroidChoreography::bind(&AndroidDevice::new("emu"), &run).expect("ready");
    let receipt = story.tap(&run, &run, "open", [100_000, -5]).expect("tapped");
    assert_eq!(receipt.action(), "open");
    let pinch = AndroidPinch {
        first: [0, 0],
        second: [10, 20],
        spread: [3, 4],
        steps: 5,
        duration: Duration::from_millis(50),
    };
    assert!(story.pinch(&run, &run, "zoom", pinch).is_ok());
    assert!(story.finish(&run).is_ok());
    let lines = lines.into_inner();
    let tapped = lines[1].join(" ");
    assert!(tapped.contains("-e x 100000"), "{tapped}");
    assert!(tapped.contains("-e y -5"), "{tapped}");
    assert_eq!(narrow([100_000, -100_000]), [i16::MAX, i16::MIN]);
}

#[test]
fn actions_are_timed_around_the_instrumentation() {
    let told = RefCell::new(Vec::new());
    let run = |line: &Vec<Vec<u8>>| {
        if words(line).contains(&"get-state".to_owned()) {
            answer(true, "device", "")
        } else {
            told.borrow_mut().push("run".to_owned());
            answer(true, "INSTRUMENTATION_CODE: -1", "")
        }
    };
    let clock = |mark: Mark| {
        told.borrow_mut().push(format!("{mark:?}"));
        told.borrow().len() as u64
    };
    let mut story = AndroidChoreography::bind(&AndroidDevice::new("emu"), &run).expect("ready");
    let tapped = story.tap_by(&run, &run, &clock, "open", [1, 2]).expect("tapped");
    assert_eq!(
        (tapped.gesture_started_ns(), tapped.triggered_ns(), tapped.completed_ns()),
        (1, 2, 4)
    );
    assert_eq!(tapped.action(), "open");
    assert_eq!(*told.borrow(), ["Begin", "Trigger", "run", "Finish"]);
    let second = Duration::from_secs(1);
    let swiped = story.swipe_by(&run, &run, &clock, "scroll", [1, 2], [3, 4], second);
    assert_eq!(swiped.expect("swiped").completed_ns(), 8);
    let held = story.long_press_by(&run, &run, &clock, "hold", [1, 2], second);
    assert_eq!(held.expect("held").triggered_ns(), 10);
    let pressed = story.key_code_by(&run, &run, &clock, "back", "BACK").expect("pressed");
    assert_eq!(pressed.gesture_started_ns(), 13);
    let typed = story.text_by(&run, &run, &clock, "type", "words").expect("typed");
    assert_eq!(typed.completed_ns(), 20);
}

#[test]
fn refused_gestures_are_reported() {
    let run = |line: &Vec<Vec<u8>>| {
        if words(line).contains(&"get-state".to_owned()) {
            answer(true, "device", "")
        } else {
            answer(true, "INSTRUMENTATION_CODE: 0", "")
        }
    };
    let mut story = AndroidChoreography::bind(&AndroidDevice::new("emu"), &run).expect("ready");
    assert!(matches!(story.tap(&run, &run, "open", [1, 2]), Err(Error::Verdict { .. })));
}

#[test]
fn traces_live_beneath_their_directory() {
    let device = AndroidDevice::new("emu");
    let begin = |remote: &str, outcome: Result<CommandOutput, LaunchFault>| {
        AndroidPerfetto::begin(
            &device,
            "config",
            remote,
            &bytes("/out/trace"),
            &bytes("/out/events.jsonl"),
            77,
            |_: &Vec<u8>| Ok(()),
            |_: &Vec<u8>| Ok(()),
            move |line: &Vec<Vec<u8>>, config: &str| {
                assert_eq!(config, "config");
                assert!(words(line).contains(&"--detach=egui_tester_77".to_owned()));
                outcome
            },
        )
    };
    let success = || CommandOutput {
        success: true,
        status: "exit status: 0".to_owned(),
        stdout: vec![],
        stderr: vec![],
    };
    assert!(begin("/sdcard/t", Ok(success())).is_err());
    assert!(begin("/data/misc/perfetto-traces/t", Err(LaunchFault::NoPipe)).is_err());
    let mut trace = begin("/data/misc/perfetto-traces/t", Ok(success())).expect("begun");
    let lines = RefCell::new(Vec::new());
    let run = |line: &Vec<Vec<u8>>| {
        lines.borrow_mut().push(words(line));
        answer(true, "", "")
    };
    assert!(trace.seal(&run, &run, || Ok(())).is_ok());
    assert!(trace.seal(&run, &run, || panic!("a sealed trace stays sealed")).is_ok());
    let lines = lines.into_inner();
    assert!(lines[0].contains(&"--attach=egui_tester_77".to_owned()));
    assert!(lines[1].contains(&"pull".to_owned()));
}
