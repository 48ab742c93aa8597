use egui_tester::acceptance::{demand, diagnose, required, seed_demo, slate_is_wet, state_is};
use egui_tester::error::{Error, Source, SourceKind};
use egui_tester::fixture::{audit_denial, audit_hidden, parse_errand, temporary_path, Errand, Fixture, Interaction};
use egui_tester::service::unit::Exit;

fn bytes(text: &str) -> Vec<u8> {
    text.as_bytes().to_vec()
}

fn source() -> Source {
    Source { kind: SourceKind::Other, text: "denied".to_owned() }
}

#[test]
fn fixture_flags() {
    assert!(matches!(parse_errand(&vec![]), Errand::Window));
    assert!(matches!(
        parse_errand(&vec![bytes("--try-read"), bytes("/x")]),
        Errand::TryRead(path) if path == b"/x"
    ));
    assert!(matches!(
        parse_errand(&vec![bytes("--try-write"), bytes("/x")]),
        Errand::TryWrite(path) if path == b"/x"
    ));
    for (arguments, message) in [
        (vec![bytes("--try-read")], "--try-read requires a path"),
        (vec![bytes("--help")], "unknown fixture flag `--help`"),
    ] {
        match parse_errand(&arguments) {
            Errand::Leave(farewell) => {
                assert_eq!((farewell.message.as_str(), farewell.status), (message, 64));
            }
            other => panic!("unexpected {other:?}"),
        }
    }
}

#[test]
fn audits_tell_breach_from_denial() {
    let path = bytes("/x");
    assert_eq!(audit_hidden(&path, Ok(())).status, 70);
    let hidden = audit_hidden(&path, Err(source()));
    assert_eq!(
        (hidden.status, hidden.message.as_str()),
        (73, "undeclared real file is invisible to test: `/x` denied: denied")
    );
    assert_eq!(audit_denial(&path, Ok(())).status, 70);
    let denied = audit_denial(&path, Err(source()));
    assert_eq!(
        (denied.status, denied.message.as_str()),
        (73, "would write real file from test: `/x` denied: denied")
    );
}

fn interaction() -> Interaction {
    Interaction {
        frame: 9,
        increment: [1; 4],
        increment_clicked: false,
        toggle: [2; 4],
        toggle_clicked: false,
        text: [3; 4],
        edited: String::new(),
        text_focused: false,
        drag: [4; 4],
        dragged: 0,
        pointer_inside: true,
    }
}

#[test]
fn the_fixture_reports_what_it_holds() {
    let mut fixture = Fixture::new(Some(bytes("/probe.json")));
    let paint = fixture.begin(true);
    assert_eq!(paint.fill, (14, 62, 72));
    assert_eq!(paint.count_label, "Count: 0");
    let input = Interaction {
        increment_clicked: true,
        toggle_clicked: true,
        edited: "blade".to_owned(),
        dragged: 40.0_f32.to_bits(),
        ..interaction()
    };
    let (path, report) = fixture.ui(&input).expect("report");
    assert_eq!(path, bytes("/probe.json"));
    let names: Vec<&str> = report.anchors.iter().map(|anchor| anchor.name).collect();
    assert_eq!(names, ["increment", "toggle", "text", "drag"]);
    assert_eq!((report.state.count, report.state.f2_count), (1, 1));
    assert!(report.state.violet);
    assert_eq!(report.state.text, "blade");
    assert_eq!(f32::from_bits(report.state.drag_value), 40.0);
    let paint = fixture.begin(false);
    assert_eq!(paint.fill, (74, 28, 126));
    assert_eq!(paint.count_label, "Count: 1");
    let mut quiet = Fixture::new(None);
    assert!(quiet.ui(&interaction()).is_none());
    assert_eq!(temporary_path(&bytes("/p/probe.json")), bytes("/p/probe.tmp"));
}

#[test]
fn hosts_are_diagnosed_by_a_trivial_application() {
    let exit = |code, result: &str| Exit {
        code,
        result: result.to_owned(),
        stdout: String::new(),
        stderr: "why".to_owned(),
    };
    assert_eq!(
        diagnose(exit(0, "success"), "id").expect("ready"),
        "egui-tester host is ready; display, containment, service, and software graphics passed under id"
    );
    match diagnose(exit(-2, "signal"), "id") {
        Err(Error::Command { status, stderr, .. }) => {
            assert_eq!((status.as_str(), stderr.as_str()), ("code -2, result signal", "why"));
        }
        other => panic!("unexpected {other:?}"),
    }
}

#[test]
fn image_board_verdicts() {
    assert_eq!(required(Some(bytes("/abv")), "ABV binary").expect("given"), bytes("/abv"));
    assert!(required(None, "ABV binary")
        .expect_err("missing")
        .text()
        .contains("missing ABV binary; usage: booru-acceptance <abv> <booru-root> [artifacts]"));
    assert!(demand(true, "x").is_ok());
    assert!(demand(false, "x").is_err());
    for (left, right) in [("WeT", "wet"), ("wet", "dry"), ("\u{c9}", "\u{e9}"), ("a", "ab"), ("", ""), ("[", "{")] {
        assert_eq!(
            state_is(&Some(left.to_owned()), right),
            left.eq_ignore_ascii_case(right),
            "{left} {right}"
        );
    }
    assert!(!state_is(&None, "wet"));
    let copies = seed_demo(&bytes("/booru"));
    assert_eq!(copies[1].0, bytes("xdg/state/adequate_booru_viewer/slate.toml"));
    assert_eq!(copies[0].1, bytes("/booru/demo/wet/config.toml"));
    assert!(slate_is_wet(&Ok("a\nwater = \"wet\"\n".to_owned())));
    assert!(!slate_is_wet(&Err(Error::MissingTool("x"))));
}
