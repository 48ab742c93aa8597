use std::cell::{Cell, RefCell};

use egui_tester::environment::Environment;
use egui_tester::error::{Error, Source, SourceKind};
use egui_tester::poll::Round;
use egui_tester::service::unit::CommandOutput;
use egui_tester::stage::{Act, Rehearsal, Stage};
use egui_tester::testbed::files::{descend, Descent, DescentFault, ExportFault, ReadFault, WriteFault};
use egui_tester::testbed::retention::{copy_failure, copy_step, CopyFault, CopyStep, FileKind, TreeCopy};
use egui_tester::testbed::tools::{decode_hex, find_tool, private_directories, random_cookie, require_tool, root_prefix, session_id};
use egui_tester::testbed::weston::{capture_place, single_capture, vigil_round, Vigil, WestonRuntime};
use egui_tester::testbed::xvfb::{self, pick_display, prepare, stand_round, AuthorityOrder, ServerOrder, StandFault, Standing, Wasteland, Yard};
use egui_tester::testbed::{furnish, furnish_failure, Backend, DisplayServer, Furnish, Testbed, TestbedBuilder, WaylandConfig, X11Config};

const UUID: &str = "01234567-89ab-cdef-0123-456789abcdef\n";
const COOKIE: &str = "0123456789abcdef0123456789abcdef";

/// A stage whose acts are done by a function.
struct Doing<F>(F);

impl<A: Act, E, F: FnMut(&A) -> Result<(), E>> Stage<A, E> for Doing<F> {
    fn goes(_: Self, _: A::V, _: Result<(), E>, _: Self) -> bool {
        true
    }

    fn perform(&mut self, act: &A) -> Result<(), E> {
        (self.0)(act)
    }
}

/// A yard whose seeds count up.
struct Ground<A, T> {
    seeds: u64,
    authorize: A,
    stand: T,
}

impl<A, T> Yard for Ground<A, T>
where
    A: FnMut(&Vec<u8>, &Vec<Vec<u8>>) -> Result<CommandOutput, Source>,
    T: FnMut(&Vec<Vec<u8>>, &Vec<u8>, &Vec<u8>) -> Result<bool, StandFault>,
{
    fn claims(_: Self, _: u64, _: Self) -> bool {
        true
    }

    fn authorizes(_: Self, _: AuthorityOrder, _: Result<CommandOutput, Source>, _: Self) -> bool {
        true
    }

    fn stands(_: Self, _: ServerOrder, _: Result<bool, StandFault>, _: Self) -> bool {
        true
    }

    fn claim(&mut self) -> u64 {
        self.seeds += 1;
        self.seeds - 1
    }

    fn authorize(&mut self, file: &Vec<u8>, line: &Vec<Vec<u8>>) -> Result<CommandOutput, Source> {
        (self.authorize)(file, line)
    }

    fn stand(
        &mut self,
        file: &Vec<u8>,
        line: &Vec<Vec<u8>>,
        socket: &Vec<u8>,
        key: &Vec<u8>,
    ) -> Result<bool, StandFault> {
        assert!(file.ends_with(b"/xauthority"));
        (self.stand)(line, socket, key)
    }
}

fn bytes(text: &str) -> Vec<u8> {
    text.as_bytes().to_vec()
}

fn words(line: &[Vec<u8>]) -> Vec<String> {
    line.iter()
        .map(|word| String::from_utf8(word.clone()).expect("text"))
        .collect()
}

fn source(text: &str) -> Source {
    Source { kind: SourceKind::Other, text: text.to_owned() }
}

fn display() -> DisplayServer {
    DisplayServer::X11 { display: 217, socket: bytes("/tmp/.X11-unix/X217"), cookie: vec![9; 16] }
}

fn testbed() -> Testbed {
    TestbedBuilder::default()
        .failure_artifacts(&bytes("/sink"))
        .assemble("77-1-abc".to_owned(), bytes("/tmp/bed"), display())
}

fn output(success: bool, stdout: &str, stderr: &str) -> CommandOutput {
    CommandOutput {
        success,
        status: if success { "exit status: 0" } else { "exit status: 1" }.to_owned(),
        stdout: bytes(stdout),
        stderr: bytes(stderr),
    }
}

fn value(environment: &Environment, name: &str) -> Option<String> {
    environment
        .entries()
        .iter()
        .find(|(key, _)| key == name.as_bytes())
        .map(|(_, value)| String::from_utf8(value.clone()).expect("text"))
}

// ---------------------------------------------------------------------------
// Paths
// ---------------------------------------------------------------------------

#[test]
fn private_paths_stay_private() {
    let bed = testbed();
    assert_eq!(
        bed.private_path(&bytes("probes/a.json")).expect("confined"),
        bytes("/tmp/bed/probes/a.json")
    );
    for escape in ["", "/etc/passwd", "../x", "a/../../x"] {
        match bed.private_path(&bytes(escape)) {
            Err(Error::Containment { layer, detail }) => {
                assert_eq!(layer, "private filesystem");
                assert_eq!(detail, format!("`{escape}` is not a confined relative path"));
            }
            other => panic!("unexpected {other:?}"),
        }
    }
    assert_eq!(Testbed::guest_path(&bytes("probes/a")), bytes("/test/probes/a"));
    assert_eq!(bed.host_path(&bytes("logs")), bytes("/tmp/bed/logs"));
    assert_eq!(bed.diagnostic_path(&bytes("x")), bytes("/tmp/bed/diagnostics/x"));
    assert_eq!(bed.id(), "77-1-abc");
    assert_eq!(bed.root(), &bytes("/tmp/bed"));
}

#[test]
fn private_writes_descend_step_by_step() {
    let bed = testbed();
    let steps = RefCell::new(Vec::new());
    let path = bed
        .write_private(&bytes("a/./b/c.txt"), |directories: &Vec<Vec<u8>>, leaf: &Vec<u8>| {
            steps.borrow_mut().push((words(directories), leaf.clone()));
            Ok(())
        })
        .expect("written");
    assert_eq!(path, bytes("/tmp/bed/a/./b/c.txt"));
    assert_eq!(
        steps.into_inner(),
        [(vec!["a".to_owned(), "b".to_owned()], bytes("c.txt"))]
    );
    let untouched = |_: &Vec<Vec<u8>>, _: &Vec<u8>| -> Result<(), WriteFault> {
        panic!("a refused path must not be written")
    };
    assert!(bed.write_private(&bytes("../x"), untouched).is_err());
    assert!(bed.write_private(&bytes("."), untouched).is_err());
    for (fault, operation) in [
        (WriteFault::Descent(DescentFault::Root(source("x"))), "open private root capability"),
        (WriteFault::Descent(DescentFault::Create(source("x"))), "create confined private parent"),
        (WriteFault::Descent(DescentFault::Descend(source("x"))), "descend confined private parent"),
        (WriteFault::Open(source("x")), "open confined private output"),
        (WriteFault::Write(source("x")), "write private file"),
    ] {
        match bed.write_private(&bytes("a/b"), move |_: &Vec<Vec<u8>>, _: &Vec<u8>| Err(fault)) {
            Err(Error::Io { operation: found, .. }) => assert_eq!(found, operation),
            other => panic!("unexpected {other:?}"),
        }
    }
}

#[test]
fn private_directories_copies_reads_and_exports() {
    let bed = testbed();
    let mut walk = Rehearsal::new();
    let made = bed
        .create_private_dir(&bytes("project/project"), &mut walk)
        .expect("made");
    assert_eq!(made, bytes("/tmp/bed/project/project"));
    let told: Vec<String> = walk.acts.iter().map(|act| match act {
        Descent::Root => "root".to_owned(),
        Descent::Make(name) => format!("make {}", String::from_utf8_lossy(name)),
        Descent::Enter(name) => format!("enter {}", String::from_utf8_lossy(name)),
    }).collect();
    assert_eq!(told, ["root", "make project", "enter project", "make project", "enter project"]);
    assert!(bed.create_private_dir(&bytes("../x"), &mut walk).is_err());
    assert_eq!(walk.acts.len(), 5);
    assert!(bed
        .create_private_dir(
            &bytes("project"),
            &mut Doing(|act: &Descent| match act {
                Descent::Root => Ok(()),
                _ => Err(source("x")),
            }),
        )
        .is_err());
    assert!(bed
        .copy_private(
            &bytes("a"),
            &bytes("/fixture"),
            |_: &Vec<u8>| Err(source("gone")),
            |_: &Vec<Vec<u8>>, _: &Vec<u8>| -> Result<(), WriteFault> {
                panic!("an unopened fixture must not be copied")
            },
        )
        .is_err());
    assert_eq!(
        bed.copy_private(
            &bytes("a"),
            &bytes("/fixture"),
            |_: &Vec<u8>| Ok(()),
            |_: &Vec<Vec<u8>>, _: &Vec<u8>| Ok(()),
        )
        .expect("copied"),
        bytes("/tmp/bed/a")
    );
    assert_eq!(
        bed.read_private_to_string(&bytes("a"), |_: &Vec<u8>| Ok(bytes("text")))
            .expect("text"),
        "text"
    );
    let fault = bed
        .read_private_to_string(&bytes("a"), |_: &Vec<u8>| Ok(vec![0xff]))
        .expect_err("not text");
    let expected = String::from_utf8(vec![0xff]).expect_err("not text");
    assert_eq!(
        fault.text(),
        format!("containment layer `private filesystem` refused the test: private file `a` is not UTF-8: {expected}")
    );
    match bed.read_private(&bytes("a"), |_: &Vec<u8>| Err(ReadFault::Open(source("link")))) {
        Err(Error::Io { operation, path, .. }) => {
            assert_eq!(operation, "open confined private file");
            assert_eq!(path, bytes("a"));
        }
        other => panic!("unexpected {other:?}"),
    }
    let directory = Cell::new(false);
    assert!(bed
        .export(
            &bytes("a"),
            &bytes("/out/b"),
            |place: &Vec<u8>| {
                assert_eq!(place, &bytes("/out"));
                directory.set(true);
                Ok(())
            },
            |from: &Vec<u8>, to: &Vec<u8>| {
                assert_eq!((from, to), (&bytes("a"), &bytes("/out/b")));
                Ok(())
            },
        )
        .is_ok());
    assert!(directory.get());
    assert!(bed
        .export(
            &bytes("a"),
            &bytes("/out/b"),
            |_: &Vec<u8>| Ok(()),
            |_: &Vec<u8>, _: &Vec<u8>| Err(ExportFault::Create(source("full"))),
        )
        .is_err());
}

// ---------------------------------------------------------------------------
// Failures
// ---------------------------------------------------------------------------

#[test]
fn retained_paths_are_exported_in_order_and_once() {
    let mut bed = testbed();
    for path in ["project/oracle.txt", "a", "project/oracle.txt"] {
        bed.retain_on_failure(&bytes(path)).expect("retained");
    }
    assert!(bed.retain_on_failure(&bytes("../x")).is_err());
    let copies = bed.failure_exports().expect("a sink was chosen");
    let copies: Vec<(String, String)> = copies
        .into_iter()
        .map(|(from, to)| (String::from_utf8(from).expect("text"), String::from_utf8(to).expect("text")))
        .collect();
    let expected: Vec<(String, String)> = ["logs", "probes", "captures", "diagnostics", "a", "project/oracle.txt"]
        .iter()
        .map(|name| (format!("/tmp/bed/{name}"), format!("/sink/77-1-abc/{name}")))
        .collect();
    assert_eq!(copies, expected);
    let quiet = TestbedBuilder::default().assemble("x".to_owned(), bytes("/r"), display());
    assert!(quiet.failure_exports().is_none());
}

#[test]
fn result_failures_retain_registered_artifacts() {
    let exported = Cell::new(0);
    let raise = |builder: TestbedBuilder| Ok(builder.assemble("x".to_owned(), bytes("/r"), display()));
    let verdict: Result<(), Error> = TestbedBuilder::default().run(
        raise,
        |_: &Testbed| Err(Error::Containment { layer: "fixture verdict", detail: "deliberate failure".to_owned() }),
        |_: &Testbed| exported.set(exported.get() + 1),
    );
    assert!(matches!(verdict, Err(Error::Containment { layer: "fixture verdict", .. })));
    assert_eq!(exported.get(), 1);
    let verdict = TestbedBuilder::default().run(raise, |_: &Testbed| Ok(7), |_: &Testbed| exported.set(99));
    assert_eq!(verdict.expect("passed"), 7);
    assert_eq!(exported.get(), 1);
    let unraised: Result<(), Error> = TestbedBuilder::default().run(
        |_: TestbedBuilder| Err(Error::MissingTool("bwrap")),
        |_: &Testbed| panic!("no universe was raised"),
        |_: &Testbed| exported.set(99),
    );
    assert!(matches!(unraised, Err(Error::MissingTool("bwrap"))));
    assert_eq!(exported.get(), 1);
}

#[test]
fn trees_are_copied_depth_first_and_mirrored() {
    let mut copy = TreeCopy::begin();
    assert!(!copy.reading());
    copy.enter(&bytes("/s"), &bytes("/d"));
    let (from, to) = copy.entry(Ok(bytes("a"))).expect("first entry");
    assert_eq!((&from, &to), (&bytes("/s/a"), &bytes("/d/a")));
    copy.enter(&from, &to);
    let inner = copy.entry(Ok(bytes("x"))).expect("inner entry");
    assert_eq!(inner, (bytes("/s/a/x"), bytes("/d/a/x")));
    match copy.entry(Err(source("torn"))) {
        Err(Error::Io { operation, path, source }) => {
            assert_eq!(operation, "read failure artifact entry");
            assert_eq!(path, bytes("/s/a"));
            assert_eq!(source.text, "torn");
        }
        other => panic!("unexpected {other:?}"),
    }
    copy.leave();
    let second = copy.entry(Ok(bytes("b"))).expect("second entry");
    assert_eq!(second, (bytes("/s/b"), bytes("/d/b")));
    copy.leave();
    assert!(!copy.reading());
}

#[test]
fn copies_follow_no_links() {
    match copy_step(&bytes("/s"), &bytes("/d/x"), Ok(FileKind::Link)) {
        Err(Error::Containment { detail, .. }) => {
            assert_eq!(detail, "refusing to follow symlink `/s`");
        }
        other => panic!("unexpected {other:?}"),
    }
    match copy_step(&bytes("/s"), &bytes("/d/x"), Ok(FileKind::File)) {
        Ok(CopyStep::File { parent }) => assert_eq!(parent, Some(bytes("/d"))),
        other => panic!("unexpected {other:?}"),
    }
    assert!(matches!(
        copy_step(&bytes("/s"), &bytes("/d"), Ok(FileKind::Directory)),
        Ok(CopyStep::Directory)
    ));
    assert!(copy_step(&bytes("/s"), &bytes("/d"), Err(source("gone"))).is_err());
    for (fault, text) in [
        (CopyFault::Parent(source("x")), "create failure artifact parent `/d`: x"),
        (CopyFault::Copy(source("x")), "copy failure artifact `/d/x`: x"),
        (CopyFault::Create(source("x")), "create failure artifact tree `/d/x`: x"),
        (CopyFault::List(source("x")), "read failure artifact tree `/s`: x"),
        (CopyFault::Entry(source("x")), "read failure artifact entry `/s`: x"),
    ] {
        assert_eq!(copy_failure(&bytes("/s"), &bytes("/d/x"), fault).text(), text);
    }
}

// ---------------------------------------------------------------------------
// Raising
// ---------------------------------------------------------------------------

#[test]
fn tools_are_found_in_path_order() {
    let path = Some(bytes("/a::/b"));
    let asked = RefCell::new(Vec::new());
    let found = find_tool(&path, "bwrap", &|candidate: &Vec<u8>| {
        asked.borrow_mut().push(String::from_utf8(candidate.clone()).expect("text"));
        candidate == b"/b/bwrap"
    });
    assert_eq!(found, Some(bytes("/b/bwrap")));
    assert_eq!(asked.into_inner(), ["/a/bwrap", "bwrap", "/b/bwrap"]);
    assert!(find_tool(&None, "bwrap", &|_: &Vec<u8>| true).is_none());
    assert!(matches!(
        require_tool(&path, "xauth", &|_: &Vec<u8>| false),
        Err(Error::MissingTool("xauth"))
    ));
    let builder = TestbedBuilder::default();
    assert!(builder.equip(&path, &|_: &Vec<u8>| true).is_ok());
    assert!(matches!(
        builder.equip(&path, &|tool: &Vec<u8>| !tool.ends_with(b"systemctl")),
        Err(Error::MissingTool("systemctl"))
    ));
}

#[test]
fn cookies_are_drawn_from_the_kernel() {
    assert_eq!(random_cookie(Ok(UUID.to_owned())).expect("cookie"), COOKIE);
    assert!(random_cookie(Ok("too-short".to_owned())).is_err());
    assert!(random_cookie(Ok(UUID.replace('a', "g"))).is_err());
    assert!(matches!(random_cookie(Err(source("denied"))), Err(Error::Io { .. })));
    let key = decode_hex(COOKIE).expect("hexadecimal");
    assert_eq!(key.len(), 16);
    assert_eq!(&key[..4], &[0x01, 0x23, 0x45, 0x67]);
    for pair in ["ff", "+7", "-7", "7+", "g0", "0G", "A9", "  "] {
        assert_eq!(
            decode_hex(pair).ok(),
            u8::from_str_radix(pair, 16).ok().map(|value| vec![value]),
            "{pair}"
        );
    }
    assert_eq!(decode_hex("abc").expect("odd end"), vec![0xab]);
    assert_eq!(session_id(41, 2, COOKIE), "41-2-0123456789ab");
    assert_eq!(root_prefix("41-2-x"), "egui-tester-41-2-x-");
    assert_eq!(words(&private_directories())[10], "xdg/runtime");
}

#[test]
fn furnishing_hardens_first_and_last() {
    let steps = furnish(&bytes("/r"));
    assert_eq!(steps.len(), 13);
    assert!(matches!(&steps[0], Furnish::Harden(path) if path == b"/r"));
    assert!(matches!(&steps[1], Furnish::Create(path) if path == b"/r/home"));
    assert!(matches!(&steps[12], Furnish::Harden(path) if path == b"/r/xdg/runtime"));
    assert_eq!(
        furnish_failure(&steps[1], source("full")).text(),
        "create private test directory `/r/home`: full"
    );
}

#[test]
fn virtual_servers_try_other_displays() {
    let root = bytes("/tmp/bed");
    let path = Some(bytes("/usr/bin"));
    let cookie = prepare(
        &root,
        &path,
        &|_: &Vec<u8>| true,
        || Ok(UUID.to_owned()),
        |log: &Vec<u8>| {
            assert_eq!(log, &bytes("/tmp/bed/logs/xvfb.log"));
            Ok(())
        },
    )
    .expect("prepared");
    assert_eq!(cookie, COOKIE);
    let lines = RefCell::new(Vec::new());
    let mut yard = Ground {
        seeds: 0,
        authorize: |authority: &Vec<u8>, line: &Vec<Vec<u8>>| {
            assert_eq!(authority, &bytes("/tmp/bed/xauthority"));
            lines.borrow_mut().push(words(line));
            Ok(output(true, "", ""))
        },
        stand: |line: &Vec<Vec<u8>>, socket: &Vec<u8>, key: &Vec<u8>| {
            assert_eq!(key.len(), 16);
            lines.borrow_mut().push(words(line));
            Ok(socket.ends_with(b"X302"))
        },
    };
    let server = xvfb::raise(X11Config::default(), &root, 100, &cookie, &mut yard)
        .expect("the second display stands");
    assert_eq!(yard.seeds, 2);
    match server {
        DisplayServer::X11 { display, socket, cookie } => {
            assert_eq!(display, 302);
            assert_eq!(socket, bytes("/tmp/.X11-unix/X302"));
            assert_eq!(cookie, decode_hex(COOKIE).expect("hexadecimal"));
        }
        other => panic!("unexpected {other:?}"),
    }
    let lines = lines.into_inner();
    assert_eq!(lines.len(), 4);
    assert_eq!(
        lines[0],
        ["xauth", "-f", "/tmp/bed/xauthority", "add", ":300", "MIT-MAGIC-COOKIE-1", COOKIE]
    );
    assert_eq!(
        lines[1],
        ["Xvfb", ":300", "-screen", "0", "1440x920x24", "-nolisten", "tcp", "-noreset", "-auth", "/tmp/bed/xauthority"]
    );
}

#[test]
fn virtual_servers_give_up_after_every_display() {
    let mut waste = Wasteland { claimed: 0, authorized: 0, raised: 0 };
    let outcome = xvfb::raise(X11Config::default(), &bytes("/r"), 1, COOKIE, &mut waste);
    assert_eq!((waste.claimed, waste.authorized, waste.raised), (24, 24, 24));
    assert_eq!(
        outcome.expect_err("exhausted").text(),
        "containment layer `Xvfb` refused the test: could not allocate a private display after 24 attempts"
    );
    let mut unauthorized = Ground {
        seeds: 0,
        authorize: |_: &Vec<u8>, _: &Vec<Vec<u8>>| Ok(output(false, "", " bad name ")),
        stand: |_: &Vec<Vec<u8>>, _: &Vec<u8>, _: &Vec<u8>| panic!("no server without an authority"),
    };
    let refused = xvfb::raise(X11Config::default(), &bytes("/r"), 1, COOKIE, &mut unauthorized);
    match refused {
        Err(Error::Command { command, stderr, .. }) => {
            assert_eq!((command.as_str(), stderr.as_str()), ("xauth", "bad name"));
        }
        other => panic!("unexpected {other:?}"),
    }
    for (fault, text) in [
        (StandFault::Harden(source("x")), "harden private file `/r/xauthority`: x"),
        (StandFault::CloneLog(source("x")), "clone Xvfb log `/r/logs/xvfb.log`: x"),
        (StandFault::Spawn(source("x")), "spawn Xvfb `Xvfb`: x"),
        (StandFault::Poll(source("x")), "poll Xvfb `Xvfb`: x"),
    ] {
        let mut fault = Some(fault);
        let mut broken = Ground {
            seeds: 0,
            authorize: |_: &Vec<u8>, _: &Vec<Vec<u8>>| Ok(output(true, "", "")),
            stand: |_: &Vec<Vec<u8>>, _: &Vec<u8>, _: &Vec<u8>| {
                Err(fault.take().expect("a fault ends the attempts"))
            },
        };
        let failed = xvfb::raise(X11Config::default(), &bytes("/r"), 1, COOKIE, &mut broken);
        assert_eq!(failed.expect_err("failed").text(), text);
    }
    assert_eq!(pick_display(u32::MAX, u64::MAX, 23), (200 + (u128::from(u32::MAX) + u128::from(u64::MAX) + 23) % 700) as u16);
}

#[test]
fn waits_for_servers_round_by_round() {
    assert!(matches!(stand_round(true, Ok(true), true), Ok(Round::Done(Standing::Silent))));
    assert!(matches!(stand_round(false, Ok(true), true), Ok(Round::Done(Standing::Gone))));
    assert!(matches!(stand_round(false, Ok(false), true), Ok(Round::Done(Standing::Ready))));
    assert!(matches!(stand_round(false, Ok(false), false), Ok(Round::Again(15))));
    assert!(matches!(stand_round(false, Err(source("x")), false), Err(StandFault::Poll(_))));
    assert!(matches!(vigil_round(true, true, Ok(None), String::new()), Round::Done(Vigil::Silent)));
    assert!(matches!(vigil_round(false, true, Ok(None), String::new()), Round::Done(Vigil::Ready)));
    assert!(matches!(vigil_round(false, false, Ok(None), String::new()), Round::Again(20)));
    assert!(matches!(
        vigil_round(false, false, Ok(Some("1".to_owned())), "log".to_owned()),
        Round::Done(Vigil::Exited { .. })
    ));
    assert!(matches!(
        vigil_round(false, false, Err(source("x")), String::new()),
        Round::Done(Vigil::Fault(_))
    ));
}

#[test]
fn compositors_are_found_unpacked_or_installed() {
    let path = Some(bytes("/usr/bin"));
    let unpacked = WestonRuntime::resolve(&Some(bytes("/w")), &path, &|_: &Vec<u8>| true).expect("unpacked");
    assert_eq!(unpacked.weston(), &bytes("/w/usr/bin/weston"));
    assert_eq!(unpacked.screenshooter(), &bytes("/w/usr/bin/weston-screenshooter"));
    let mut environment = Environment::empty();
    unpacked.apply_environment(&mut environment);
    assert_eq!(
        value(&environment, "LD_LIBRARY_PATH").as_deref(),
        Some("/w/usr/lib:/w/usr/lib/weston")
    );
    assert_eq!(value(&environment, "WESTON_DATA_DIR").as_deref(), Some("/w/usr/share"));
    assert_eq!(
        value(&environment, "WESTON_MODULE_MAP").as_deref(),
        Some("headless-backend.so=/w/usr/lib/libweston-15/headless-backend.so;desktop-shell.so=/w/usr/lib/weston/desktop-shell.so;weston-desktop-shell=/w/usr/lib/weston/weston-desktop-shell;weston-keyboard=/w/usr/lib/weston/weston-keyboard;weston-simple-im=/w/usr/lib/weston/weston-simple-im")
    );
    let bare = WestonRuntime::resolve(&Some(bytes("/w")), &path, &|tool: &Vec<u8>| !tool.ends_with(b"shooter"));
    assert_eq!(
        bare.expect_err("bare").text(),
        "backend capability `headless Wayland` is unavailable: EGUI_TESTER_WESTON_ROOT `/w` lacks Weston executables"
    );
    let installed = WestonRuntime::resolve(&None, &path, &|_: &Vec<u8>| true).expect("installed");
    assert_eq!(installed.weston(), &bytes("/usr/bin/weston"));
    let mut untouched = Environment::empty();
    installed.apply_environment(&mut untouched);
    assert!(untouched.entries().is_empty());
    assert!(matches!(
        WestonRuntime::resolve(&None, &path, &|_: &Vec<u8>| false),
        Err(Error::MissingTool("weston"))
    ));
}

#[test]
fn compositors_are_raised_with_what_they_offer() {
    let runtime = WestonRuntime::resolve(&None, &Some(bytes("/usr/bin")), &|_: &Vec<u8>| true).expect("installed");
    let config = WaylandConfig { width: 800, height: 600 };
    for (help, seated) in [("usage:\n --fake-seat  Add a seat", true), ("usage: --fake-seats x--fake-seat", false)] {
        let server = runtime
            .raise(
                config,
                &bytes("/r"),
                "7-1-x",
                |line: &Vec<Vec<u8>>, environment: &Environment| {
                    assert_eq!(words(line), ["/usr/bin/weston", "--help"]);
                    assert_eq!(environment.entries().len(), 1);
                    Ok(output(true, help, ""))
                },
                |line: &Vec<Vec<u8>>, environment: &Environment| {
                    let line = words(line);
                    assert_eq!(line.contains(&"--fake-seat".to_owned()), seated, "{line:?}");
                    assert!(line.contains(&"--socket=egui-tester-7-1-x".to_owned()));
                    assert!(line.contains(&"--width=800".to_owned()));
                    assert!(line.contains(&"--log=/r/logs/weston.log".to_owned()));
                    assert_eq!(value(environment, "XDG_RUNTIME_DIR").as_deref(), Some("/r/xdg/runtime"));
                    Ok(())
                },
                |socket: &Vec<u8>| {
                    assert_eq!(socket, &bytes("/r/xdg/runtime/egui-tester-7-1-x"));
                    Vigil::Ready
                },
            )
            .expect("raised");
        match server {
            DisplayServer::Wayland { socket_name } => assert_eq!(socket_name, "egui-tester-7-1-x"),
            other => panic!("unexpected {other:?}"),
        }
    }
    let raise = |vigil: Vigil| {
        runtime.raise(
            config,
            &bytes("/r"),
            "7",
            |_: &Vec<Vec<u8>>, _: &Environment| Ok(output(true, "", "")),
            |_: &Vec<Vec<u8>>, _: &Environment| Ok(()),
            move |_: &Vec<u8>| vigil,
        )
    };
    assert_eq!(
        raise(Vigil::Silent).expect_err("silent").text(),
        "timed out after 5s waiting for Weston socket for 800x600 headless output"
    );
    assert_eq!(
        raise(Vigil::Exited { status: "exit status: 1".to_owned(), log: "no gl".to_owned() })
            .expect_err("exited")
            .text(),
        "containment layer `Weston` refused the test: headless compositor exited with exit status: 1; log: no gl"
    );
    assert!(raise(Vigil::Fault(source("x"))).is_err());
    assert!(runtime
        .supports_fake_seat(|_: &Vec<Vec<u8>>, _: &Environment| Ok(output(false, "", "bad")))
        .is_err());
}

#[test]
fn captures_must_be_single_and_silent() {
    let runtime = WestonRuntime::resolve(&None, &Some(bytes("/usr/bin")), &|_: &Vec<u8>| true).expect("installed");
    assert!(runtime.judge_capture(Ok(output(true, "", " \n"))).is_ok());
    assert!(runtime.judge_capture(Ok(output(true, "", "complaint"))).is_err());
    assert!(runtime.judge_capture(Ok(output(false, "", ""))).is_err());
    assert!(runtime.judge_capture(Err(source("gone"))).is_err());
    let environment = runtime.capture_environment(&bytes("/r"), "sock");
    assert_eq!(value(&environment, "WAYLAND_DISPLAY").as_deref(), Some("sock"));
    let directory = capture_place(&bytes("/r"));
    assert_eq!(directory, bytes("/r/captures/wayland"));
    assert_eq!(
        single_capture(&directory, Ok(vec![bytes("/c/a.txt"), bytes("/c/b.png"), bytes("/c/png")])).expect("one"),
        bytes("/c/b.png")
    );
    assert_eq!(
        single_capture(&directory, Ok(vec![bytes("/c/a.png"), bytes("/c/b.png")]))
            .expect_err("two")
            .text(),
        "X11 protocol failure while capture Wayland output: expected one PNG from one virtual output, found 2"
    );
    assert!(single_capture(&directory, Err(source("gone"))).is_err());
}

#[test]
fn descents_make_what_is_missing() {
    let told: RefCell<Vec<String>> = RefCell::new(Vec::new());
    let walk = |refused: &str, kind: SourceKind| {
        told.borrow_mut().clear();
        let ask = |act: &str, name: &Vec<u8>| {
            let line = format!("{act} {}", String::from_utf8_lossy(name));
            let stuck = line == refused;
            told.borrow_mut().push(line);
            if stuck { Err(Source { kind, text: "no".to_owned() }) } else { Ok(()) }
        };
        descend(
            &vec![bytes("a"), bytes("b")],
            &mut Doing(|act: &Descent| match act {
                Descent::Root => ask("open", &vec![]),
                Descent::Make(name) => ask("make", name),
                Descent::Enter(name) => ask("enter", name),
            }),
        )
    };
    assert!(walk("", SourceKind::Other).is_ok());
    assert_eq!(*told.borrow(), ["open ", "make a", "enter a", "make b", "enter b"]);
    assert!(walk("make a", SourceKind::AlreadyExists).is_ok());
    assert_eq!(told.borrow().len(), 5);
    assert!(matches!(walk("open ", SourceKind::Other), Err(DescentFault::Root(_))));
    assert!(matches!(walk("make a", SourceKind::Other), Err(DescentFault::Create(_))));
    assert_eq!(told.borrow().len(), 2);
    assert!(matches!(walk("enter b", SourceKind::Other), Err(DescentFault::Descend(_))));
}

#[test]
fn universes_are_raised_step_by_step() {
    let steps: RefCell<Vec<String>> = RefCell::new(Vec::new());
    let raise = |tools: bool, uuid: &str, last: &str, shown: bool| {
        steps.borrow_mut().clear();
        TestbedBuilder::default().failure_artifacts(&bytes("/sink")).raise(
            77,
            &Some(bytes("/usr/bin")),
            &|_: &Vec<u8>| tools,
            || Ok(()),
            || 5,
            || Ok(uuid.to_owned()),
            |prefix: &str| {
                assert_eq!(prefix, "egui-tester-77-5-0123456789ab-");
                Ok(bytes("/tmp/u"))
            },
            &mut Doing(|step: &Furnish| {
                let (act, path) = match step {
                    Furnish::Harden(path) => ("harden", path),
                    Furnish::Create(path) => ("create", path),
                };
                let told = format!("{act} {}", String::from_utf8_lossy(path));
                let stuck = told == last;
                steps.borrow_mut().push(told);
                if stuck { Err(source("full")) } else { Ok(()) }
            }),
            |backend: Backend, root: &Vec<u8>, id: &str| {
                assert_eq!(backend, Backend::X11(X11Config::default()));
                assert_eq!((root, id), (&bytes("/tmp/u"), "77-5-0123456789ab"));
                if shown { Ok(display()) } else { Err(Error::MissingTool("Xvfb")) }
            },
        )
    };
    let uuid = "01234567-89ab-cdef-0123-456789abcdef\n";
    let bed = raise(true, uuid, "", true).expect("raised");
    assert_eq!((bed.id(), bed.root()), ("77-5-0123456789ab", &bytes("/tmp/u")));
    assert_eq!(steps.borrow().len(), 13);
    assert_eq!(steps.borrow()[0], "harden /tmp/u");
    assert_eq!(steps.borrow()[12], "harden /tmp/u/xdg/runtime");
    assert!(bed.failure_exports().is_some());
    assert!(matches!(raise(false, uuid, "", true), Err(Error::MissingTool("bwrap"))));
    assert!(matches!(raise(true, "short", "", true), Err(Error::Containment { .. })));
    assert!(steps.borrow().is_empty());
    assert_eq!(
        raise(true, uuid, "create /tmp/u/tmp", true).expect_err("full").text(),
        "create private test directory `/tmp/u/tmp`: full"
    );
    assert_eq!(steps.borrow().len(), 3);
    assert!(matches!(raise(true, uuid, "", false), Err(Error::MissingTool("Xvfb"))));
}

#[test]
fn outputs_are_captured_in_a_fresh_directory() {
    let runtime = WestonRuntime::resolve(&None, &Some(bytes("/usr/bin")), &|_: &Vec<u8>| true)
        .expect("installed");
    let cleared = Cell::new(false);
    let shoot = |created: bool, complaint: &str, entries: Vec<Vec<u8>>| {
        runtime.capture(
            &bytes("/r"),
            "sock",
            |directory: &Vec<u8>| {
                assert_eq!(directory, &bytes("/r/captures/wayland"));
                cleared.set(true);
            },
            |_: &Vec<u8>| if created { Ok(()) } else { Err(source("full")) },
            |program: &Vec<u8>, directory: &Vec<u8>, environment: &Environment| {
                assert_eq!(program, runtime.screenshooter());
                assert_eq!(directory, &bytes("/r/captures/wayland"));
                assert!(environment.has("WAYLAND_DISPLAY"));
                Ok(output(true, "", complaint))
            },
            |_: &Vec<u8>| Ok(entries),
            |path: &Vec<u8>| {
                assert_eq!(path, &bytes("/c/one.png"));
                Err(source("gone"))
            },
        )
    };
    let one = || vec![bytes("/c/one.png"), bytes("/c/note.txt")];
    assert_eq!(
        shoot(true, "", one()).expect_err("gone").text(),
        "open captured PNG `/c/one.png`: gone"
    );
    assert!(cleared.get());
    assert!(matches!(
        shoot(false, "", one()),
        Err(Error::Io { operation: "create Wayland capture directory", .. })
    ));
    assert!(matches!(shoot(true, "complaint", one()), Err(Error::Command { .. })));
    assert!(matches!(shoot(true, "", vec![]), Err(Error::X11 { .. })));
}

#[test]
fn each_display_answers_for_its_own_protocol() {
    let x11 = testbed();
    assert_eq!(x11.x11().expect("X11"), (217, vec![9; 16]));
    assert!(matches!(x11.capture_wayland(), Err(Error::Unsupported { .. })));
    let wayland = TestbedBuilder::default()
        .backend(Backend::Wayland(WaylandConfig::default()))
        .assemble("x".to_owned(), bytes("/r"), DisplayServer::Wayland { socket_name: "s".to_owned() });
    assert_eq!(wayland.capture_wayland().expect("Wayland"), "s");
    assert!(matches!(wayland.x11(), Err(Error::Unsupported { .. })));
    assert_eq!(Testbed::builder().chosen_backend(), Backend::X11(X11Config::default()));
    assert_eq!(Backend::default(), Backend::X11(X11Config { width: 1440, height: 920, depth: 24 }));
}

#[test]
fn ordinals_count_launches() {
    let mut bed = testbed();
    assert_eq!((bed.launch_ordinal(), bed.launch_ordinal()), (1, 2));
}
