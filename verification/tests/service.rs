use std::cell::{Cell, RefCell};

use egui_tester::duration::Duration;
use egui_tester::error::{Error, Source, SourceKind};
use egui_tester::poll::Round;
use egui_tester::service::application::{remove_stale, Application, Launch};
use egui_tester::service::command::{reserves, validate_command, AppCommand, Graphics, Network};
use egui_tester::service::devices::{device_parents, host_graphics_devices, lavapipe_candidates, lavapipe_root, nvidia_device, DeviceEntry};
use egui_tester::service::launch::{Deed, Spawned};
use egui_tester::service::sandbox::{append_parent_dirs, bwrap_argv, GraphicsRuntime, ReadOnlyMount};
use egui_tester::service::seal::sealed_environment;
use egui_tester::service::seccomp::{forge_sxid_guillotine, KernelAbi, LegacyCalls};
use egui_tester::service::unit::{ensure_running, liveness_is_fresh, read_lossy, status, status_argv, stop_argv, tail, terminate_verdict, until_round, CommandOutput, Liveness, UnitStatus, UserBus};
use egui_tester::stage::{Act, Stage};
use egui_tester::testbed::{DisplayServer, Testbed, TestbedBuilder};

/// A stage whose acts are done by a function.
struct Doing<F>(F);

impl<A: Act, E, F: FnMut(&A) -> Result<(), E>> Stage<A, E> for Doing<F> {
    fn goes(_: Self, _: A::V, _: Result<(), E>, _: Self) -> bool {
        true
    }

    fn perform(&mut self, act: &A) -> Result<(), E> {
        (self.0)(act)
    }
}

fn bytes(text: &str) -> Vec<u8> {
    text.as_bytes().to_vec()
}

fn words(line: &[Vec<u8>]) -> Vec<String> {
    line.iter()
        .map(|word| String::from_utf8(word.clone()).expect("text"))
        .collect()
}

fn source(kind: SourceKind, text: &str) -> Source {
    Source { kind, text: text.to_owned() }
}

fn display() -> DisplayServer {
    DisplayServer::X11 {
        display: 217,
        socket: bytes("/tmp/.X11-unix/X217"),
        cookie: vec![1; 16],
    }
}

fn testbed() -> Testbed {
    TestbedBuilder::default().assemble("77-1-abc".to_owned(), bytes("/tmp/bed"), display())
}

fn output(success: bool, stdout: &str, stderr: &str) -> CommandOutput {
    CommandOutput {
        success,
        status: if success { "exit status: 0" } else { "exit status: 1" }.to_owned(),
        stdout: bytes(stdout),
        stderr: bytes(stderr),
    }
}

// ---------------------------------------------------------------------------
// Devices
// ---------------------------------------------------------------------------

#[test]
fn graphics_allowlist_admits_arbitrary_nvidia_slots_only() {
    for admitted in [
        "nvidia0",
        "nvidia27",
        "nvidiactl",
        "nvidia-modeset",
        "nvidia-uvm",
        "nvidia-uvm-tools",
    ] {
        assert!(nvidia_device(admitted.as_bytes()), "{admitted}");
    }
    for rejected in ["nvidia", "nvidia2x", "nvidia-smi", "nvme0"] {
        assert!(!nvidia_device(rejected.as_bytes()), "{rejected}");
    }
}

fn entry(path: &str, character: bool) -> DeviceEntry {
    DeviceEntry {
        path: bytes(path),
        name: bytes(path.rsplit('/').next().expect("name")),
        character: Ok(character),
    }
}

#[test]
fn host_devices_are_granted_sorted_and_once() {
    let list = |directory: &Vec<u8>| match words(&[directory.clone()])[0].as_str() {
        "/dev/dri" => Ok(vec![
            Ok(entry("/dev/dri/renderD128", true)),
            Ok(entry("/dev/dri/card0", true)),
            Ok(entry("/dev/dri/by-path", false)),
        ]),
        "/dev" => Ok(vec![
            Ok(entry("/dev/nvidia0", true)),
            Ok(entry("/dev/sda", true)),
            Ok(entry("/dev/kfd", true)),
        ]),
        _ => Err(source(SourceKind::NotFound, "gone")),
    };
    let devices = host_graphics_devices(&list).expect("devices");
    assert_eq!(
        words(&devices),
        ["/dev/dri/card0", "/dev/dri/renderD128", "/dev/kfd", "/dev/nvidia0"]
    );
    assert_eq!(words(&device_parents(&devices)), ["/dev/dri"]);
    let bare = |_: &Vec<u8>| Ok(vec![Ok(entry("/dev/sda", false))]);
    assert!(matches!(host_graphics_devices(&bare), Err(Error::Unsupported { .. })));
    let hidden = |_: &Vec<u8>| Err(source(SourceKind::Other, "hidden"));
    assert_eq!(
        host_graphics_devices(&hidden).expect_err("hidden").text(),
        "enumerate graphics devices `/dev`: hidden"
    );
    let torn = |_: &Vec<u8>| Ok(vec![Err(source(SourceKind::Other, "torn"))]);
    assert_eq!(
        host_graphics_devices(&torn).expect_err("torn").text(),
        "enumerate graphics devices `/dev/dri`: torn"
    );
    let runtime = GraphicsRuntime::resolve(Graphics::Host, &None, &None, &|_: &Vec<u8>| false, &list)
        .expect("granted");
    assert!(matches!(runtime, GraphicsRuntime::Host { devices, .. } if devices.len() == 4));
}

#[test]
fn the_first_complete_renderer_wins() {
    let (configured, home) = (Some(bytes("/opt/lvp")), Some(bytes("/home/me")));
    let candidates = lavapipe_candidates(&configured, &home);
    assert_eq!(candidates[0].library, bytes("/opt/lvp/usr/lib/libvulkan_lvp.so"));
    assert_eq!(
        candidates[1].root,
        bytes("/home/me/.local/share/x11-gui-testing/lavapipe")
    );
    let incomplete = |path: &Vec<u8>| path != &candidates[0].manifest;
    let root = lavapipe_root(&configured, &home, &incomplete).expect("second");
    assert_eq!(root, candidates[1].root);
    let complete = |_: &Vec<u8>| true;
    assert_eq!(lavapipe_root(&configured, &home, &complete).expect("first"), bytes("/opt/lvp"));
    assert!(lavapipe_root(&configured, &home, &|_: &Vec<u8>| false).is_err());
    assert!(lavapipe_root(&None, &None, &complete).is_err());
    let none = |_: &Vec<u8>| Err(source(SourceKind::NotFound, "gone"));
    let runtime = GraphicsRuntime::resolve(Graphics::Software, &configured, &home, &complete, &none)
        .expect("granted");
    assert!(matches!(runtime, GraphicsRuntime::Software { lavapipe } if lavapipe == bytes("/opt/lvp")));
}

// ---------------------------------------------------------------------------
// Commands
// ---------------------------------------------------------------------------

#[test]
fn commands_may_not_seize_the_seal() {
    let binary = bytes("/usr/bin/true");
    assert!(validate_command(&AppCommand::new(&binary)).is_ok());
    for reserved in ["PATH", "HOME", "XAUTHORITY", "DISPLAY", "EGUI_TESTER_WITNESS", "LD_PRELOAD"] {
        assert!(reserves(reserved.as_bytes()), "{reserved}");
        let command = AppCommand::new(&binary).env(&bytes(reserved), &bytes("x"));
        assert!(
            matches!(validate_command(&command), Err(Error::Containment { .. })),
            "{reserved}"
        );
    }
    assert!(!reserves(b"ABV_ANCHOR_PROBE"));
    let free = AppCommand::new(&binary).env(&bytes("ABV"), &bytes("1"));
    assert!(validate_command(&free).is_ok());
    for path in ["../escape", "/absolute"] {
        let command = AppCommand::new(&binary).witness(&bytes(path));
        assert!(validate_command(&command).is_err(), "{path}");
    }
    let idle = AppCommand::new(&binary).runtime(Duration::zero());
    assert!(validate_command(&idle).is_err());
}

#[test]
fn commands_keep_what_they_were_given() {
    let command = AppCommand::new(&bytes("/bin/app"))
        .arg(&bytes("--one"))
        .args(&vec![bytes("--two"), bytes("--three")])
        .private_env(&bytes("PROBE"), &bytes("probes/a.json"))
        .borrow_read_only(&bytes("/data"))
        .network(Network::Deny)
        .graphics(Graphics::Software)
        .runtime(Duration::from_secs(5));
    assert_eq!(words(command.arguments()), ["--one", "--two", "--three"]);
    assert_eq!(
        command.environment().entries(),
        &vec![(bytes("PROBE"), bytes("/test/probes/a.json"))]
    );
    assert_eq!(words(command.borrows()), ["/data"]);
    assert_eq!(command.lifetime(), Duration::from_secs(5));
    assert_eq!(command.binary(), &bytes("/bin/app"));
}

// ---------------------------------------------------------------------------
// Sandboxes
// ---------------------------------------------------------------------------

#[test]
fn sandboxes_reveal_only_what_was_granted() {
    let command = AppCommand::new(&bytes("/bin/app"))
        .arg(&bytes("--flag"))
        .network(Network::Deny)
        .graphics(Graphics::Software);
    let environment = sealed_environment(&display(), &command, &None);
    let line = bwrap_argv(
        &bytes("/tmp/bed"),
        &display(),
        &command,
        &bytes("/bin/app"),
        &vec![ReadOnlyMount { source: bytes("/data/index"), guest: bytes("/data/index") }],
        &GraphicsRuntime::software(bytes("/opt/lvp")),
        &environment,
    )
    .expect("sandbox");
    let line = words(&line);
    let joined = line.join(" ");
    assert!(joined.contains("--unshare-net"), "{joined}");
    assert!(joined.contains("--ro-bind /data/index /data/index"), "{joined}");
    assert!(joined.contains("--ro-bind /tmp/.X11-unix/X217 /tmp/.X11-unix/X217"), "{joined}");
    assert!(joined.contains("--setenv DISPLAY :217"), "{joined}");
    assert!(joined.contains("--bind /tmp/bed /test"), "{joined}");
    assert!(joined.ends_with("--flag"), "{joined}");
}

#[test]
fn borrows_may_not_stand_at_the_root() {
    assert_eq!(
        words(&append_parent_dirs(&bytes("/a/b/c")).expect("rungs")),
        ["/a", "/a/b"]
    );
    assert!(append_parent_dirs(&bytes("/a/../b")).is_err());
}

#[test]
fn the_seal_holds_the_whole_environment() {
    let command = AppCommand::new(&bytes("/bin/app"))
        .graphics(Graphics::Software)
        .env(&bytes("MINE"), &bytes("1"));
    let environment = sealed_environment(
        &DisplayServer::Wayland { socket_name: "egui-tester-x".to_owned() },
        &command,
        &None,
    );
    let find = |name: &str| {
        environment
            .entries()
            .iter()
            .find(|(key, _)| key == name.as_bytes())
            .map(|(_, value)| String::from_utf8(value.clone()).expect("text"))
    };
    assert_eq!(find("PATH").as_deref(), Some("/usr/bin"));
    assert_eq!(find("HOME").as_deref(), Some("/test/home"));
    assert_eq!(find("WAYLAND_DISPLAY").as_deref(), Some("egui-tester-x"));
    assert_eq!(find("WINIT_UNIX_BACKEND").as_deref(), Some("wayland"));
    assert_eq!(find("MINE").as_deref(), Some("1"));
    assert_eq!(find("DISPLAY"), None);
    let mut sorted = environment.entries().clone();
    sorted.sort();
    assert_eq!(&sorted, environment.entries());
}

// ---------------------------------------------------------------------------
// Launches
// ---------------------------------------------------------------------------

#[test]
fn launches_name_what_they_own() {
    let bed = testbed();
    let command = AppCommand::new(&bytes("app")).witness(&bytes("probes/w.json"));
    let launch = Launch::raise(&bed, &command, 3, Ok(bytes("/bin/app")), true, vec![])
        .expect("launch");
    assert_eq!(launch.binary, bytes("/bin/app"));
    let application = &launch.application;
    assert_eq!(application.unit(), "egui-tester-77-1-abc-3");
    assert_eq!(application.stdout_path(), &bytes("/tmp/bed/logs/app-3.stdout"));
    let probe = application.witness().expect("armed");
    assert_eq!(probe.path(), &bytes("/tmp/bed/probes/w.json"));
    assert_eq!(application.witness_path(), Some(&bytes("/tmp/bed/probes/w.json")));
    let seal = application.seal().as_ref().expect("armed");
    assert_eq!(seal.host, bytes("/tmp/bed/probes/w.json"));
    assert_eq!(seal.guest, bytes("/test/probes/w.json"));
    assert!(application.frames().is_ok());
    let line = words(&launch.service_argv(&bed, &command, &vec![bytes("bwrap")]));
    let named = line.iter().position(|word| word == "--unit").expect("unit");
    assert_eq!(line[named + 1], "egui-tester-77-1-abc-3");
    assert_eq!(line.last().map(String::as_str), Some("bwrap"));
    let failed = launch.started("systemd-run", &output(false, " a ", " b "));
    match failed {
        Err(Error::Containment { layer, detail }) => {
            assert_eq!(layer, "systemd");
            assert_eq!(detail, "`systemd-run` returned exit status: 1; stdout: a; stderr: b");
        }
        other => panic!("unexpected {other:?}"),
    }
}

#[test]
fn unlaunchable_commands_are_refused() {
    let bed = testbed();
    let command = AppCommand::new(&bytes("app"));
    assert!(matches!(
        Launch::raise(&bed, &command, 1, Err(source(SourceKind::NotFound, "gone")), true, vec![]),
        Err(Error::Io { .. })
    ));
    assert!(matches!(
        Launch::raise(&bed, &command, 1, Ok(bytes("/bin")), false, vec![]),
        Err(Error::Containment { .. })
    ));
    let bare = Launch::raise(&bed, &command, 1, Ok(bytes("/bin/app")), true, vec![]).expect("bare");
    assert!(matches!(bare.application.witness(), Err(Error::Unsupported { .. })));
    assert!(matches!(bare.application.frames(), Err(Error::Unsupported { .. })));
    assert!(bare.application.witness_path().is_none());
}

#[test]
fn launches_ask_the_host_in_order() {
    let bed = testbed();
    let asked: RefCell<Vec<String>> = RefCell::new(Vec::new());
    let note = |act: &str, path: &Vec<u8>| {
        asked.borrow_mut().push(format!("{act} {}", String::from_utf8_lossy(path)));
    };
    let launch = |stale: SourceKind, files: bool, success: bool| {
        asked.borrow_mut().clear();
        let command = AppCommand::new(&bytes("app"))
            .borrow_read_only(&bytes("/data/in"))
            .witness(&bytes("probes/w.json"));
        Application::raise(
            &bed,
            &command,
            4,
            &|path: &Vec<u8>| Ok(path.iter().copied().chain(*b".real").collect()),
            &|_: &Vec<u8>| true,
            &mut Doing(|deed: &Deed| match deed {
                Deed::Directory(path) => {
                    note("directory", path);
                    Ok(())
                }
                Deed::File(path) => {
                    note("file", path);
                    if files { Ok(()) } else { Err(source(SourceKind::Other, "full")) }
                }
                Deed::Removal(path) => {
                    note("remove", path);
                    Err(source(stale, "stale"))
                }
            }),
            |graphics: Graphics| {
                assert_eq!(graphics, Graphics::Software);
                Ok(GraphicsRuntime::software(bytes("/lava")))
            },
            |arguments: &Vec<Vec<u8>>| {
                asked.borrow_mut().extend(words(arguments));
                Spawned {
                    rendering: "systemd-run".to_owned(),
                    outcome: Ok(output(success, "", "no")),
                }
            },
        )
    };
    let app = launch(SourceKind::NotFound, true, true).expect("raised");
    assert_eq!(app.unit(), "egui-tester-77-1-abc-4");
    let told = asked.borrow().clone();
    assert_eq!(
        told[..7],
        [
            "directory /tmp/bed/logs",
            "file /tmp/bed/logs/app-4.stdout",
            "directory /tmp/bed/logs",
            "file /tmp/bed/logs/app-4.stderr",
            "directory /tmp/bed/probes",
            "remove /tmp/bed/probes/w.json",
            "remove /tmp/bed/probes/w.frames",
        ]
    );
    assert_eq!(told[7], "--user");
    let lines = told.join(" ");
    assert!(lines.contains("--ro-bind app.real /app/application"), "{lines}");
    assert!(lines.contains("--ro-bind /data/in.real /data/in"), "{lines}");
    assert!(lines.contains("--setenv EGUI_TESTER_WITNESS /test/probes/w.json"), "{lines}");
    assert!(lines.contains("/lava /opt/egui-tester/lavapipe"), "{lines}");
    assert_eq!(
        launch(SourceKind::Other, true, true).expect_err("stuck").text(),
        "remove stale witness `/tmp/bed/probes/w.json`: stale"
    );
    assert!(asked.borrow().iter().all(|word| word != "--user"));
    assert!(matches!(
        launch(SourceKind::NotFound, false, true),
        Err(Error::Io { operation: "create service log", .. })
    ));
    assert_eq!(asked.borrow().len(), 2);
    assert!(matches!(
        launch(SourceKind::NotFound, true, false),
        Err(Error::Containment { layer: "systemd", .. })
    ));
}

#[test]
fn service_lines_are_hardened_and_reveal_what_they_declare() {
    let bed = testbed();
    let command = AppCommand::new(&bytes("app"))
        .borrow_read_only(&bytes("/data/in"))
        .runtime(Duration::from_millis(1_500));
    let launch = Launch::raise(
        &bed,
        &command,
        1,
        Ok(bytes("/bin/app")),
        true,
        vec![Ok(bytes("/real/in"))],
    )
    .expect("launch");
    let line: RefCell<Vec<String>> = RefCell::new(Vec::new());
    let _app = launch
        .start(
            &bed,
            &command,
            |_: Graphics| Ok(GraphicsRuntime::software(bytes("/lava"))),
            |arguments: &Vec<Vec<u8>>| {
                *line.borrow_mut() = words(arguments);
                Spawned { rendering: String::new(), outcome: Ok(output(true, "", "")) }
            },
        )
        .expect("started");
    let line = line.into_inner();
    let sandbox = line.iter().position(|word| word == "--").expect("sandbox");
    for option in [
        "--property=NoNewPrivileges=yes",
        "--property=KillMode=control-group",
        "--property=RuntimeMaxSec=2s",
        "--property=PrivateNetwork=yes",
        "--property=IPAddressDeny=any",
    ] {
        assert!(line[..sandbox].iter().any(|word| word == option), "{option}");
    }
    assert_eq!(line[sandbox + 1], "/usr/bin/bwrap");
    let revealed: Vec<&str> = line
        .windows(2)
        .filter(|pair| pair[0] == "--ro-bind" || pair[0] == "--bind" || pair[0] == "--dev-bind")
        .map(|pair| pair[1].as_str())
        .collect();
    assert_eq!(
        revealed,
        ["/usr", "/etc", "/tmp/bed", "/bin/app", "/lava", "/tmp/.X11-unix/X217", "/real/in"]
    );
    assert!(line.iter().all(|word| !word.starts_with("DBUS_")));
}

#[test]
fn buses_are_proved_by_their_manager() {
    let seek = |directory: bool, socket: bool, success: bool| {
        UserBus::contact(
            7,
            |path: &Vec<u8>| {
                assert_eq!(path, &bytes("/run/user/7"));
                Ok(directory)
            },
            |path: &Vec<u8>| {
                assert_eq!(path, &bytes("/run/user/7/bus"));
                Ok(socket)
            },
            |bus: &UserBus| {
                assert_eq!(bus.address, bytes("unix:path=/run/user/7/bus"));
                Ok(output(success, "", " silent \n"))
            },
        )
    };
    let bus = seek(true, true, true).expect("bus");
    assert_eq!(bus.runtime, bytes("/run/user/7"));
    assert!(seek(false, true, true).is_err());
    assert!(seek(true, false, true).is_err());
    assert_eq!(
        seek(true, true, false).expect_err("mute").text(),
        "containment layer `systemd user manager` refused the test: canonical user bus exists but `systemctl --user` failed: silent"
    );
}

#[test]
fn stale_files_may_already_be_gone() {
    let path = bytes("/tmp/w");
    assert!(remove_stale(&path, "remove", Ok(())).is_ok());
    assert!(remove_stale(&path, "remove", Err(source(SourceKind::NotFound, "gone"))).is_ok());
    assert!(remove_stale(&path, "remove", Err(source(SourceKind::Other, "denied"))).is_err());
}

// ---------------------------------------------------------------------------
// Units
// ---------------------------------------------------------------------------

const ACTIVE: &str = "ActiveState=active\nSubState=running\nResult=success\nExecMainStatus=0\n";

#[test]
fn unit_reports_are_read_field_by_field() {
    let unit = UnitStatus::parse(ACTIVE).expect("status");
    assert!(unit.running());
    assert_eq!(unit.code, 0);
    let failed = status("unit", &output(false, "", "no bus")).expect_err("failed query");
    assert!(failed.text().contains("no bus"), "{}", failed.text());
    for missing in ["ActiveState", "SubState", "Result", "ExecMainStatus"] {
        let report: String = ACTIVE
            .lines()
            .filter(|line| !line.starts_with(missing))
            .map(|line| format!("{line}\n"))
            .collect();
        assert!(UnitStatus::parse(&report).is_err(), "{missing}");
    }
    assert!(UnitStatus::parse(&ACTIVE.replace("=0", "=zero")).is_err());
    assert!(words(&status_argv("u")).contains(&"u".to_owned()));
    assert!(words(&stop_argv("u")).contains(&"stop".to_owned()));
}

#[test]
fn retired_units_are_told_with_their_log() {
    let dead = UnitStatus::parse(
        "ActiveState=inactive\nSubState=dead\nResult=exit-code\nExecMainStatus=3\n",
    )
    .expect("status");
    let error = ensure_running("u", "focus", &dead, "  last words \n").expect_err("retired");
    assert_eq!(
        error.text(),
        "application unit `u` exited before focus: active=inactive, sub=dead, result=exit-code, code=3; stderr: last words"
    );
    assert!(matches!(until_round(true, true, "x", Duration::zero()), Ok(Round::Done(()))));
    assert!(matches!(until_round(false, false, "x", Duration::zero()), Ok(Round::Again(15))));
    assert!(until_round(false, true, "x", Duration::zero()).is_err());
}

const DEAD: &str = "ActiveState=inactive\nSubState=dead\nResult=exit-code\nExecMainStatus=3\n";

fn application() -> Application {
    let command = AppCommand::new(&bytes("app"));
    Launch::raise(&testbed(), &command, 1, Ok(bytes("/bin/app")), true, vec![])
        .expect("launch")
        .started("systemd-run", &output(true, "", ""))
        .expect("started")
}

fn log(_: &Vec<u8>) -> Result<Vec<u8>, Source> {
    Ok(bytes("words\n"))
}

#[test]
fn exits_are_awaited_in_rounds() {
    let app = application();
    let alive = |_: &Vec<Vec<u8>>| Ok(output(true, ACTIVE, ""));
    let dead = |_: &Vec<Vec<u8>>| Ok(output(true, DEAD, ""));
    let second = Duration::from_secs(1);
    assert!(matches!(app.wait(second, &alive, log, log, || false), Ok(Round::Again(25))));
    assert!(matches!(app.wait(second, &alive, log, log, || true), Err(Error::Timeout { .. })));
    match app.wait(second, &dead, log, log, || true) {
        Ok(Round::Done(exit)) => {
            assert_eq!((exit.code, exit.result.as_str()), (3, "exit-code"));
            assert_eq!((exit.stdout.as_str(), exit.stderr.as_str()), ("words\n", "words\n"));
            assert!(!exit.success());
        }
        other => panic!("unexpected {other:?}"),
    }
    let unreachable = |_: &Vec<Vec<u8>>| Err(source(SourceKind::NotFound, "gone"));
    match app.wait(second, &unreachable, log, log, || false) {
        Err(Error::Io { operation, path, .. }) => {
            assert_eq!(operation, "query application service");
            assert_eq!(path, bytes("systemctl"));
        }
        other => panic!("unexpected {other:?}"),
    }
}

#[test]
fn liveness_is_asked_for_only_when_stale() {
    let mut app = application();
    let queries = Cell::new(0);
    let run = |_: &Vec<Vec<u8>>| {
        queries.set(queries.get() + 1);
        Ok(output(true, ACTIVE, ""))
    };
    let now = Cell::new(1_000);
    let clock = || now.get();
    app.ensure_running("focus", clock, clock, &run, log).expect("alive");
    now.set(50_000_000);
    app.ensure_running("focus", clock, clock, &run, log).expect("alive");
    assert_eq!(queries.get(), 1);
    now.set(200_000_000);
    app.ensure_running("focus", clock, clock, &run, log).expect("alive");
    assert_eq!(queries.get(), 2);
    now.set(400_000_000);
    let dead = |_: &Vec<Vec<u8>>| Ok(output(true, DEAD, ""));
    match app.ensure_running("focus", clock, clock, &dead, log) {
        Err(Error::ApplicationExited { waiting, detail, .. }) => {
            assert_eq!(waiting, "focus");
            assert!(detail.ends_with("stderr: words"), "{detail}");
        }
        other => panic!("unexpected {other:?}"),
    }
}

#[test]
fn external_predicates_are_polled_while_the_application_lives() {
    let mut app = application();
    let alive = |_: &Vec<Vec<u8>>| Ok(output(true, ACTIVE, ""));
    let clock = || 1_000;
    let second = Duration::from_secs(1);
    let done = app.wait_until(second, "saved", clock, clock, &alive, log, || Ok(true), || true);
    assert!(matches!(done, Ok(Round::Done(()))));
    let again = app.wait_until(second, "saved", clock, clock, &alive, log, || Ok(false), || false);
    assert!(matches!(again, Ok(Round::Again(15))));
    let late = app.wait_until(second, "saved", clock, clock, &alive, log, || Ok(false), || true);
    assert!(matches!(late, Err(Error::Timeout { .. })));
    let failed = app.wait_until(
        second,
        "saved",
        clock,
        clock,
        &alive,
        log,
        || Err(Error::MissingTool("oracle")),
        || false,
    );
    assert!(matches!(failed, Err(Error::MissingTool("oracle"))));
}

#[test]
fn failed_stops_are_tried_again() {
    let mut app = application();
    let lines = RefCell::new(vec![]);
    let clock = || 9;
    let busy = |line: &Vec<Vec<u8>>| {
        lines.borrow_mut().push(words(line)[1].clone());
        Ok(output(false, "", "busy"))
    };
    let refused = app.terminate(clock, &busy, &busy).expect_err("busy");
    assert_eq!(
        refused.text(),
        "containment layer `systemd` refused the test: could not stop `egui-tester-77-1-abc-1`: busy"
    );
    assert_eq!(lines.borrow().as_slice(), ["stop"]);
    let teardown: Vec<String> = app.abandon().iter().map(|line| words(line)[1].clone()).collect();
    assert_eq!(teardown, ["stop", "reset-failed"]);
    let stops = |line: &Vec<Vec<u8>>| {
        lines.borrow_mut().push(words(line)[1].clone());
        Ok(output(true, "", ""))
    };
    app.terminate(clock, &stops, &stops).expect("stopped");
    app.terminate(clock, &stops, &stops).expect("already retired");
    assert_eq!(lines.borrow().as_slice(), ["stop", "stop", "reset-failed"]);
    assert!(app.abandon().is_empty());
}

#[test]
fn liveness_lasts_a_tenth_of_a_second() {
    let seen = |running| Some(Liveness { checked_ns: 1_000, running });
    assert!(liveness_is_fresh(seen(true), 100_000_999));
    assert!(!liveness_is_fresh(seen(true), 100_001_000));
    assert!(!liveness_is_fresh(seen(false), 1_001));
    assert!(!liveness_is_fresh(None, 0));
}

#[test]
fn log_tails_respect_character_boundaries() {
    assert_eq!(tail("abcdef", 3), "def");
    assert_eq!(tail("a\u{e9}\u{e9}", 3), "\u{e9}\u{e9}");
    assert_eq!(tail("a\u{e9}\u{e9}", 2), "\u{e9}");
    assert_eq!(tail(" short ", 40), "short");
    assert_eq!(read_lossy(&bytes("/l"), Ok(vec![0x61, 0xff])), "a\u{fffd}");
    assert_eq!(
        read_lossy(&bytes("/l"), Err(source(SourceKind::Other, "denied"))),
        "<could not read /l: denied>"
    );
    assert!(terminate_verdict("u", &output(true, "", "")).is_ok());
    assert!(terminate_verdict("u", &output(false, "", "busy")).is_err());
}

#[test]
fn user_buses_must_be_sockets() {
    let (runtime, bus) = UserBus::paths(1000);
    assert_eq!(runtime, bytes("/run/user/1000"));
    assert_eq!(bus, bytes("/run/user/1000/bus"));
    assert!(UserBus::discover(1000, Ok(true), Ok(true)).is_ok());
    assert!(UserBus::discover(1000, Ok(false), Ok(true)).is_err());
    assert!(UserBus::discover(1000, Ok(true), Ok(false)).is_err());
    assert!(UserBus::discover(1000, Err(source(SourceKind::NotFound, "gone")), Ok(true)).is_err());
    assert!(UserBus::verify(&output(false, "", "no manager")).is_err());
}

// ---------------------------------------------------------------------------
// The payload filter
// ---------------------------------------------------------------------------

fn abi() -> KernelAbi {
    KernelAbi {
        fchmod: libc::SYS_fchmod as u32,
        fchmodat: libc::SYS_fchmodat as u32,
        fchmodat2: 452,
        mkdirat: libc::SYS_mkdirat as u32,
        mknodat: libc::SYS_mknodat as u32,
        openat: libc::SYS_openat as u32,
        openat2: libc::SYS_openat2 as u32,
        legacy: Some(LegacyCalls {
            chmod: 90,
            mkdir: 83,
            mknod: 133,
            creat: 85,
            open: 2,
        }),
        o_creat: 0o100,
        eperm: 1,
        enosys: 38,
    }
}

fn run_filter(program: &[u8], call: i64, arguments: [u64; 6]) -> u32 {
    let mut data = Vec::new();
    data.extend((call as i32).to_le_bytes());
    data.extend(0xC000_003E_u32.to_le_bytes());
    data.extend(0_u64.to_le_bytes());
    for argument in arguments {
        data.extend(argument.to_le_bytes());
    }
    let word = |at: usize| u32::from_le_bytes(data[at..at + 4].try_into().expect("word"));
    let steps: Vec<&[u8]> = program.chunks_exact(8).collect();
    let mut accumulator = 0_u32;
    let mut at = 0;
    loop {
        let step = steps[at];
        let code = u16::from_le_bytes([step[0], step[1]]);
        let k = u32::from_le_bytes(step[4..8].try_into().expect("operand"));
        let jump = |taken: bool| at + 1 + usize::from(if taken { step[2] } else { step[3] });
        at = match code {
            0x20 => {
                accumulator = word(k as usize);
                at + 1
            }
            0x54 => {
                accumulator &= k;
                at + 1
            }
            0x05 => at + 1 + k as usize,
            0x15 => jump(accumulator == k),
            0x25 => jump(accumulator > k),
            0x35 => jump(accumulator >= k),
            0x06 => return k,
            other => panic!("unexpected opcode {other:#x}"),
        };
    }
}

const ALLOW: u32 = 0x7fff_0000;

#[test]
fn the_payload_filter_severs_set_id_modes() {
    let program = forge_sxid_guillotine(&abi(), "x86_64", false).expect("filter");
    let denied = 0x0005_0000 | 1;
    assert_eq!(run_filter(&program, 90, [0, 0o4755, 0, 0, 0, 0]), denied);
    assert_eq!(run_filter(&program, 90, [0, 0o2755, 0, 0, 0, 0]), denied);
    assert_eq!(run_filter(&program, 90, [0, 0o755, 0, 0, 0, 0]), ALLOW);
    assert_eq!(run_filter(&program, libc::SYS_fchmod, [0, 0o4000, 0, 0, 0, 0]), denied);
    assert_eq!(run_filter(&program, libc::SYS_fchmodat, [0, 0, 0o4000, 0, 0, 0]), denied);
    assert_eq!(run_filter(&program, libc::SYS_mkdirat, [0, 0, 0o2000, 0, 0, 0]), denied);
    assert_eq!(run_filter(&program, libc::SYS_openat, [0, 0, 0o100, 0o4644, 0, 0]), denied);
    assert_eq!(run_filter(&program, libc::SYS_openat, [0, 0, 0, 0o4644, 0, 0]), ALLOW);
    assert_eq!(run_filter(&program, libc::SYS_openat2, [0; 6]), 0x0005_0000 | 38);
    assert_eq!(run_filter(&program, 0, [0, 0o4755, 0o4755, 0o4755, 0, 0]), ALLOW);
}

#[test]
fn unknown_architectures_have_no_filter() {
    let error = forge_sxid_guillotine(&abi(), "pdp11", false).expect_err("unknown");
    assert!(matches!(error, Error::Containment { layer: "payload seccomp", .. }));
    let little = forge_sxid_guillotine(&abi(), "x86_64", false).expect("filter");
    let big = forge_sxid_guillotine(&abi(), "x86_64", true).expect("filter");
    assert_eq!(little.len(), big.len());
    assert_eq!(little[0], big[1]);
}
