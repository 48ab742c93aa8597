//! One application launch: what is resolved, what is named, and the transient
//! service that runs it.
use crate::duration::Duration;
use crate::error::{io, Error, ErrorView, Result, Source};
use crate::frames::FrameProbe;
use crate::ospath;
use crate::ospath::with_extension;
use crate::poll::Round;
use crate::probe;
use crate::probe::Probe;
use crate::service::command;
use crate::service::command::{validate_command, AppCommand, AppCommandView, Network};
use crate::service::sandbox;
use crate::service::sandbox::ReadOnlyMount;
use crate::service::seal;
use crate::service::seal::{WitnessSeal, WitnessSealView};
use crate::service::unit;
use crate::service::unit::{command_failure, exit_facts, liveness_is_fresh, read_lossy, terminate_verdict, trimmed, until_round, CommandOutput, Exit, Liveness, UnitStatus};
use crate::testbed::{Testbed, TestbedView};
use crate::text;
use crate::text::{copy_bytes, decimal_text, glue2, glue3, glue4, lossy_text, push_all, push_word, push_words, same, text_bytes};
use vstd::prelude::*;
use vstd::utf8::*;

verus! {

/// A resolved launch, before its service is started.
#[derive(Debug)]
pub struct Launch {
    pub binary: Vec<u8>,
    pub borrows: Vec<ReadOnlyMount>,
    pub application: Application,
}

/// One application cgroup.
#[derive(Debug)]
pub struct Application {
    unit: String,
    stdout: Vec<u8>,
    stderr: Vec<u8>,
    witness: Option<WitnessSeal>,
    stopped: bool,
    liveness: Option<Liveness>,
}

/// Content of an [`Application`].
#[verifier::ext_equal]
pub struct ApplicationView {
    pub unit: Seq<char>,
    pub stdout: Seq<u8>,
    pub stderr: Seq<u8>,
    pub witness: Option<WitnessSealView>,
    /// Whether the service is retired.
    pub stopped: bool,
    pub liveness: Option<Liveness>,
}

impl View for Application {
    type V = ApplicationView;

    closed spec fn view(&self) -> ApplicationView {
        ApplicationView {
            unit: self.unit@,
            stdout: self.stdout@,
            stderr: self.stderr@,
            witness: seal::optional_seal(self.witness),
            stopped: self.stopped,
            liveness: self.liveness,
        }
    }
}

/// The witness of a launch at a private path.
pub open spec fn witness_at(testbed: TestbedView, relative: Seq<u8>, ordinal: u64) -> WitnessSealView {
    let frames = ospath::with_extension_of(relative, text::word("frames"));
    WitnessSealView {
        host: ospath::joined(testbed.root, relative),
        guest: ospath::joined(text::word("/test"), relative),
        frame_host: ospath::joined(testbed.root, frames),
        frame_guest: ospath::joined(text::word("/test"), frames),
        launch: testbed.id + "-"@ + text::decimal(ordinal as nat),
    }
}

/// A log of a launch.
pub open spec fn log_at(testbed: TestbedView, ordinal: u64, stream: Seq<char>) -> Seq<u8> {
    ospath::joined(
        testbed.root,
        encode_utf8("logs/app-"@ + text::decimal(ordinal as nat) + stream),
    )
}

/// The names of a launch.
pub open spec fn named(testbed: TestbedView, command: AppCommandView, ordinal: u64) -> ApplicationView {
    ApplicationView {
        unit: "egui-tester-"@ + testbed.id + "-"@ + text::decimal(ordinal as nat),
        stdout: log_at(testbed, ordinal, ".stdout"@),
        stderr: log_at(testbed, ordinal, ".stderr"@),
        witness: match command.witness {
            Some(relative) => Some(witness_at(testbed, relative, ordinal)),
            None => None,
        },
        stopped: false,
        liveness: None,
    }
}

/// The failure of the first borrow, at or after `from`, that did not resolve.
pub open spec fn unresolved(
    borrows: Seq<Seq<u8>>,
    resolved: Seq<std::result::Result<Vec<u8>, Source>>,
    from: int,
) -> Option<ErrorView>
    decreases borrows.len() - from,
{
    if from >= borrows.len() {
        None
    } else {
        match resolved[from] {
            Err(source) => Some(
                ErrorView::Io {
                    operation: "resolve read-only borrow"@,
                    path: borrows[from],
                    source: source@,
                },
            ),
            Ok(_) => unresolved(borrows, resolved, from + 1),
        }
    }
}

/// Why a launch is refused before anything is created, when it is. `binary` is
/// the command's binary resolved, `is_file` tells whether it is a file, and
/// `resolved` holds the command's borrows resolved.
pub open spec fn launch_fault(
    command: AppCommandView,
    listing: Seq<(Seq<u8>, Seq<u8>)>,
    binary: std::result::Result<Vec<u8>, Source>,
    is_file: bool,
    resolved: Seq<std::result::Result<Vec<u8>, Source>>,
) -> Option<ErrorView> {
    if command::refusal(command, listing) is Some {
        command::refusal(command, listing)
    } else {
        match binary {
            Err(source) => Some(
                ErrorView::Io {
                    operation: "resolve application binary"@,
                    path: command.binary,
                    source: source@,
                },
            ),
            Ok(path) => if !is_file {
                Some(
                    ErrorView::Containment {
                        layer: "launcher"@,
                        detail: "application binary `"@ + text::lossy(path@)
                            + "` is not a file"@,
                    },
                )
            } else {
                unresolved(command.borrows, resolved, 0)
            },
        }
    }
}

/// Mounts that reveal each resolved borrow at the path it was asked for.
pub open spec fn resolves(
    mounts: Seq<(Seq<u8>, Seq<u8>)>,
    borrows: Seq<Seq<u8>>,
    resolved: Seq<std::result::Result<Vec<u8>, Source>>,
) -> bool {
    &&& mounts.len() == borrows.len()
    &&& forall|i: int|
        0 <= i < borrows.len() ==> (#[trigger] mounts[i]).1 == borrows[i] && (resolved[i]
            matches Ok(source) && mounts[i].0 == source@)
}

fn resolve_borrows(
    borrows: &Vec<Vec<u8>>,
    resolved: Vec<std::result::Result<Vec<u8>, Source>>,
) -> (mounts: Result<Vec<ReadOnlyMount>>)
    requires
        resolved@.len() == borrows@.len(),
    ensures
        match mounts {
            Ok(mounts) => unresolved(text::views(borrows@), resolved@, 0) is None && resolves(
                sandbox::mounts(mounts@),
                text::views(borrows@),
                resolved@,
            ),
            Err(error) => unresolved(text::views(borrows@), resolved@, 0) == Some(error@),
        },
{
    let ghost all = text::views(borrows@);
    let mut mounts: Vec<ReadOnlyMount> = Vec::new();
    let mut index: usize = 0;
    while index < borrows.len()
        invariant
            index <= borrows.len(),
            resolved@.len() == borrows@.len(),
            all == text::views(borrows@),
            mounts@.len() == index,
            unresolved(all, resolved@, 0) == unresolved(all, resolved@, index as int),
            forall|i: int|
                0 <= i < index ==> (#[trigger] mounts@[i]).guest@ == all[i] && (resolved@[i]
                    matches Ok(source) && mounts@[i].source@ == source@),
        decreases borrows.len() - index,
    {
        assert(all[index as int] == borrows@[index as int]@);
        match &resolved[index] {
            Ok(source) => {
                mounts.push(
                    ReadOnlyMount {
                        source: copy_bytes(source.as_slice()),
                        guest: copy_bytes(borrows[index].as_slice()),
                    },
                );
            },
            Err(source) => {
                let source = Source { kind: source.kind, text: source.text.clone() };
                return Err(io("resolve read-only borrow", &borrows[index], source));
            },
        }
        index += 1;
    }
    assert(resolves(sandbox::mounts(mounts@), all, resolved@));
    Ok(mounts)
}

fn log_path(testbed: &Testbed, ordinal: u64, stream: &str) -> (path: Vec<u8>)
    ensures
        path@ == log_at(testbed@, ordinal, stream@),
{
    let relative = glue3("logs/app-", decimal_text(ordinal as u128).as_str(), stream);
    testbed.host_path(&text_bytes(relative.as_str()))
}

fn witness_seal(testbed: &Testbed, relative: &Vec<u8>, ordinal: u64) -> (seal: WitnessSeal)
    ensures
        seal@ == witness_at(testbed@, relative@, ordinal),
{
    let frames = with_extension(relative.as_slice(), "frames");
    WitnessSeal {
        host: testbed.host_path(relative),
        guest: Testbed::guest_path(relative),
        frame_host: testbed.host_path(&frames),
        frame_guest: Testbed::guest_path(&frames),
        launch: glue3(testbed.id(), "-", decimal_text(ordinal as u128).as_str()),
    }
}

/// The lifetime granted to the service: whole seconds, rounded up.
pub open spec fn runtime_seconds(runtime: nat) -> nat {
    let whole = runtime / 1_000_000_000;
    if runtime % 1_000_000_000 != 0 && whole < u64::MAX {
        whole + 1
    } else {
        whole
    }
}

fn grant_seconds(runtime: Duration) -> (seconds: u64)
    ensures
        seconds == runtime_seconds(runtime@),
{
    let whole: u64 = runtime.as_secs();
    if runtime.subsec_nanos() != 0 && whole < u64::MAX {
        whole + 1
    } else {
        whole
    }
}

/// The hardening of every service.
pub open spec fn hardening() -> Seq<&'static str> {
    seq![
        "--property=KillMode=control-group",
        "--property=SendSIGKILL=yes",
        "--property=TimeoutStopSec=2s",
        "--property=ProtectSystem=strict",
        "--property=ProtectHome=read-only",
        "--property=NoNewPrivileges=yes",
        "--property=RestrictSUIDSGID=yes",
        "--property=LockPersonality=yes",
        "--property=RestrictRealtime=yes",
        "--property=ProtectKernelModules=yes",
        "--property=ProtectControlGroups=yes",
        "--property=ProtectClock=yes",
        "--property=SystemCallArchitectures=native",
        "--property=UMask=0077",
    ]
}

/// The arguments that start a launch's service.
pub open spec fn service_arguments(
    unit: Seq<char>,
    root: Seq<u8>,
    stdout: Seq<u8>,
    stderr: Seq<u8>,
    runtime: nat,
    network: Network,
    bwrap: Seq<Seq<u8>>,
) -> Seq<Seq<u8>> {
    text::words(seq!["--user", "--remain-after-exit", "--service-type=exec", "--unit"]).push(
        encode_utf8(unit),
    ) + text::words(hardening()) + seq![
        encode_utf8(
            "--property=RuntimeMaxSec="@ + text::decimal(runtime_seconds(runtime)) + "s"@,
        ),
        encode_utf8("--property=ReadWritePaths="@ + text::lossy(root)),
        encode_utf8("--property=StandardOutput=append:"@ + text::lossy(stdout)),
        encode_utf8("--property=StandardError=append:"@ + text::lossy(stderr)),
    ] + (if network == Network::Deny {
        text::words(seq!["--property=PrivateNetwork=yes", "--property=IPAddressDeny=any"])
    } else {
        Seq::empty()
    }) + text::words(seq!["--"]) + bwrap
}

impl Launch {
    /// Refuse or resolve a launch, and name everything it will own.
    pub fn raise(
        testbed: &Testbed,
        command: &AppCommand,
        ordinal: u64,
        binary: std::result::Result<Vec<u8>, Source>,
        binary_is_file: bool,
        borrows: Vec<std::result::Result<Vec<u8>, Source>>,
    ) -> (launch: Result<Launch>)
        requires
            borrows@.len() == command@.borrows.len(),
        ensures
            match launch {
                Ok(launch) => launch_fault(
                    command@,
                    command.listing(),
                    binary,
                    binary_is_file,
                    borrows@,
                ) is None && (binary matches Ok(path) && launch.binary@ == path@) && resolves(
                    sandbox::mounts(launch.borrows@),
                    command@.borrows,
                    borrows@,
                ) && launch.application@ == named(testbed@, command@, ordinal),
                Err(error) => launch_fault(
                    command@,
                    command.listing(),
                    binary,
                    binary_is_file,
                    borrows@,
                ) == Some(error@),
            },
    {
        match validate_command(command) {
            Ok(_) => {},
            Err(error) => {
                return Err(error);
            },
        }
        let path = match binary {
            Ok(path) => path,
            Err(source) => {
                return Err(io("resolve application binary", command.binary(), source));
            },
        };
        if !binary_is_file {
            return Err(
                Error::Containment {
                    layer: "launcher",
                    detail: glue3(
                        "application binary `",
                        lossy_text(path.as_slice()).as_str(),
                        "` is not a file",
                    ),
                },
            );
        }
        let mounts = match resolve_borrows(command.borrows(), borrows) {
            Ok(mounts) => mounts,
            Err(error) => {
                return Err(error);
            },
        };
        let witness = match command.witness_path() {
            Some(relative) => Some(witness_seal(testbed, relative, ordinal)),
            None => None,
        };
        let application = Application {
            unit: glue4("egui-tester-", testbed.id(), "-", decimal_text(ordinal as u128).as_str()),
            stdout: log_path(testbed, ordinal, ".stdout"),
            stderr: log_path(testbed, ordinal, ".stderr"),
            witness,
            stopped: false,
            liveness: None,
        };
        Ok(Launch { binary: path, borrows: mounts, application })
    }

    /// Spell the arguments that start the launch's service around its sandbox.
    pub fn service_argv(&self, testbed: &Testbed, command: &AppCommand, bwrap: &Vec<Vec<u8>>) -> (
    arguments: Vec<Vec<u8>>)
        ensures
            text::views(arguments@) == service_arguments(
                self.application@.unit,
                testbed@.root,
                self.application@.stdout,
                self.application@.stderr,
                command@.runtime,
                command@.network,
                text::views(bwrap@),
            ),
    {
        let unit = self.application.unit.as_str();
        let mut arguments: Vec<Vec<u8>> = Vec::new();
        assert(text::views(arguments@) =~= Seq::<Seq<u8>>::empty());
        push_words(
            &mut arguments,
            &["--user", "--remain-after-exit", "--service-type=exec", "--unit"],
        );
        push_word(&mut arguments, unit);
        push_words(
            &mut arguments,
            &[
                "--property=KillMode=control-group",
                "--property=SendSIGKILL=yes",
                "--property=TimeoutStopSec=2s",
                "--property=ProtectSystem=strict",
                "--property=ProtectHome=read-only",
                "--property=NoNewPrivileges=yes",
                "--property=RestrictSUIDSGID=yes",
                "--property=LockPersonality=yes",
                "--property=RestrictRealtime=yes",
                "--property=ProtectKernelModules=yes",
                "--property=ProtectControlGroups=yes",
                "--property=ProtectClock=yes",
                "--property=SystemCallArchitectures=native",
                "--property=UMask=0077",
            ],
        );
        assert(text::views(arguments@) =~= text::words(
            seq!["--user", "--remain-after-exit", "--service-type=exec", "--unit"],
        ).push(encode_utf8(unit@)) + text::words(hardening()));
        let seconds: u64 = grant_seconds(command.lifetime());
        push_word(
            &mut arguments,
            glue3(
                "--property=RuntimeMaxSec=",
                decimal_text(seconds as u128).as_str(),
                "s",
            ).as_str(),
        );
        push_word(
            &mut arguments,
            glue2(
                "--property=ReadWritePaths=",
                lossy_text(testbed.root().as_slice()).as_str(),
            ).as_str(),
        );
        push_word(
            &mut arguments,
            glue2(
                "--property=StandardOutput=append:",
                lossy_text(self.application.stdout.as_slice()).as_str(),
            ).as_str(),
        );
        push_word(
            &mut arguments,
            glue2(
                "--property=StandardError=append:",
                lossy_text(self.application.stderr.as_slice()).as_str(),
            ).as_str(),
        );
        if command.network_authority() == Network::Deny {
            push_words(
                &mut arguments,
                &["--property=PrivateNetwork=yes", "--property=IPAddressDeny=any"],
            );
        }
        push_words(&mut arguments, &["--"]);
        push_all(&mut arguments, bwrap);
        assert(text::views(arguments@) =~= service_arguments(
            unit@,
            testbed@.root,
            self.application@.stdout,
            self.application@.stderr,
            command@.runtime,
            command@.network,
            text::views(bwrap@),
        ));
        arguments
    }

    /// Accept the started service, or report why it did not start. `rendering` is
    /// the starting command's own rendering.
    pub fn started(self, rendering: &str, output: &CommandOutput) -> (application: Result<
        Application,
    >)
        ensures
            match application {
                Ok(application) => output.success && application@ == self.application@,
                Err(error) => !output.success && error@ == (ErrorView::Containment {
                    layer: "systemd"@,
                    detail: "`"@ + rendering@ + "` returned "@ + output.status@ + "; stdout: "@
                        + trimmed(output.stdout@) + "; stderr: "@ + trimmed(output.stderr@),
                }),
            },
    {
        if output.success {
            Ok(self.application)
        } else {
            Err(
                Error::Containment {
                    layer: "systemd",
                    detail: command_failure(rendering, output),
                },
            )
        }
    }
}

impl Application {
    /// Name of the transient service.
    pub fn unit(&self) -> (unit: &str)
        ensures
            unit@ == self@.unit,
    {
        self.unit.as_str()
    }

    /// Where the application's standard output goes.
    pub fn stdout_path(&self) -> (path: &Vec<u8>)
        ensures
            path@ == self@.stdout,
    {
        &self.stdout
    }

    /// Where the application's standard error goes.
    pub fn stderr_path(&self) -> (path: &Vec<u8>)
        ensures
            path@ == self@.stderr,
    {
        &self.stderr
    }

    /// The witness seal, when the launch is armed.
    pub fn seal(&self) -> (seal: &Option<WitnessSeal>)
        ensures
            seal::optional_seal(*seal) == self@.witness,
    {
        &self.witness
    }

    /// The semantic journal's probe, which only an armed launch has.
    pub fn witness(&self) -> (probe: Result<Probe>)
        ensures
            match probe {
                Ok(probe) => self@.witness matches Some(seal) && probe@ == probe::unread(
                    seal.host,
                    seal.launch,
                ),
                Err(error) => self@.witness is None && error@ == (ErrorView::Unsupported {
                    capability: "standard witness"@,
                    detail: "launch the application with AppCommand::witness"@,
                }),
            },
    {
        match &self.witness {
            Some(seal) => Ok(Probe::sealed(&seal.host, seal.launch.as_str())),
            None => Err(
                Error::Unsupported {
                    capability: "standard witness",
                    detail: "launch the application with AppCommand::witness".to_owned(),
                },
            ),
        }
    }

    /// The frame journal's probe, which only an armed launch has.
    pub fn frames(&self) -> (probe: Result<FrameProbe>)
        ensures
            match probe {
                Ok(probe) => self@.witness matches Some(seal) && probe@.path == seal.frame_host
                    && probe@.launch == seal.launch,
                Err(error) => self@.witness is None && error@ == (ErrorView::Unsupported {
                    capability: "standard frame journal"@,
                    detail: "launch the application with AppCommand::witness"@,
                }),
            },
    {
        match &self.witness {
            Some(seal) => Ok(FrameProbe::sealed(&seal.frame_host, seal.launch.as_str())),
            None => Err(
                Error::Unsupported {
                    capability: "standard frame journal",
                    detail: "launch the application with AppCommand::witness".to_owned(),
                },
            ),
        }
    }

    /// Host path of the witness, when it is armed.
    pub fn witness_path(&self) -> (path: Option<&Vec<u8>>)
        ensures
            match path {
                Some(path) => self@.witness matches Some(seal) && path@ == seal.host,
                None => self@.witness is None,
            },
    {
        match &self.witness {
            Some(seal) => Some(&seal.host),
            None => None,
        }
    }
}

// ---------------------------------------------------------------------------
// Life and death
// ---------------------------------------------------------------------------

/// Whether running the user manager's client with some arguments can come to an
/// outcome.
pub open spec fn ran<R: FnOnce(&Vec<Vec<u8>>) -> std::result::Result<CommandOutput, Source>>(
    run: R,
    line: Seq<Seq<u8>>,
    outcome: std::result::Result<CommandOutput, Source>,
) -> bool {
    exists|arguments: &Vec<Vec<u8>>|
        text::views(arguments@) == line && #[trigger] run.ensures((arguments,), outcome)
}

/// Whether the user manager's client may be run with some arguments. Of no others
/// is anything known.
pub open spec fn runnable<R: FnOnce(&Vec<Vec<u8>>) -> std::result::Result<CommandOutput, Source>>(
    run: R,
    line: Seq<Seq<u8>>,
) -> bool {
    forall|arguments: &Vec<Vec<u8>>|
        text::views(arguments@) == line ==> #[trigger] run.requires((arguments,))
}

/// Whether a log may be read.
pub open spec fn legible<L: FnOnce(&Vec<u8>) -> std::result::Result<Vec<u8>, Source>>(
    read: L,
    path: Seq<u8>,
) -> bool {
    forall|place: &Vec<u8>| place@ == path ==> #[trigger] read.requires((place,))
}

/// The user manager's client did not run.
pub open spec fn not_run(operation: Seq<char>, source: Source) -> ErrorView {
    ErrorView::Io { operation, path: text::word("systemctl"), source: source@ }
}

/// Whether asking for a unit's status can come to an outcome.
pub open spec fn queried<R: FnOnce(&Vec<Vec<u8>>) -> std::result::Result<CommandOutput, Source>>(
    run: R,
    unit: Seq<char>,
    status: Result<UnitStatus>,
) -> bool {
    exists|outcome: std::result::Result<CommandOutput, Source>| #[trigger]
        ran(run, unit::status_line(unit), outcome) && match outcome {
            Err(source) => status matches Err(error) && error@ == not_run(
                "query application service"@,
                source,
            ),
            Ok(output) => unit::judged(unit, output, status),
        }
}

/// Whether a log can be read as a text.
pub open spec fn logged<L: FnOnce(&Vec<u8>) -> std::result::Result<Vec<u8>, Source>>(
    read: L,
    path: Seq<u8>,
    log: Seq<char>,
) -> bool {
    exists|place: &Vec<u8>, bytes: std::result::Result<Vec<u8>, Source>|
        place@ == path && #[trigger] read.ensures((place,), bytes) && log == unit::log_text(
            path,
            bytes,
        )
}

/// Whether finding a unit in some state can come to a verdict.
pub open spec fn found_alive<L: FnOnce(&Vec<u8>) -> std::result::Result<Vec<u8>, Source>>(
    application: ApplicationView,
    waiting: Seq<char>,
    read: L,
    status: UnitStatus,
    verdict: Result<()>,
) -> bool {
    match verdict {
        Ok(_) => status.is_running(),
        Err(error) => !status.is_running() && exists|log: Seq<char>| #[trigger]
            logged(read, application.stderr, log) && error@ == unit::exited(
                application.unit,
                waiting,
                status,
                log,
            ),
    }
}

/// Whether proving that an application is alive can come to a verdict, once its
/// liveness proved to be stale.
pub open spec fn proves_alive<
    D: FnOnce() -> u64,
    R: FnOnce(&Vec<Vec<u8>>) -> std::result::Result<CommandOutput, Source>,
    L: FnOnce(&Vec<u8>) -> std::result::Result<Vec<u8>, Source>,
>(
    before: ApplicationView,
    waiting: Seq<char>,
    later: D,
    run: R,
    read: L,
    verdict: Result<()>,
    after: ApplicationView,
) -> bool {
    exists|status: Result<UnitStatus>| #[trigger]
        queried(run, before.unit, status) && match status {
            Err(error) => verdict == Err::<(), Error>(error) && after == before,
            Ok(status) => exists|now: u64| #[trigger]
                later.ensures((), now) && after == (ApplicationView {
                    liveness: Some(Liveness { checked_ns: now, running: status.is_running() }),
                    ..before
                }) && found_alive(before, waiting, read, status, verdict),
        }
}

/// Whether demanding that an application is alive can come to a verdict.
pub open spec fn demands_life<
    C: FnOnce() -> u64,
    D: FnOnce() -> u64,
    R: FnOnce(&Vec<Vec<u8>>) -> std::result::Result<CommandOutput, Source>,
    L: FnOnce(&Vec<u8>) -> std::result::Result<Vec<u8>, Source>,
>(
    before: ApplicationView,
    waiting: Seq<char>,
    clock: C,
    later: D,
    run: R,
    read: L,
    verdict: Result<()>,
    after: ApplicationView,
) -> bool {
    exists|now: u64| #[trigger]
        clock.ensures((), now) && if unit::fresh(before.liveness, now) {
            verdict is Ok && after == before
        } else {
            proves_alive(before, waiting, later, run, read, verdict, after)
        }
}

/// Whether life may be demanded of an application: the user manager is asked only
/// once the last proof is stale, the time of the new one is taken only once it
/// answered, and the log is read only of a service found dead.
pub open spec fn demandable<
    C: FnOnce() -> u64,
    D: FnOnce() -> u64,
    R: FnOnce(&Vec<Vec<u8>>) -> std::result::Result<CommandOutput, Source>,
    L: FnOnce(&Vec<u8>) -> std::result::Result<Vec<u8>, Source>,
>(before: ApplicationView, clock: C, later: D, run: R, read: L) -> bool {
    &&& clock.requires(())
    &&& forall|now: u64| #[trigger]
        clock.ensures((), now) && !unit::fresh(before.liveness, now) ==> runnable(
            run,
            unit::status_line(before.unit),
        )
    &&& forall|status: UnitStatus| #[trigger]
        queried(run, before.unit, Ok(status)) ==> later.requires(()) && (!status.is_running()
            ==> legible(read, before.stderr))
}

/// Whether stopping a service that is not retired can come to a verdict. The
/// service counts as retired only once the user manager stopped it.
pub open spec fn retires<
    C: FnOnce() -> u64,
    R: FnOnce(&Vec<Vec<u8>>) -> std::result::Result<CommandOutput, Source>,
    Q: FnOnce(&Vec<Vec<u8>>) -> std::result::Result<CommandOutput, Source>,
>(
    before: ApplicationView,
    clock: C,
    stop: R,
    reset: Q,
    verdict: Result<()>,
    after: ApplicationView,
) -> bool {
    exists|stopped: std::result::Result<CommandOutput, Source>| #[trigger]
        ran(stop, unit::stop_line(before.unit), stopped) && match stopped {
            Err(source) => (verdict matches Err(error) && error@ == not_run(
                "stop application service"@,
                source,
            )) && after == before,
            Ok(output) => if !output.success {
                (verdict matches Err(error) && error@ == unit::refused(
                    "could not stop `"@,
                    before.unit,
                    output.stderr@,
                )) && after == before
            } else {
                verdict is Ok && (exists|forgotten: std::result::Result<CommandOutput, Source>|
                    #[trigger] ran(reset, unit::reset_line(before.unit), forgotten)) && exists|
                    now: u64,
                | #[trigger]
                    clock.ensures((), now) && after == (ApplicationView {
                        stopped: true,
                        liveness: Some(Liveness { checked_ns: now, running: false }),
                        ..before
                    })
            },
        }
}

/// Whether a service that is not retired may be stopped: it is forgotten, and the
/// time is taken, only once the stop succeeded.
pub open spec fn retirable<
    C: FnOnce() -> u64,
    R: FnOnce(&Vec<Vec<u8>>) -> std::result::Result<CommandOutput, Source>,
    Q: FnOnce(&Vec<Vec<u8>>) -> std::result::Result<CommandOutput, Source>,
>(before: ApplicationView, clock: C, stop: R, reset: Q) -> bool {
    &&& runnable(stop, unit::stop_line(before.unit))
    &&& forall|output: CommandOutput| #[trigger]
        ran(stop, unit::stop_line(before.unit), Ok(output)) && output.success ==> runnable(
            reset,
            unit::reset_line(before.unit),
        ) && clock.requires(())
}

/// Whether one round of waiting for an exit can come to an outcome.
pub open spec fn exits<
    R: FnOnce(&Vec<Vec<u8>>) -> std::result::Result<CommandOutput, Source>,
    L: FnOnce(&Vec<u8>) -> std::result::Result<Vec<u8>, Source>,
    M: FnOnce(&Vec<u8>) -> std::result::Result<Vec<u8>, Source>,
    E: FnOnce() -> bool,
>(
    application: ApplicationView,
    timeout: nat,
    run: R,
    read_stdout: L,
    read_stderr: M,
    expired: E,
    round: Result<Round<Exit>>,
) -> bool {
    exists|status: Result<UnitStatus>| #[trigger]
        queried(run, application.unit, status) && match status {
            Err(error) => round == Err::<Round<Exit>, Error>(error),
            Ok(status) => if status.is_pending() {
                exists|late: bool| #[trigger]
                    expired.ensures((), late) && match round {
                        Ok(Round::Again(pause)) => !late && pause == 25,
                        Ok(Round::Done(_)) => false,
                        Err(error) => late && error@ == (ErrorView::Timeout {
                            waiting: "application unit `"@ + application.unit + "` to exit"@,
                            timeout,
                        }),
                    }
            } else {
                round matches Ok(Round::Done(exit)) && exit.code == status.code && exit.result@
                    == status.result@ && logged(read_stdout, application.stdout, exit.stdout@) && logged(
                    read_stderr,
                    application.stderr,
                    exit.stderr@,
                )
            },
        }
}

/// Whether one look at an external product predicate can come to an outcome.
pub open spec fn holds<P: FnOnce() -> Result<bool>, E: FnOnce() -> bool>(
    description: Seq<char>,
    timeout: nat,
    predicate: P,
    expired: E,
    round: Result<Round<()>>,
) -> bool {
    exists|held: Result<bool>| #[trigger]
        predicate.ensures((), held) && match held {
            Err(error) => round == Err::<Round<()>, Error>(error),
            Ok(true) => round matches Ok(Round::Done(_)),
            Ok(false) => exists|late: bool| #[trigger]
                expired.ensures((), late) && match round {
                    Ok(Round::Again(pause)) => !late && pause == 15,
                    Ok(Round::Done(_)) => false,
                    Err(error) => late && error@ == (ErrorView::Timeout {
                        waiting: description,
                        timeout,
                    }),
                },
        }
}

impl Application {
    fn read_log<L: FnOnce(&Vec<u8>) -> std::result::Result<Vec<u8>, Source>>(
        path: &Vec<u8>,
        read: L,
    ) -> (log: String)
        requires
            legible(read, path@),
        ensures
            logged(read, path@, log@),
    {
        let bytes = read(path);
        read_lossy(path, bytes)
    }

    /// Ask the user manager for the service's status. `run` runs its client.
    pub fn status<R: FnOnce(&Vec<Vec<u8>>) -> std::result::Result<CommandOutput, Source>>(
        &self,
        run: R,
    ) -> (status: Result<UnitStatus>)
        requires
            runnable(run, unit::status_line(self@.unit)),
        ensures
            queried(run, self@.unit, status),
    {
        let arguments = unit::status_argv(self.unit.as_str());
        let outcome = run(&arguments);
        assert(ran(run, unit::status_line(self@.unit), outcome));
        match outcome {
            Ok(output) => unit::status(self.unit.as_str(), &output),
            Err(source) => Err(io("query application service", &text_bytes("systemctl"), source)),
        }
    }

    /// Demand that the application is alive. A service seen running a moment ago
    /// is not asked for again. `clock` tells whether it was, and `later` when the
    /// answer came.
    pub fn ensure_running<
        C: FnOnce() -> u64,
        D: FnOnce() -> u64,
        R: FnOnce(&Vec<Vec<u8>>) -> std::result::Result<CommandOutput, Source>,
        L: FnOnce(&Vec<u8>) -> std::result::Result<Vec<u8>, Source>,
    >(&mut self, waiting: &str, clock: C, later: D, run: R, read: L) -> (verdict: Result<()>)
        requires
            demandable(old(self)@, clock, later, run, read),
        ensures
            demands_life(old(self)@, waiting@, clock, later, run, read, verdict, final(self)@),
    {
        let ghost before = self@;
        let now: u64 = clock();
        assert(clock.ensures((), now));
        if liveness_is_fresh(self.liveness, now) {
            return Ok(());
        }
        let asked = self.status(run);
        let ghost answer = asked;
        assert(queried(run, before.unit, answer));
        let status = match asked {
            Ok(status) => status,
            Err(error) => {
                assert(proves_alive(
                    before,
                    waiting@,
                    later,
                    run,
                    read,
                    Err(error),
                    self@,
                ));
                return Err(error);
            },
        };
        let checked_ns: u64 = later();
        assert(later.ensures((), checked_ns));
        self.liveness = Some(Liveness { checked_ns, running: status.running() });
        let verdict = if status.running() {
            Ok(())
        } else {
            let log = Self::read_log(&self.stderr, read);
            unit::ensure_running(self.unit.as_str(), waiting, &status, log.as_str())
        };
        assert(found_alive(before, waiting@, read, status, verdict));
        assert(self@ == (ApplicationView {
            liveness: Some(Liveness { checked_ns, running: status.is_running() }),
            ..before
        }));
        assert(proves_alive(before, waiting@, later, run, read, verdict, self@));
        verdict
    }

    /// One round of waiting for the application to exit.
    pub fn wait<
        R: FnOnce(&Vec<Vec<u8>>) -> std::result::Result<CommandOutput, Source>,
        L: FnOnce(&Vec<u8>) -> std::result::Result<Vec<u8>, Source>,
        M: FnOnce(&Vec<u8>) -> std::result::Result<Vec<u8>, Source>,
        E: FnOnce() -> bool,
    >(&self, timeout: Duration, run: R, read_stdout: L, read_stderr: M, expired: E) -> (round: Result<
        Round<Exit>,
    >)
        requires
            runnable(run, unit::status_line(self@.unit)),
            forall|status: UnitStatus| #[trigger]
                queried(run, self@.unit, Ok(status)) ==> if status.is_pending() {
                    expired.requires(())
                } else {
                    legible(read_stdout, self@.stdout) && legible(read_stderr, self@.stderr)
                },
        ensures
            exits(self@, timeout@, run, read_stdout, read_stderr, expired, round),
    {
        let status = match self.status(run) {
            Ok(status) => status,
            Err(error) => {
                return Err(error);
            },
        };
        if !status.running() && !same(status.sub_state.as_str(), "start") {
            let stdout = Self::read_log(&self.stdout, read_stdout);
            let stderr = Self::read_log(&self.stderr, read_stderr);
            return Ok(Round::Done(exit_facts(status, stdout, stderr)));
        }
        if expired() {
            let waiting = glue3("application unit `", self.unit.as_str(), "` to exit");
            return Err(Error::Timeout { waiting, timeout });
        }
        Ok(Round::Again(25))
    }

    /// One round of polling an external product predicate, while proving that the
    /// application has not exited.
    pub fn wait_until<
        C: FnOnce() -> u64,
        D: FnOnce() -> u64,
        R: FnOnce(&Vec<Vec<u8>>) -> std::result::Result<CommandOutput, Source>,
        L: FnOnce(&Vec<u8>) -> std::result::Result<Vec<u8>, Source>,
        P: FnOnce() -> Result<bool>,
        E: FnOnce() -> bool,
    >(
        &mut self,
        timeout: Duration,
        description: &str,
        clock: C,
        later: D,
        run: R,
        read: L,
        predicate: P,
        expired: E,
    ) -> (round: Result<Round<()>>)
        requires
            demandable(old(self)@, clock, later, run, read),
            forall|alive: Result<()>, after: ApplicationView| #[trigger]
                demands_life(old(self)@, description@, clock, later, run, read, alive, after) && alive is Ok
                    ==> predicate.requires(()),
            predicate.ensures((), Ok::<bool, Error>(false)) ==> expired.requires(()),
        ensures
            exists|alive: Result<()>| #[trigger]
                demands_life(
                    old(self)@,
                    description@,
                    clock,
                    later,
                    run,
                    read,
                    alive,
                    final(self)@,
                ) && match alive {
                    Err(error) => round == Err::<Round<()>, Error>(error),
                    Ok(_) => holds(description@, timeout@, predicate, expired, round),
                },
    {
        let alive = self.ensure_running(description, clock, later, run, read);
        match alive {
            Ok(_) => {},
            Err(error) => {
                return Err(error);
            },
        }
        let held = predicate();
        let ghost given = held;
        assert(predicate.ensures((), given));
        let round = match held {
            Err(error) => Err(error),
            Ok(true) => Ok(Round::Done(())),
            Ok(false) => {
                let late = expired();
                until_round(false, late, description, timeout)
            },
        };
        assert(holds(description@, timeout@, predicate, expired, round));
        round
    }

    /// Stop the service and everything in its cgroup. A service that could not be
    /// stopped is not retired, so that its teardown is tried again.
    pub fn terminate<
        C: FnOnce() -> u64,
        R: FnOnce(&Vec<Vec<u8>>) -> std::result::Result<CommandOutput, Source>,
        Q: FnOnce(&Vec<Vec<u8>>) -> std::result::Result<CommandOutput, Source>,
    >(&mut self, clock: C, stop: R, reset: Q) -> (verdict: Result<()>)
        requires
            !old(self)@.stopped ==> retirable(old(self)@, clock, stop, reset),
        ensures
            if old(self)@.stopped {
                verdict is Ok && final(self)@ == old(self)@
            } else {
                retires(old(self)@, clock, stop, reset, verdict, final(self)@)
            },
    {
        let ghost before = self@;
        if self.stopped {
            return Ok(());
        }
        let arguments = unit::stop_argv(self.unit.as_str());
        let outcome = stop(&arguments);
        let ghost given = outcome;
        assert(ran(stop, unit::stop_line(before.unit), given));
        let output = match outcome {
            Ok(output) => output,
            Err(source) => {
                return Err(io("stop application service", &text_bytes("systemctl"), source));
            },
        };
        match terminate_verdict(self.unit.as_str(), &output) {
            Ok(_) => {},
            Err(error) => {
                return Err(error);
            },
        }
        assert(ran(stop, unit::stop_line(before.unit), Ok(output)));
        let forgotten = reset(&unit::reset_argv(self.unit.as_str()));
        assert(ran(reset, unit::reset_line(before.unit), forgotten));
        self.stopped = true;
        let now: u64 = clock();
        assert(clock.ensures((), now));
        self.liveness = Some(Liveness { checked_ns: now, running: false });
        assert(self@ == (ApplicationView {
            stopped: true,
            liveness: Some(Liveness { checked_ns: now, running: false }),
            ..before
        }));
        Ok(())
    }

    /// What letting go of the application has still to run, whatever comes of it: a
    /// service that is not retired is stopped and forgotten.
    pub fn abandon(&self) -> (lines: Vec<Vec<Vec<u8>>>)
        ensures
            lines@.len() == (if self@.stopped { 0int } else { 2 }),
            !self@.stopped ==> text::views(lines@[0]@) == unit::stop_line(self@.unit)
                && text::views(lines@[1]@) == unit::reset_line(self@.unit),
    {
        let mut lines: Vec<Vec<Vec<u8>>> = Vec::new();
        if !self.stopped {
            lines.push(unit::stop_argv(self.unit.as_str()));
            lines.push(unit::reset_argv(self.unit.as_str()));
        }
        lines
    }
}

/// An application is marked retired only after its service was stopped: as long as
/// no stop succeeds, it stays as it is, and letting go of it stops it again.
pub proof fn law_only_a_stopped_service_is_retired<
    C: FnOnce() -> u64,
    R: FnOnce(&Vec<Vec<u8>>) -> std::result::Result<CommandOutput, Source>,
    Q: FnOnce(&Vec<Vec<u8>>) -> std::result::Result<CommandOutput, Source>,
>(
    before: ApplicationView,
    clock: C,
    stop: R,
    reset: Q,
    verdict: Result<()>,
    after: ApplicationView,
)
    requires
        !before.stopped,
        retires(before, clock, stop, reset, verdict, after),
    ensures
        after.stopped == (verdict is Ok),
        after.stopped ==> exists|output: CommandOutput| #[trigger]
            ran(stop, unit::stop_line(before.unit), Ok(output)) && output.success,
        !after.stopped ==> after == before,
{
}

/// A service is started around its sandbox alone, and before the sandbox begins,
/// its line carries every hardening, the lifetime that the command granted, and,
/// when the command denies the network, both denials.
pub proof fn law_services_are_hardened(
    unit: Seq<char>,
    root: Seq<u8>,
    stdout: Seq<u8>,
    stderr: Seq<u8>,
    runtime: nat,
    network: Network,
    bwrap: Seq<Seq<u8>>,
    index: int,
)
    requires
        0 <= index < hardening().len(),
    ensures
        ({
            let line = service_arguments(unit, root, stdout, stderr, runtime, network, bwrap);
            let options = line.take(line.len() - bwrap.len() - 1);
            &&& line == options.push(text::word("--")) + bwrap
            &&& options.contains(text::word(hardening()[index]))
            &&& options.contains(
                encode_utf8(
                    "--property=RuntimeMaxSec="@ + text::decimal(runtime_seconds(runtime)) + "s"@,
                ),
            )
            &&& network == Network::Deny ==> options.contains(
                text::word("--property=PrivateNetwork=yes"),
            ) && options.contains(text::word("--property=IPAddressDeny=any"))
        }),
{
    let line = service_arguments(unit, root, stdout, stderr, runtime, network, bwrap);
    let options = line.take(line.len() - bwrap.len() - 1);
    let count = hardening().len() as int;
    let denials = text::words(
        seq!["--property=PrivateNetwork=yes", "--property=IPAddressDeny=any"],
    );
    assert(line =~= options.push(text::word("--")) + bwrap);
    assert(options[5 + index] == text::words(hardening())[index]);
    assert(options[5 + count] == encode_utf8(
        "--property=RuntimeMaxSec="@ + text::decimal(runtime_seconds(runtime)) + "s"@,
    ));
    if network == Network::Deny {
        assert(options[9 + count] == denials[0]);
        assert(options[10 + count] == denials[1]);
    }
}

/// Whether removing a stale witness file may be ignored: it was already gone.
pub fn remove_stale(
    path: &Vec<u8>,
    operation: &'static str,
    removed: std::result::Result<(), Source>,
) -> (verdict: Result<()>)
    ensures
        match verdict {
            Ok(_) => match removed {
                Ok(_) => true,
                Err(source) => source.kind == crate::error::SourceKind::NotFound,
            },
            Err(error) => removed matches Err(source) && source.kind
                != crate::error::SourceKind::NotFound && error@ == (ErrorView::Io {
                operation: operation@,
                path: path@,
                source: source@,
            }),
        },
{
    match removed {
        Ok(_) => Ok(()),
        Err(source) => {
            if source.kind == crate::error::SourceKind::NotFound {
                Ok(())
            } else {
                Err(io(operation, path, source))
            }
        },
    }
}

/// A service's line names its unit, keeps its streams in the launch's own logs, grants it
/// the whole seconds that cover its lifetime and the test root alone, confines it, and
/// ends with the sandbox.
pub proof fn law_services_are_confined(
    launch: Launch,
    testbed: Testbed,
    command: AppCommand,
    bwrap: Vec<Vec<u8>>,
    arguments: Vec<Vec<u8>>,
    seconds: nat,
)
    requires
        Launch::service_argv.ensures((&launch, &testbed, &command, &bwrap), arguments),
        command@.runtime <= seconds * 1_000_000_000 < command@.runtime + 1_000_000_000,
        seconds <= u64::MAX,
    ensures
        ({
            let line = text::views(arguments@);
            let open = line.len() - bwrap@.len() - 1;
            let options = line.take(open);
            let denied = command@.network == Network::Deny;
            &&& line[open] == text::word("--")
            &&& line.skip(open + 1) == text::views(bwrap@)
            &&& options[0] == text::word("--user")
            &&& options[3] == text::word("--unit")
            &&& options[4] == encode_utf8(launch.application@.unit)
            &&& options.contains(text::word("--remain-after-exit"))
            &&& options.contains(text::word("--service-type=exec"))
            &&& options.contains(text::word("--property=KillMode=control-group"))
            &&& options.contains(text::word("--property=SendSIGKILL=yes"))
            &&& options.contains(text::word("--property=TimeoutStopSec=2s"))
            &&& options.contains(text::word("--property=ProtectSystem=strict"))
            &&& options.contains(text::word("--property=ProtectHome=read-only"))
            &&& options.contains(text::word("--property=NoNewPrivileges=yes"))
            &&& options.contains(text::word("--property=RestrictSUIDSGID=yes"))
            &&& options.contains(text::word("--property=LockPersonality=yes"))
            &&& options.contains(text::word("--property=RestrictRealtime=yes"))
            &&& options.contains(text::word("--property=ProtectKernelModules=yes"))
            &&& options.contains(text::word("--property=ProtectControlGroups=yes"))
            &&& options.contains(text::word("--property=ProtectClock=yes"))
            &&& options.contains(text::word("--property=SystemCallArchitectures=native"))
            &&& options.contains(text::word("--property=UMask=0077"))
            &&& options.contains(
                encode_utf8("--property=RuntimeMaxSec="@ + text::decimal(seconds) + "s"@),
            )
            &&& options.contains(
                encode_utf8("--property=ReadWritePaths="@ + text::lossy(testbed@.root)),
            )
            &&& options.contains(
                encode_utf8(
                    "--property=StandardOutput=append:"@ + text::lossy(launch.application@.stdout),
                ),
            )
            &&& options.contains(
                encode_utf8(
                    "--property=StandardError=append:"@ + text::lossy(launch.application@.stderr),
                ),
            )
            &&& denied ==> options.contains(text::word("--property=PrivateNetwork=yes"))
            &&& denied ==> options.contains(text::word("--property=IPAddressDeny=any"))
            &&& options.len() == if denied {
                25int
            } else {
                23
            }
        }),
{
    let line = text::views(arguments@);
    let open = line.len() - bwrap@.len() - 1;
    let options = line.take(open);
    let inner = text::views(bwrap@);
    assert(line.skip(open + 1) =~= inner);
    assert(seconds == runtime_seconds(command@.runtime));
    assert(options[1] == text::word("--remain-after-exit"));
    assert(options[2] == text::word("--service-type=exec"));
    assert(options[5] == text::word("--property=KillMode=control-group"));
    assert(options[6] == text::word("--property=SendSIGKILL=yes"));
    assert(options[7] == text::word("--property=TimeoutStopSec=2s"));
    assert(options[8] == text::word("--property=ProtectSystem=strict"));
    assert(options[9] == text::word("--property=ProtectHome=read-only"));
    assert(options[10] == text::word("--property=NoNewPrivileges=yes"));
    assert(options[11] == text::word("--property=RestrictSUIDSGID=yes"));
    assert(options[12] == text::word("--property=LockPersonality=yes"));
    assert(options[13] == text::word("--property=RestrictRealtime=yes"));
    assert(options[14] == text::word("--property=ProtectKernelModules=yes"));
    assert(options[15] == text::word("--property=ProtectControlGroups=yes"));
    assert(options[16] == text::word("--property=ProtectClock=yes"));
    assert(options[17] == text::word("--property=SystemCallArchitectures=native"));
    assert(options[18] == text::word("--property=UMask=0077"));
    assert(options[19] == encode_utf8(
        "--property=RuntimeMaxSec="@ + text::decimal(seconds) + "s"@,
    ));
    assert(options[20] == encode_utf8("--property=ReadWritePaths="@ + text::lossy(testbed@.root)));
    assert(options[21] == encode_utf8(
        "--property=StandardOutput=append:"@ + text::lossy(launch.application@.stdout),
    ));
    assert(options[22] == encode_utf8(
        "--property=StandardError=append:"@ + text::lossy(launch.application@.stderr),
    ));
    if command@.network == Network::Deny {
        assert(options[23] == text::word("--property=PrivateNetwork=yes"));
        assert(options[24] == text::word("--property=IPAddressDeny=any"));
    }
}

/// A launch is accepted only for a binary that resolved to a file and for borrows that all
/// resolved; it reveals each borrow where it was asked for, and everything it owns is named
/// by its test and its ordinal.
pub proof fn law_launches_own_what_they_name(
    testbed: Testbed,
    command: AppCommand,
    ordinal: u64,
    binary: std::result::Result<Vec<u8>, Source>,
    is_file: bool,
    borrows: Vec<std::result::Result<Vec<u8>, Source>>,
    launch: Launch,
)
    requires
        borrows@.len() == command@.borrows.len(),
        Launch::raise.ensures((&testbed, &command, ordinal, binary, is_file, borrows), Ok(launch)),
    ensures
        is_file,
        binary matches Ok(path) && path@ == launch.binary@,
        launch.borrows@.len() == borrows@.len(),
        forall|i: int|
            #![trigger launch.borrows@[i]]
            #![trigger borrows@[i]]
            0 <= i < borrows@.len() ==> (borrows@[i] matches Ok(source) && source@
                == launch.borrows@[i].source@) && launch.borrows@[i].guest@ == command@.borrows[i],
        launch.application@.unit == "egui-tester-"@ + testbed@.id + "-"@ + text::decimal(
            ordinal as nat,
        ),
        launch.application@.stdout == ospath::joined(
            testbed@.root,
            encode_utf8("logs/app-"@ + text::decimal(ordinal as nat) + ".stdout"@),
        ),
        launch.application@.stderr == ospath::joined(
            testbed@.root,
            encode_utf8("logs/app-"@ + text::decimal(ordinal as nat) + ".stderr"@),
        ),
        !launch.application@.stopped,
        launch.application@.liveness is None,
        launch.application@.witness is Some <==> command@.witness is Some,
        launch.application@.witness matches Some(seal) ==> (command@.witness matches Some(relative)
            && seal.host == ospath::joined(testbed@.root, relative) && seal.guest
            == ospath::joined(text::word("/test"), relative) && seal.launch == testbed@.id + "-"@
            + text::decimal(ordinal as nat) && seal.frame_host == ospath::joined(
            testbed@.root,
            ospath::with_extension_of(relative, text::word("frames")),
        ) && seal.frame_guest == ospath::joined(
            text::word("/test"),
            ospath::with_extension_of(relative, text::word("frames")),
        )),
{
    let mounts = sandbox::mounts(launch.borrows@);
    assert forall|i: int|
        #![trigger launch.borrows@[i]]
        #![trigger borrows@[i]]
        0 <= i < borrows@.len() implies (borrows@[i] matches Ok(source) && source@
        == launch.borrows@[i].source@) && launch.borrows@[i].guest@ == command@.borrows[i] by {
        assert(mounts[i].1 == command@.borrows[i]);
    }
}

/// A service counts as started exactly when its starting command succeeded, and then as
/// the launch named it.
pub proof fn law_launches_start_as_named(
    launch: Launch,
    rendering: &str,
    output: CommandOutput,
    application: Result<Application>,
)
    requires
        Launch::started.ensures((launch, rendering, &output), application),
    ensures
        application is Ok <==> output.success,
        application matches Ok(application) ==> application@ == launch.application@,
{
}

/// An armed application is read through its own two journals, and an unarmed one through
/// none.
pub proof fn law_only_armed_launches_are_read(
    application: Application,
    probe: Result<Probe>,
    frames: Result<FrameProbe>,
    path: Option<&Vec<u8>>,
)
    requires
        Application::witness.ensures((&application,), probe),
        Application::frames.ensures((&application,), frames),
        Application::witness_path.ensures((&application,), path),
    ensures
        probe is Ok <==> application@.witness is Some,
        frames is Ok <==> application@.witness is Some,
        path is Some <==> application@.witness is Some,
        application@.witness matches Some(seal) ==> (probe matches Ok(probe) && probe@.path
            == seal.host && probe@.launch == seal.launch) && (frames matches Ok(frames)
            && frames@.path == seal.frame_host && frames@.launch == seal.launch) && (path matches
            Some(path) && path@ == seal.host),
{
}

/// Only life passes a demand for it: the service was seen running less than a tenth of a
/// second ago, or it is asked for now and its main process runs. Nothing but the memory of
/// that changes.
pub proof fn law_only_the_living_pass<
    C: FnOnce() -> u64,
    D: FnOnce() -> u64,
    R: FnOnce(&Vec<Vec<u8>>) -> std::result::Result<CommandOutput, Source>,
    L: FnOnce(&Vec<u8>) -> std::result::Result<Vec<u8>, Source>,
>(
    before: ApplicationView,
    waiting: Seq<char>,
    clock: C,
    later: D,
    run: R,
    read: L,
    verdict: Result<()>,
    after: ApplicationView,
)
    requires
        demands_life(before, waiting, clock, later, run, read, verdict, after),
    ensures
        after == (ApplicationView { liveness: after.liveness, ..before }),
        verdict is Ok ==> after.liveness is Some && after.liveness->0.running,
        verdict is Ok ==> (exists|now: u64| #[trigger]
            clock.ensures((), now) && now < after.liveness->0.checked_ns + 100_000_000) || (exists|
            status: UnitStatus,
        | #[trigger]
            queried(run, before.unit, Ok(status)) && status.sub_state@ == "running"@),
        verdict is Err && after != before ==> after.liveness is Some && !after.liveness->0.running,
{
}

/// An exit is reported only of a service whose main process neither runs nor starts, with
/// the code and the result that the user manager kept; a service that still runs is waited
/// for until the time is over.
pub proof fn law_only_the_dead_have_exited<
    R: FnOnce(&Vec<Vec<u8>>) -> std::result::Result<CommandOutput, Source>,
    L: FnOnce(&Vec<u8>) -> std::result::Result<Vec<u8>, Source>,
    M: FnOnce(&Vec<u8>) -> std::result::Result<Vec<u8>, Source>,
    E: FnOnce() -> bool,
>(
    application: Application,
    timeout: Duration,
    run: R,
    read_stdout: L,
    read_stderr: M,
    expired: E,
    round: Result<Round<Exit>>,
)
    requires
        Application::wait.ensures(
            (&application, timeout, run, read_stdout, read_stderr, expired),
            round,
        ),
    ensures
        round matches Ok(Round::Done(exit)) ==> exists|status: UnitStatus| #[trigger]
            queried(run, application@.unit, Ok(status)) && status.sub_state@ != "running"@
                && status.sub_state@ != "start"@ && exit.code == status.code && exit.result@
                == status.result@,
        round matches Ok(Round::Done(exit)) ==> logged(read_stdout, application@.stdout, exit.stdout@)
            && logged(read_stderr, application@.stderr, exit.stderr@),
        round matches Ok(Round::Again(_)) ==> expired.ensures((), false) && exists|
            status: UnitStatus,
        | #[trigger]
            queried(run, application@.unit, Ok(status)) && (status.sub_state@ == "running"@
                || status.sub_state@ == "start"@),
{
    let status = choose|status: Result<UnitStatus>| #[trigger]
        queried(run, application@.unit, status) && match status {
            Err(error) => round == Err::<Round<Exit>, Error>(error),
            Ok(status) => if status.is_pending() {
                exists|late: bool| #[trigger]
                    expired.ensures((), late) && match round {
                        Ok(Round::Again(pause)) => !late && pause == 25,
                        Ok(Round::Done(_)) => false,
                        Err(error) => late && error@ == (ErrorView::Timeout {
                            waiting: "application unit `"@ + application@.unit + "` to exit"@,
                            timeout: timeout@,
                        }),
                    }
            } else {
                round matches Ok(Round::Done(exit)) && exit.code == status.code && exit.result@
                    == status.result@ && logged(read_stdout, application@.stdout, exit.stdout@)
                    && logged(read_stderr, application@.stderr, exit.stderr@)
            },
        };
    if let Ok(status) = status {
        assert(queried(run, application@.unit, Ok(status)));
    }
}

/// Letting go of an application stops and forgets its service, unless that is done.
pub proof fn law_abandoned_services_are_stopped(application: Application, lines: Vec<Vec<Vec<u8>>>)
    requires
        Application::abandon.ensures((&application,), lines),
    ensures
        application@.stopped ==> lines@.len() == 0,
        !application@.stopped ==> lines@.len() == 2 && text::views(lines@[0]@) == seq![
            text::word("--user"),
            text::word("stop"),
            encode_utf8(application@.unit),
        ] && text::views(lines@[1]@) == seq![
            text::word("--user"),
            text::word("reset-failed"),
            encode_utf8(application@.unit),
        ],
{
}

/// Only a stale file that is already gone is no failure to remove it.
pub proof fn law_stale_files_are_removed_or_absent(
    path: Vec<u8>,
    operation: &'static str,
    removed: std::result::Result<(), Source>,
    verdict: Result<()>,
)
    requires
        remove_stale.ensures((&path, operation, removed), verdict),
    ensures
        verdict is Ok <==> (removed is Ok || removed->Err_0.kind
            == crate::error::SourceKind::NotFound),
        verdict matches Err(error) ==> (error@ matches ErrorView::Io { path: place, .. } && place
            == path@),
{
}

} // verus!
