//! System traces around an Android choreography.
use crate::android;
use crate::android::{AndroidDevice, AndroidDeviceView, Invocation};
use crate::error::{io, Error, ErrorView, Result, Source};
use crate::host;
use crate::host::{make, make_directory};
use crate::service::unit::CommandOutput;
use crate::text;
use crate::text::{copy_bytes, decimal_text, glue2, lossy_text, push_bytes, push_word, push_words, starts_with};
use vstd::prelude::*;
use vstd::utf8::*;

verus! {

/// Perfetto capture of one Android choreography execution.
#[derive(Debug)]
pub struct AndroidPerfetto {
    device: AndroidDevice,
    session: Option<String>,
    remote: String,
    output: Vec<u8>,
    events_path: Vec<u8>,
}

/// Content of an [`AndroidPerfetto`].
#[verifier::ext_equal]
pub struct AndroidPerfettoView {
    pub device: AndroidDeviceView,
    pub session: Option<Seq<char>>,
    pub remote: Seq<char>,
    pub output: Seq<u8>,
    pub events_path: Seq<u8>,
}

impl View for AndroidPerfetto {
    type V = AndroidPerfettoView;

    closed spec fn view(&self) -> AndroidPerfettoView {
        AndroidPerfettoView {
            device: self.device@,
            session: match self.session {
                Some(session) => Some(session@),
                None => None,
            },
            remote: self.remote@,
            output: self.output@,
            events_path: self.events_path@,
        }
    }
}

/// How the launch of a trace session can break off.
#[derive(Debug)]
pub enum LaunchFault {
    /// The bridge did not start.
    Start(Source),
    /// The bridge exposed no pipe for the configuration.
    NoPipe,
    /// The configuration could not be written.
    Write(Source),
    /// The bridge could not be waited for.
    Wait(Source),
}

/// Where trace files live on the device.
pub open spec fn traces() -> Seq<char> {
    "/data/misc/perfetto-traces/"@
}

/// The name of a process's trace session.
pub open spec fn session_name(process: u32) -> Seq<char> {
    "egui_tester_"@ + text::decimal(process as nat)
}

impl AndroidDeviceView {
    /// Begins a detached trace session that reads its configuration from a pipe.
    pub open spec fn detach_line(self, remote: Seq<char>, session: Seq<char>) -> Seq<Seq<u8>> {
        self.line(
            text::words(seq!["shell", "perfetto", "--txt", "-c", "-", "-o"]).push(
                encode_utf8(remote),
            ).push(encode_utf8("--detach="@ + session)),
        )
    }

    /// Stops a trace session.
    pub open spec fn halt_line(self, session: Seq<char>) -> Seq<Seq<u8>> {
        self.line(
            text::words(seq!["shell", "perfetto"]).push(encode_utf8("--attach="@ + session)).push(
                text::word("--stop"),
            ),
        )
    }

    /// Copies a trace from the device.
    pub open spec fn pull_line(self, remote: Seq<char>, output: Seq<u8>) -> Seq<Seq<u8>> {
        self.line(text::words(seq!["pull"]).push(encode_utf8(remote)).push(output))
    }

    /// Why the launch of a trace session failed, when it did.
    pub open spec fn launch_failure(
        self,
        outcome: std::result::Result<CommandOutput, LaunchFault>,
    ) -> Option<ErrorView> {
        match outcome {
            Err(LaunchFault::Start(source)) => Some(
                ErrorView::Io {
                    operation: "start Android Perfetto"@,
                    path: self.adb,
                    source: source@,
                },
            ),
            Err(LaunchFault::NoPipe) => Some(
                ErrorView::Verdict {
                    detail: "Perfetto child exposed no configuration pipe"@,
                },
            ),
            Err(LaunchFault::Write(source)) => Some(
                ErrorView::Io {
                    operation: "write Android Perfetto configuration"@,
                    path: self.adb,
                    source: source@,
                },
            ),
            Err(LaunchFault::Wait(source)) => Some(
                ErrorView::Io {
                    operation: "detach Android Perfetto session"@,
                    path: self.adb,
                    source: source@,
                },
            ),
            Ok(output) => if output.success {
                None
            } else {
                Some(
                    ErrorView::Command {
                        command: "adb shell perfetto --detach"@,
                        status: output.status@,
                        stderr: text::lossy(output.stderr@),
                    },
                )
            },
        }
    }
}

/// Whether launching a trace session can come to an outcome.
pub open spec fn launches<
    L: FnOnce(&Vec<Vec<u8>>, &str) -> std::result::Result<CommandOutput, LaunchFault>,
>(
    launch: L,
    line: Seq<Seq<u8>>,
    config: Seq<char>,
    outcome: std::result::Result<CommandOutput, LaunchFault>,
) -> bool {
    exists|arguments: &Vec<Vec<u8>>, written: &str|
        text::views(arguments@) == line && written@ == config && #[trigger] launch.ensures(
            (arguments, written),
            outcome,
        )
}

/// Whether a session can be begun: the directory of the event trace is made, then
/// the event trace, then the session is launched, each once what came before it
/// succeeded.
pub open spec fn beginnable<
    C: FnOnce(&Vec<u8>) -> std::result::Result<(), Source>,
    F: FnOnce(&Vec<u8>) -> std::result::Result<(), Source>,
    L: FnOnce(&Vec<Vec<u8>>, &str) -> std::result::Result<CommandOutput, LaunchFault>,
>(
    device: AndroidDeviceView,
    config: Seq<char>,
    remote: Seq<char>,
    events: Seq<u8>,
    process: u32,
    create_directory: C,
    create_file: F,
    launch: L,
) -> bool {
    let directory_made = host::makes_directory(
        create_directory,
        "create Android event-trace directory"@,
        events,
        Ok(()),
    );
    let file_made = host::makes(create_file, "create Android event trace"@, events, Ok(()));
    &&& host::directory_makeable(create_directory, events)
    &&& directory_made ==> host::makeable(create_file, events)
    &&& directory_made && file_made ==> forall|arguments: &Vec<Vec<u8>>, written: &str|
        text::views(arguments@) == device.detach_line(remote, session_name(process)) && written@
            == config ==> #[trigger] launch.requires((arguments, written))
}

impl AndroidPerfetto {
    /// Begin a trace session on a device: make the local event trace, then launch
    /// the session detached. `process` is the number of this process.
    pub fn begin<
        C: FnOnce(&Vec<u8>) -> std::result::Result<(), Source>,
        F: FnOnce(&Vec<u8>) -> std::result::Result<(), Source>,
        L: FnOnce(&Vec<Vec<u8>>, &str) -> std::result::Result<CommandOutput, LaunchFault>,
    >(
        device: &AndroidDevice,
        config: &str,
        remote: &str,
        output: &Vec<u8>,
        events: &Vec<u8>,
        process: u32,
        create_directory: C,
        create_file: F,
        launch: L,
    ) -> (perfetto: Result<Self>)
        requires
            text::begins_with(remote@, traces()) ==> beginnable(
                device@,
                config@,
                remote@,
                events@,
                process,
                create_directory,
                create_file,
                launch,
            ),
        ensures
            match perfetto {
                Ok(perfetto) => text::begins_with(remote@, traces()) && host::makes_directory(
                    create_directory,
                    "create Android event-trace directory"@,
                    events@,
                    Ok(()),
                ) && host::makes(create_file, "create Android event trace"@, events@, Ok(()))
                    && launched_with(device@, launch, remote@, process, config@, None)
                    && perfetto@ == (AndroidPerfettoView {
                    device: device@,
                    session: Some(session_name(process)),
                    remote: remote@,
                    output: output@,
                    events_path: events@,
                }),
                Err(error) => if !text::begins_with(remote@, traces()) {
                    error@ == (ErrorView::Verdict {
                        detail: "Perfetto output must live beneath /data/misc/perfetto-traces"@,
                    })
                } else {
                    ||| host::makes_directory(
                    create_directory,
                    "create Android event-trace directory"@,
                    events@, Err(error@))
                    ||| host::makes_directory(
                    create_directory,
                    "create Android event-trace directory"@,
                    events@, Ok(())) && host::makes(
                        create_file,
                        "create Android event trace"@,
                        events@,
                        Err(error@),
                    )
                    ||| host::makes_directory(
                    create_directory,
                    "create Android event-trace directory"@,
                    events@, Ok(())) && host::makes(
                        create_file,
                        "create Android event trace"@,
                        events@,
                        Ok(()),
                    ) && launched_with(device@, launch, remote@, process, config@, Some(error@))
                },
            },
    {
        if !starts_with(remote, "/data/misc/perfetto-traces/") {
            return Err(
                Error::Verdict {
                    detail: "Perfetto output must live beneath /data/misc/perfetto-traces".to_owned(),
                },
            );
        }
        match make_directory(create_directory, "create Android event-trace directory", events) {
            Ok(unit) => {
                assert(unit == ());
            },
            Err(error) => {
                return Err(error);
            },
        }
        match make(create_file, "create Android event trace", events) {
            Ok(unit) => {
                assert(unit == ());
            },
            Err(error) => {
                return Err(error);
            },
        }
        let session = glue2("egui_tester_", decimal_text(process as u128).as_str());
        let mut arguments: Vec<Vec<u8>> = Vec::new();
        push_words(&mut arguments, &["shell", "perfetto", "--txt", "-c", "-", "-o"]);
        push_word(&mut arguments, remote);
        push_word(&mut arguments, glue2("--detach=", session.as_str()).as_str());
        let line = device.command(&arguments);
        assert(text::views(arguments@) =~= text::words(
            seq!["shell", "perfetto", "--txt", "-c", "-", "-o"],
        ).push(encode_utf8(remote@)).push(encode_utf8("--detach="@ + session@)));
        assert(text::views(line@) == device@.detach_line(remote@, session_name(process)));
        let outcome = launch(&line, config);
        assert(launches(launch, device@.detach_line(remote@, session_name(process)), config@, outcome));
        let failure = match outcome {
            Ok(output) => {
                if output.success {
                    None
                } else {
                    Some(
                        Error::Command {
                            command: "adb shell perfetto --detach".to_owned(),
                            status: output.status,
                            stderr: lossy_text(output.stderr.as_slice()),
                        },
                    )
                }
            },
            Err(LaunchFault::Start(source)) => Some(
                io("start Android Perfetto", device.bridge(), source),
            ),
            Err(LaunchFault::NoPipe) => Some(
                Error::Verdict {
                    detail: "Perfetto child exposed no configuration pipe".to_owned(),
                },
            ),
            Err(LaunchFault::Write(source)) => Some(
                io("write Android Perfetto configuration", device.bridge(), source),
            ),
            Err(LaunchFault::Wait(source)) => Some(
                io("detach Android Perfetto session", device.bridge(), source),
            ),
        };
        match failure {
            Some(error) => Err(error),
            None => Ok(
                AndroidPerfetto {
                    device: device.clone(),
                    session: Some(session),
                    remote: remote.to_owned(),
                    output: copy_bytes(output.as_slice()),
                    events_path: copy_bytes(events.as_slice()),
                },
            ),
        }
    }

    /// End the session once: stop it, copy its trace from the device, and flush
    /// the event trace. A session that ended already stays so.
    pub fn seal<
        H: FnOnce(&Vec<Vec<u8>>) -> Invocation,
        R: FnOnce(&Vec<Vec<u8>>) -> Invocation,
        F: FnOnce() -> std::result::Result<(), Source>,
    >(&mut self, halt: H, pull: R, flush: F) -> (outcome: Result<()>)
        requires
            old(self)@.session matches Some(session) ==> sealable(
                old(self)@,
                session,
                halt,
                pull,
                flush,
            ),
        ensures
            final(self)@ == (AndroidPerfettoView { session: None, ..old(self)@ }),
            match old(self)@.session {
                None => outcome is Ok,
                Some(session) => seals(old(self)@, session, halt, pull, flush, host::told(outcome)),
            },
    {
        let ghost before = self@;
        let session = match self.session.take() {
            Some(session) => session,
            None => {
                return Ok(());
            },
        };
        let mut arguments: Vec<Vec<u8>> = Vec::new();
        push_words(&mut arguments, &["shell", "perfetto"]);
        push_word(&mut arguments, glue2("--attach=", session.as_str()).as_str());
        push_word(&mut arguments, "--stop");
        assert(text::views(arguments@) =~= text::words(seq!["shell", "perfetto"]).push(
            encode_utf8("--attach="@ + session@),
        ).push(text::word("--stop")));
        assert(self.device@.line(text::views(arguments@)) == before.device.halt_line(session@));
        match self.device.checked(halt, &arguments) {
            Ok(_) => {},
            Err(error) => {
                assert(fails(halt, before.device, before.device.halt_line(session@), error@));
                return Err(error);
            },
        }
        assert(succeeds(halt, before.device, before.device.halt_line(session@)));
        let mut arguments: Vec<Vec<u8>> = Vec::new();
        push_words(&mut arguments, &["pull"]);
        push_word(&mut arguments, self.remote.as_str());
        push_bytes(&mut arguments, self.output.as_slice());
        assert(text::views(arguments@) =~= text::words(seq!["pull"]).push(
            encode_utf8(before.remote),
        ).push(before.output));
        assert(self.device@.line(text::views(arguments@)) == before.device.pull_line(
            before.remote,
            before.output,
        ));
        match self.device.checked(pull, &arguments) {
            Ok(_) => {},
            Err(error) => {
                assert(fails(
                    pull,
                    before.device,
                    before.device.pull_line(before.remote, before.output),
                    error@,
                ));
                return Err(error);
            },
        }
        assert(succeeds(
            pull,
            before.device,
            before.device.pull_line(before.remote, before.output),
        ));
        match flush() {
            Ok(unit) => {
                assert(unit == ());
                Ok(())
            },
            Err(source) => Err(io("flush Android event trace", &self.events_path, source)),
        }
    }

    /// Give the session up: the command that stops it, if it did not end yet.
    pub fn abandon(&mut self) -> (line: Option<Vec<Vec<u8>>>)
        ensures
            final(self)@ == (AndroidPerfettoView { session: None, ..old(self)@ }),
            match old(self)@.session {
                Some(session) => line matches Some(line) && text::views(line@)
                    == old(self)@.device.halt_line(session),
                None => line is None,
            },
    {
        let ghost before = self@;
        match self.session.take() {
            Some(session) => {
                let mut arguments: Vec<Vec<u8>> = Vec::new();
                push_words(&mut arguments, &["shell", "perfetto"]);
                push_word(&mut arguments, glue2("--attach=", session.as_str()).as_str());
                push_word(&mut arguments, "--stop");
                assert(text::views(arguments@) =~= text::words(seq!["shell", "perfetto"]).push(
                    encode_utf8("--attach="@ + session@),
                ).push(text::word("--stop")));
                Some(self.device.command(&arguments))
            },
            None => None,
        }
    }

    /// A failure to record an event.
    pub fn append_failure(&self, source: Source) -> (error: Error)
        ensures
            error@ == (ErrorView::Io {
                operation: "append Android choreography event"@,
                path: self@.events_path,
                source: source@,
            }),
    {
        io("append Android choreography event", &self.events_path, source)
    }
}

/// Whether the launch of a process's session can fail so, or succeed.
pub open spec fn launched_with<
    L: FnOnce(&Vec<Vec<u8>>, &str) -> std::result::Result<CommandOutput, LaunchFault>,
>(
    device: AndroidDeviceView,
    launch: L,
    remote: Seq<char>,
    process: u32,
    config: Seq<char>,
    failure: Option<ErrorView>,
) -> bool {
    exists|outcome: std::result::Result<CommandOutput, LaunchFault>| #[trigger]
        launches(launch, device.detach_line(remote, session_name(process)), config, outcome)
            && device.launch_failure(outcome) == failure
}

/// Whether a bridge command can fail with an error.
pub open spec fn fails<R: FnOnce(&Vec<Vec<u8>>) -> Invocation>(
    run: R,
    device: AndroidDeviceView,
    line: Seq<Seq<u8>>,
    error: ErrorView,
) -> bool {
    exists|invocation: Invocation| #[trigger]
        android::ran(run, line, invocation) && device.success(invocation) == Err::<(), _>(error)
}

/// Whether a bridge command can succeed.
pub open spec fn succeeds<R: FnOnce(&Vec<Vec<u8>>) -> Invocation>(
    run: R,
    device: AndroidDeviceView,
    line: Seq<Seq<u8>>,
) -> bool {
    exists|invocation: Invocation| #[trigger]
        android::ran(run, line, invocation) && device.success(invocation) is Ok
}

/// Whether a session can be ended: it is stopped, then its trace is copied once
/// the stop succeeded, then the event trace is flushed once the copy did.
pub open spec fn sealable<
    H: FnOnce(&Vec<Vec<u8>>) -> Invocation,
    R: FnOnce(&Vec<Vec<u8>>) -> Invocation,
    F: FnOnce() -> std::result::Result<(), Source>,
>(perfetto: AndroidPerfettoView, session: Seq<char>, halt: H, pull: R, flush: F) -> bool {
    let halting = perfetto.device.halt_line(session);
    let pulling = perfetto.device.pull_line(perfetto.remote, perfetto.output);
    &&& android::runnable(halt, halting)
    &&& succeeds(halt, perfetto.device, halting) ==> android::runnable(pull, pulling)
    &&& succeeds(halt, perfetto.device, halting) && succeeds(pull, perfetto.device, pulling)
        ==> flush.requires(())
}

/// Whether ending a session can come to an outcome.
pub open spec fn seals<
    H: FnOnce(&Vec<Vec<u8>>) -> Invocation,
    R: FnOnce(&Vec<Vec<u8>>) -> Invocation,
    F: FnOnce() -> std::result::Result<(), Source>,
>(
    perfetto: AndroidPerfettoView,
    session: Seq<char>,
    halt: H,
    pull: R,
    flush: F,
    outcome: std::result::Result<(), ErrorView>,
) -> bool {
    let halting = perfetto.device.halt_line(session);
    let pulling = perfetto.device.pull_line(perfetto.remote, perfetto.output);
    match outcome {
        Ok(_) => succeeds(halt, perfetto.device, halting) && succeeds(pull, perfetto.device, pulling)
            && flush.ensures((), Ok(())),
        Err(error) => {
            ||| fails(halt, perfetto.device, halting, error)
            ||| succeeds(halt, perfetto.device, halting) && fails(pull, perfetto.device, pulling, error)
            ||| succeeds(halt, perfetto.device, halting) && succeeds(pull, perfetto.device, pulling)
                && exists|source: Source| #[trigger]
                flush.ensures((), Err(source)) && error == (ErrorView::Io {
                    operation: "flush Android event trace"@,
                    path: perfetto.events_path,
                    source: source@,
                })
        },
    }
}

/// A session is begun detached under the process's own name, its configuration piped in, and
/// only for a trace beneath the device's trace directory.
pub proof fn law_sessions_trace_where_they_may<
    C: FnOnce(&Vec<u8>) -> std::result::Result<(), Source>,
    F: FnOnce(&Vec<u8>) -> std::result::Result<(), Source>,
    L: FnOnce(&Vec<Vec<u8>>, &str) -> std::result::Result<CommandOutput, LaunchFault>,
>(
    device: AndroidDevice,
    config: &str,
    remote: &str,
    output: Vec<u8>,
    events: Vec<u8>,
    process: u32,
    create_directory: C,
    create_file: F,
    launch: L,
    perfetto: Result<AndroidPerfetto>,
)
    requires
        AndroidPerfetto::begin::<C, F, L>.ensures(
            (
                &device,
                config,
                remote,
                &output,
                &events,
                process,
                create_directory,
                create_file,
                launch,
            ),
            perfetto,
        ),
    ensures
        perfetto is Ok ==> text::begins_with(remote@, "/data/misc/perfetto-traces/"@),
        perfetto matches Ok(perfetto) ==> perfetto@.session == Some(
            "egui_tester_"@ + text::decimal(process as nat),
        ) && perfetto@.remote == remote@ && perfetto@.output == output@ && perfetto@.events_path
            == events@ && perfetto@.device == device@,
        perfetto is Ok ==> exists|line: &Vec<Vec<u8>>, written: &str, given: CommandOutput|
            written@ == config@ && given.success && text::views(line@)[3] == text::word("shell")
                && text::views(line@)[4] == text::word("perfetto") && text::views(line@)[5]
                == text::word("--txt") && text::views(line@)[9] == encode_utf8(remote@)
                && text::views(line@)[10] == encode_utf8(
                "--detach="@ + ("egui_tester_"@ + text::decimal(process as nat)),
            ) && #[trigger] launch.ensures(
                (line, written),
                Ok::<CommandOutput, LaunchFault>(given),
            ),
{
    if perfetto is Ok {
        let line = device@.detach_line(remote@, session_name(process));
        let outcome = choose|outcome: std::result::Result<CommandOutput, LaunchFault>| #[trigger]
            launches(launch, line, config@, outcome) && device@.launch_failure(outcome) is None;
        let (arguments, written) = choose|arguments: &Vec<Vec<u8>>, written: &str|
            text::views(arguments@) == line && written@ == config@ && #[trigger] launch.ensures(
                (arguments, written),
                outcome,
            );
        let given = outcome->Ok_0;
        assert(launch.ensures((arguments, written), Ok::<CommandOutput, LaunchFault>(given)));
    }
}

/// A session ends well only where it was stopped, its trace was copied to the asked file,
/// and the event trace was flushed.
pub proof fn law_ended_sessions_leave_their_trace<
    H: FnOnce(&Vec<Vec<u8>>) -> Invocation,
    R: FnOnce(&Vec<Vec<u8>>) -> Invocation,
    F: FnOnce() -> std::result::Result<(), Source>,
>(perfetto: AndroidPerfettoView, session: Seq<char>, halt: H, pull: R, flush: F)
    requires
        seals(perfetto, session, halt, pull, flush, Ok(())),
    ensures
        flush.ensures((), Ok::<(), Source>(())),
        exists|line: &Vec<Vec<u8>>, given: Invocation| #[trigger]
            halt.ensures((line,), given) && (given.outcome matches Ok(output) && output.success)
                && text::views(line@) == seq![
                perfetto.device.adb,
                text::word("-s"),
                encode_utf8(perfetto.device.serial),
                text::word("shell"),
                text::word("perfetto"),
                encode_utf8("--attach="@ + session),
                text::word("--stop"),
            ],
        exists|line: &Vec<Vec<u8>>, given: Invocation| #[trigger]
            pull.ensures((line,), given) && (given.outcome matches Ok(output) && output.success)
                && text::views(line@) == seq![
                perfetto.device.adb,
                text::word("-s"),
                encode_utf8(perfetto.device.serial),
                text::word("pull"),
                encode_utf8(perfetto.remote),
                perfetto.output,
            ],
{
    let halting = perfetto.device.halt_line(session);
    let pulling = perfetto.device.pull_line(perfetto.remote, perfetto.output);
    assert(halting =~= seq![
        perfetto.device.adb,
        text::word("-s"),
        encode_utf8(perfetto.device.serial),
        text::word("shell"),
        text::word("perfetto"),
        encode_utf8("--attach="@ + session),
        text::word("--stop"),
    ]);
    assert(pulling =~= seq![
        perfetto.device.adb,
        text::word("-s"),
        encode_utf8(perfetto.device.serial),
        text::word("pull"),
        encode_utf8(perfetto.remote),
        perfetto.output,
    ]);
    let stopped = choose|invocation: Invocation| #[trigger]
        android::ran(halt, halting, invocation) && perfetto.device.success(invocation) is Ok;
    let line = choose|arguments: &Vec<Vec<u8>>|
        text::views(arguments@) == halting && #[trigger] halt.ensures((arguments,), stopped);
    assert(halt.ensures((line,), stopped));
    let pulled = choose|invocation: Invocation| #[trigger]
        android::ran(pull, pulling, invocation) && perfetto.device.success(invocation) is Ok;
    let copying = choose|arguments: &Vec<Vec<u8>>|
        text::views(arguments@) == pulling && #[trigger] pull.ensures((arguments,), pulled);
    assert(pull.ensures((copying,), pulled));
}

} // verus!
