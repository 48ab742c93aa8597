//! The transient service of a launch: its status, its end, and the user manager
//! that runs it.
use crate::duration::Duration;
use crate::error::{io, Error, ErrorView, Result, Source};
use crate::ospath;
use crate::ospath::join_text;
use crate::poll::Round;
use crate::text;
use crate::text::{decimal_text, glue2, glue3, glue4, glue5, lossy_text, parse_i32, push_words, same, signed_decimal_text, split_lines, split_once, tail_text, text_bytes, trim_text};
use vstd::prelude::*;
use vstd::utf8::*;

verus! {

/// What a finished helper command left behind.
#[derive(Debug)]
pub struct CommandOutput {
    pub success: bool,
    pub status: String,
    pub stdout: Vec<u8>,
    pub stderr: Vec<u8>,
}

/// Output bytes as trimmed text.
pub open spec fn trimmed(bytes: Seq<u8>) -> Seq<char> {
    text::trim(text::lossy(bytes))
}

/// Decode output bytes and trim them.
pub fn trimmed_text(bytes: &Vec<u8>) -> (text: String)
    ensures
        text@ == trimmed(bytes@),
{
    trim_text(lossy_text(bytes.as_slice()).as_str())
}

/// A failed helper command, in full. `command` is the command's own rendering.
pub fn command_failure(command: &str, output: &CommandOutput) -> (detail: String)
    ensures
        detail@ == "`"@ + command@ + "` returned "@ + output.status@ + "; stdout: "@ + trimmed(
            output.stdout@,
        ) + "; stderr: "@ + trimmed(output.stderr@),
{
    let mut detail = glue4("`", command, "` returned ", output.status.as_str());
    detail.append("; stdout: ");
    detail.append(trimmed_text(&output.stdout).as_str());
    detail.append("; stderr: ");
    detail.append(trimmed_text(&output.stderr).as_str());
    detail
}

// ---------------------------------------------------------------------------
// Status
// ---------------------------------------------------------------------------

/// What the user manager reports of a unit.
#[derive(Debug)]
pub struct UnitStatus {
    pub active_state: String,
    pub sub_state: String,
    pub result: String,
    pub code: i32,
}

/// The name in front of a line's first equals sign, when it has one.
pub open spec fn field_name(line: Seq<char>) -> Option<Seq<char>> {
    if text::first_of(line, '=') < line.len() {
        Some(line.take(text::first_of(line, '=') as int))
    } else {
        None
    }
}

/// What follows a line's first equals sign.
pub open spec fn field_value(line: Seq<char>) -> Seq<char> {
    line.skip(text::first_of(line, '=') as int + 1)
}

/// The value of a field: that of the last line that names it.
pub open spec fn field(lines: Seq<Seq<char>>, name: Seq<char>) -> Option<Seq<char>>
    decreases lines.len(),
{
    if lines.len() == 0 {
        None
    } else if field_name(lines.last()) == Some(name) {
        Some(field_value(lines.last()))
    } else {
        field(lines.drop_last(), name)
    }
}

/// The refusal of a report that omits a field.
pub open spec fn omitted(name: Seq<char>) -> ErrorView {
    ErrorView::Containment {
        layer: "systemd"@,
        detail: "unit status omitted `"@ + name + "`"@,
    }
}

fn take_field(lines: &Vec<String>, name: &str) -> (value: Result<String>)
    ensures
        match value {
            Ok(value) => field(text::strings(lines@), name@) == Some(value@),
            Err(error) => field(text::strings(lines@), name@) is None && error@ == omitted(name@),
        },
{
    let ghost all = text::strings(lines@);
    let mut left: usize = lines.len();
    assert(all.take(left as int) =~= all);
    while left > 0
        invariant
            left <= lines.len(),
            all == text::strings(lines@),
            field(all.take(left as int), name@) == field(all, name@),
        decreases left,
    {
        let ghost shorter = all.take(left as int);
        assert(shorter.last() == lines@[left - 1]@);
        assert(shorter.drop_last() =~= all.take(left - 1));
        match split_once(lines[left - 1].as_str(), '=') {
            Some((key, value)) => {
                if same(key.as_str(), name) {
                    return Ok(value);
                }
            },
            None => {},
        }
        left -= 1;
    }
    Err(
        Error::Containment {
            layer: "systemd",
            detail: glue3("unit status omitted `", name, "`"),
        },
    )
}

/// What a report's lines say, or why they say nothing usable.
pub open spec fn status_fault(lines: Seq<Seq<char>>) -> Option<ErrorView> {
    if field(lines, "ActiveState"@) is None {
        Some(omitted("ActiveState"@))
    } else if field(lines, "SubState"@) is None {
        Some(omitted("SubState"@))
    } else if field(lines, "Result"@) is None {
        Some(omitted("Result"@))
    } else if field(lines, "ExecMainStatus"@) is None {
        Some(omitted("ExecMainStatus"@))
    } else {
        let code = field(lines, "ExecMainStatus"@)->0;
        if text::integer(code) matches Some(value) && i32::MIN <= value <= i32::MAX {
            None
        } else {
            Some(
                ErrorView::Containment {
                    layer: "systemd"@,
                    detail: "invalid ExecMainStatus: "@ + text::i32_fault(code),
                },
            )
        }
    }
}

/// A status holds what the lines say.
pub open spec fn reports(lines: Seq<Seq<char>>, status: UnitStatus) -> bool {
    &&& field(lines, "ActiveState"@) == Some(status.active_state@)
    &&& field(lines, "SubState"@) == Some(status.sub_state@)
    &&& field(lines, "Result"@) == Some(status.result@)
    &&& field(lines, "ExecMainStatus"@) is Some
    &&& text::integer(field(lines, "ExecMainStatus"@)->0) == Some(status.code as int)
}

impl UnitStatus {
    /// Read the user manager's report of a unit.
    pub fn parse(text: &str) -> (status: Result<Self>)
        ensures
            match status {
                Ok(status) => status_fault(text::lines(text@)) is None && reports(
                    text::lines(text@),
                    status,
                ),
                Err(error) => status_fault(text::lines(text@)) == Some(error@),
            },
    {
        let lines = split_lines(text);
        let active_state = match take_field(&lines, "ActiveState") {
            Ok(value) => value,
            Err(error) => {
                return Err(error);
            },
        };
        let sub_state = match take_field(&lines, "SubState") {
            Ok(value) => value,
            Err(error) => {
                return Err(error);
            },
        };
        let result = match take_field(&lines, "Result") {
            Ok(value) => value,
            Err(error) => {
                return Err(error);
            },
        };
        let code = match take_field(&lines, "ExecMainStatus") {
            Ok(value) => value,
            Err(error) => {
                return Err(error);
            },
        };
        match parse_i32(code.as_str()) {
            Ok(code) => Ok(UnitStatus { active_state, sub_state, result, code }),
            Err(fault) => Err(
                Error::Containment {
                    layer: "systemd",
                    detail: glue2("invalid ExecMainStatus: ", fault.as_str()),
                },
            ),
        }
    }

    /// The main process is alive.
    pub open spec fn is_running(self) -> bool {
        self.sub_state@ == "running"@
    }

    /// The main process is alive or about to be.
    pub open spec fn is_pending(self) -> bool {
        self.sub_state@ == "running"@ || self.sub_state@ == "start"@
    }

    /// Decide whether the main process is alive.
    pub fn running(&self) -> (verdict: bool)
        ensures
            verdict == self.is_running(),
    {
        same(self.sub_state.as_str(), "running")
    }
}

/// The arguments that query a unit.
pub open spec fn status_line(unit: Seq<char>) -> Seq<Seq<u8>> {
    text::words(seq!["--user", "show"]).push(encode_utf8(unit)) + text::words(
        seq![
            "--property=ActiveState",
            "--property=SubState",
            "--property=Result",
            "--property=ExecMainStatus",
        ],
    )
}

/// Spell the arguments that query a unit.
pub fn status_argv(unit: &str) -> (arguments: Vec<Vec<u8>>)
    ensures
        text::views(arguments@) == status_line(unit@),
{
    let mut arguments: Vec<Vec<u8>> = Vec::new();
    push_words(
        &mut arguments,
        &[
            "--user",
            "show",
            unit,
            "--property=ActiveState",
            "--property=SubState",
            "--property=Result",
            "--property=ExecMainStatus",
        ],
    );
    assert(text::views(arguments@) =~= status_line(unit@));
    arguments
}

/// A unit operation that the user manager refused.
pub open spec fn refused(attempt: Seq<char>, unit: Seq<char>, stderr: Seq<u8>) -> ErrorView {
    ErrorView::Containment {
        layer: "systemd"@,
        detail: attempt + unit + "`: "@ + trimmed(stderr),
    }
}

/// Whether the outcome of a query is read as a status.
pub open spec fn judged(unit: Seq<char>, output: CommandOutput, status: Result<UnitStatus>) -> bool {
    match status {
        Ok(status) => output.success && status_fault(
            text::lines(text::lossy(output.stdout@)),
        ) is None && reports(text::lines(text::lossy(output.stdout@)), status),
        Err(error) => if !output.success {
            error@ == refused("could not query `"@, unit, output.stderr@)
        } else {
            status_fault(text::lines(text::lossy(output.stdout@))) == Some(error@)
        },
    }
}

/// Read a unit's status from the outcome of its query.
pub fn status(unit: &str, output: &CommandOutput) -> (status: Result<UnitStatus>)
    ensures
        judged(unit@, *output, status),
{
    if !output.success {
        return Err(
            Error::Containment {
                layer: "systemd",
                detail: glue4(
                    "could not query `",
                    unit,
                    "`: ",
                    trimmed_text(&output.stderr).as_str(),
                ),
            },
        );
    }
    UnitStatus::parse(lossy_text(output.stdout.as_slice()).as_str())
}

// ---------------------------------------------------------------------------
// Liveness
// ---------------------------------------------------------------------------

/// The last time a unit was checked, and whether it was running.
#[derive(Clone, Copy, Debug)]
pub struct Liveness {
    pub checked_ns: u64,
    pub running: bool,
}

/// A unit seen running less than a tenth of a second ago needs no new query.
pub open spec fn fresh(liveness: Option<Liveness>, now_ns: u64) -> bool {
    liveness matches Some(seen) && seen.running && now_ns - seen.checked_ns < 100_000_000
}

/// Whether a unit needs no new query.
pub fn liveness_is_fresh(liveness: Option<Liveness>, now_ns: u64) -> (verdict: bool)
    ensures
        verdict == fresh(liveness, now_ns),
{
    match liveness {
        Some(seen) => seen.running && (now_ns <= seen.checked_ns || now_ns - seen.checked_ns
            < 100_000_000),
        None => false,
    }
}

/// Last bytes of a log kept in diagnostics.
pub const TAIL_BYTES: usize = 4096;

/// The trimmed end of a log.
pub fn tail(log: &str, limit: usize) -> (tail: String)
    ensures
        tail@ == text::trim(text::tail_of(log@, limit as nat)),
{
    trim_text(tail_text(log, limit).as_str())
}

/// A log's text, or why it could not be read.
pub open spec fn log_text(path: Seq<u8>, bytes: std::result::Result<Vec<u8>, Source>) -> Seq<char> {
    match bytes {
        Ok(bytes) => text::lossy(bytes@),
        Err(source) => "<could not read "@ + text::lossy(path) + ": "@ + source.text@ + ">"@,
    }
}

/// Read a log's text, or why it could not be read.
pub fn read_lossy(path: &Vec<u8>, bytes: std::result::Result<Vec<u8>, Source>) -> (log: String)
    ensures
        log@ == log_text(path@, bytes),
{
    match bytes {
        Ok(bytes) => lossy_text(bytes.as_slice()),
        Err(source) => glue5(
            "<could not read ",
            lossy_text(path.as_slice()).as_str(),
            ": ",
            source.text.as_str(),
            ">",
        ),
    }
}

/// How a retired application is reported.
pub open spec fn exited(
    unit: Seq<char>,
    waiting: Seq<char>,
    status: UnitStatus,
    stderr: Seq<char>,
) -> ErrorView {
    ErrorView::ApplicationExited {
        unit,
        waiting,
        detail: "active="@ + status.active_state@ + ", sub="@ + status.sub_state@ + ", result="@
            + status.result@ + ", code="@ + text::signed_decimal(status.code as int)
            + "; stderr: "@ + text::trim(text::tail_of(stderr, 4096)),
    }
}

/// Demand that a unit is running. `stderr` is the application's log.
pub fn ensure_running(unit: &str, waiting: &str, status: &UnitStatus, stderr: &str) -> (verdict:
    Result<()>)
    ensures
        match verdict {
            Ok(_) => status.is_running(),
            Err(error) => !status.is_running() && error@ == exited(
                unit@,
                waiting@,
                *status,
                stderr@,
            ),
        },
{
    if status.running() {
        return Ok(());
    }
    let mut detail = glue4(
        "active=",
        status.active_state.as_str(),
        ", sub=",
        status.sub_state.as_str(),
    );
    detail.append(", result=");
    detail.append(status.result.as_str());
    detail.append(", code=");
    detail.append(signed_decimal_text(status.code as i64).as_str());
    detail.append("; stderr: ");
    detail.append(tail(stderr, TAIL_BYTES).as_str());
    Err(Error::ApplicationExited { unit: unit.to_owned(), waiting: waiting.to_owned(), detail })
}

// ---------------------------------------------------------------------------
// Ends
// ---------------------------------------------------------------------------

/// Exit facts retained by the transient service.
#[derive(Debug)]
pub struct Exit {
    pub code: i32,
    pub result: String,
    pub stdout: String,
    pub stderr: String,
}

impl Exit {
    /// The application exited with code zero and the service agrees.
    pub fn success(&self) -> (verdict: bool)
        ensures
            verdict == (self.code == 0 && self.result@ == "success"@),
    {
        self.code == 0 && same(self.result.as_str(), "success")
    }
}

/// The exit facts of a retired unit.
pub fn exit_facts(status: UnitStatus, stdout: String, stderr: String) -> (exit: Exit)
    ensures
        exit.code == status.code,
        exit.result@ == status.result@,
        exit.stdout@ == stdout@,
        exit.stderr@ == stderr@,
{
    Exit { code: status.code, result: status.result, stdout, stderr }
}

/// One round of waiting for an external product predicate, once the application
/// has proved to be running.
pub fn until_round(held: bool, expired: bool, description: &str, timeout: Duration) -> (round:
    Result<Round<()>>)
    ensures
        match round {
            Ok(Round::Done(_)) => held,
            Ok(Round::Again(pause)) => !held && !expired && pause == 15,
            Err(error) => !held && expired && error@ == (ErrorView::Timeout {
                waiting: description@,
                timeout: timeout@,
            }),
        },
{
    if held {
        Ok(Round::Done(()))
    } else if expired {
        Err(Error::Timeout { waiting: description.to_owned(), timeout })
    } else {
        Ok(Round::Again(15))
    }
}

/// The arguments that stop a unit.
pub open spec fn stop_line(unit: Seq<char>) -> Seq<Seq<u8>> {
    text::words(seq!["--user", "stop"]).push(encode_utf8(unit))
}

/// Spell the arguments that stop a unit.
pub fn stop_argv(unit: &str) -> (arguments: Vec<Vec<u8>>)
    ensures
        text::views(arguments@) == stop_line(unit@),
{
    let mut arguments: Vec<Vec<u8>> = Vec::new();
    push_words(&mut arguments, &["--user", "stop", unit]);
    assert(text::views(arguments@) =~= stop_line(unit@));
    arguments
}

/// The arguments that forget a unit's failure.
pub open spec fn reset_line(unit: Seq<char>) -> Seq<Seq<u8>> {
    text::words(seq!["--user", "reset-failed"]).push(encode_utf8(unit))
}

/// Spell the arguments that forget a unit's failure.
pub fn reset_argv(unit: &str) -> (arguments: Vec<Vec<u8>>)
    ensures
        text::views(arguments@) == reset_line(unit@),
{
    let mut arguments: Vec<Vec<u8>> = Vec::new();
    push_words(&mut arguments, &["--user", "reset-failed", unit]);
    assert(text::views(arguments@) =~= reset_line(unit@));
    arguments
}

/// The outcome of stopping a unit.
pub fn terminate_verdict(unit: &str, output: &CommandOutput) -> (verdict: Result<()>)
    ensures
        match verdict {
            Ok(_) => output.success,
            Err(error) => !output.success && error@ == refused(
                "could not stop `"@,
                unit@,
                output.stderr@,
            ),
        },
{
    if output.success {
        return Ok(());
    }
    Err(
        Error::Containment {
            layer: "systemd",
            detail: glue4("could not stop `", unit, "`: ", trimmed_text(&output.stderr).as_str()),
        },
    )
}

// ---------------------------------------------------------------------------
// The user manager
// ---------------------------------------------------------------------------

/// The canonical session bus of a user.
#[derive(Debug)]
pub struct UserBus {
    pub runtime: Vec<u8>,
    pub address: Vec<u8>,
}

/// A user's runtime directory.
pub open spec fn runtime_of(uid: u32) -> Seq<u8> {
    encode_utf8("/run/user/"@ + text::decimal(uid as nat))
}

/// A user's session bus.
pub open spec fn bus_of(uid: u32) -> Seq<u8> {
    ospath::joined(runtime_of(uid), text::word("bus"))
}

/// Why a user has no usable bus, when there is none. `runtime` tells whether the
/// runtime path is a directory, and `bus` whether the bus path is a socket.
pub open spec fn bus_fault(
    uid: u32,
    runtime: std::result::Result<bool, Source>,
    bus: std::result::Result<bool, Source>,
) -> Option<ErrorView> {
    match runtime {
        Err(source) => Some(
            ErrorView::Io {
                operation: "inspect user runtime directory"@,
                path: runtime_of(uid),
                source: source@,
            },
        ),
        Ok(false) => Some(
            ErrorView::Containment {
                layer: "systemd user manager"@,
                detail: "XDG runtime `"@ + text::lossy(runtime_of(uid))
                    + "` is not a directory"@,
            },
        ),
        Ok(true) => match bus {
            Err(source) => Some(
                ErrorView::Io {
                    operation: "inspect user session bus"@,
                    path: bus_of(uid),
                    source: source@,
                },
            ),
            Ok(false) => Some(
                ErrorView::Containment {
                    layer: "systemd user manager"@,
                    detail: "canonical user bus `"@ + text::lossy(bus_of(uid))
                        + "` is not a socket"@,
                },
            ),
            Ok(true) => None,
        },
    }
}

/// Whether inspecting a path can come to an outcome.
pub open spec fn inspects<I: FnOnce(&Vec<u8>) -> std::result::Result<bool, Source>>(
    inspect: I,
    path: Seq<u8>,
    outcome: std::result::Result<bool, Source>,
) -> bool {
    exists|place: &Vec<u8>| place@ == path && #[trigger] inspect.ensures((place,), outcome)
}

/// Whether a path may be inspected.
pub open spec fn inspectable<I: FnOnce(&Vec<u8>) -> std::result::Result<bool, Source>>(
    inspect: I,
    path: Seq<u8>,
) -> bool {
    forall|place: &Vec<u8>| place@ == path ==> #[trigger] inspect.requires((place,))
}

/// A user's bus.
pub open spec fn is_bus(bus: UserBus, uid: u32) -> bool {
    bus.runtime@ == runtime_of(uid) && bus.address@ == encode_utf8(
        "unix:path="@ + text::lossy(bus_of(uid)),
    )
}

/// Whether asking a user's manager can come to an outcome.
pub open spec fn asks<A: FnOnce(&UserBus) -> std::result::Result<CommandOutput, Source>>(
    ask: A,
    uid: u32,
    outcome: std::result::Result<CommandOutput, Source>,
) -> bool {
    exists|bus: &UserBus| is_bus(*bus, uid) && #[trigger] ask.ensures((bus,), outcome)
}

/// What is wrong with a manager's answer, if anything.
pub open spec fn manager_fault(answer: std::result::Result<CommandOutput, Source>) -> Option<
    ErrorView,
> {
    match answer {
        Err(source) => Some(
            ErrorView::Io {
                operation: "contact systemd user manager"@,
                path: text::word("systemctl"),
                source: source@,
            },
        ),
        Ok(output) => if output.success {
            None
        } else {
            Some(
                ErrorView::Containment {
                    layer: "systemd user manager"@,
                    detail: "canonical user bus exists but `systemctl --user` failed: "@ + trimmed(
                        output.stderr@,
                    ),
                },
            )
        },
    }
}

impl UserBus {
    /// The paths that discovery inspects: the runtime directory and the bus.
    pub fn paths(uid: u32) -> (paths: (Vec<u8>, Vec<u8>))
        ensures
            paths.0@ == runtime_of(uid),
            paths.1@ == bus_of(uid),
    {
        let runtime = text_bytes(
            glue2("/run/user/", decimal_text(uid as u128).as_str()).as_str(),
        );
        let bus = join_text(runtime.as_slice(), "bus");
        (runtime, bus)
    }

    /// Find a user's bus, and prove that a manager answers on it.
    pub fn contact<
        D: FnOnce(&Vec<u8>) -> std::result::Result<bool, Source>,
        K: FnOnce(&Vec<u8>) -> std::result::Result<bool, Source>,
        A: FnOnce(&UserBus) -> std::result::Result<CommandOutput, Source>,
    >(uid: u32, is_directory: D, is_socket: K, ask: A) -> (found: Result<Self>)
        requires
            inspectable(is_directory, runtime_of(uid)),
            inspects(is_directory, runtime_of(uid), Ok(true)) ==> inspectable(
                is_socket,
                bus_of(uid),
            ),
            forall|
                runtime: std::result::Result<bool, Source>,
                socket: std::result::Result<bool, Source>,
                bus: &UserBus,
            |
                #[trigger] inspects(is_directory, runtime_of(uid), runtime) && #[trigger] inspects(
                    is_socket,
                    bus_of(uid),
                    socket,
                ) && bus_fault(uid, runtime, socket) is None && is_bus(*bus, uid)
                    ==> #[trigger] ask.requires((bus,)),
        ensures
            exists|runtime: std::result::Result<bool, Source>,
                bus: std::result::Result<bool, Source>,
                answer: std::result::Result<CommandOutput, Source>|
                #[trigger] inspects(is_directory, runtime_of(uid), runtime) && (runtime == Ok::<
                    bool,
                    Source,
                >(true) ==> inspects(is_socket, bus_of(uid), bus)) && (bus_fault(
                    uid,
                    runtime,
                    bus,
                ) is None ==> asks(ask, uid, answer)) && match (
                    #[trigger] bus_fault(uid, runtime, bus),
                    #[trigger] manager_fault(answer),
                ) {
                    (Some(fault), _) => found matches Err(error) && error@ == fault,
                    (None, Some(fault)) => found matches Err(error) && error@ == fault,
                    (None, None) => found matches Ok(found) && is_bus(found, uid),
                },
    {
        let (runtime, bus) = Self::paths(uid);
        let directory = is_directory(&runtime);
        assert(inspects(is_directory, runtime_of(uid), directory));
        let usable = match &directory {
            Ok(usable) => *usable,
            Err(_) => false,
        };
        let socket = if usable {
            is_socket(&bus)
        } else {
            Ok(false)
        };
        assert(usable ==> inspects(is_socket, bus_of(uid), socket));
        let found = match Self::discover(uid, directory, socket) {
            Ok(found) => found,
            Err(error) => {
                assert(bus_fault(uid, directory, socket) == Some(error@));
                assert(manager_fault(Err(arbitrary())) is Some);
                return Err(error);
            },
        };
        assert(bus_fault(uid, directory, socket) is None);
        let answer = ask(&found);
        assert(asks(ask, uid, answer));
        match answer {
            Err(source) => {
                assert(manager_fault(answer) is Some);
                Err(io("contact systemd user manager", &text_bytes("systemctl"), source))
            },
            Ok(output) => match Self::verify(&output) {
                Ok(_) => {
                    assert(manager_fault(answer) is None);
                    Ok(found)
                },
                Err(error) => {
                    assert(manager_fault(answer) == Some(error@));
                    Err(error)
                },
            },
        }
    }

    /// Accept a user's bus from what was found at its paths.
    pub fn discover(
        uid: u32,
        runtime_is_dir: std::result::Result<bool, Source>,
        bus_is_socket: std::result::Result<bool, Source>,
    ) -> (found: Result<Self>)
        ensures
            match found {
                Ok(found) => bus_fault(uid, runtime_is_dir, bus_is_socket) is None && found.runtime@
                    == runtime_of(uid) && found.address@ == encode_utf8(
                    "unix:path="@ + text::lossy(bus_of(uid)),
                ),
                Err(error) => bus_fault(uid, runtime_is_dir, bus_is_socket) == Some(error@),
            },
    {
        let (runtime, bus) = Self::paths(uid);
        match runtime_is_dir {
            Err(source) => {
                return Err(io("inspect user runtime directory", &runtime, source));
            },
            Ok(is_dir) => {
                if !is_dir {
                    return Err(
                        Error::Containment {
                            layer: "systemd user manager",
                            detail: glue3(
                                "XDG runtime `",
                                lossy_text(runtime.as_slice()).as_str(),
                                "` is not a directory",
                            ),
                        },
                    );
                }
            },
        }
        match bus_is_socket {
            Err(source) => {
                return Err(io("inspect user session bus", &bus, source));
            },
            Ok(is_socket) => {
                if !is_socket {
                    return Err(
                        Error::Containment {
                            layer: "systemd user manager",
                            detail: glue3(
                                "canonical user bus `",
                                lossy_text(bus.as_slice()).as_str(),
                                "` is not a socket",
                            ),
                        },
                    );
                }
            },
        }
        let address = text_bytes(
            glue2("unix:path=", lossy_text(bus.as_slice()).as_str()).as_str(),
        );
        Ok(UserBus { runtime, address })
    }

    /// The outcome of contacting the user manager.
    pub fn verify(output: &CommandOutput) -> (verdict: Result<()>)
        ensures
            match verdict {
                Ok(_) => output.success,
                Err(error) => !output.success && error@ == (ErrorView::Containment {
                    layer: "systemd user manager"@,
                    detail: "canonical user bus exists but `systemctl --user` failed: "@ + trimmed(
                        output.stderr@,
                    ),
                }),
            },
    {
        if output.success {
            return Ok(());
        }
        Err(
            Error::Containment {
                layer: "systemd user manager",
                detail: glue2(
                    "canonical user bus exists but `systemctl --user` failed: ",
                    trimmed_text(&output.stderr).as_str(),
                ),
            },
        )
    }
}

// ---------------------------------------------------------------------------
// Laws
// ---------------------------------------------------------------------------

/// Whether a report's line gives a field a value.
pub open spec fn gives(line: Seq<char>, name: Seq<char>, value: Seq<char>) -> bool {
    line == name.push('=') + value
}

/// Whether a report's line is about a field.
pub open spec fn concerns(line: Seq<char>, name: Seq<char>) -> bool {
    exists|value: Seq<char>| #[trigger] gives(line, name, value)
}

/// Whether a report tells the value of a field: a line gives it, and no later line is
/// about the field.
pub open spec fn tells(lines: Seq<Seq<char>>, name: Seq<char>, value: Seq<char>) -> bool {
    exists|at: int|
        0 <= at < lines.len() && #[trigger] gives(lines[at], name, value) && forall|later: int|
            at < later < lines.len() ==> !concerns(#[trigger] lines[later], name)
}

proof fn lemma_named(line: Seq<char>, name: Seq<char>)
    requires
        !name.contains('='),
    ensures
        field_name(line) == Some(name) <==> concerns(line, name),
        field_name(line) == Some(name) ==> gives(line, name, field_value(line)),
{
    let cut = text::first_of(line, '=') as int;
    text::lemma_first_of_bounds(line, '=');
    if field_name(line) == Some(name) {
        assert(line =~= name.push('=') + field_value(line));
        assert(gives(line, name, field_value(line)));
    }
    if concerns(line, name) {
        let value = choose|value: Seq<char>| #[trigger] gives(line, name, value);
        assert forall|i: int| 0 <= i < name.len() implies line[i] != '=' by {
            assert(line[i] == name[i]);
            assert(name.contains(name[i]));
        }
        assert(line[name.len() as int] == '=');
        text::lemma_first_of(line, '=', name.len() as int);
        assert(line.take(cut) =~= name);
    }
}

proof fn lemma_field_told(lines: Seq<Seq<char>>, name: Seq<char>)
    requires
        !name.contains('='),
    ensures
        field(lines, name) matches Some(value) ==> tells(lines, name, value),
        field(lines, name) is None ==> forall|i: int|
            0 <= i < lines.len() ==> !concerns(#[trigger] lines[i], name),
    decreases lines.len(),
{
    if lines.len() > 0 {
        let last = lines.last();
        let earlier = lines.drop_last();
        lemma_named(last, name);
        if field_name(last) == Some(name) {
            assert(gives(lines[lines.len() - 1], name, field_value(last)));
        } else {
            lemma_field_told(earlier, name);
            if let Some(value) = field(earlier, name) {
                let at = choose|at: int|
                    0 <= at < earlier.len() && #[trigger] gives(earlier[at], name, value)
                        && forall|later: int|
                        at < later < earlier.len() ==> !concerns(#[trigger] earlier[later], name);
                assert(gives(lines[at], name, value));
                assert forall|later: int| at < later < lines.len() implies !concerns(
                    #[trigger] lines[later],
                    name,
                ) by {
                    if later < earlier.len() {
                        assert(lines[later] == earlier[later]);
                    }
                }
            } else {
                assert forall|i: int| 0 <= i < lines.len() implies !concerns(
                    #[trigger] lines[i],
                    name,
                ) by {
                    if i < earlier.len() {
                        assert(lines[i] == earlier[i]);
                    }
                }
            }
        }
    }
}

proof fn lemma_plain_field_names()
    ensures
        !"ActiveState"@.contains('='),
        !"SubState"@.contains('='),
        !"Result"@.contains('='),
        !"ExecMainStatus"@.contains('='),
{
    reveal_strlit("ActiveState");
    reveal_strlit("SubState");
    reveal_strlit("Result");
    reveal_strlit("ExecMainStatus");
}

/// A report is read by its lines: each of the four facts is what the last line about it
/// gives, and a report without a line about one of them is refused.
pub proof fn law_reports_tell_their_status(
    text: &str,
    status: UnitStatus,
    incomplete: &str,
    answer: Result<UnitStatus>,
    absent: Seq<char>,
)
    requires
        UnitStatus::parse.ensures((text,), Ok(status)),
        UnitStatus::parse.ensures((incomplete,), answer),
        absent == "ActiveState"@ || absent == "SubState"@ || absent == "Result"@ || absent
            == "ExecMainStatus"@,
        forall|i: int|
            0 <= i < text::lines(incomplete@).len() ==> !concerns(
                #[trigger] text::lines(incomplete@)[i],
                absent,
            ),
    ensures
        tells(text::lines(text@), "ActiveState"@, status.active_state@),
        tells(text::lines(text@), "SubState"@, status.sub_state@),
        tells(text::lines(text@), "Result"@, status.result@),
        exists|code: Seq<char>| #[trigger]
            tells(text::lines(text@), "ExecMainStatus"@, code) && text::integer(code) == Some(
                status.code as int,
            ),
        answer is Err,
{
    let lines = text::lines(text@);
    lemma_plain_field_names();
    lemma_field_told(lines, "ActiveState"@);
    lemma_field_told(lines, "SubState"@);
    lemma_field_told(lines, "Result"@);
    lemma_field_told(lines, "ExecMainStatus"@);
    assert(tells(lines, "ExecMainStatus"@, field(lines, "ExecMainStatus"@)->0));
    let rest = text::lines(incomplete@);
    lemma_field_told(rest, absent);
    if let Some(value) = field(rest, absent) {
        let at = choose|at: int| 0 <= at < rest.len() && #[trigger] gives(rest[at], absent, value);
        assert(concerns(rest[at], absent));
    }
}

/// The outcome of a query is a status only where the query succeeded, and a service that
/// is not running is reported with its name and with what was waited for.
pub proof fn law_failed_queries_tell_no_status(
    unit: &str,
    output: CommandOutput,
    answer: Result<UnitStatus>,
    waiting: &str,
    status: UnitStatus,
    stderr: &str,
    verdict: Result<()>,
)
    requires
        self::status.ensures((unit, &output), answer),
        ensure_running.ensures((unit, waiting, &status, stderr), verdict),
    ensures
        answer is Ok ==> output.success,
        output.success ==> (answer matches Ok(read) ==> tells(
            text::lines(text::lossy(output.stdout@)),
            "SubState"@,
            read.sub_state@,
        )),
        verdict is Ok <==> status.sub_state@ == "running"@,
        verdict matches Err(error) ==> (error@ matches ErrorView::ApplicationExited {
            unit: named,
            waiting: awaited,
            ..
        } && named == unit@ && awaited == waiting@),
{
    lemma_plain_field_names();
    lemma_field_told(text::lines(text::lossy(output.stdout@)), "SubState"@);
}

/// A service runs while its main process does, a proof of that lasts less than a tenth of
/// a second, and only a clean exit with a clean result is a success.
pub proof fn law_running_is_told_by_the_substate(
    status: UnitStatus,
    running: bool,
    liveness: Option<Liveness>,
    now: u64,
    fresh: bool,
    exit: Exit,
    success: bool,
)
    requires
        UnitStatus::running.ensures((&status,), running),
        liveness_is_fresh.ensures((liveness, now), fresh),
        Exit::success.ensures((&exit,), success),
    ensures
        running <==> status.sub_state@ == "running"@,
        liveness is None ==> !fresh,
        liveness matches Some(seen) ==> (fresh <==> seen.running && now < seen.checked_ns
            + 100_000_000),
        success <==> exit.code == 0 && exit.result@ == "success"@,
{
}

/// An exit keeps the status code, the result and both logs.
pub proof fn law_exits_keep_their_facts(
    status: UnitStatus,
    stdout: String,
    stderr: String,
    exit: Exit,
)
    requires
        exit_facts.ensures((status, stdout, stderr), exit),
    ensures
        exit.code == status.code,
        exit.result@ == status.result@,
        exit.stdout@ == stdout@,
        exit.stderr@ == stderr@,
{
}

/// A predicate that holds ends its wait, and only one that does not hold in time fails it.
pub proof fn law_predicates_are_awaited(
    held: bool,
    expired: bool,
    description: &str,
    timeout: Duration,
    round: Result<Round<()>>,
)
    requires
        until_round.ensures((held, expired, description, timeout), round),
    ensures
        (round matches Ok(Round::Done(_))) <==> held,
        (round matches Ok(Round::Again(_))) <==> !held && !expired,
        round matches Err(error) ==> (error@ matches ErrorView::Timeout { waiting, timeout: limit }
            && waiting == description@ && limit == timeout@),
{
}

/// The user manager is asked for exactly the unit meant: its status by four properties, its
/// end, and the forgetting of its failure.
pub proof fn law_units_are_addressed_by_name(
    unit: &str,
    asked: Vec<Vec<u8>>,
    stopped: Vec<Vec<u8>>,
    forgotten: Vec<Vec<u8>>,
)
    requires
        status_argv.ensures((unit,), asked),
        stop_argv.ensures((unit,), stopped),
        reset_argv.ensures((unit,), forgotten),
    ensures
        text::views(asked@) == seq![
            text::word("--user"),
            text::word("show"),
            encode_utf8(unit@),
            text::word("--property=ActiveState"),
            text::word("--property=SubState"),
            text::word("--property=Result"),
            text::word("--property=ExecMainStatus"),
        ],
        text::views(stopped@) == seq![
            text::word("--user"),
            text::word("stop"),
            encode_utf8(unit@),
        ],
        text::views(forgotten@) == seq![
            text::word("--user"),
            text::word("reset-failed"),
            encode_utf8(unit@),
        ],
{
}

/// A service counts as stopped exactly when the user manager said so, and a manager counts
/// as there exactly when it answered.
pub proof fn law_refusals_are_reported(
    unit: &str,
    output: CommandOutput,
    stopped: Result<()>,
    present: Result<()>,
)
    requires
        terminate_verdict.ensures((unit, &output), stopped),
        UserBus::verify.ensures((&output,), present),
    ensures
        stopped is Ok <==> output.success,
        present is Ok <==> output.success,
        stopped matches Err(error) ==> error@ is Containment,
        present matches Err(error) ==> error@ is Containment,
{
}

/// A user's bus is accepted exactly when the runtime directory is a directory and the bus
/// is a socket, and it is the one beneath the user's own runtime directory.
pub proof fn law_buses_are_the_users_own(
    uid: u32,
    runtime: std::result::Result<bool, Source>,
    bus: std::result::Result<bool, Source>,
    found: Result<UserBus>,
)
    requires
        UserBus::discover.ensures((uid, runtime, bus), found),
    ensures
        found is Ok <==> runtime == Ok::<bool, Source>(true) && bus == Ok::<bool, Source>(true),
        found matches Ok(found) ==> found.runtime@ == encode_utf8(
            "/run/user/"@ + text::decimal(uid as nat),
        ) && found.address@ == encode_utf8(
            "unix:path="@ + text::lossy(ospath::joined(found.runtime@, text::word("bus"))),
        ),
{
}

} // verus!
