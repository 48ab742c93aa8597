//! Android devices driven through the debug bridge.
use crate::error::{Error, ErrorView, Result, Source};
use crate::host;
use crate::pixels;
use crate::pixels::{Frame, FrameView};
use crate::service::unit::CommandOutput;
use crate::text;
use crate::text::{characters, contains, copy_bytes, glue2, glue3, glue4, glue5, lossy_text, parse_u32, push_bytes, push_word, push_words, same, split_lines, split_once, starts_with, strip_prefix, trim_start_text, trim_text};
use vstd::prelude::*;
use vstd::utf8::*;

pub mod choreography;
pub mod perfetto;

verus! {

/// One ADB-addressable Android device and egui-tester instrumentation endpoint.
#[derive(Debug)]
pub struct AndroidDevice {
    adb: Vec<u8>,
    serial: String,
    driver: String,
}

/// Content of an [`AndroidDevice`].
#[verifier::ext_equal]
pub struct AndroidDeviceView {
    pub adb: Seq<u8>,
    pub serial: Seq<char>,
    pub driver: Seq<char>,
}

impl View for AndroidDevice {
    type V = AndroidDeviceView;

    closed spec fn view(&self) -> AndroidDeviceView {
        AndroidDeviceView { adb: self.adb@, serial: self.serial@, driver: self.driver@ }
    }
}

impl Clone for AndroidDevice {
    fn clone(&self) -> (copy: Self)
        ensures
            copy@ == self@,
    {
        AndroidDevice {
            adb: copy_bytes(self.adb.as_slice()),
            serial: self.serial.clone(),
            driver: self.driver.clone(),
        }
    }
}

// ---------------------------------------------------------------------------
// Commands
// ---------------------------------------------------------------------------

/// One run of the debug bridge: how the command renders, and what became of it.
#[derive(Debug)]
pub struct Invocation {
    pub rendering: String,
    pub outcome: std::result::Result<CommandOutput, Source>,
}

/// Whether running a command line can go so.
pub open spec fn ran<R: FnOnce(&Vec<Vec<u8>>) -> Invocation>(
    run: R,
    line: Seq<Seq<u8>>,
    invocation: Invocation,
) -> bool {
    exists|arguments: &Vec<Vec<u8>>|
        text::views(arguments@) == line && #[trigger] run.ensures((arguments,), invocation)
}

/// Whether a command line can be run. Of no other line is anything known.
pub open spec fn runnable<R: FnOnce(&Vec<Vec<u8>>) -> Invocation>(
    run: R,
    line: Seq<Seq<u8>>,
) -> bool {
    forall|arguments: &Vec<Vec<u8>>|
        text::views(arguments@) == line ==> #[trigger] run.requires((arguments,))
}

/// Whether a command line can be run again and again. Of no other line is anything
/// known.
pub open spec fn repeatable<R: Fn(&Vec<Vec<u8>>) -> Invocation>(
    run: &R,
    line: Seq<Seq<u8>>,
) -> bool {
    forall|arguments: &Vec<Vec<u8>>|
        text::views(arguments@) == line ==> #[trigger] run.requires((arguments,))
}

impl AndroidDeviceView {
    /// The command line of a bridge command for this device.
    pub open spec fn line(self, arguments: Seq<Seq<u8>>) -> Seq<Seq<u8>> {
        seq![self.adb, text::word("-s"), encode_utf8(self.serial)] + arguments
    }

    /// Asks for the device's state.
    pub open spec fn state_line(self) -> Seq<Seq<u8>> {
        self.line(text::words(seq!["get-state"]))
    }

    /// Installs a package, replacing an older one.
    pub open spec fn install_line(self, apk: Seq<u8>) -> Seq<Seq<u8>> {
        self.line(text::words(seq!["install", "-r", "-t"]).push(apk))
    }

    /// Stops a package.
    pub open spec fn stop_line(self, package: &str) -> Seq<Seq<u8>> {
        self.line(text::words(seq!["shell", "am", "force-stop", package]))
    }

    /// Clears a package's data.
    pub open spec fn clear_line(self, package: &str) -> Seq<Seq<u8>> {
        self.line(text::words(seq!["shell", "pm", "clear", package]))
    }

    /// Starts a package's native activity.
    pub open spec fn start_line(self, package: Seq<char>) -> Seq<Seq<u8>> {
        self.line(
            text::words(seq!["shell", "am", "start", "-W", "-n"]).push(
                encode_utf8(package + "/android.app.NativeActivity"@),
            ),
        )
    }

    /// Asks for the physical size.
    pub open spec fn size_line(self) -> Seq<Seq<u8>> {
        self.line(text::words(seq!["shell", "wm", "size"]))
    }

    /// Asks for the activities.
    pub open spec fn activities_line(self) -> Seq<Seq<u8>> {
        self.line(text::words(seq!["shell", "dumpsys", "activity", "activities"]))
    }

    /// Captures the screen as a PNG stream.
    pub open spec fn capture_line(self) -> Seq<Seq<u8>> {
        self.line(text::words(seq!["exec-out", "screencap", "-p"]))
    }

    /// What a run of the bridge amounts to: its output, or why it failed.
    pub open spec fn checked(self, invocation: Invocation) -> std::result::Result<
        CommandOutput,
        ErrorView,
    > {
        match invocation.outcome {
            Err(source) => Err(
                ErrorView::Io {
                    operation: "run ADB command"@,
                    path: self.adb,
                    source: source@,
                },
            ),
            Ok(output) => if output.success {
                Ok(output)
            } else {
                Err(
                    ErrorView::Command {
                        command: invocation.rendering@,
                        status: output.status@,
                        stderr: text::lossy(output.stderr@),
                    },
                )
            },
        }
    }
}

/// A failed product verdict.
pub open spec fn failed(detail: Seq<char>) -> std::result::Result<(), ErrorView> {
    Err(ErrorView::Verdict { detail })
}

impl AndroidDevice {
    /// A device by its serial number, with the bridge found by name.
    pub fn new(serial: &str) -> (device: Self)
        ensures
            device@ == (AndroidDeviceView {
                adb: text::word("adb"),
                serial: serial@,
                driver: "moe.swarm.eguitester.driver/moe.swarm.eguitester.driver.Driver"@,
            }),
    {
        AndroidDevice {
            adb: text::text_bytes("adb"),
            serial: serial.to_owned(),
            driver: "moe.swarm.eguitester.driver/moe.swarm.eguitester.driver.Driver".to_owned(),
        }
    }

    /// Use this bridge executable.
    pub fn adb(self, executable: Vec<u8>) -> (device: Self)
        ensures
            device@ == (AndroidDeviceView { adb: executable@, ..self@ }),
    {
        AndroidDevice { adb: executable, serial: self.serial, driver: self.driver }
    }

    /// Use this instrumentation component.
    pub fn driver(self, component: &str) -> (device: Self)
        ensures
            device@ == (AndroidDeviceView { driver: component@, ..self@ }),
    {
        AndroidDevice { adb: self.adb, serial: self.serial, driver: component.to_owned() }
    }

    /// The device's serial number.
    pub fn serial(&self) -> (serial: &str)
        ensures
            serial@ == self@.serial,
    {
        self.serial.as_str()
    }

    /// The bridge executable.
    pub fn bridge(&self) -> (executable: &Vec<u8>)
        ensures
            executable@ == self@.adb,
    {
        &self.adb
    }

    /// The command line of a bridge command for this device.
    pub fn command(&self, arguments: &Vec<Vec<u8>>) -> (line: Vec<Vec<u8>>)
        ensures
            text::views(line@) == self@.line(text::views(arguments@)),
    {
        let mut line: Vec<Vec<u8>> = Vec::new();
        push_bytes(&mut line, self.adb.as_slice());
        push_word(&mut line, "-s");
        push_word(&mut line, self.serial.as_str());
        text::push_all(&mut line, arguments);
        assert(text::views(line@) =~= self@.line(text::views(arguments@)));
        line
    }

    /// Run a bridge command, and demand that it succeeds.
    pub fn checked<R: FnOnce(&Vec<Vec<u8>>) -> Invocation>(&self, run: R, arguments: &Vec<Vec<u8>>) -> (
        output: Result<CommandOutput>)
        requires
            runnable(run, self@.line(text::views(arguments@))),
        ensures
            exists|invocation: Invocation| #[trigger]
                ran(run, self@.line(text::views(arguments@)), invocation) && match output {
                    Ok(output) => self@.checked(invocation) == Ok::<_, ErrorView>(output),
                    Err(error) => self@.checked(invocation) == Err::<CommandOutput, _>(error@),
                },
    {
        let line = self.command(arguments);
        let invocation = run(&line);
        assert(ran(run, self@.line(text::views(arguments@)), invocation));
        match invocation.outcome {
            Err(source) => Err(
                Error::Io {
                    operation: "run ADB command",
                    path: copy_bytes(self.adb.as_slice()),
                    source,
                },
            ),
            Ok(output) => {
                if output.success {
                    Ok(output)
                } else {
                    Err(
                        Error::Command {
                            command: invocation.rendering,
                            status: output.status,
                            stderr: lossy_text(output.stderr.as_slice()),
                        },
                    )
                }
            },
        }
    }
}

// ---------------------------------------------------------------------------
// Device verdicts
// ---------------------------------------------------------------------------

/// The report that a command printed.
pub open spec fn report(output: CommandOutput) -> Seq<char> {
    text::lossy(output.stdout@)
}

impl AndroidDeviceView {
    /// Whether the device is ready, by what a run said of its state.
    pub open spec fn readiness(self, invocation: Invocation) -> std::result::Result<(), ErrorView> {
        match self.checked(invocation) {
            Err(error) => Err(error),
            Ok(output) => if text::trim(report(output)) == "device"@ {
                Ok(())
            } else {
                failed("Android device `"@ + self.serial + "` is not ready"@)
            },
        }
    }

    /// Whether a run merely succeeded.
    pub open spec fn success(self, invocation: Invocation) -> std::result::Result<(), ErrorView> {
        match self.checked(invocation) {
            Err(error) => Err(error),
            Ok(_) => Ok(()),
        }
    }

    /// Whether a package's data was cleared, by what a run reported.
    pub open spec fn clearing(self, package: Seq<char>, invocation: Invocation) -> std::result::Result<
        (),
        ErrorView,
    > {
        match self.checked(invocation) {
            Err(error) => Err(error),
            Ok(output) => if text::trim(report(output)) == "Success"@ {
                Ok(())
            } else {
                failed("Android refused to clear `"@ + package + "`: "@ + report(output))
            },
        }
    }
}

impl AndroidDevice {
    /// Demand that the device is ready.
    pub fn prove_ready<R: FnOnce(&Vec<Vec<u8>>) -> Invocation>(&self, run: R) -> (verdict: Result<()>)
        requires
            runnable(run, self@.state_line()),
        ensures
            exists|invocation: Invocation| #[trigger]
                ran(run, self@.state_line(), invocation) && host::told(verdict)
                    == self@.readiness(invocation),
    {
        let mut arguments: Vec<Vec<u8>> = Vec::new();
        push_words(&mut arguments, &["get-state"]);
        assert(text::views(arguments@) =~= text::words(seq!["get-state"]));
        assert(self@.line(text::views(arguments@)) == self@.state_line());
        match self.checked(run, &arguments) {
            Err(error) => Err(error),
            Ok(output) => {
                let report = lossy_text(output.stdout.as_slice());
                if same(trim_text(report.as_str()).as_str(), "device") {
                    Ok(())
                } else {
                    Err(
                        Error::Verdict {
                            detail: glue3(
                                "Android device `",
                                self.serial.as_str(),
                                "` is not ready",
                            ),
                        },
                    )
                }
            },
        }
    }

    /// Install the instrumentation package, replacing an older one.
    pub fn install_driver<R: FnOnce(&Vec<Vec<u8>>) -> Invocation>(&self, run: R, apk: &Vec<u8>) -> (
        verdict: Result<()>)
        requires
            runnable(run, self@.install_line(apk@)),
        ensures
            exists|invocation: Invocation| #[trigger]
                ran(run, self@.install_line(apk@), invocation) && host::told(verdict) == self@.success(invocation),
    {
        let mut arguments: Vec<Vec<u8>> = Vec::new();
        push_words(&mut arguments, &["install", "-r", "-t"]);
        push_bytes(&mut arguments, apk.as_slice());
        assert(text::views(arguments@) =~= text::words(seq!["install", "-r", "-t"]).push(apk@));
        assert(self@.line(text::views(arguments@)) == self@.install_line(apk@));
        match self.checked(run, &arguments) {
            Ok(_) => Ok(()),
            Err(error) => Err(error),
        }
    }

    /// Stop a package.
    pub fn force_stop<R: FnOnce(&Vec<Vec<u8>>) -> Invocation>(&self, run: R, package: &str) -> (
        verdict: Result<()>)
        requires
            runnable(run, self@.stop_line(package)),
        ensures
            exists|invocation: Invocation| #[trigger]
                ran(run, self@.stop_line(package), invocation) && host::told(verdict) == self@.success(invocation),
    {
        let mut arguments: Vec<Vec<u8>> = Vec::new();
        push_words(&mut arguments, &["shell", "am", "force-stop", package]);
        assert(text::views(arguments@) =~= text::words(seq!["shell", "am", "force-stop", package]));
        assert(self@.line(text::views(arguments@)) == self@.stop_line(package));
        match self.checked(run, &arguments) {
            Ok(_) => Ok(()),
            Err(error) => Err(error),
        }
    }

    /// Remove one application's private data and cache through Android's
    /// package manager.
    ///
    /// Callers must expose this destructive boundary explicitly in their own
    /// CLI or scenario contract; choreography never clears product state as an
    /// implicit setup step.
    pub fn clear_app_data<R: FnOnce(&Vec<Vec<u8>>) -> Invocation>(&self, run: R, package: &str) -> (
        verdict: Result<()>)
        requires
            runnable(run, self@.clear_line(package)),
        ensures
            exists|invocation: Invocation| #[trigger]
                ran(run, self@.clear_line(package), invocation) && host::told(verdict) == self@.clearing(package@, invocation),
    {
        let mut arguments: Vec<Vec<u8>> = Vec::new();
        push_words(&mut arguments, &["shell", "pm", "clear", package]);
        assert(text::views(arguments@) =~= text::words(seq!["shell", "pm", "clear", package]));
        assert(self@.line(text::views(arguments@)) == self@.clear_line(package));
        match self.checked(run, &arguments) {
            Err(error) => Err(error),
            Ok(output) => {
                let report = lossy_text(output.stdout.as_slice());
                if same(trim_text(report.as_str()).as_str(), "Success") {
                    Ok(())
                } else {
                    Err(
                        Error::Verdict {
                            detail: glue4(
                                "Android refused to clear `",
                                package,
                                "`: ",
                                report.as_str(),
                            ),
                        },
                    )
                }
            },
        }
    }

    /// Start a package's native activity, and wait for it.
    pub fn start_native_activity<R: FnOnce(&Vec<Vec<u8>>) -> Invocation>(
        &self,
        run: R,
        package: &str,
    ) -> (verdict: Result<()>)
        requires
            runnable(run, self@.start_line(package@)),
        ensures
            exists|invocation: Invocation| #[trigger]
                ran(run, self@.start_line(package@), invocation) && host::told(verdict) == self@.success(invocation),
    {
        let component = glue2(package, "/android.app.NativeActivity");
        let mut arguments: Vec<Vec<u8>> = Vec::new();
        push_words(&mut arguments, &["shell", "am", "start", "-W", "-n"]);
        push_word(&mut arguments, component.as_str());
        assert(text::views(arguments@) =~= text::words(
            seq!["shell", "am", "start", "-W", "-n"],
        ).push(encode_utf8(package@ + "/android.app.NativeActivity"@)));
        assert(self@.line(text::views(arguments@)) == self@.start_line(package@));
        match self.checked(run, &arguments) {
            Ok(_) => Ok(()),
            Err(error) => Err(error),
        }
    }
}

// ---------------------------------------------------------------------------
// Screen
// ---------------------------------------------------------------------------

/// What follows the first line's prefix, of those lines that have it once they
/// are trimmed.
pub open spec fn first_tail(lines: Seq<Seq<char>>, prefix: Seq<char>) -> Option<Seq<char>>
    decreases lines.len(),
{
    if lines.len() == 0 {
        None
    } else if text::begins_with(text::trim(lines[0]), prefix) {
        Some(text::trim(lines[0]).skip(prefix.len() as int))
    } else {
        first_tail(lines.skip(1), prefix)
    }
}

/// A number, or how the failure to read it renders.
pub open spec fn axis(text: Seq<char>) -> std::result::Result<u32, Seq<char>> {
    match text::natural(text) {
        Some(value) if value <= u32::MAX => Ok(value as u32),
        _ => Err(text::u32_fault(text)),
    }
}

/// The size that a window manager's report tells.
pub open spec fn reported_size(report: Seq<char>) -> std::result::Result<[u32; 2], ErrorView> {
    match first_tail(text::lines(report), "Physical size: "@) {
        None => Err(
            ErrorView::Verdict {
                detail: "Android window manager reported no physical size:\n"@ + report,
            },
        ),
        Some(dimensions) => {
            let at = text::first_of(dimensions, 'x');
            let malformed = "Android physical size is malformed: `"@ + dimensions + "`"@;
            if at >= dimensions.len() {
                Err(ErrorView::Verdict { detail: malformed })
            } else {
                match axis(dimensions.take(at as int)) {
                    Err(fault) => Err(ErrorView::Verdict { detail: malformed + ": "@ + fault }),
                    Ok(width) => match axis(dimensions.skip(at as int + 1)) {
                        Err(fault) => Err(ErrorView::Verdict { detail: malformed + ": "@ + fault }),
                        Ok(height) => Ok([width, height]),
                    },
                }
            }
        },
    }
}

fn find_tail(lines: &Vec<String>, prefix: &str) -> (tail: Option<String>)
    ensures
        match tail {
            Some(tail) => first_tail(text::strings(lines@), prefix@) == Some(tail@),
            None => first_tail(text::strings(lines@), prefix@) is None,
        },
{
    let ghost all = text::strings(lines@);
    let mut index: usize = 0;
    assert(all.skip(0) =~= all);
    while index < lines.len()
        invariant
            index <= lines.len(),
            all == text::strings(lines@),
            first_tail(all, prefix@) == first_tail(all.skip(index as int), prefix@),
        decreases lines.len() - index,
    {
        let trimmed = trim_text(lines[index].as_str());
        assert(all.skip(index as int)[0] == lines@[index as int]@);
        if let Some(tail) = strip_prefix(trimmed.as_str(), prefix) {
            return Some(tail);
        }
        assert(all.skip(index as int).skip(1) =~= all.skip(index + 1));
        index = index + 1;
    }
    None
}

fn malformed_axis(dimensions: &str, fault: &str) -> (error: Error)
    ensures
        error@ == (ErrorView::Verdict {
            detail: "Android physical size is malformed: `"@ + dimensions@ + "`"@ + ": "@ + fault@,
        }),
{
    Error::Verdict {
        detail: glue5("Android physical size is malformed: `", dimensions, "`", ": ", fault),
    }
}

/// Read the physical size out of a window manager's report.
pub fn parse_size(report: &str) -> (size: Result<[u32; 2]>)
    ensures
        match size {
            Ok(size) => reported_size(report@) == Ok::<_, ErrorView>(size),
            Err(error) => reported_size(report@) == Err::<[u32; 2], _>(error@),
        },
{
    let lines = split_lines(report);
    let dimensions = match find_tail(&lines, "Physical size: ") {
        Some(dimensions) => dimensions,
        None => {
            return Err(
                Error::Verdict {
                    detail: glue2("Android window manager reported no physical size:\n", report),
                },
            );
        },
    };
    let (width, height) = match split_once(dimensions.as_str(), 'x') {
        Some(sides) => sides,
        None => {
            return Err(
                Error::Verdict {
                    detail: glue3(
                        "Android physical size is malformed: `",
                        dimensions.as_str(),
                        "`",
                    ),
                },
            );
        },
    };
    let width: u32 = match parse_u32(width.as_str()) {
        Ok(width) => width,
        Err(fault) => {
            return Err(malformed_axis(dimensions.as_str(), fault.as_str()));
        },
    };
    match parse_u32(height.as_str()) {
        Ok(height) => Ok([width, height]),
        Err(fault) => Err(malformed_axis(dimensions.as_str(), fault.as_str())),
    }
}

/// The first line that begins with a prefix once its leading white space is
/// gone.
pub open spec fn first_line(lines: Seq<Seq<char>>, prefix: Seq<char>) -> Option<Seq<char>>
    decreases lines.len(),
{
    if lines.len() == 0 {
        None
    } else if text::begins_with(text::trim_start(lines[0]), prefix) {
        Some(lines[0])
    } else {
        first_line(lines.skip(1), prefix)
    }
}

/// Whether a package's activity is resumed, by the activity manager's report.
pub open spec fn resumption(package: Seq<char>, report: Seq<char>) -> std::result::Result<
    (),
    ErrorView,
> {
    let resumed = first_line(text::lines(report), "mResumedActivity:"@);
    match resumed {
        Some(line) if text::contains_run(line, " "@ + package + "/"@) => Ok(()),
        _ => failed(
            "Android choreography left `"@ + package + "`; resumed Activity: "@ + match resumed {
                Some(line) => text::trim(line),
                None => "absent"@,
            },
        ),
    }
}

fn find_line(lines: &Vec<String>, prefix: &str) -> (line: Option<String>)
    ensures
        match line {
            Some(line) => first_line(text::strings(lines@), prefix@) == Some(line@),
            None => first_line(text::strings(lines@), prefix@) is None,
        },
{
    let ghost all = text::strings(lines@);
    let mut index: usize = 0;
    assert(all.skip(0) =~= all);
    while index < lines.len()
        invariant
            index <= lines.len(),
            all == text::strings(lines@),
            first_line(all, prefix@) == first_line(all.skip(index as int), prefix@),
        decreases lines.len() - index,
    {
        assert(all.skip(index as int)[0] == lines@[index as int]@);
        if starts_with(trim_start_text(lines[index].as_str()).as_str(), prefix) {
            return Some(lines[index].clone());
        }
        assert(all.skip(index as int).skip(1) =~= all.skip(index + 1));
        index = index + 1;
    }
    None
}

/// Judge the activity manager's report.
pub fn judge_resumed(package: &str, report: &str) -> (verdict: Result<()>)
    ensures
        host::told(verdict) == resumption(package@, report@),
{
    let lines = split_lines(report);
    let resumed = find_line(&lines, "mResumedActivity:");
    let mark = glue3(" ", package, "/");
    let shown = match &resumed {
        Some(line) => {
            if contains(line.as_str(), mark.as_str()) {
                return Ok(());
            }
            trim_text(line.as_str())
        },
        None => "absent".to_owned(),
    };
    Err(
        Error::Verdict {
            detail: glue4(
                "Android choreography left `",
                package,
                "`; resumed Activity: ",
                shown.as_str(),
            ),
        },
    )
}

impl AndroidDeviceView {
    /// The physical size, by what a run reported.
    pub open spec fn size(self, invocation: Invocation) -> std::result::Result<[u32; 2], ErrorView> {
        match self.checked(invocation) {
            Err(error) => Err(error),
            Ok(output) => reported_size(report(output)),
        }
    }

    /// Whether a package's activity is resumed, by what a run reported.
    pub open spec fn resumed(self, package: Seq<char>, invocation: Invocation) -> std::result::Result<
        (),
        ErrorView,
    > {
        match self.checked(invocation) {
            Err(error) => Err(error),
            Ok(output) => resumption(package, report(output)),
        }
    }

    /// Whether a run can be captured as a frame, or why not.
    pub open spec fn captured(
        self,
        invocation: Invocation,
        frame: std::result::Result<FrameView, ErrorView>,
    ) -> bool {
        match self.checked(invocation) {
            Err(error) => frame == Err::<FrameView, _>(error),
            Ok(output) => pixels::admits(pixels::decoded(output.stdout@), frame),
        }
    }
}

impl AndroidDevice {
    /// Physical display size reported by Android's window manager.
    pub fn screen_size<R: FnOnce(&Vec<Vec<u8>>) -> Invocation>(&self, run: R) -> (size: Result<
        [u32; 2],
    >)
        requires
            runnable(run, self@.size_line()),
        ensures
            exists|invocation: Invocation| #[trigger]
                ran(run, self@.size_line(), invocation)
                    && match size {
                    Ok(size) => self@.size(invocation) == Ok::<_, ErrorView>(size),
                    Err(error) => self@.size(invocation) == Err::<[u32; 2], _>(error@),
                },
    {
        let mut arguments: Vec<Vec<u8>> = Vec::new();
        push_words(&mut arguments, &["shell", "wm", "size"]);
        assert(text::views(arguments@) =~= text::words(seq!["shell", "wm", "size"]));
        assert(self@.line(text::views(arguments@)) == self@.size_line());
        match self.checked(run, &arguments) {
            Err(error) => Err(error),
            Ok(output) => parse_size(lossy_text(output.stdout.as_slice()).as_str()),
        }
    }

    /// Demand that Android still presents the expected product Activity.
    pub fn require_resumed<R: FnOnce(&Vec<Vec<u8>>) -> Invocation>(&self, run: R, package: &str) -> (
        verdict: Result<()>)
        requires
            runnable(run, self@.activities_line()),
        ensures
            exists|invocation: Invocation| #[trigger]
                ran(run, self@.activities_line(), invocation) && host::told(verdict) == self@.resumed(package@, invocation),
    {
        let mut arguments: Vec<Vec<u8>> = Vec::new();
        push_words(&mut arguments, &["shell", "dumpsys", "activity", "activities"]);
        assert(text::views(arguments@) =~= text::words(
            seq!["shell", "dumpsys", "activity", "activities"],
        ));
        assert(self@.line(text::views(arguments@)) == self@.activities_line());
        match self.checked(run, &arguments) {
            Err(error) => Err(error),
            Ok(output) => judge_resumed(
                package,
                lossy_text(output.stdout.as_slice()).as_str(),
            ),
        }
    }

    /// Capture the screen.
    pub fn capture<R: FnOnce(&Vec<Vec<u8>>) -> Invocation>(&self, run: R) -> (frame: Result<Frame>)
        requires
            runnable(run, self@.capture_line()),
        ensures
            exists|invocation: Invocation| #[trigger]
                ran(run, self@.capture_line(), invocation)
                    && self@.captured(invocation, pixels::content(frame)),
    {
        let mut arguments: Vec<Vec<u8>> = Vec::new();
        push_words(&mut arguments, &["exec-out", "screencap", "-p"]);
        assert(text::views(arguments@) =~= text::words(seq!["exec-out", "screencap", "-p"]));
        assert(self@.line(text::views(arguments@)) == self@.capture_line());
        match self.checked(run, &arguments) {
            Err(error) => Err(error),
            Ok(output) => Frame::load_png(&self.adb, Ok(output.stdout)),
        }
    }
}

// ---------------------------------------------------------------------------
// Instrumentation
// ---------------------------------------------------------------------------

/// Whether a character may stand in a traced action's name.
pub open spec fn traceable(c: char) -> bool {
    'a' <= c <= 'z' || 'A' <= c <= 'Z' || '0' <= c <= '9' || c == '.' || c == '_' || c == '-'
}

/// An action's name with everything else replaced.
pub open spec fn traced(action: Seq<char>) -> Seq<char> {
    Seq::new(
        action.len(),
        |i: int|
            if traceable(action[i]) {
                action[i]
            } else {
                '_'
            },
    )
}

fn trace_name(action: &str) -> (name: String)
    ensures
        name@ == traced(action@),
{
    let spelled = characters(action);
    let mut name = String::new();
    let mut index: usize = 0;
    while index < spelled.len()
        invariant
            index <= spelled.len(),
            spelled@ == action@,
            name@ =~= traced(action@).take(index as int),
        decreases spelled.len() - index,
    {
        let c: char = spelled[index];
        if 'a' <= c && c <= 'z' || 'A' <= c && c <= 'Z' || '0' <= c && c <= '9' || c == '.' || c
            == '_' || c == '-' {
            name.push(c);
        } else {
            name.push('_');
        }
        index = index + 1;
    }
    assert(traced(action@).take(index as int) =~= traced(action@));
    name
}

/// A named parameter of an instrumented gesture.
#[derive(Debug)]
pub struct Parameter {
    pub name: &'static str,
    pub value: String,
}

/// A parameter's name and value.
pub open spec fn parameter(name: &str, value: Seq<char>) -> (Seq<char>, Seq<char>) {
    (name@, value)
}

/// The contents of parameters.
pub open spec fn parameters_of(list: Seq<Parameter>) -> Seq<(Seq<char>, Seq<char>)> {
    Seq::new(list.len(), |i: int| (list[i].name@, list[i].value@))
}

/// Parameters as arguments: an option, a name, and a value for each.
pub open spec fn spelled(parameters: Seq<(Seq<char>, Seq<char>)>) -> Seq<Seq<u8>>
    decreases parameters.len(),
{
    if parameters.len() == 0 {
        seq![]
    } else {
        spelled(parameters.drop_last()) + seq![
            text::word("-e"),
            encode_utf8(parameters.last().0),
            encode_utf8(parameters.last().1),
        ]
    }
}

impl AndroidDeviceView {
    /// The arguments of an instrumented gesture.
    pub open spec fn instrumentation(
        self,
        gesture: Seq<char>,
        action: Seq<char>,
        parameters: Seq<(Seq<char>, Seq<char>)>,
    ) -> Seq<Seq<u8>> {
        (text::words(seq!["shell", "am", "instrument", "-w", "-r", "-e", "gesture"]) + seq![
            encode_utf8(gesture),
            text::word("-e"),
            text::word("action"),
            encode_utf8(traced(action)),
        ] + spelled(parameters)).push(encode_utf8(self.driver))
    }

    /// Whether the instrumentation carried a gesture out, by what a run reported.
    pub open spec fn carried_out(self, action: Seq<char>, invocation: Invocation) -> std::result::Result<
        (),
        ErrorView,
    > {
        match self.checked(invocation) {
            Err(error) => Err(error),
            Ok(output) => if text::contains_run(report(output), "INSTRUMENTATION_CODE: -1"@) {
                Ok(())
            } else {
                failed(
                    "Android instrumentation refused `"@ + action + "`:\n"@ + report(output),
                )
            },
        }
    }
}

impl AndroidDevice {
    /// Carry out an instrumented gesture.
    pub fn instrument<R: FnOnce(&Vec<Vec<u8>>) -> Invocation>(
        &self,
        run: R,
        gesture: &str,
        action: &str,
        parameters: &Vec<Parameter>,
    ) -> (verdict: Result<()>)
        requires
            runnable(run, self@.line( self@.instrumentation(gesture@, action@, parameters_of(parameters@)), )),
        ensures
            exists|invocation: Invocation| #[trigger]
                ran(
                    run,
                    self@.line(
                        self@.instrumentation(gesture@, action@, parameters_of(parameters@)),
                    ),
                    invocation,
                ) && host::told(verdict) == self@.carried_out(action@, invocation),
    {
        let mut arguments: Vec<Vec<u8>> = Vec::new();
        push_words(&mut arguments, &["shell", "am", "instrument", "-w", "-r", "-e", "gesture"]);
        push_word(&mut arguments, gesture);
        push_word(&mut arguments, "-e");
        push_word(&mut arguments, "action");
        push_word(&mut arguments, trace_name(action).as_str());
        let ghost front = text::views(arguments@);
        let ghost all = parameters_of(parameters@);
        assert(front =~= text::words(
            seq!["shell", "am", "instrument", "-w", "-r", "-e", "gesture"],
        ) + seq![
            encode_utf8(gesture@),
            text::word("-e"),
            text::word("action"),
            encode_utf8(traced(action@)),
        ]);
        let mut index: usize = 0;
        assert(all.take(0) =~= seq![]);
        assert(front + spelled(all.take(0)) =~= front);
        while index < parameters.len()
            invariant
                index <= parameters.len(),
                all == parameters_of(parameters@),
                text::views(arguments@) == front + spelled(all.take(index as int)),
            decreases parameters.len() - index,
        {
            push_word(&mut arguments, "-e");
            push_word(&mut arguments, parameters[index].name);
            push_word(&mut arguments, parameters[index].value.as_str());
            assert(all.take(index + 1).drop_last() =~= all.take(index as int));
            assert(text::views(arguments@) =~= front + spelled(all.take(index + 1)));
            index = index + 1;
        }
        assert(all.take(index as int) =~= all);
        push_word(&mut arguments, self.driver.as_str());
        assert(text::views(arguments@) =~= self@.instrumentation(gesture@, action@, all));
        match self.checked(run, &arguments) {
            Err(error) => Err(error),
            Ok(output) => {
                let report = lossy_text(output.stdout.as_slice());
                if contains(report.as_str(), "INSTRUMENTATION_CODE: -1") {
                    Ok(())
                } else {
                    Err(
                        Error::Verdict {
                            detail: glue4(
                                "Android instrumentation refused `",
                                action,
                                "`:\n",
                                report.as_str(),
                            ),
                        },
                    )
                }
            },
        }
    }
}

// ---------------------------------------------------------------------------
// Laws
// ---------------------------------------------------------------------------

/// Whether the bridge can have succeeded at a command line with an output.
pub open spec fn bridged<R: FnOnce(&Vec<Vec<u8>>) -> Invocation>(
    run: R,
    line: Seq<Seq<u8>>,
    output: CommandOutput,
) -> bool {
    exists|arguments: &Vec<Vec<u8>>, invocation: Invocation|
        text::views(arguments@) == line && #[trigger] run.ensures((arguments,), invocation)
            && invocation.outcome == Ok::<CommandOutput, Source>(output) && output.success
}

proof fn lemma_bridged<R: FnOnce(&Vec<Vec<u8>>) -> Invocation>(
    device: AndroidDeviceView,
    run: R,
    line: Seq<Seq<u8>>,
    invocation: Invocation,
    output: CommandOutput,
)
    requires
        ran(run, line, invocation),
        device.checked(invocation) == Ok::<_, ErrorView>(output),
    ensures
        bridged(run, line, output),
{
    let arguments = choose|arguments: &Vec<Vec<u8>>|
        text::views(arguments@) == line && #[trigger] run.ensures((arguments,), invocation);
    assert(run.ensures((arguments,), invocation));
}

/// A device is ready only where its own bridge says that it is a device.
pub proof fn law_ready_devices_say_so<R: FnOnce(&Vec<Vec<u8>>) -> Invocation>(
    device: AndroidDevice,
    run: R,
    line: Seq<Seq<u8>>,
    verdict: Result<()>,
)
    requires
        AndroidDevice::prove_ready::<R>.ensures((&device, run), verdict),
        line == seq![
            device@.adb,
            text::word("-s"),
            encode_utf8(device@.serial),
            text::word("get-state"),
        ],
    ensures
        verdict is Ok ==> exists|output: CommandOutput| #[trigger]
            bridged(run, line, output) && text::trim(text::lossy(output.stdout@)) == "device"@,
{
    if verdict is Ok {
        let invocation = choose|invocation: Invocation| #[trigger]
            ran(run, device@.state_line(), invocation) && host::told(verdict) == device@.readiness(
                invocation,
            );
        assert(device@.state_line() =~= line);
        lemma_bridged(device@, run, line, invocation, device@.checked(invocation)->Ok_0);
    }
}

/// A package is stopped, cleared and started by its own name on the device's own bridge,
/// and only where the bridge succeeded; clearing succeeds only where Android says so.
pub proof fn law_packages_are_addressed_by_name<R: FnOnce(&Vec<Vec<u8>>) -> Invocation>(
    device: AndroidDevice,
    run: R,
    package: &str,
    stopping: Seq<Seq<u8>>,
    clearing: Seq<Seq<u8>>,
    starting: Seq<Seq<u8>>,
    stopped: Result<()>,
    cleared: Result<()>,
    started: Result<()>,
)
    requires
        AndroidDevice::force_stop::<R>.ensures((&device, run, package), stopped),
        AndroidDevice::clear_app_data::<R>.ensures((&device, run, package), cleared),
        AndroidDevice::start_native_activity::<R>.ensures((&device, run, package), started),
        stopping == seq![
            device@.adb,
            text::word("-s"),
            encode_utf8(device@.serial),
            text::word("shell"),
            text::word("am"),
            text::word("force-stop"),
            encode_utf8(package@),
        ],
        clearing == seq![
            device@.adb,
            text::word("-s"),
            encode_utf8(device@.serial),
            text::word("shell"),
            text::word("pm"),
            text::word("clear"),
            encode_utf8(package@),
        ],
        starting == seq![
            device@.adb,
            text::word("-s"),
            encode_utf8(device@.serial),
            text::word("shell"),
            text::word("am"),
            text::word("start"),
            text::word("-W"),
            text::word("-n"),
            encode_utf8(package@ + "/android.app.NativeActivity"@),
        ],
    ensures
        stopped is Ok ==> exists|output: CommandOutput| #[trigger] bridged(run, stopping, output),
        cleared is Ok ==> exists|output: CommandOutput| #[trigger]
            bridged(run, clearing, output) && text::trim(text::lossy(output.stdout@))
                == "Success"@,
        started is Ok ==> exists|output: CommandOutput| #[trigger] bridged(run, starting, output),
{
    assert(device@.stop_line(package) =~= stopping);
    assert(device@.clear_line(package) =~= clearing);
    assert(device@.start_line(package@) =~= starting);
    if stopped is Ok {
        let invocation = choose|invocation: Invocation| #[trigger]
            ran(run, stopping, invocation) && host::told(stopped) == device@.success(invocation);
        lemma_bridged(device@, run, stopping, invocation, device@.checked(invocation)->Ok_0);
    }
    if cleared is Ok {
        let invocation = choose|invocation: Invocation| #[trigger]
            ran(run, clearing, invocation) && host::told(cleared) == device@.clearing(
                package@,
                invocation,
            );
        lemma_bridged(device@, run, clearing, invocation, device@.checked(invocation)->Ok_0);
    }
    if started is Ok {
        let invocation = choose|invocation: Invocation| #[trigger]
            ran(run, starting, invocation) && host::told(started) == device@.success(invocation);
        lemma_bridged(device@, run, starting, invocation, device@.checked(invocation)->Ok_0);
    }
}

proof fn lemma_first_tail(lines: Seq<Seq<char>>, prefix: Seq<char>)
    ensures
        first_tail(lines, prefix) matches Some(tail) ==> exists|i: int|
            0 <= i < lines.len() && text::trim(#[trigger] lines[i]) == prefix + tail,
    decreases lines.len(),
{
    if lines.len() > 0 {
        let line = text::trim(lines[0]);
        if text::begins_with(line, prefix) {
            let tail = line.skip(prefix.len() as int);
            assert forall|i: int| 0 <= i < prefix.len() implies line[i] == prefix[i] by {
                assert(line[0 + i] == prefix[i]);
            }
            assert(line =~= prefix + tail);
        } else {
            lemma_first_tail(lines.skip(1), prefix);
            if let Some(tail) = first_tail(lines.skip(1), prefix) {
                let rest = lines.skip(1);
                let i = choose|i: int|
                    0 <= i < rest.len() && text::trim(#[trigger] rest[i]) == prefix + tail;
                assert(lines[i + 1] == rest[i]);
            }
        }
    }
}

/// A screen's size is what a line of the report says: its width and its height, in decimal,
/// around an `x`.
pub proof fn law_sizes_are_told_in_the_report(report: &str, size: [u32; 2])
    requires
        parse_size.ensures((report,), Ok(size)),
    ensures
        exists|i: int, width: Seq<char>, height: Seq<char>|
            0 <= i < text::lines(report@).len() && text::trim(#[trigger] text::lines(report@)[i])
                == "Physical size: "@ + #[trigger] (width.push('x') + height) && text::natural(
                width,
            ) == Some(size[0] as int) && text::natural(height) == Some(size[1] as int),
{
    let lines = text::lines(report@);
    lemma_first_tail(lines, "Physical size: "@);
    let dimensions = first_tail(lines, "Physical size: "@)->0;
    let at = text::first_of(dimensions, 'x') as int;
    text::lemma_first_of_bounds(dimensions, 'x');
    let width = dimensions.take(at);
    let height = dimensions.skip(at + 1);
    assert(dimensions =~= width.push('x') + height);
    let i = choose|i: int|
        0 <= i < lines.len() && text::trim(#[trigger] lines[i]) == "Physical size: "@ + dimensions;
    assert(text::trim(lines[i]) == "Physical size: "@ + (width.push('x') + height));
    assert(axis(width) == Ok::<u32, Seq<char>>(size[0]));
    assert(axis(height) == Ok::<u32, Seq<char>>(size[1]));
}

proof fn lemma_first_line(lines: Seq<Seq<char>>, prefix: Seq<char>)
    ensures
        first_line(lines, prefix) matches Some(line) ==> lines.contains(line) && text::begins_with(
            text::trim_start(line),
            prefix,
        ),
    decreases lines.len(),
{
    if lines.len() > 0 {
        if text::begins_with(text::trim_start(lines[0]), prefix) {
            assert(lines[0] == first_line(lines, prefix)->0);
        } else {
            lemma_first_line(lines.skip(1), prefix);
            if let Some(line) = first_line(lines.skip(1), prefix) {
                let rest = lines.skip(1);
                let i = choose|i: int| 0 <= i < rest.len() && rest[i] == line;
                assert(lines[i + 1] == line);
            }
        }
    }
}

/// A package counts as resumed only where the report's line on the resumed activity names
/// it.
pub proof fn law_resumed_packages_are_reported(package: &str, report: &str, verdict: Result<()>)
    requires
        judge_resumed.ensures((package, report), verdict),
    ensures
        verdict is Ok ==> exists|line: Seq<char>|
            text::lines(report@).contains(line) && text::begins_with(
                text::trim_start(line),
                "mResumedActivity:"@,
            ) && #[trigger] text::contains_run(line, " "@ + package@ + "/"@),
        verdict matches Err(error) ==> error@ is Verdict,
{
    lemma_first_line(text::lines(report@), "mResumedActivity:"@);
}

/// An action is traced under its own name: letters, digits, dots, underscores and hyphens
/// stand as they are, and every other character becomes an underscore.
pub proof fn law_traced_names_are_plain(action: Seq<char>, i: int)
    requires
        0 <= i < action.len(),
    ensures
        traced(action).len() == action.len(),
        traced(action)[i] == action[i] <==> ('a' <= action[i] <= 'z' || 'A' <= action[i] <= 'Z'
            || '0' <= action[i] <= '9' || action[i] == '.' || action[i] == '_' || action[i] == '-'),
        traced(action)[i] != action[i] ==> traced(action)[i] == '_',
{
}

/// Whether a parameter is spelled at a place of a command line: an option, its name, and its
/// value.
pub open spec fn spelled_at(line: Seq<Seq<u8>>, at: int, name: Seq<char>, value: Seq<char>) -> bool {
    &&& line[at] == text::word("-e")
    &&& line[at + 1] == encode_utf8(name)
    &&& line[at + 2] == encode_utf8(value)
}

proof fn lemma_spelled(parameters: Seq<(Seq<char>, Seq<char>)>)
    ensures
        spelled(parameters).len() == 3 * parameters.len(),
        forall|i: int|
            0 <= i < parameters.len() ==> spelled_at(
                spelled(parameters),
                3 * i,
                (#[trigger] parameters[i]).0,
                parameters[i].1,
            ),
    decreases parameters.len(),
{
    if parameters.len() > 0 {
        let front = parameters.drop_last();
        let whole = spelled(parameters);
        lemma_spelled(front);
        assert forall|i: int| 0 <= i < parameters.len() implies spelled_at(
            whole,
            3 * i,
            (#[trigger] parameters[i]).0,
            parameters[i].1,
        ) by {
            if i < front.len() {
                assert(front[i] == parameters[i]);
                assert(spelled_at(spelled(front), 3 * i, front[i].0, front[i].1));
            }
        }
    }
}

/// A gesture is asked of the device's own driver by its kind and its action, with each of
/// its parameters, and counts as carried out only where the driver reports so.
pub proof fn law_gestures_are_asked_of_the_driver<R: FnOnce(&Vec<Vec<u8>>) -> Invocation>(
    device: AndroidDevice,
    run: R,
    gesture: &str,
    action: &str,
    parameters: Vec<Parameter>,
)
    requires
        AndroidDevice::instrument::<R>.ensures(
            (&device, run, gesture, action, &parameters),
            Ok::<(), Error>(()),
        ),
    ensures
        exists|line: Seq<Seq<u8>>, output: CommandOutput| #[trigger]
            bridged(run, line, output) && text::contains_run(
                text::lossy(output.stdout@),
                "INSTRUMENTATION_CODE: -1"@,
            ) && asks(device@, line, gesture@, action@, parameters@),
{
    let list = parameters_of(parameters@);
    let line = device@.line(device@.instrumentation(gesture@, action@, list));
    let verdict = Ok::<(), Error>(());
    let invocation = choose|invocation: Invocation| #[trigger]
        ran(run, line, invocation) && host::told(verdict) == device@.carried_out(
            action@,
            invocation,
        );
    let output = device@.checked(invocation)->Ok_0;
    lemma_bridged(device@, run, line, invocation, output);
    lemma_spelled(list);
    let middle = spelled(list);
    assert forall|i: int| 0 <= i < parameters@.len() implies spelled_at(
        line,
        14 + 3 * i,
        (#[trigger] parameters@[i]).name@,
        parameters@[i].value@,
    ) by {
        assert(list[i] == (parameters@[i].name@, parameters@[i].value@));
        assert(spelled_at(middle, 3 * i, list[i].0, list[i].1));
        assert(line[14 + 3 * i] == middle[3 * i]);
        assert(line[15 + 3 * i] == middle[3 * i + 1]);
        assert(line[16 + 3 * i] == middle[3 * i + 2]);
    }
    assert(asks(device@, line, gesture@, action@, parameters@));
}

/// Whether a command line asks a device's driver for a gesture.
pub open spec fn asks(
    device: AndroidDeviceView,
    line: Seq<Seq<u8>>,
    gesture: Seq<char>,
    action: Seq<char>,
    parameters: Seq<Parameter>,
) -> bool {
    &&& line.len() == 15 + 3 * parameters.len()
    &&& line[0] == device.adb && line[1] == text::word("-s") && line[2] == encode_utf8(
        device.serial,
    )
    &&& line[3] == text::word("shell") && line[4] == text::word("am") && line[5] == text::word(
        "instrument",
    ) && line[6] == text::word("-w") && line[7] == text::word("-r")
    &&& line[8] == text::word("-e") && line[9] == text::word("gesture") && line[10]
        == encode_utf8(gesture)
    &&& line[11] == text::word("-e") && line[12] == text::word("action") && line[13]
        == encode_utf8(traced(action))
    &&& forall|i: int|
        0 <= i < parameters.len() ==> spelled_at(
            line,
            14 + 3 * i,
            (#[trigger] parameters[i]).name@,
            parameters[i].value@,
        )
    &&& line.last() == encode_utf8(device.driver)
}

/// The screen's size, the resumed activity and the driver's installation are each asked of
/// the device by their own command.
pub proof fn law_devices_are_asked_by_their_commands<R: FnOnce(&Vec<Vec<u8>>) -> Invocation>(
    device: AndroidDevice,
    run: R,
    apk: Vec<u8>,
    package: &str,
    installing: Seq<Seq<u8>>,
    sizing: Seq<Seq<u8>>,
    listing: Seq<Seq<u8>>,
    installed: Result<()>,
    size: Result<[u32; 2]>,
    resumed: Result<()>,
)
    requires
        AndroidDevice::install_driver::<R>.ensures((&device, run, &apk), installed),
        AndroidDevice::screen_size::<R>.ensures((&device, run), size),
        AndroidDevice::require_resumed::<R>.ensures((&device, run, package), resumed),
        installing == seq![
            device@.adb,
            text::word("-s"),
            encode_utf8(device@.serial),
            text::word("install"),
            text::word("-r"),
            text::word("-t"),
            apk@,
        ],
        sizing == seq![
            device@.adb,
            text::word("-s"),
            encode_utf8(device@.serial),
            text::word("shell"),
            text::word("wm"),
            text::word("size"),
        ],
        listing == seq![
            device@.adb,
            text::word("-s"),
            encode_utf8(device@.serial),
            text::word("shell"),
            text::word("dumpsys"),
            text::word("activity"),
            text::word("activities"),
        ],
    ensures
        installed is Ok ==> exists|output: CommandOutput| #[trigger]
            bridged(run, installing, output),
        size matches Ok(size) ==> exists|output: CommandOutput| #[trigger]
            bridged(run, sizing, output) && reported_size(text::lossy(output.stdout@)) == Ok::<
                _,
                ErrorView,
            >(size),
        resumed is Ok ==> exists|output: CommandOutput| #[trigger]
            bridged(run, listing, output) && resumption(
                package@,
                text::lossy(output.stdout@),
            ) is Ok,
{
    assert(device@.install_line(apk@) =~= installing);
    assert(device@.size_line() =~= sizing);
    assert(device@.activities_line() =~= listing);
    if installed is Ok {
        let invocation = choose|invocation: Invocation| #[trigger]
            ran(run, installing, invocation) && host::told(installed) == device@.success(
                invocation,
            );
        lemma_bridged(device@, run, installing, invocation, device@.checked(invocation)->Ok_0);
    }
    if let Ok(given) = size {
        let invocation = choose|invocation: Invocation| #[trigger]
            ran(run, sizing, invocation) && device@.size(invocation) == Ok::<_, ErrorView>(given);
        lemma_bridged(device@, run, sizing, invocation, device@.checked(invocation)->Ok_0);
    }
    if resumed is Ok {
        let invocation = choose|invocation: Invocation| #[trigger]
            ran(run, listing, invocation) && host::told(resumed) == device@.resumed(
                package@,
                invocation,
            );
        lemma_bridged(device@, run, listing, invocation, device@.checked(invocation)->Ok_0);
    }
}

} // verus!
