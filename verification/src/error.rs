//! Harness failures and their diagnostics.
use crate::duration::Duration;
use crate::text::{glue2, glue3, glue4, glue5, glue6, lossy_text};
use vstd::prelude::*;

verus! {

/// What a failed host operation reports about its cause.
#[derive(Clone, Copy, Debug, PartialEq, Eq, Structural)]
pub enum SourceKind {
    NotFound,
    AlreadyExists,
    UnexpectedEof,
    Other,
}

/// The cause of a failed host operation.
#[derive(Debug)]
pub struct Source {
    pub kind: SourceKind,
    pub text: String,
}

/// Content of a [`Source`].
#[verifier::ext_equal]
pub struct SourceView {
    pub kind: SourceKind,
    pub text: Seq<char>,
}

impl View for Source {
    type V = SourceView;

    open spec fn view(&self) -> SourceView {
        SourceView { kind: self.kind, text: self.text@ }
    }
}

/// Harness failure.
#[allow(inconsistent_fields)]
#[derive(Debug)]
pub enum Error {
    /// A required host tool is absent.
    MissingTool(&'static str),
    /// A containment layer refused the request.
    Containment { layer: &'static str, detail: String },
    /// A host operation on a path failed.
    Io { operation: &'static str, path: Vec<u8>, source: Source },
    /// A helper command exited unsuccessfully.
    Command { command: String, status: String, stderr: String },
    /// The application retired before a wait completed.
    ApplicationExited { unit: String, waiting: String, detail: String },
    /// A wait outlived its deadline.
    Timeout { waiting: String, timeout: Duration },
    /// A semantic condition never held before its deadline.
    Condition { waiting: String, timeout: Duration, last_mismatch: String },
    /// The product failed an explicit verdict.
    Verdict { detail: String },
    /// A latency budget was breached.
    TooSlow { operation: String, budget: Duration, elapsed: Duration },
    /// A timing observation is inconsistent or insufficient.
    Timing { operation: String, detail: String },
    /// The X11 transport failed.
    X11 { operation: &'static str, detail: String },
    /// The Wayland transport failed.
    Wayland { operation: &'static str, detail: String },
    /// A semantic observation is invalid.
    Probe { path: Vec<u8>, detail: String },
    /// A frame journal is invalid.
    FrameJournal { path: Vec<u8>, detail: String },
    /// The backend lacks a capability.
    Unsupported { capability: &'static str, detail: String },
}

/// Mathematical content of an [`Error`].
#[verifier::ext_equal]
pub enum ErrorView {
    MissingTool(Seq<char>),
    Containment { layer: Seq<char>, detail: Seq<char> },
    Io { operation: Seq<char>, path: Seq<u8>, source: SourceView },
    Command { command: Seq<char>, status: Seq<char>, stderr: Seq<char> },
    ApplicationExited { unit: Seq<char>, waiting: Seq<char>, detail: Seq<char> },
    Timeout { waiting: Seq<char>, timeout: nat },
    Condition { waiting: Seq<char>, timeout: nat, last_mismatch: Seq<char> },
    Verdict { detail: Seq<char> },
    TooSlow { operation: Seq<char>, budget: nat, elapsed: nat },
    Timing { operation: Seq<char>, detail: Seq<char> },
    X11 { operation: Seq<char>, detail: Seq<char> },
    Wayland { operation: Seq<char>, detail: Seq<char> },
    Probe { path: Seq<u8>, detail: Seq<char> },
    FrameJournal { path: Seq<u8>, detail: Seq<char> },
    Unsupported { capability: Seq<char>, detail: Seq<char> },
}

impl View for Error {
    type V = ErrorView;

    open spec fn view(&self) -> ErrorView {
        match self {
            Error::MissingTool(value) => ErrorView::MissingTool(value@),
            Error::Containment { layer, detail } => ErrorView::Containment {
                layer: layer@,
                detail: detail@,
            },
            Error::Io { operation, path, source } => ErrorView::Io {
                operation: operation@,
                path: path@,
                source: source@,
            },
            Error::Command { command, status, stderr } => ErrorView::Command {
                command: command@,
                status: status@,
                stderr: stderr@,
            },
            Error::ApplicationExited { unit, waiting, detail } => ErrorView::ApplicationExited {
                unit: unit@,
                waiting: waiting@,
                detail: detail@,
            },
            Error::Timeout { waiting, timeout } => ErrorView::Timeout {
                waiting: waiting@,
                timeout: timeout@,
            },
            Error::Condition { waiting, timeout, last_mismatch } => ErrorView::Condition {
                waiting: waiting@,
                timeout: timeout@,
                last_mismatch: last_mismatch@,
            },
            Error::Verdict { detail } => ErrorView::Verdict {
                detail: detail@,
            },
            Error::TooSlow { operation, budget, elapsed } => ErrorView::TooSlow {
                operation: operation@,
                budget: budget@,
                elapsed: elapsed@,
            },
            Error::Timing { operation, detail } => ErrorView::Timing {
                operation: operation@,
                detail: detail@,
            },
            Error::X11 { operation, detail } => ErrorView::X11 {
                operation: operation@,
                detail: detail@,
            },
            Error::Wayland { operation, detail } => ErrorView::Wayland {
                operation: operation@,
                detail: detail@,
            },
            Error::Probe { path, detail } => ErrorView::Probe {
                path: path@,
                detail: detail@,
            },
            Error::FrameJournal { path, detail } => ErrorView::FrameJournal {
                path: path@,
                detail: detail@,
            },
            Error::Unsupported { capability, detail } => ErrorView::Unsupported {
                capability: capability@,
                detail: detail@,
            },
        }
    }
}

impl ErrorView {
    /// The rendered diagnostic.
    pub open spec fn message(self) -> Seq<char> {
        match self {
            ErrorView::MissingTool(value) => "required containment or display tool `"@ + value + "` is unavailable"@,
            ErrorView::Containment { layer, detail } => "containment layer `"@ + layer + "` refused the test: "@ + detail,
            ErrorView::Io { operation, path, source } => operation + " `"@ + crate::text::lossy(path) + "`: "@ + source.text,
            ErrorView::Command { command, status, stderr } => "command `"@ + command + "` failed with "@ + status + ": "@ + stderr,
            ErrorView::ApplicationExited { unit, waiting, detail } => "application unit `"@ + unit + "` exited before "@ + waiting + ": "@ + detail,
            ErrorView::Timeout { waiting, timeout } => "timed out after "@ + crate::duration::rendered(timeout) + " waiting for "@ + waiting,
            ErrorView::Condition { waiting, timeout, last_mismatch } => "condition remained unsatisfied after "@ + crate::duration::rendered(timeout) + " while "@ + waiting + ": "@ + last_mismatch,
            ErrorView::Verdict { detail } => "product verdict failed: "@ + detail,
            ErrorView::TooSlow { operation, budget, elapsed } => "performance budget breached for "@ + operation + ": observed "@ + crate::duration::rendered(elapsed) + ", budget "@ + crate::duration::rendered(budget),
            ErrorView::Timing { operation, detail } => "invalid performance observation for "@ + operation + ": "@ + detail,
            ErrorView::X11 { operation, detail } => "X11 protocol failure while "@ + operation + ": "@ + detail,
            ErrorView::Wayland { operation, detail } => "Wayland protocol failure while "@ + operation + ": "@ + detail,
            ErrorView::Probe { path, detail } => "invalid probe `"@ + crate::text::lossy(path) + "`: "@ + detail,
            ErrorView::FrameJournal { path, detail } => "invalid frame journal `"@ + crate::text::lossy(path) + "`: "@ + detail,
            ErrorView::Unsupported { capability, detail } => "backend capability `"@ + capability + "` is unavailable: "@ + detail,
        }
    }
}

impl Error {
    /// Render the diagnostic.
    pub fn text(&self) -> (text: String)
        ensures
            text@ == self@.message(),
    {
        match self {
            Error::MissingTool(value) => glue3("required containment or display tool `", value, "` is unavailable"),
            Error::Containment { layer, detail } => glue4("containment layer `", layer, "` refused the test: ", detail.as_str()),
            Error::Io { operation, path, source } => glue5(operation, " `", lossy_text(path.as_slice()).as_str(), "`: ", source.text.as_str()),
            Error::Command { command, status, stderr } => glue6("command `", command.as_str(), "` failed with ", status.as_str(), ": ", stderr.as_str()),
            Error::ApplicationExited { unit, waiting, detail } => glue6("application unit `", unit.as_str(), "` exited before ", waiting.as_str(), ": ", detail.as_str()),
            Error::Timeout { waiting, timeout } => glue4("timed out after ", timeout.text().as_str(), " waiting for ", waiting.as_str()),
            Error::Condition { waiting, timeout, last_mismatch } => glue6("condition remained unsatisfied after ", timeout.text().as_str(), " while ", waiting.as_str(), ": ", last_mismatch.as_str()),
            Error::Verdict { detail } => glue2("product verdict failed: ", detail.as_str()),
            Error::TooSlow { operation, budget, elapsed } => glue6("performance budget breached for ", operation.as_str(), ": observed ", elapsed.text().as_str(), ", budget ", budget.text().as_str()),
            Error::Timing { operation, detail } => glue4("invalid performance observation for ", operation.as_str(), ": ", detail.as_str()),
            Error::X11 { operation, detail } => glue4("X11 protocol failure while ", operation, ": ", detail.as_str()),
            Error::Wayland { operation, detail } => glue4("Wayland protocol failure while ", operation, ": ", detail.as_str()),
            Error::Probe { path, detail } => glue4("invalid probe `", lossy_text(path.as_slice()).as_str(), "`: ", detail.as_str()),
            Error::FrameJournal { path, detail } => glue4("invalid frame journal `", lossy_text(path.as_slice()).as_str(), "`: ", detail.as_str()),
            Error::Unsupported { capability, detail } => glue4("backend capability `", capability, "` is unavailable: ", detail.as_str()),
        }
    }
}

/// Harness outcome.
pub type Result<T> = std::result::Result<T, Error>;

/// A failed host operation on a path.
pub fn io(operation: &'static str, path: &Vec<u8>, source: Source) -> (error: Error)
    ensures
        error@ == (ErrorView::Io {
            operation: operation@,
            path: path@,
            source: source@,
        }),
{
    Error::Io { operation, path: crate::text::copy_bytes(path.as_slice()), source }
}

/// A breached budget is told with what was observed before what was allowed, and a timeout
/// with how long was waited for what.
pub proof fn law_diagnostics_tell_what_happened(error: Error, text: String)
    requires
        Error::text.ensures((&error,), text),
    ensures
        error@ matches ErrorView::TooSlow { operation, budget, elapsed } ==> text@
            == "performance budget breached for "@ + operation + ": observed "@
            + crate::duration::rendered(elapsed) + ", budget "@ + crate::duration::rendered(budget),
        error@ matches ErrorView::Timeout { waiting, timeout } ==> text@ == "timed out after "@
            + crate::duration::rendered(timeout) + " waiting for "@ + waiting,
        error@ matches ErrorView::Condition { waiting, timeout, last_mismatch } ==> text@
            == "condition remained unsatisfied after "@ + crate::duration::rendered(timeout)
            + " while "@ + waiting + ": "@ + last_mismatch,
        error@ matches ErrorView::Verdict { detail } ==> text@ == "product verdict failed: "@
            + detail,
        error@ matches ErrorView::Io { operation, path, source } ==> text@ == operation + " `"@
            + crate::text::lossy(path) + "`: "@ + source.text,
{
}

} // verus!
