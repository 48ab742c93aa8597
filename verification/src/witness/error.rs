//! Witness failures and their diagnostics.
use crate::error::{Source, SourceKind, SourceView};
use crate::text::{glue2, glue4, glue5, lossy_text};
use vstd::prelude::*;

verus! {

/// Failure of the one-way witness channel.
#[allow(inconsistent_fields)]
#[derive(Debug)]
pub enum Error {
    /// The harness environment is incomplete.
    Environment(&'static str),
    /// An anchor or frame scale is invalid.
    Anchor { name: String, detail: &'static str },
    /// A semantic Target name is not canonical.
    TargetName { name: String, detail: &'static str },
    /// A frame could not be serialized; holds the rendered cause.
    Serialize(String),
    /// A host operation on a path failed.
    Io { operation: &'static str, path: Vec<u8>, source: Source },
    /// A frame journal is invalid.
    FrameJournal { path: Vec<u8>, detail: String },
    /// An observation journal is invalid.
    ObservationJournal { path: Vec<u8>, detail: String },
    /// The asynchronous writer failed.
    Writer(String),
}

/// Mathematical content of an [`Error`].
#[verifier::ext_equal]
pub enum ErrorView {
    Environment(Seq<char>),
    Anchor { name: Seq<char>, detail: Seq<char> },
    TargetName { name: Seq<char>, detail: Seq<char> },
    Serialize(Seq<char>),
    Io { operation: Seq<char>, path: Seq<u8>, source: SourceView },
    FrameJournal { path: Seq<u8>, detail: Seq<char> },
    ObservationJournal { path: Seq<u8>, detail: Seq<char> },
    Writer(Seq<char>),
}

impl View for Error {
    type V = ErrorView;

    open spec fn view(&self) -> ErrorView {
        match self {
            Error::Environment(value) => ErrorView::Environment(value@),
            Error::Anchor { name, detail } => ErrorView::Anchor {
                name: name@,
                detail: detail@,
            },
            Error::TargetName { name, detail } => ErrorView::TargetName {
                name: name@,
                detail: detail@,
            },
            Error::Serialize(value) => ErrorView::Serialize(value@),
            Error::Io { operation, path, source } => ErrorView::Io {
                operation: operation@,
                path: path@,
                source: source@,
            },
            Error::FrameJournal { path, detail } => ErrorView::FrameJournal {
                path: path@,
                detail: detail@,
            },
            Error::ObservationJournal { path, detail } => ErrorView::ObservationJournal {
                path: path@,
                detail: detail@,
            },
            Error::Writer(value) => ErrorView::Writer(value@),
        }
    }
}

impl ErrorView {
    /// The rendered diagnostic.
    pub open spec fn message(self) -> Seq<char> {
        match self {
            ErrorView::Environment(value) => "witness environment is incomplete: "@ + value,
            ErrorView::Anchor { name, detail } => "invalid witness anchor `"@ + name + "`: "@ + detail,
            ErrorView::TargetName { name, detail } => "invalid Target name `"@ + name + "`: "@ + detail,
            ErrorView::Serialize(value) => "serialize witness frame: "@ + value,
            ErrorView::Io { operation, path, source } => operation + " witness `"@ + crate::text::lossy(path) + "`: "@ + source.text,
            ErrorView::FrameJournal { path, detail } => "invalid frame journal `"@ + crate::text::lossy(path) + "`: "@ + detail,
            ErrorView::ObservationJournal { path, detail } => "invalid observation journal `"@ + crate::text::lossy(path) + "`: "@ + detail,
            ErrorView::Writer(value) => "witness writer failed: "@ + value,
        }
    }
}

impl Error {
    /// Whether a path that is not there is to blame.
    pub open spec fn absent(&self) -> bool {
        *self matches Error::Io { source, .. } && source.kind == SourceKind::NotFound
    }

    /// Decide whether a path that is not there is to blame.
    pub fn is_absent(&self) -> (verdict: bool)
        ensures
            verdict == self.absent(),
    {
        match self {
            Error::Io { source, .. } => source.kind == SourceKind::NotFound,
            _ => false,
        }
    }

    /// Render the diagnostic.
    pub fn text(&self) -> (text: String)
        ensures
            text@ == self@.message(),
    {
        match self {
            Error::Environment(value) => glue2("witness environment is incomplete: ", value),
            Error::Anchor { name, detail } => glue4("invalid witness anchor `", name.as_str(), "`: ", detail),
            Error::TargetName { name, detail } => glue4("invalid Target name `", name.as_str(), "`: ", detail),
            Error::Serialize(value) => glue2("serialize witness frame: ", value.as_str()),
            Error::Io { operation, path, source } => glue5(operation, " witness `", lossy_text(path.as_slice()).as_str(), "`: ", source.text.as_str()),
            Error::FrameJournal { path, detail } => glue4("invalid frame journal `", lossy_text(path.as_slice()).as_str(), "`: ", detail.as_str()),
            Error::ObservationJournal { path, detail } => glue4("invalid observation journal `", lossy_text(path.as_slice()).as_str(), "`: ", detail.as_str()),
            Error::Writer(value) => glue2("witness writer failed: ", value.as_str()),
        }
    }
}

/// Witness outcome.
pub type Result<T> = std::result::Result<T, Error>;

} // verus!
