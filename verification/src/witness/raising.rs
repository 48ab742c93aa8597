//! The witness sink from its seal to its running worker: what is asked of the host,
//! in its order.
use crate::bytes;
use crate::error::Source;
use crate::ospath;
use crate::ospath::parent;
use crate::stage::{Act, Stage};
use crate::text::copy_bytes;
use crate::witness::error::{Error, ErrorView, Result};
use crate::witness::frame_journal;
use crate::witness::frame_journal::{open_frame_journal, FRAME_MAGIC, FRAME_SCHEMA};
use crate::witness::observation_journal;
use crate::witness::observation_journal::{open_observation_journal, OBSERVATION_MAGIC, OBSERVATION_SCHEMA};
use crate::witness::publisher::{Publisher, PublisherView};
use vstd::prelude::*;
use vstd::utf8::*;

verus! {

/// One thing that a journal asks of the host as it is begun.
#[derive(Debug)]
pub enum Groundwork {
    /// Create a directory with its parents.
    Directory(Vec<u8>),
    /// Create an empty file.
    File(Vec<u8>),
    /// Write bytes to a file that was created.
    Header(Vec<u8>, Vec<u8>),
}

/// Content of a [`Groundwork`].
#[verifier::ext_equal]
pub enum GroundworkView {
    Directory(Seq<u8>),
    File(Seq<u8>),
    Header(Seq<u8>, Seq<u8>),
}

impl View for Groundwork {
    type V = GroundworkView;

    open spec fn view(&self) -> GroundworkView {
        match self {
            Groundwork::Directory(path) => GroundworkView::Directory(path@),
            Groundwork::File(path) => GroundworkView::File(path@),
            Groundwork::Header(path, content) => GroundworkView::Header(path@, content@),
        }
    }
}

impl Act for Groundwork {
    fn noted(&self) -> (copy: Self) {
        match self {
            Groundwork::Directory(path) => Groundwork::Directory(copy_bytes(path.as_slice())),
            Groundwork::File(path) => Groundwork::File(copy_bytes(path.as_slice())),
            Groundwork::Header(path, content) => Groundwork::Header(
                copy_bytes(path.as_slice()),
                copy_bytes(content.as_slice()),
            ),
        }
    }
}

/// A host operation that failed.
pub open spec fn failed(operation: Seq<char>, path: Seq<u8>, source: Source) -> ErrorView {
    ErrorView::Io { operation, path, source: source@ }
}

/// What the host answers while a journal is begun.
pub struct Opening {
    /// Whether the journal's directory was created.
    pub directory: std::result::Result<(), Source>,
    /// Whether the journal was created.
    pub file: std::result::Result<(), Source>,
    /// Whether its header was written.
    pub header: std::result::Result<(), Source>,
}

impl Opening {
    /// Whether the host can answer so, by way of these states: once its directory was
    /// asked for, and once its file was. It is asked nothing after a failure, and a
    /// path without a parent needs no directory.
    pub open spec fn told_by<P: Stage<Groundwork, Source>>(
        self,
        path: Seq<u8>,
        header: std::result::Result<Seq<u8>, ErrorView>,
        before: P,
        placed: P,
        made: P,
        after: P,
    ) -> bool {
        &&& match ospath::parent_of(path) {
            None => self.directory is Ok && placed == before,
            Some(directory) => P::goes(
                before,
                GroundworkView::Directory(directory),
                self.directory,
                placed,
            ),
        }
        &&& if self.directory is Err {
            after == placed
        } else {
            &&& P::goes(placed, GroundworkView::File(path), self.file, made)
            &&& match (self.file, header) {
                (Ok(_), Ok(header)) => P::goes(
                    made,
                    GroundworkView::Header(path, header),
                    self.header,
                    after,
                ),
                _ => after == made,
            }
        }
    }

    /// Whether the host can answer so, and be left so.
    pub open spec fn told<P: Stage<Groundwork, Source>>(
        self,
        path: Seq<u8>,
        header: std::result::Result<Seq<u8>, ErrorView>,
        before: P,
        after: P,
    ) -> bool {
        exists|placed: P, made: P| #[trigger]
            self.told_by(path, header, before, placed, made, after)
    }

    /// What the answers mean.
    pub open spec fn verdict(
        self,
        path: Seq<u8>,
        header: std::result::Result<Seq<u8>, ErrorView>,
    ) -> std::result::Result<(), ErrorView> {
        match (self.directory, self.file, header, self.header) {
            (Err(source), _, _, _) => Err(
                failed("create parent for"@, ospath::parent_of(path)->0, source),
            ),
            (_, Err(source), _, _) => Err(failed("create"@, path, source)),
            (_, _, Err(error), _) => Err(error),
            (_, _, _, Err(source)) => Err(failed("write header to"@, path, source)),
            _ => Ok(()),
        }
    }
}

/// The header of a frame journal, or why it has none.
pub open spec fn frame_header(path: Seq<u8>, launch: Seq<char>) -> std::result::Result<
    Seq<u8>,
    ErrorView,
> {
    if encode_utf8(launch).len() <= u32::MAX {
        Ok(frame_journal::sealed_header(FRAME_MAGIC@, FRAME_SCHEMA, launch))
    } else {
        Err(
            ErrorView::FrameJournal {
                path,
                detail: "launch seal is too long: "@ + bytes::length_fault(
                    encode_utf8(launch).len() as usize,
                ),
            },
        )
    }
}

/// The header of an observation journal, or why it has none.
pub open spec fn observation_header(path: Seq<u8>, launch: Seq<char>) -> std::result::Result<
    Seq<u8>,
    ErrorView,
> {
    if encode_utf8(launch).len() <= u32::MAX {
        Ok(frame_journal::sealed_header(OBSERVATION_MAGIC@, OBSERVATION_SCHEMA, launch))
    } else {
        Err(
            observation_journal::invalid(
                path,
                "launch seal is too long: "@ + bytes::length_fault(
                    encode_utf8(launch).len() as usize,
                ),
            ),
        )
    }
}

/// The content of an outcome that carries nothing.
pub open spec fn told(outcome: Result<()>) -> std::result::Result<(), ErrorView> {
    match outcome {
        Ok(_) => Ok(()),
        Err(error) => Err(error@),
    }
}

/// The content of a header.
pub open spec fn headed(header: Result<Vec<u8>>) -> std::result::Result<Seq<u8>, ErrorView> {
    match header {
        Ok(header) => Ok(header@),
        Err(error) => Err(error@),
    }
}

fn failure(operation: &'static str, path: &Vec<u8>, source: Source) -> (error: Error)
    ensures
        error@ == failed(operation@, path@, source),
{
    Error::Io { operation, path: copy_bytes(path.as_slice()), source }
}

/// Begin a journal with its header: its directory, its file, and the header are
/// made in this order.
pub fn begin_journal<P: Stage<Groundwork, Source>>(
    path: &Vec<u8>,
    header: Result<Vec<u8>>,
    host: &mut P,
) -> (verdict: Result<()>)
    ensures
        exists|opening: Opening| #[trigger]
            opening.told(path@, headed(header), *old(host), *final(host)) && told(verdict)
                == opening.verdict(path@, headed(header)),
{
    let ghost content = headed(header);
    let ghost before = *host;
    let ghost mut opening = Opening { directory: Ok(()), file: Ok(()), header: Ok(()) };
    match parent(path.as_slice()) {
        None => {},
        Some(directory) => {
            let act = Groundwork::Directory(copy_bytes(directory.as_slice()));
            let made = host.perform(&act);
            proof {
                opening.directory = made;
            }
            match made {
                Ok(unit) => {
                    assert(unit == ());
                },
                Err(source) => {
                    assert(opening.told_by(path@, content, before, *host, *host, *host));
                    assert(opening.told(path@, content, before, *host));
                    return Err(failure("create parent for", &directory, source));
                },
            }
        },
    }
    let ghost placed = *host;
    let act = Groundwork::File(copy_bytes(path.as_slice()));
    let made = host.perform(&act);
    let ghost created = *host;
    proof {
        opening.file = made;
    }
    match made {
        Ok(unit) => {
            assert(unit == ());
        },
        Err(source) => {
            assert(opening.told_by(path@, content, before, placed, created, created));
            assert(opening.told(path@, content, before, created));
            return Err(failure("create", path, source));
        },
    }
    let header = match header {
        Ok(header) => header,
        Err(error) => {
            assert(opening.told_by(path@, content, before, placed, created, created));
            assert(opening.told(path@, content, before, created));
            return Err(error);
        },
    };
    let act = Groundwork::Header(
        copy_bytes(path.as_slice()),
        copy_bytes(header.as_slice()),
    );
    let written = host.perform(&act);
    proof {
        opening.header = written;
    }
    assert(opening.told_by(path@, content, before, placed, created, *host));
    assert(opening.told(path@, content, before, *host));
    match written {
        Ok(_) => Ok(()),
        Err(source) => Err(failure("write header to", path, source)),
    }
}

/// What the host answers while a sink is raised.
pub struct Raising {
    pub frames: Opening,
    pub observations: Opening,
    /// Whether the worker was started.
    pub worker: std::result::Result<(), Source>,
}

impl Raising {
    /// What became of the frame journal.
    pub open spec fn frame_verdict(self, publisher: PublisherView) -> std::result::Result<
        (),
        ErrorView,
    > {
        self.frames.verdict(
            publisher.frame_path,
            frame_header(publisher.frame_path, publisher.launch),
        )
    }

    /// What became of the observation journal.
    pub open spec fn observation_verdict(self, publisher: PublisherView) -> std::result::Result<
        (),
        ErrorView,
    > {
        self.observations.verdict(
            publisher.path,
            observation_header(publisher.path, publisher.launch),
        )
    }

    /// Whether the host can answer so, by way of the state between both journals. The
    /// frame journal is begun first, and the worker is started behind both journals.
    pub open spec fn told_by<
        P: Stage<Groundwork, Source>,
        S: FnOnce() -> std::result::Result<(), Source>,
    >(self, publisher: PublisherView, spawn: S, before: P, between: P, after: P) -> bool {
        &&& self.frames.told(
            publisher.frame_path,
            frame_header(publisher.frame_path, publisher.launch),
            before,
            between,
        )
        &&& if self.frame_verdict(publisher) is Ok {
            &&& self.observations.told(
                publisher.path,
                observation_header(publisher.path, publisher.launch),
                between,
                after,
            )
            &&& self.observation_verdict(publisher) is Ok ==> spawn.ensures((), self.worker)
        } else {
            after == between
        }
    }

    /// Whether the host can answer so, and be left so.
    pub open spec fn told<
        P: Stage<Groundwork, Source>,
        S: FnOnce() -> std::result::Result<(), Source>,
    >(self, publisher: PublisherView, spawn: S, before: P, after: P) -> bool {
        exists|between: P| #[trigger] self.told_by(publisher, spawn, before, between, after)
    }

    /// Whether both journals can have been begun, and the host be left so.
    pub open spec fn begun<P: Stage<Groundwork, Source>>(
        self,
        publisher: PublisherView,
        before: P,
        between: P,
        after: P,
    ) -> bool {
        &&& self.frame_verdict(publisher) is Ok
        &&& self.observation_verdict(publisher) is Ok
        &&& self.frames.told(
            publisher.frame_path,
            frame_header(publisher.frame_path, publisher.launch),
            before,
            between,
        )
        &&& self.observations.told(
            publisher.path,
            observation_header(publisher.path, publisher.launch),
            between,
            after,
        )
    }

    /// What the answers mean.
    pub open spec fn verdict(self, publisher: PublisherView) -> std::result::Result<(), ErrorView> {
        match (self.frame_verdict(publisher), self.observation_verdict(publisher), self.worker) {
            (Err(error), _, _) => Err(error),
            (_, Err(error), _) => Err(error),
            (_, _, Err(source)) => Err(failed("spawn writer for"@, publisher.path, source)),
            _ => Ok(()),
        }
    }
}

impl Publisher {
    /// Raise the sink: both journals are begun with this launch's seal, and the
    /// worker that writes them is started.
    pub fn raise<
        P: Stage<Groundwork, Source>,
        S: FnOnce() -> std::result::Result<(), Source>,
    >(&self, host: &mut P, spawn: S) -> (verdict: Result<()>)
        requires
            forall|raising: Raising, between: P, after: P| #[trigger]
                raising.begun(self@, *old(host), between, after) ==> spawn.requires(()),
        ensures
            exists|raising: Raising| #[trigger]
                raising.told(self@, spawn, *old(host), *final(host)) && told(verdict)
                    == raising.verdict(self@),
    {
        let ghost before = *host;
        let header = open_frame_journal(self.frame_path(), self.launch());
        assert(headed(header) == frame_header(self@.frame_path, self@.launch));
        let ghost mut raising = Raising {
            frames: arbitrary(),
            observations: arbitrary(),
            worker: Ok(()),
        };
        let ghost frame_told = headed(header);
        let begun = begin_journal(self.frame_path(), header, host);
        let ghost between = *host;
        proof {
            raising.frames = choose|opening: Opening| #[trigger]
                opening.told(self@.frame_path, frame_told, before, between) && told(begun)
                    == opening.verdict(self@.frame_path, frame_told);
        }
        match begun {
            Ok(_) => {},
            Err(error) => {
                assert(raising.told_by(self@, spawn, before, between, between));
                assert(raising.told(self@, spawn, before, between));
                return Err(error);
            },
        }
        let header = open_observation_journal(self.path(), self.launch());
        assert(headed(header) == observation_header(self@.path, self@.launch));
        let ghost observation_told = headed(header);
        let begun = begin_journal(self.path(), header, host);
        proof {
            raising.observations = choose|opening: Opening| #[trigger]
                opening.told(self@.path, observation_told, between, *host) && told(begun)
                    == opening.verdict(self@.path, observation_told);
        }
        match begun {
            Ok(_) => {},
            Err(error) => {
                assert(raising.told_by(self@, spawn, before, between, *host));
                assert(raising.told(self@, spawn, before, *host));
                return Err(error);
            },
        }
        assert(raising.begun(self@, before, between, *host));
        let worker = spawn();
        proof {
            raising.worker = worker;
        }
        assert(raising.told_by(self@, spawn, before, between, *host));
        assert(raising.told(self@, spawn, before, *host));
        match worker {
            Ok(_) => Ok(()),
            Err(source) => Err(failure("spawn writer for", self.path(), source)),
        }
    }
}

/// A journal is begun only where its directory, its file and its header were all made, and
/// the first of them that failed is what is told.
pub proof fn law_journals_are_begun_whole(
    opening: Opening,
    path: Seq<u8>,
    header: std::result::Result<Seq<u8>, ErrorView>,
)
    ensures
        opening.verdict(path, header) is Ok <==> opening.directory is Ok && opening.file is Ok
            && header is Ok && opening.header is Ok,
        opening.directory is Ok && opening.file is Ok ==> (header matches Err(error)
            ==> opening.verdict(path, header) == Err::<(), _>(error)),
        opening.directory is Ok ==> (opening.file matches Err(source) ==> (opening.verdict(
            path,
            header,
        ) matches Err(error) && (error matches ErrorView::Io { path: place, source: cause, .. }
            && place == path && cause == source@))),
{
}

} // verus!
