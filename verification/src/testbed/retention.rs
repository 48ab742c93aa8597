//! Copies of what a failure leaves behind.
use crate::error::{io, Error, ErrorView, Result, Source};
use crate::ospath;
use crate::ospath::{join, parent};
use crate::text;
use crate::text::{copy_bytes, glue3, lossy_text};
use vstd::prelude::*;

verus! {

/// What stands at a source path; links are not followed.
#[derive(Clone, Copy, Debug, Eq, PartialEq, Structural)]
pub enum FileKind {
    Link,
    File,
    Directory,
}

/// How to copy one source.
#[derive(Debug)]
pub enum CopyStep {
    /// Create the destination's directory, when it has one, and copy the file.
    File { parent: Option<Vec<u8>> },
    /// Create the destination directory and list the source.
    Directory,
}

/// Decide how to copy one source, by what stands there.
pub fn copy_step(
    source: &Vec<u8>,
    destination: &Vec<u8>,
    kind: std::result::Result<FileKind, Source>,
) -> (step: Result<CopyStep>)
    ensures
        match kind {
            Err(cause) => step matches Err(error) && error@ == (ErrorView::Io {
                operation: "inspect failure artifact"@,
                path: source@,
                source: cause@,
            }),
            Ok(FileKind::Link) => step matches Err(error) && error@ == (ErrorView::Containment {
                layer: "failure artifacts"@,
                detail: "refusing to follow symlink `"@ + text::lossy(source@) + "`"@,
            }),
            Ok(FileKind::File) => step matches Ok(CopyStep::File { parent }) && match parent {
                Some(directory) => ospath::parent_of(destination@) == Some(directory@),
                None => ospath::parent_of(destination@) is None,
            },
            Ok(FileKind::Directory) => step matches Ok(CopyStep::Directory),
        },
{
    match kind {
        Err(cause) => Err(io("inspect failure artifact", source, cause)),
        Ok(FileKind::Link) => Err(
            Error::Containment {
                layer: "failure artifacts",
                detail: glue3(
                    "refusing to follow symlink `",
                    lossy_text(source.as_slice()).as_str(),
                    "`",
                ),
            },
        ),
        Ok(FileKind::File) => Ok(CopyStep::File { parent: parent(destination.as_slice()) }),
        Ok(FileKind::Directory) => Ok(CopyStep::Directory),
    }
}

/// How a step of a copy can break off.
#[derive(Debug)]
pub enum CopyFault {
    /// The destination's directory could not be created.
    Parent(Source),
    /// The file could not be copied.
    Copy(Source),
    /// The destination directory could not be created.
    Create(Source),
    /// The source directory could not be read.
    List(Source),
    /// An entry of the source directory could not be read.
    Entry(Source),
}

/// Report a step that broke off.
pub fn copy_failure(source: &Vec<u8>, destination: &Vec<u8>, fault: CopyFault) -> (error: Error)
    ensures
        error@ == match fault {
            CopyFault::Parent(cause) => ErrorView::Io {
                operation: "create failure artifact parent"@,
                path: match ospath::parent_of(destination@) {
                    Some(directory) => directory,
                    None => Seq::empty(),
                },
                source: cause@,
            },
            CopyFault::Copy(cause) => ErrorView::Io {
                operation: "copy failure artifact"@,
                path: destination@,
                source: cause@,
            },
            CopyFault::Create(cause) => ErrorView::Io {
                operation: "create failure artifact tree"@,
                path: destination@,
                source: cause@,
            },
            CopyFault::List(cause) => ErrorView::Io {
                operation: "read failure artifact tree"@,
                path: source@,
                source: cause@,
            },
            CopyFault::Entry(cause) => ErrorView::Io {
                operation: "read failure artifact entry"@,
                path: source@,
                source: cause@,
            },
        },
{
    match fault {
        CopyFault::Parent(cause) => {
            let directory = match parent(destination.as_slice()) {
                Some(directory) => directory,
                None => Vec::new(),
            };
            io("create failure artifact parent", &directory, cause)
        },
        CopyFault::Copy(cause) => io("copy failure artifact", destination, cause),
        CopyFault::Create(cause) => io("create failure artifact tree", destination, cause),
        CopyFault::List(cause) => io("read failure artifact tree", source, cause),
        CopyFault::Entry(cause) => io("read failure artifact entry", source, cause),
    }
}

/// A copy of a tree under way: the directories that are being read, each with its
/// destination, the innermost last.
#[derive(Debug)]
pub struct TreeCopy {
    open: Vec<(Vec<u8>, Vec<u8>)>,
}

/// The path at the end of a walk down from a base.
pub open spec fn descended(base: Seq<u8>, steps: Seq<Seq<u8>>) -> Seq<u8>
    decreases steps.len(),
{
    if steps.len() == 0 {
        base
    } else {
        ospath::joined(descended(base, steps.drop_last()), steps.last())
    }
}

/// Whether a walk leads from the roots of a copy to a pair of paths.
pub open spec fn mirrored(
    source: Seq<u8>,
    destination: Seq<u8>,
    steps: Seq<Seq<u8>>,
    pair: (Seq<u8>, Seq<u8>),
) -> bool {
    pair.0 == descended(source, steps) && pair.1 == descended(destination, steps)
}

/// Whether the same walk leads to both paths of a pair.
pub open spec fn mirrors(source: Seq<u8>, destination: Seq<u8>, pair: (Seq<u8>, Seq<u8>)) -> bool {
    exists|steps: Seq<Seq<u8>>| #[trigger] mirrored(source, destination, steps, pair)
}

/// The pair that a directory's entry adds.
pub open spec fn child(pair: (Seq<u8>, Seq<u8>), name: Seq<u8>) -> (Seq<u8>, Seq<u8>) {
    (ospath::joined(pair.0, name), ospath::joined(pair.1, name))
}

impl View for TreeCopy {
    type V = Seq<(Seq<u8>, Seq<u8>)>;

    closed spec fn view(&self) -> Seq<(Seq<u8>, Seq<u8>)> {
        crate::environment::pairs(self.open@)
    }
}

impl TreeCopy {
    /// Begin to copy a tree, before any directory is read.
    pub fn begin() -> (copy: Self)
        ensures
            copy@ == Seq::<(Seq<u8>, Seq<u8>)>::empty(),
    {
        let copy = TreeCopy { open: Vec::new() };
        assert(copy@ =~= Seq::empty());
        copy
    }

    /// Whether a directory is being read.
    pub fn reading(&self) -> (verdict: bool)
        ensures
            verdict == (self@.len() > 0),
    {
        self.open.len() > 0
    }

    /// Begin to read a directory.
    pub fn enter(&mut self, source: &Vec<u8>, destination: &Vec<u8>)
        ensures
            final(self)@ == old(self)@.push((source@, destination@)),
    {
        let ghost held = self@;
        self.open.push((copy_bytes(source.as_slice()), copy_bytes(destination.as_slice())));
        assert(self@ =~= held.push((source@, destination@)));
    }

    /// Take what the innermost directory gave next: the pair that an entry adds, to be
    /// copied with all that it holds before the next entry is read.
    pub fn entry(&self, name: std::result::Result<Vec<u8>, Source>) -> (pair: Result<
        (Vec<u8>, Vec<u8>),
    >)
        requires
            self@.len() > 0,
        ensures
            match name {
                Ok(name) => pair matches Ok((source, destination)) && (source@, destination@)
                    == child(self@.last(), name@),
                Err(cause) => pair matches Err(error) && error@ == (ErrorView::Io {
                    operation: "read failure artifact entry"@,
                    path: self@.last().0,
                    source: cause@,
                }),
            },
    {
        let innermost = &self.open[self.open.len() - 1];
        assert(self@.last() == (innermost.0@, innermost.1@));
        match name {
            Ok(name) => Ok(
                (
                    join(innermost.0.as_slice(), name.as_slice()),
                    join(innermost.1.as_slice(), name.as_slice()),
                ),
            ),
            Err(cause) => Err(copy_failure(&innermost.0, &innermost.1, CopyFault::Entry(cause))),
        }
    }

    /// Leave the innermost directory, once it gave all its entries.
    pub fn leave(&mut self)
        requires
            old(self)@.len() > 0,
        ensures
            final(self)@ == old(self)@.drop_last(),
    {
        let _left = self.open.pop();
        assert(self@ =~= old(self)@.drop_last());
    }
}

/// Whatever a copied tree holds lands at the same walk beneath the destination:
/// what a directory's entry adds keeps to the walk that led to the directory.
pub proof fn law_copies_mirror_their_source(
    source: Seq<u8>,
    destination: Seq<u8>,
    pair: (Seq<u8>, Seq<u8>),
    name: Seq<u8>,
)
    requires
        mirrors(source, destination, pair),
    ensures
        mirrors(source, destination, child(pair, name)),
{
    let steps = choose|steps: Seq<Seq<u8>>| #[trigger] mirrored(source, destination, steps, pair);
    let longer = steps.push(name);
    assert(longer.drop_last() =~= steps);
    assert(mirrored(source, destination, longer, child(pair, name)));
}

/// A link is never followed: a source is copied only where it is a file or a directory.
pub proof fn law_links_are_never_followed(
    source: Vec<u8>,
    destination: Vec<u8>,
    kind: std::result::Result<FileKind, Source>,
    step: Result<CopyStep>,
)
    requires
        copy_step.ensures((&source, &destination, kind), step),
    ensures
        step is Ok <==> kind == Ok::<FileKind, Source>(FileKind::File) || kind == Ok::<
            FileKind,
            Source,
        >(FileKind::Directory),
        (step matches Ok(CopyStep::Directory)) <==> kind == Ok::<FileKind, Source>(
            FileKind::Directory,
        ),
        kind == Ok::<FileKind, Source>(FileKind::Link) ==> (step matches Err(error)
            && error@ is Containment),
{
}

/// A copy that breaks off is reported with the place at which it did: what is read by its
/// source, and what is written by its destination.
pub proof fn law_broken_copies_name_their_place(
    source: Vec<u8>,
    destination: Vec<u8>,
    fault: CopyFault,
    error: Error,
)
    requires
        copy_failure.ensures((&source, &destination, fault), error),
    ensures
        error@ is Io,
        fault is List || fault is Entry ==> error@->Io_path == source@,
        fault is Copy || fault is Create ==> error@->Io_path == destination@,
        fault is Parent ==> (ospath::parent_of(destination@) matches Some(directory)
            ==> error@->Io_path == directory),
{
}

/// An entry of a directory is copied under its own name on both sides.
pub proof fn law_entries_keep_their_names(
    copy: TreeCopy,
    name: Vec<u8>,
    pair: Result<(Vec<u8>, Vec<u8>)>,
)
    requires
        copy@.len() > 0,
        TreeCopy::entry.ensures((&copy, Ok(name)), pair),
    ensures
        pair matches Ok((source, destination)) && source@ == ospath::joined(copy@.last().0, name@)
            && destination@ == ospath::joined(copy@.last().1, name@),
{
}

} // verus!
