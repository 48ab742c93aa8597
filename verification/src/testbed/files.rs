//! Oracle input and output beneath the owned tree.
//!
//! Each operation hands its caller a confined descent and judges what came of
//! it. The caller opens every step beneath the step before and follows no link.
use crate::error::{io, ErrorView, Result, Source, SourceKind};
use crate::host;
use crate::host::make_directory;
use crate::ospath;
use crate::stage::{Act, Rehearsal, Stage};
use crate::testbed;
use crate::testbed::Testbed;
use crate::text;
use crate::text::copy_bytes;
use vstd::prelude::*;
use vstd::utf8::*;

verus! {

/// How a descent through private directories can break off.
#[derive(Debug)]
pub enum DescentFault {
    /// The root could not be opened.
    Root(Source),
    /// A directory could not be created.
    Create(Source),
    /// A directory could not be entered.
    Descend(Source),
}

/// How a private write can break off.
#[derive(Debug)]
pub enum WriteFault {
    /// The file's directory could not be reached.
    Descent(DescentFault),
    /// The file could not be opened.
    Open(Source),
    /// The bytes could not be written.
    Write(Source),
}

/// How a private read can break off.
#[derive(Debug)]
pub enum ReadFault {
    /// The root could not be opened.
    Root(Source),
    /// The file could not be opened.
    Open(Source),
    /// The bytes could not be read.
    Read(Source),
}

/// How an export can break off.
#[derive(Debug)]
pub enum ExportFault {
    /// The root could not be opened.
    Root(Source),
    /// The private file could not be opened.
    Open(Source),
    /// The artifact could not be created.
    Create(Source),
    /// The bytes could not be copied.
    Copy(Source),
}

/// A failed operation on a path.
pub open spec fn failed(operation: &str, path: Seq<u8>, source: Source) -> ErrorView {
    ErrorView::Io { operation: operation@, path, source: source@ }
}

/// Why a private root could not be opened.
pub open spec fn sealed_root(root: Seq<u8>, source: Source) -> ErrorView {
    failed("open private root capability", root, source)
}

/// Why a private directory could not be made.
pub open spec fn directory_failure(root: Seq<u8>, relative: Seq<u8>, fault: DescentFault) -> ErrorView {
    match fault {
        DescentFault::Root(source) => sealed_root(root, source),
        DescentFault::Create(source) => failed("create confined private directory", relative, source),
        DescentFault::Descend(source) => failed(
            "descend confined private directory",
            relative,
            source,
        ),
    }
}

/// Why a private file could not be written, when its last step is this
/// operation.
pub open spec fn write_failure(
    root: Seq<u8>,
    relative: Seq<u8>,
    operation: &str,
    fault: WriteFault,
) -> ErrorView {
    match fault {
        WriteFault::Descent(DescentFault::Root(source)) => sealed_root(root, source),
        WriteFault::Descent(DescentFault::Create(source)) => failed(
            "create confined private parent",
            relative,
            source,
        ),
        WriteFault::Descent(DescentFault::Descend(source)) => failed(
            "descend confined private parent",
            relative,
            source,
        ),
        WriteFault::Open(source) => failed("open confined private output", relative, source),
        WriteFault::Write(source) => failed(operation, ospath::joined(root, relative), source),
    }
}

/// Why a private file could not be read.
pub open spec fn read_failure(root: Seq<u8>, relative: Seq<u8>, fault: ReadFault) -> ErrorView {
    match fault {
        ReadFault::Root(source) => sealed_root(root, source),
        ReadFault::Open(source) => failed("open confined private file", relative, source),
        ReadFault::Read(source) => failed(
            "read private file",
            ospath::joined(root, relative),
            source,
        ),
    }
}

/// Why a private file could not be exported.
pub open spec fn export_failure(
    root: Seq<u8>,
    relative: Seq<u8>,
    destination: Seq<u8>,
    fault: ExportFault,
) -> ErrorView {
    match fault {
        ExportFault::Root(source) => sealed_root(root, source),
        ExportFault::Open(source) => failed("open confined private file", relative, source),
        ExportFault::Create(source) => failed("create exported artifact", destination, source),
        ExportFault::Copy(source) => failed(
            "export private artifact",
            ospath::joined(root, relative),
            source,
        ),
    }
}

/// A path without a name for a file.
pub open spec fn nameless(relative: Seq<u8>) -> ErrorView {
    ErrorView::Containment {
        layer: "private filesystem"@,
        detail: "private path `"@ + text::lossy(relative) + "` has no filename"@,
    }
}

/// Whether a write through a descent can come to an outcome.
pub open spec fn writes<W: FnOnce(&Vec<Vec<u8>>, &Vec<u8>) -> std::result::Result<(), WriteFault>>(
    write: W,
    steps: Seq<Seq<u8>>,
    outcome: std::result::Result<(), WriteFault>,
) -> bool {
    exists|directories: &Vec<Vec<u8>>, leaf: &Vec<u8>|
        text::views(directories@).push(leaf@) == steps && #[trigger] write.ensures(
            (directories, leaf),
            outcome,
        )
}

/// Whether a private path may be written: only a confined one, and only through its
/// own descent.
pub open spec fn writable<W: FnOnce(&Vec<Vec<u8>>, &Vec<u8>) -> std::result::Result<(), WriteFault>>(
    write: W,
    relative: Seq<u8>,
) -> bool {
    forall|directories: &Vec<Vec<u8>>, leaf: &Vec<u8>|
        ospath::confined(relative) && text::views(directories@).push(leaf@) == testbed::names(
            ospath::components(relative),
        ) ==> #[trigger] write.requires((directories, leaf))
}

/// Whether a private path may be read: only a confined one.
pub open spec fn readable<R: FnOnce(&Vec<u8>) -> std::result::Result<Vec<u8>, ReadFault>>(
    read: R,
    relative: Seq<u8>,
) -> bool {
    forall|path: &Vec<u8>|
        ospath::confined(relative) && path@ == relative ==> #[trigger] read.requires((path,))
}

/// Whether a private write can come to an outcome: the file's path, or why it was
/// not written.
pub open spec fn written<W: FnOnce(&Vec<Vec<u8>>, &Vec<u8>) -> std::result::Result<(), WriteFault>>(
    root: Seq<u8>,
    relative: Seq<u8>,
    operation: &str,
    write: W,
    outcome: std::result::Result<Seq<u8>, ErrorView>,
) -> bool {
    let steps = testbed::names(ospath::components(relative));
    if steps.len() == 0 {
        outcome == Err::<Seq<u8>, _>(nameless(relative))
    } else {
        match outcome {
            Ok(path) => path == ospath::joined(root, relative) && writes(write, steps, Ok(())),
            Err(error) => exists|fault: WriteFault| #[trigger]
                writes(write, steps, Err(fault)) && error == write_failure(
                    root,
                    relative,
                    operation,
                    fault,
                ),
        }
    }
}

/// The content of an outcome that is a path.
pub open spec fn placed(path: Result<Vec<u8>>) -> std::result::Result<Seq<u8>, ErrorView> {
    match path {
        Ok(path) => Ok(path@),
        Err(error) => Err(error@),
    }
}

/// Whether a private read can come to an outcome.
pub open spec fn reads<R: FnOnce(&Vec<u8>) -> std::result::Result<Vec<u8>, ReadFault>>(
    read: R,
    relative: Seq<u8>,
    outcome: std::result::Result<Vec<u8>, ReadFault>,
) -> bool {
    exists|path: &Vec<u8>| path@ == relative && #[trigger] read.ensures((path,), outcome)
}

/// Whether reading a private file can come to its bytes, or to a failure.
pub open spec fn perused<R: FnOnce(&Vec<u8>) -> std::result::Result<Vec<u8>, ReadFault>>(
    root: Seq<u8>,
    relative: Seq<u8>,
    read: R,
    outcome: std::result::Result<Seq<u8>, ErrorView>,
) -> bool {
    if !ospath::confined(relative) {
        outcome == Err::<Seq<u8>, _>(testbed::unconfined(relative))
    } else {
        match outcome {
            Ok(bytes) => exists|held: Vec<u8>| #[trigger]
                reads(read, relative, Ok(held)) && held@ == bytes,
            Err(error) => exists|fault: ReadFault| #[trigger]
                reads(read, relative, Err(fault)) && error == read_failure(root, relative, fault),
        }
    }
}

/// What a private file's bytes are as text.
pub open spec fn worded(relative: Seq<u8>, bytes: Seq<u8>) -> std::result::Result<
    Seq<char>,
    ErrorView,
> {
    if valid_utf8(bytes) {
        Ok(decode_utf8(bytes))
    } else {
        Err(
            ErrorView::Containment {
                layer: "private filesystem"@,
                detail: "private file `"@ + text::lossy(relative) + "` is not UTF-8: "@
                    + text::utf8_fault(bytes),
            },
        )
    }
}

/// Whether an export can come to an outcome.
pub open spec fn exports<E: FnOnce(&Vec<u8>, &Vec<u8>) -> std::result::Result<(), ExportFault>>(
    transfer: E,
    relative: Seq<u8>,
    destination: Seq<u8>,
    outcome: std::result::Result<(), ExportFault>,
) -> bool {
    exists|from: &Vec<u8>, to: &Vec<u8>|
        from@ == relative && to@ == destination && #[trigger] transfer.ensures((from, to), outcome)
}

// ---------------------------------------------------------------------------
// Descents
// ---------------------------------------------------------------------------

/// One act of a descent.
#[derive(Debug)]
pub enum Descent {
    /// Open the private root.
    Root,
    /// Make a directory beneath the one that was reached.
    Make(Vec<u8>),
    /// Enter a directory beneath the one that was reached.
    Enter(Vec<u8>),
}

/// Content of a [`Descent`].
#[verifier::ext_equal]
pub enum DescentView {
    Root,
    Make(Seq<u8>),
    Enter(Seq<u8>),
}

impl View for Descent {
    type V = DescentView;

    open spec fn view(&self) -> DescentView {
        match self {
            Descent::Root => DescentView::Root,
            Descent::Make(name) => DescentView::Make(name@),
            Descent::Enter(name) => DescentView::Enter(name@),
        }
    }
}

impl Act for Descent {
    fn noted(&self) -> (copy: Self) {
        match self {
            Descent::Root => Descent::Root,
            Descent::Make(name) => Descent::Make(copy_bytes(name.as_slice())),
            Descent::Enter(name) => Descent::Enter(copy_bytes(name.as_slice())),
        }
    }
}

/// A directory that is there once it was made, or was there before.
pub open spec fn stands(made: std::result::Result<(), Source>) -> bool {
    match made {
        Ok(_) => true,
        Err(source) => source.kind == SourceKind::AlreadyExists,
    }
}

/// Whether making a directory, unless it was there, can leave the stage so.
pub open spec fn furnishes<P: Stage<Descent, Source>>(
    before: P,
    step: Seq<u8>,
    after: P,
) -> bool {
    exists|made: std::result::Result<(), Source>| #[trigger]
        P::goes(before, DescentView::Make(step), made, after) && stands(made)
}

/// Whether a step of a descent can leave the stage so: its directory is made unless
/// it was there, and is entered.
pub open spec fn enters<P: Stage<Descent, Source>>(before: P, step: Seq<u8>, after: P) -> bool {
    exists|between: P| #[trigger]
        furnishes(before, step, between) && P::goes(
            between,
            DescentView::Enter(step),
            Ok(()),
            after,
        )
}

/// Whether a step of a descent can fail so.
pub open spec fn stumbles<P: Stage<Descent, Source>>(
    before: P,
    step: Seq<u8>,
    fault: DescentFault,
    after: P,
) -> bool {
    match fault {
        DescentFault::Root(_) => false,
        DescentFault::Create(source) => P::goes(
            before,
            DescentView::Make(step),
            Err(source),
            after,
        ) && !stands(Err(source)),
        DescentFault::Descend(source) => exists|between: P| #[trigger]
            furnishes(before, step, between) && P::goes(
                between,
                DescentView::Enter(step),
                Err(source),
                after,
            ),
    }
}

/// Whether a run of steps was taken in order, each once, by way of these stages.
pub open spec fn enters_by<P: Stage<Descent, Source>>(
    stages: Seq<P>,
    steps: Seq<Seq<u8>>,
) -> bool {
    &&& stages.len() == steps.len() + 1
    &&& forall|i: int|
        0 <= i < steps.len() ==> enters(stages[i], #[trigger] steps[i], stages[i + 1])
}

/// Whether a descent can fail at one of its steps, those before it taken.
pub open spec fn stumbles_at<P: Stage<Descent, Source>>(
    stages: Seq<P>,
    steps: Seq<Seq<u8>>,
    at: int,
    fault: DescentFault,
    after: P,
) -> bool {
    &&& 0 <= at < steps.len()
    &&& enters_by(stages, steps.take(at))
    &&& stumbles(stages.last(), steps[at], fault, after)
}

/// Whether a descent from the private root can leave the stage so, with an outcome.
/// Each step is taken beneath the one before, until one fails.
pub open spec fn descends<P: Stage<Descent, Source>>(
    before: P,
    steps: Seq<Seq<u8>>,
    outcome: std::result::Result<(), DescentFault>,
    after: P,
) -> bool {
    match outcome {
        Err(DescentFault::Root(source)) => P::goes(before, DescentView::Root, Err(source), after),
        Err(fault) => exists|stages: Seq<P>, at: int|
            P::goes(before, DescentView::Root, Ok(()), stages[0]) && #[trigger] stumbles_at(
                stages,
                steps,
                at,
                fault,
                after,
            ),
        Ok(_) => exists|stages: Seq<P>|
            P::goes(before, DescentView::Root, Ok(()), stages[0]) && #[trigger] enters_by(
                stages,
                steps,
            ) && stages.last() == after,
    }
}

/// Descend from the private root, and make each directory that is not there.
pub fn descend<P: Stage<Descent, Source>>(steps: &Vec<Vec<u8>>, stage: &mut P) -> (outcome:
    std::result::Result<(), DescentFault>)
    ensures
        descends(*old(stage), text::views(steps@), outcome, *final(stage)),
{
    match stage.perform(&Descent::Root) {
        Ok(unit) => {
            assert(unit == ());
        },
        Err(source) => {
            return Err(DescentFault::Root(source));
        },
    }
    let ghost all = text::views(steps@);
    let ghost mut stages: Seq<P> = seq![*stage];
    assert(all.take(0) =~= Seq::<Seq<u8>>::empty());
    let mut index: usize = 0;
    while index < steps.len()
        invariant
            index <= steps.len(),
            all == text::views(steps@),
            P::goes(*old(stage), DescentView::Root, Ok(()), stages[0]),
            enters_by(stages, all.take(index as int)),
            stages.last() == *stage,
        decreases steps.len() - index,
    {
        let ghost here = *stage;
        let ghost step = all[index as int];
        assert(step == steps@[index as int]@);
        let making = Descent::Make(copy_bytes(steps[index].as_slice()));
        let made = stage.perform(&making);
        let ghost given = made;
        assert(P::goes(here, DescentView::Make(step), given, *stage));
        match made {
            Ok(_) => {},
            Err(source) => {
                if source.kind != SourceKind::AlreadyExists {
                    let fault = DescentFault::Create(source);
                    assert(stumbles_at(stages, all, index as int, fault, *stage));
                    return Err(fault);
                }
            },
        }
        let ghost between = *stage;
        assert(stands(given));
        assert(furnishes(here, step, between));
        let entering = Descent::Enter(copy_bytes(steps[index].as_slice()));
        match stage.perform(&entering) {
            Ok(unit) => {
                assert(unit == ());
            },
            Err(source) => {
                let fault = DescentFault::Descend(source);
                assert(P::goes(between, DescentView::Enter(step), Err(source), *stage));
                assert(stumbles_at(stages, all, index as int, fault, *stage));
                return Err(fault);
            },
        }
        proof {
            let taken = all.take(index as int);
            let longer = all.take(index + 1);
            let passed = stages.push(*stage);
            assert(P::goes(between, DescentView::Enter(step), Ok(()), *stage));
            assert(enters(here, step, *stage));
            assert(enters_by(passed, longer)) by {
                assert forall|i: int| 0 <= i < longer.len() implies enters(
                    passed[i],
                    #[trigger] longer[i],
                    passed[i + 1],
                ) by {
                    if i < index {
                        assert(longer[i] == taken[i]);
                    }
                }
            }
            stages = passed;
        }
        index += 1;
    }
    assert(all.take(index as int) =~= all);
    Ok(())
}

/// What a descent asks for on its way down.
pub open spec fn asked(steps: Seq<Seq<u8>>) -> Seq<DescentView>
    decreases steps.len(),
{
    if steps.len() == 0 {
        Seq::empty()
    } else {
        asked(steps.drop_last()).push(DescentView::Make(steps.last())).push(
            DescentView::Enter(steps.last()),
        )
    }
}

/// A descent to its end makes and enters each directory once, beneath the one before,
/// and asks for nothing else.
pub proof fn law_descents_reach_every_directory(
    stages: Seq<Rehearsal<Descent>>,
    steps: Seq<Seq<u8>>,
)
    requires
        enters_by(stages, steps),
    ensures
        stages.last()@ == stages[0]@ + asked(steps),
    decreases steps.len(),
{
    if steps.len() > 0 {
        let last = steps.len() - 1;
        let shorter = steps.drop_last();
        let fewer = stages.drop_last();
        assert(enters_by(fewer, shorter)) by {
            assert forall|i: int| 0 <= i < shorter.len() implies enters(
                fewer[i],
                #[trigger] shorter[i],
                fewer[i + 1],
            ) by {
                assert(shorter[i] == steps[i]);
            }
        }
        law_descents_reach_every_directory(fewer, shorter);
        assert(enters(stages[last], steps[last], stages[last + 1]));
    }
    assert(stages.last()@ =~= stages[0]@ + asked(steps));
}

impl Testbed {
    /// Create a private directory: make and enter each directory of its path beneath
    /// the one before, outermost first.
    pub fn create_private_dir<P: Stage<Descent, Source>>(
        &self,
        relative: &Vec<u8>,
        stage: &mut P,
    ) -> (path: Result<Vec<u8>>)
        ensures
            if !ospath::confined(relative@) {
                placed(path) == Err::<Seq<u8>, _>(testbed::unconfined(relative@))
                    && *final(stage) == *old(stage)
            } else {
                exists|outcome: std::result::Result<(), DescentFault>| #[trigger]
                    descends(
                        *old(stage),
                        testbed::names(ospath::components(relative@)),
                        outcome,
                        *final(stage),
                    ) && placed(path) == match outcome {
                        Ok(_) => Ok(ospath::joined(self@.root, relative@)),
                        Err(fault) => Err::<Seq<u8>, _>(
                            directory_failure(self@.root, relative@, fault),
                        ),
                    }
            },
    {
        let path = match self.private_path(relative) {
            Ok(path) => path,
            Err(error) => {
                return Err(error);
            },
        };
        let steps = match self.create_private_dirs(relative) {
            Ok(steps) => steps,
            Err(error) => {
                return Err(error);
            },
        };
        let outcome = descend(&steps, stage);
        let ghost given = outcome;
        assert(descends(
            *old(stage),
            testbed::names(ospath::components(relative@)),
            given,
            *stage,
        ));
        match outcome {
            Ok(_) => Ok(path),
            Err(DescentFault::Root(source)) => Err(
                io("open private root capability", &self.root, source),
            ),
            Err(DescentFault::Create(source)) => Err(
                io("create confined private directory", relative, source),
            ),
            Err(DescentFault::Descend(source)) => Err(
                io("descend confined private directory", relative, source),
            ),
        }
    }

    fn write_through<W: FnOnce(&Vec<Vec<u8>>, &Vec<u8>) -> std::result::Result<(), WriteFault>>(
        &self,
        relative: &Vec<u8>,
        path: Vec<u8>,
        operation: &'static str,
        write: W,
    ) -> (outcome: Result<Vec<u8>>)
        requires
            path@ == ospath::joined(self@.root, relative@),
            ospath::confined(relative@),
            writable(write, relative@),
        ensures
            written(self@.root, relative@, operation, write, placed(outcome)),
    {
        let (directories, leaf) = match self.open_private_parent(relative) {
            Ok(descent) => descent,
            Err(error) => {
                return Err(error);
            },
        };
        let ghost steps = testbed::names(ospath::components(relative@));
        let outcome = write(&directories, &leaf);
        assert(writes(write, steps, outcome));
        match outcome {
            Ok(unit) => {
                assert(unit == ());
                Ok(path)
            },
            Err(fault) => {
                assert(writes(write, steps, Err(fault)));
                match fault {
                    WriteFault::Descent(DescentFault::Root(source)) => Err(
                        io("open private root capability", &self.root, source),
                    ),
                    WriteFault::Descent(DescentFault::Create(source)) => Err(
                        io("create confined private parent", relative, source),
                    ),
                    WriteFault::Descent(DescentFault::Descend(source)) => Err(
                        io("descend confined private parent", relative, source),
                    ),
                    WriteFault::Open(source) => Err(
                        io("open confined private output", relative, source),
                    ),
                    WriteFault::Write(source) => Err(io(operation, &path, source)),
                }
            },
        }
    }

    /// Write a private file. `write` makes and enters each directory beneath the
    /// one before, and writes the file in the last.
    pub fn write_private<
        W: FnOnce(&Vec<Vec<u8>>, &Vec<u8>) -> std::result::Result<(), WriteFault>,
    >(&self, relative: &Vec<u8>, write: W) -> (path: Result<Vec<u8>>)
        requires
            writable(write, relative@),
        ensures
            if !ospath::confined(relative@) {
                placed(path) == Err::<Seq<u8>, _>(testbed::unconfined(relative@))
            } else {
                written(self@.root, relative@, "write private file", write, placed(path))
            },
    {
        match self.private_path(relative) {
            Ok(path) => self.write_through(relative, path, "write private file", write),
            Err(error) => Err(error),
        }
    }

    /// Copy a fixture into the private tree. `open` opens the fixture before
    /// `copy` writes its bytes.
    pub fn copy_private<
        O: FnOnce(&Vec<u8>) -> std::result::Result<(), Source>,
        W: FnOnce(&Vec<Vec<u8>>, &Vec<u8>) -> std::result::Result<(), WriteFault>,
    >(&self, relative: &Vec<u8>, source: &Vec<u8>, open: O, copy: W) -> (path: Result<Vec<u8>>)
        requires
            ospath::confined(relative@) ==> host::makeable(open, source@),
            host::makes(open, "open fixture for private copy"@, source@, Ok(())) ==> writable(
                copy,
                relative@,
            ),
        ensures
            if !ospath::confined(relative@) {
                placed(path) == Err::<Seq<u8>, _>(testbed::unconfined(relative@))
            } else {
                ||| placed(path) matches Err(error) && host::makes(
                    open,
                    "open fixture for private copy"@,
                    source@,
                    Err(error),
                )
                ||| host::makes(open, "open fixture for private copy"@, source@, Ok(()))
                    && written(
                    self@.root,
                    relative@,
                    "copy fixture into private tree",
                    copy,
                    placed(path),
                )
            },
    {
        let path = match self.private_path(relative) {
            Ok(path) => path,
            Err(error) => {
                return Err(error);
            },
        };
        match host::make(open, "open fixture for private copy", source) {
            Ok(unit) => {
                assert(unit == ());
            },
            Err(error) => {
                return Err(error);
            },
        }
        self.write_through(relative, path, "copy fixture into private tree", copy)
    }

    /// Read one private file. `read` opens it without following links.
    pub fn read_private<R: FnOnce(&Vec<u8>) -> std::result::Result<Vec<u8>, ReadFault>>(
        &self,
        relative: &Vec<u8>,
        read: R,
    ) -> (bytes: Result<Vec<u8>>)
        requires
            readable(read, relative@),
        ensures
            perused(self@.root, relative@, read, placed(bytes)),
    {
        let path = match self.private_path(relative) {
            Ok(path) => path,
            Err(error) => {
                return Err(error);
            },
        };
        let outcome = read(relative);
        assert(reads(read, relative@, outcome));
        match outcome {
            Ok(bytes) => {
                assert(reads(read, relative@, Ok(bytes)));
                Ok(bytes)
            },
            Err(fault) => {
                assert(reads(read, relative@, Err(fault)));
                match fault {
                    ReadFault::Root(source) => Err(
                        io("open private root capability", &self.root, source),
                    ),
                    ReadFault::Open(source) => Err(
                        io("open confined private file", relative, source),
                    ),
                    ReadFault::Read(source) => Err(io("read private file", &path, source)),
                }
            },
        }
    }

    /// Read one private file as text.
    pub fn read_private_to_string<R: FnOnce(&Vec<u8>) -> std::result::Result<Vec<u8>, ReadFault>>(
        &self,
        relative: &Vec<u8>,
        read: R,
    ) -> (text: Result<String>)
        requires
            readable(read, relative@),
        ensures
            exists|outcome: std::result::Result<Seq<u8>, ErrorView>| #[trigger]
                perused(self@.root, relative@, read, outcome) && match outcome {
                    Err(error) => text matches Err(reported) && reported@ == error,
                    Ok(bytes) => match text {
                        Ok(text) => worded(relative@, bytes) == Ok::<Seq<char>, ErrorView>(text@),
                        Err(error) => worded(relative@, bytes) == Err::<Seq<char>, ErrorView>(
                            error@,
                        ),
                    },
                },
    {
        match self.read_private(relative, read) {
            Err(error) => {
                assert(perused(self@.root, relative@, read, Err(error@)));
                Err(error)
            },
            Ok(bytes) => {
                assert(perused(self@.root, relative@, read, Ok(bytes@)));
                Testbed::private_text(relative, &bytes)
            },
        }
    }

    /// Copy one private output into a caller-selected artifact path.
    ///
    /// The copy is performed by the harness, never by the sandboxed application.
    pub fn export<
        C: FnOnce(&Vec<u8>) -> std::result::Result<(), Source>,
        E: FnOnce(&Vec<u8>, &Vec<u8>) -> std::result::Result<(), ExportFault>,
    >(&self, relative: &Vec<u8>, destination: &Vec<u8>, create_directory: C, transfer: E) -> (verdict:
        Result<()>)
        requires
            ospath::confined(relative@) ==> host::directory_makeable(
                create_directory,
                destination@,
            ),
            ospath::confined(relative@) && host::makes_directory(
                create_directory,
                "create artifact directory"@,
                destination@,
                Ok(()),
            ) ==> forall|from: &Vec<u8>, to: &Vec<u8>|
                from@ == relative@ && to@ == destination@ ==> #[trigger] transfer.requires(
                    (from, to),
                ),
        ensures
            if !ospath::confined(relative@) {
                host::told(verdict) == Err::<(), _>(testbed::unconfined(relative@))
            } else {
                ||| host::told(verdict) matches Err(error) && host::makes_directory(
                    create_directory,
                    "create artifact directory"@,
                    destination@,
                    Err(error),
                )
                ||| host::makes_directory(
                    create_directory,
                    "create artifact directory"@,
                    destination@,
                    Ok(()),
                ) && match host::told(verdict) {
                    Ok(_) => exports(transfer, relative@, destination@, Ok(())),
                    Err(error) => exists|fault: ExportFault| #[trigger]
                        exports(transfer, relative@, destination@, Err(fault)) && error
                            == export_failure(self@.root, relative@, destination@, fault),
                }
            },
    {
        let source = match self.private_path(relative) {
            Ok(path) => path,
            Err(error) => {
                return Err(error);
            },
        };
        match make_directory(create_directory, "create artifact directory", destination) {
            Ok(unit) => {
                assert(unit == ());
            },
            Err(error) => {
                return Err(error);
            },
        }
        let outcome = transfer(relative, destination);
        assert(exports(transfer, relative@, destination@, outcome));
        match outcome {
            Ok(unit) => {
                assert(unit == ());
                Ok(())
            },
            Err(fault) => {
                assert(exports(transfer, relative@, destination@, Err(fault)));
                match fault {
                    ExportFault::Root(cause) => Err(
                        io("open private root capability", &self.root, cause),
                    ),
                    ExportFault::Open(cause) => Err(
                        io("open confined private file", relative, cause),
                    ),
                    ExportFault::Create(cause) => Err(
                        io("create exported artifact", destination, cause),
                    ),
                    ExportFault::Copy(cause) => Err(io("export private artifact", &source, cause)),
                }
            },
        }
    }
}

// ---------------------------------------------------------------------------
// Laws
// ---------------------------------------------------------------------------

/// A private file is written only at a confined path, through the directories that the path
/// names, and only a write that succeeded yields the file's place beneath the root.
pub proof fn law_writes_stay_private<
    W: FnOnce(&Vec<Vec<u8>>, &Vec<u8>) -> std::result::Result<(), WriteFault>,
>(testbed: Testbed, relative: Vec<u8>, write: W, path: Result<Vec<u8>>)
    requires
        Testbed::write_private.ensures((&testbed, &relative, write), path),
    ensures
        path matches Ok(path) ==> ospath::confined(relative@) && path@ == ospath::joined(
            testbed@.root,
            relative@,
        ) && exists|directories: &Vec<Vec<u8>>, leaf: &Vec<u8>|
            text::views(directories@).push(leaf@) == testbed::names(
                ospath::components(relative@),
            ) && #[trigger] write.ensures(
                (directories, leaf),
                Ok::<(), WriteFault>(()),
            ),
        !ospath::confined(relative@) ==> (path matches Err(error) && error@ is Containment),
{
    if let Ok(placed) = path {
        let steps = testbed::names(ospath::components(relative@));
        assert(writes(write, steps, Ok::<(), WriteFault>(())));
    }
}

/// A private file is read only at a confined path, and what is read is what the host gave.
pub proof fn law_reads_stay_private<R: FnOnce(&Vec<u8>) -> std::result::Result<Vec<u8>, ReadFault>>(
    testbed: Testbed,
    relative: Vec<u8>,
    read: R,
    bytes: Result<Vec<u8>>,
)
    requires
        Testbed::read_private.ensures((&testbed, &relative, read), bytes),
    ensures
        bytes matches Ok(bytes) ==> ospath::confined(relative@) && exists|
            path: &Vec<u8>,
            held: Vec<u8>,
        |
            path@ == relative@ && held@ == bytes@ && #[trigger] read.ensures(
                (path,),
                Ok::<Vec<u8>, ReadFault>(held),
            ),
        !ospath::confined(relative@) ==> (bytes matches Err(error) && error@ is Containment),
        bytes matches Err(error) ==> (ospath::confined(relative@) ==> error@ is Io),
{
    if let Ok(given) = bytes {
        let held = choose|held: Vec<u8>| #[trigger]
            reads(read, relative@, Ok(held)) && held@ == given@;
        let path = choose|path: &Vec<u8>|
            path@ == relative@ && #[trigger] read.ensures(
                (path,),
                Ok::<Vec<u8>, ReadFault>(held),
            );
        assert(read.ensures((path,), Ok::<Vec<u8>, ReadFault>(held)));
    }
}

/// Only a confined path is exported, to the asked destination and nowhere else.
pub proof fn law_exports_leave_only_private_files<
    C: FnOnce(&Vec<u8>) -> std::result::Result<(), Source>,
    E: FnOnce(&Vec<u8>, &Vec<u8>) -> std::result::Result<(), ExportFault>,
>(
    testbed: Testbed,
    relative: Vec<u8>,
    destination: Vec<u8>,
    create: C,
    transfer: E,
    verdict: Result<()>,
)
    requires
        Testbed::export.ensures((&testbed, &relative, &destination, create, transfer), verdict),
    ensures
        verdict is Ok ==> ospath::confined(relative@) && exists|from: &Vec<u8>, to: &Vec<u8>|
            from@ == relative@ && to@ == destination@ && #[trigger] transfer.ensures(
                (from, to),
                Ok::<(), ExportFault>(()),
            ),
        !ospath::confined(relative@) ==> (verdict matches Err(error) && error@ is Containment),
{
}

/// A private text is what its bytes spell, and bytes that spell none are refused.
pub proof fn law_private_texts_spell_their_bytes(
    relative: Vec<u8>,
    bytes: Vec<u8>,
    text: Result<String>,
)
    requires
        Testbed::private_text.ensures((&relative, &bytes), text),
    ensures
        text is Ok <==> valid_utf8(bytes@),
        text matches Ok(text) ==> encode_utf8(text@) == bytes@,
{
    if valid_utf8(bytes@) {
        vstd::utf8::decode_utf8_encode_utf8(bytes@);
    }
}

} // verus!
