//! A capture of the private compositor's output: what is asked of the host, in its
//! order.
use crate::environment::Environment;
use crate::error::{io, ErrorView, Result, Source};
use crate::host;
use crate::pixels;
use crate::pixels::{Frame, FrameView};
use crate::service::unit::CommandOutput;
use crate::testbed::weston;
use crate::testbed::weston::{capture_place, single_capture, WestonRuntime, WestonRuntimeView};
use crate::text;
use vstd::prelude::*;

verus! {

/// Whether clearing a directory was tried.
pub open spec fn clears<X: FnOnce(&Vec<u8>)>(clear: X, directory: Seq<u8>) -> bool {
    exists|place: &Vec<u8>| place@ == directory && #[trigger] clear.ensures((place,), ())
}

/// Whether creating a directory can come to an outcome.
pub open spec fn creates<D: FnOnce(&Vec<u8>) -> std::result::Result<(), Source>>(
    create: D,
    directory: Seq<u8>,
    outcome: std::result::Result<(), Source>,
) -> bool {
    exists|place: &Vec<u8>| place@ == directory && #[trigger] create.ensures((place,), outcome)
}

/// Whether running the capture tool can come to an outcome.
pub open spec fn shoots<
    R: FnOnce(&Vec<u8>, &Vec<u8>, &Environment) -> std::result::Result<CommandOutput, Source>,
>(
    shoot: R,
    program: Seq<u8>,
    directory: Seq<u8>,
    variables: Map<Seq<u8>, Seq<u8>>,
    outcome: std::result::Result<CommandOutput, Source>,
) -> bool {
    exists|tool: &Vec<u8>, place: &Vec<u8>, environment: &Environment|
        tool@ == program && place@ == directory && environment@ == variables
            && #[trigger] shoot.ensures((tool, place, environment), outcome)
}

/// Whether listing a directory can come to an outcome.
pub open spec fn lists<L: FnOnce(&Vec<u8>) -> std::result::Result<Vec<Vec<u8>>, Source>>(
    list: L,
    directory: Seq<u8>,
    outcome: std::result::Result<Vec<Vec<u8>>, Source>,
) -> bool {
    exists|place: &Vec<u8>| place@ == directory && #[trigger] list.ensures((place,), outcome)
}

/// Whether reading a file can come to an outcome.
pub open spec fn reads<F: FnOnce(&Vec<u8>) -> std::result::Result<Vec<u8>, Source>>(
    read: F,
    path: Seq<u8>,
    outcome: std::result::Result<Vec<u8>, Source>,
) -> bool {
    exists|place: &Vec<u8>| place@ == path && #[trigger] read.ensures((place,), outcome)
}

/// What the host answers while the output is captured.
pub struct Shooting {
    /// Whether the capture directory was created.
    pub created: std::result::Result<(), Source>,
    /// What the capture tool came to.
    pub shot: std::result::Result<CommandOutput, Source>,
    /// The entries of the capture directory.
    pub listing: std::result::Result<Vec<Vec<u8>>, Source>,
    /// The captured file.
    pub stream: std::result::Result<Vec<u8>, Source>,
}

impl Shooting {
    /// The pictures that were found.
    pub open spec fn pictures(self) -> Seq<Seq<u8>> {
        weston::pictures(text::views(self.listing->Ok_0@))
    }

    /// Whether the host can answer so. It is asked nothing after a failure.
    pub open spec fn told<
        X: FnOnce(&Vec<u8>),
        D: FnOnce(&Vec<u8>) -> std::result::Result<(), Source>,
        R: FnOnce(&Vec<u8>, &Vec<u8>, &Environment) -> std::result::Result<CommandOutput, Source>,
        L: FnOnce(&Vec<u8>) -> std::result::Result<Vec<Vec<u8>>, Source>,
        F: FnOnce(&Vec<u8>) -> std::result::Result<Vec<u8>, Source>,
    >(
        self,
        runtime: WestonRuntimeView,
        root: Seq<u8>,
        socket_name: Seq<char>,
        clear: X,
        create: D,
        shoot: R,
        list: L,
        read: F,
    ) -> bool {
        let directory = weston::capture_directory(root);
        &&& clears(clear, directory)
        &&& creates(create, directory, self.created)
        &&& self.created is Ok ==> {
            &&& shoots(
                shoot,
                runtime.screenshooter,
                directory,
                runtime.capture_variables(root, socket_name),
                self.shot,
            )
            &&& runtime.capture_fault(self.shot) is None ==> {
                &&& lists(list, directory, self.listing)
                &&& self.listing is Ok && self.pictures().len() == 1 ==> reads(
                    read,
                    self.pictures()[0],
                    self.stream,
                )
            }
        }
    }

    /// Whether the answers can come to an outcome.
    pub open spec fn comes_to(
        self,
        runtime: WestonRuntimeView,
        root: Seq<u8>,
        outcome: std::result::Result<FrameView, ErrorView>,
    ) -> bool {
        let directory = weston::capture_directory(root);
        match (self.created, runtime.capture_fault(self.shot), self.listing) {
            (Err(source), _, _) => outcome == Err::<FrameView, _>(
                ErrorView::Io {
                    operation: "create Wayland capture directory"@,
                    path: directory,
                    source: source@,
                },
            ),
            (_, Some(error), _) => outcome == Err::<FrameView, _>(error),
            (_, _, Err(source)) => outcome == Err::<FrameView, _>(
                ErrorView::Io {
                    operation: "read Wayland captures"@,
                    path: directory,
                    source: source@,
                },
            ),
            (_, _, Ok(_)) => if self.pictures().len() == 1 {
                pixels::loads(self.pictures()[0], self.stream, outcome)
            } else {
                outcome == Err::<FrameView, _>(
                    ErrorView::X11 {
                        operation: "capture Wayland output"@,
                        detail: "expected one PNG from one virtual output, found "@
                            + text::decimal(self.pictures().len()),
                    },
                )
            },
        }
    }
}

/// Whether an output may be captured: each step once the one before it succeeded,
/// and each on its own place.
pub open spec fn capturable<
    X: FnOnce(&Vec<u8>),
    D: FnOnce(&Vec<u8>) -> std::result::Result<(), Source>,
    R: FnOnce(&Vec<u8>, &Vec<u8>, &Environment) -> std::result::Result<CommandOutput, Source>,
    L: FnOnce(&Vec<u8>) -> std::result::Result<Vec<Vec<u8>>, Source>,
    F: FnOnce(&Vec<u8>) -> std::result::Result<Vec<u8>, Source>,
>(
    runtime: WestonRuntimeView,
    root: Seq<u8>,
    socket_name: Seq<char>,
    clear: X,
    create: D,
    shoot: R,
    list: L,
    read: F,
) -> bool {
    let directory = weston::capture_directory(root);
    let variables = runtime.capture_variables(root, socket_name);
    &&& forall|place: &Vec<u8>| place@ == directory ==> #[trigger] clear.requires((place,))
    &&& clears(clear, directory) ==> host::makeable(create, directory)
    &&& creates(create, directory, Ok(())) ==> forall|
        tool: &Vec<u8>,
        place: &Vec<u8>,
        environment: &Environment,
    |
        tool@ == runtime.screenshooter && place@ == directory && environment@ == variables
            ==> #[trigger] shoot.requires((tool, place, environment))
    &&& forall|shot: std::result::Result<CommandOutput, Source>, place: &Vec<u8>|
        #[trigger] shoots(shoot, runtime.screenshooter, directory, variables, shot)
            && runtime.capture_fault(shot) is None && place@ == directory
            ==> #[trigger] list.requires((place,))
    &&& forall|listing: Vec<Vec<u8>>, place: &Vec<u8>|
        #[trigger] lists(list, directory, Ok(listing)) && weston::pictures(
            text::views(listing@),
        ).len() == 1 && place@ == weston::pictures(text::views(listing@))[0]
            ==> #[trigger] read.requires((place,))
}

impl WestonRuntime {
    /// Capture the complete virtual output of a universe: its capture directory is
    /// made anew, the capture tool is run there, and the one picture that it left
    /// is loaded.
    pub fn capture<
        X: FnOnce(&Vec<u8>),
        D: FnOnce(&Vec<u8>) -> std::result::Result<(), Source>,
        R: FnOnce(&Vec<u8>, &Vec<u8>, &Environment) -> std::result::Result<CommandOutput, Source>,
        L: FnOnce(&Vec<u8>) -> std::result::Result<Vec<Vec<u8>>, Source>,
        F: FnOnce(&Vec<u8>) -> std::result::Result<Vec<u8>, Source>,
    >(
        &self,
        root: &Vec<u8>,
        socket_name: &str,
        clear: X,
        create: D,
        shoot: R,
        list: L,
        read: F,
    ) -> (frame: Result<Frame>)
        requires
            capturable(self@, root@, socket_name@, clear, create, shoot, list, read),
        ensures
            exists|shooting: Shooting| #[trigger]
                shooting.told(
                    self@,
                    root@,
                    socket_name@,
                    clear,
                    create,
                    shoot,
                    list,
                    read,
                ) && shooting.comes_to(self@, root@, pixels::content(frame)),
    {
        let directory = capture_place(root);
        let ghost place = weston::capture_directory(root@);
        let environment = self.capture_environment(root, socket_name);
        let ghost mut shooting = Shooting {
            created: Ok(()),
            shot: arbitrary(),
            listing: arbitrary(),
            stream: arbitrary(),
        };
        clear(&directory);
        assert(clears(clear, place));
        let created = create(&directory);
        assert(creates(create, place, created));
        proof {
            shooting.created = created;
        }
        match created {
            Ok(unit) => {
                assert(unit == ());
            },
            Err(source) => {
                assert(shooting.told(self@, root@, socket_name@, clear, create, shoot, list, read));
                return Err(io("create Wayland capture directory", &directory, source));
            },
        }
        let shot = shoot(self.screenshooter(), &directory, &environment);
        assert(shoots(
            shoot,
            self@.screenshooter,
            place,
            self@.capture_variables(root@, socket_name@),
            shot,
        ));
        proof {
            shooting.shot = shot;
        }
        match self.judge_capture(shot) {
            Ok(_) => {},
            Err(error) => {
                assert(shooting.told(self@, root@, socket_name@, clear, create, shoot, list, read));
                return Err(error);
            },
        }
        let listing = list(&directory);
        assert(lists(list, place, listing));
        proof {
            shooting.listing = listing;
        }
        let capture = match single_capture(&directory, listing) {
            Ok(capture) => capture,
            Err(error) => {
                assert(shooting.told(self@, root@, socket_name@, clear, create, shoot, list, read));
                return Err(error);
            },
        };
        let stream = read(&capture);
        assert(shooting.pictures()[0] == capture@);
        assert(reads(read, capture@, stream));
        proof {
            shooting.stream = stream;
        }
        assert(shooting.told(self@, root@, socket_name@, clear, create, shoot, list, read));
        Frame::load_png(&capture, stream)
    }
}

/// A frame is captured only where the capture directory was made, the tool succeeded without
/// a complaint, and the directory then held exactly one picture, whose bytes the frame is.
pub proof fn law_captures_are_of_the_one_picture(
    shooting: Shooting,
    runtime: WestonRuntimeView,
    root: Seq<u8>,
    frame: FrameView,
)
    requires
        shooting.comes_to(runtime, root, Ok(frame)),
    ensures
        shooting.created is Ok,
        shooting.shot matches Ok(output) && output.success,
        shooting.listing matches Ok(entries) && weston::pictures(text::views(entries@)).len() == 1,
        pixels::loads(
            weston::pictures(text::views(shooting.listing->Ok_0@))[0],
            shooting.stream,
            Ok(frame),
        ),
{
}

} // verus!
