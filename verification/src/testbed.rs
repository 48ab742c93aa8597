//! An isolated test universe: its display, its disposable tree, and what of it
//! survives a failure.
use crate::environment::Environment;
use crate::error::{io, Error, ErrorView, Result, Source};
use crate::ospath;
use crate::ospath::{confined_relative, insert_path, join, join_text, split_components, Component};
use crate::stage::Act;
use crate::text;
use crate::text::{copy_bytes, decimal_text, glue3, glue4, lossy_text, push_bytes, push_words, strict_text, text_bytes};
use vstd::prelude::*;
use vstd::utf8::*;

pub mod capture;
pub mod files;
pub mod raising;
pub mod retention;
pub mod tools;
pub mod weston;
pub mod xvfb;

verus! {

/// X11 virtual screen geometry.
#[derive(Clone, Copy, Debug, Eq, PartialEq, Structural)]
pub struct X11Config {
    pub width: u16,
    pub height: u16,
    pub depth: u8,
}

impl Default for X11Config {
    fn default() -> (config: Self)
        ensures
            config == (X11Config { width: 1440, height: 920, depth: 24 }),
    {
        X11Config { width: 1440, height: 920, depth: 24 }
    }
}

/// Headless Weston output geometry.
#[derive(Clone, Copy, Debug, Eq, PartialEq, Structural)]
pub struct WaylandConfig {
    pub width: u16,
    pub height: u16,
}

impl Default for WaylandConfig {
    fn default() -> (config: Self)
        ensures
            config == (WaylandConfig { width: 1440, height: 920 }),
    {
        WaylandConfig { width: 1440, height: 920 }
    }
}

/// Display protocol under test.
#[derive(Clone, Copy, Debug, Eq, PartialEq, Structural)]
pub enum Backend {
    X11(X11Config),
    Wayland(WaylandConfig),
}

impl Default for Backend {
    fn default() -> (backend: Self)
        ensures
            backend == Backend::X11(X11Config { width: 1440, height: 920, depth: 24 }),
    {
        Backend::X11(X11Config::default())
    }
}

/// Construction policy for an isolated test universe.
#[derive(Debug)]
pub struct TestbedBuilder {
    backend: Backend,
    failure_artifacts: Option<Vec<u8>>,
}

impl TestbedBuilder {
    /// Display protocol that the universe will own.
    pub closed spec fn policy(self) -> Backend {
        self.backend
    }

    /// Directory that receives diagnostics on failure.
    pub closed spec fn sink(self) -> Option<Seq<u8>> {
        match self.failure_artifacts {
            Some(path) => Some(path@),
            None => None,
        }
    }

    /// Choose the display protocol.
    pub fn backend(self, backend: Backend) -> (builder: Self)
        ensures
            builder.policy() == backend,
            builder.sink() == self.sink(),
    {
        TestbedBuilder { backend, failure_artifacts: self.failure_artifacts }
    }

    /// Directory into which the harness copies curated diagnostics on failure.
    ///
    /// This directory is never visible inside the application sandbox.
    pub fn failure_artifacts(self, path: &Vec<u8>) -> (builder: Self)
        ensures
            builder.policy() == self.policy(),
            builder.sink() == Some(path@),
    {
        TestbedBuilder {
            backend: self.backend,
            failure_artifacts: Some(copy_bytes(path.as_slice())),
        }
    }

    /// The chosen display protocol.
    pub fn chosen_backend(&self) -> (backend: Backend)
        ensures
            backend == self.policy(),
    {
        self.backend
    }

    /// Demand the tools that every universe needs.
    pub fn equip<F: Fn(&Vec<u8>) -> bool>(&self, path: &Option<Vec<u8>>, is_file: &F) -> (verdict:
        Result<()>)
        requires
            tools::askable(is_file),
        ensures
            equips(tools::told(*path), is_file, crate::host::told(verdict)),
    {
        assert(staples()[0] == "bwrap");
        assert(staples()[1] == "systemd-run");
        assert(staples()[2] == "systemctl");
        match tools::require_tool(path, "bwrap", is_file) {
            Ok(_) => {},
            Err(error) => {
                return Err(error);
            },
        }
        match tools::require_tool(path, "systemd-run", is_file) {
            Ok(_) => {},
            Err(error) => {
                return Err(error);
            },
        }
        match tools::require_tool(path, "systemctl", is_file) {
            Ok(_) => Ok(()),
            Err(error) => Err(error),
        }
    }

    /// Run a complete scenario in a fresh universe, and retain diagnostics when
    /// it fails. `export` copies what the universe exports.
    pub fn run<
        T,
        R: FnOnce(Self) -> Result<Testbed>,
        S: FnOnce(&Testbed) -> Result<T>,
        X: FnOnce(&Testbed),
    >(self, raise: R, scenario: S, export: X) -> (verdict: Result<T>)
        requires
            raise.requires((self,)),
            forall|testbed: &Testbed|
                raise.ensures((self,), Ok::<Testbed, Error>(*testbed))
                    ==> #[trigger] scenario.requires((testbed,)),
            forall|testbed: &Testbed, error: Error|
                raise.ensures((self,), Ok::<Testbed, Error>(*testbed))
                    && #[trigger] scenario.ensures((testbed,), Err::<T, Error>(error))
                    ==> #[trigger] export.requires((testbed,)),
        ensures
            exists|raised: Result<Testbed>| #[trigger]
                raise.ensures((self,), raised) && match raised {
                    Err(error) => verdict == Err::<T, Error>(error),
                    Ok(testbed) => {
                        &&& scenario.ensures((&testbed,), verdict)
                        &&& verdict is Err ==> export.ensures((&testbed,), ())
                    },
                },
    {
        match raise(self) {
            Err(error) => Err(error),
            Ok(testbed) => match scenario(&testbed) {
                Ok(value) => Ok(value),
                Err(error) => {
                    export(&testbed);
                    Err(error)
                },
            },
        }
    }

    /// Assemble the universe from its identity, its root, and its display.
    pub fn assemble(self, id: String, root: Vec<u8>, display: DisplayServer) -> (testbed: Testbed)
        ensures
            testbed@ == (TestbedView {
                id: id@,
                root: root@,
                display: display@,
                next_app: 1,
                sink: self.sink(),
                retained: Seq::empty(),
            }),
    {
        let retained: Vec<Vec<u8>> = Vec::new();
        assert(text::views(retained@) =~= Seq::<Seq<u8>>::empty());
        Testbed {
            id,
            root,
            display,
            next_app: 1,
            failure_artifacts: self.failure_artifacts,
            retained,
        }
    }
}

impl Default for TestbedBuilder {
    fn default() -> (builder: Self)
        ensures
            builder.policy() == Backend::X11(X11Config { width: 1440, height: 920, depth: 24 }),
            builder.sink() is None,
    {
        TestbedBuilder { backend: Backend::default(), failure_artifacts: None }
    }
}

/// Tools that every universe needs.
pub open spec fn staples() -> Seq<&'static str> {
    seq!["bwrap", "systemd-run", "systemctl"]
}

/// Whether looking for the tools that every universe needs can come to an outcome.
pub open spec fn equips<F: Fn(&Vec<u8>) -> bool>(
    path: Option<Seq<u8>>,
    is_file: &F,
    outcome: std::result::Result<(), ErrorView>,
) -> bool {
    match outcome {
        Ok(_) => forall|i: int|
            0 <= i < staples().len() ==> xvfb::equipped(
                path,
                is_file,
                text::word(#[trigger] staples()[i]),
                true,
            ),
        Err(error) => exists|i: int|
            0 <= i < staples().len() && error == ErrorView::MissingTool(
                (#[trigger] staples()[i])@,
            ) && xvfb::equipped(path, is_file, text::word(staples()[i]), false) && forall|j: int|
                0 <= j < i ==> xvfb::equipped(
                    path,
                    is_file,
                    text::word(#[trigger] staples()[j]),
                    true,
                ),
    }
}

// ---------------------------------------------------------------------------
// The disposable tree
// ---------------------------------------------------------------------------

/// One step of furnishing a disposable tree.
#[derive(Debug)]
pub enum Furnish {
    /// Let only the owner enter a directory.
    Harden(Vec<u8>),
    /// Create a directory with its parents.
    Create(Vec<u8>),
}

/// Content of a [`Furnish`].
#[verifier::ext_equal]
pub enum FurnishView {
    Harden(Seq<u8>),
    Create(Seq<u8>),
}

impl View for Furnish {
    type V = FurnishView;

    open spec fn view(&self) -> FurnishView {
        match self {
            Furnish::Harden(path) => FurnishView::Harden(path@),
            Furnish::Create(path) => FurnishView::Create(path@),
        }
    }
}

impl Act for Furnish {
    fn noted(&self) -> (copy: Self) {
        match self {
            Furnish::Harden(path) => Furnish::Harden(copy_bytes(path.as_slice())),
            Furnish::Create(path) => Furnish::Create(copy_bytes(path.as_slice())),
        }
    }
}

/// The steps that furnish a fresh disposable tree.
pub open spec fn furnishing(root: Seq<u8>) -> Seq<FurnishView> {
    seq![FurnishView::Harden(root)] + Seq::new(
        tools::layout().len(),
        |i: int| FurnishView::Create(ospath::joined(root, tools::layout()[i])),
    ) + seq![FurnishView::Harden(ospath::joined(root, text::word("xdg/runtime")))]
}

/// The steps that furnish a fresh disposable tree, in order.
pub fn furnish(root: &Vec<u8>) -> (steps: Vec<Furnish>)
    ensures
        steps@.map_values(|step: Furnish| step@) == furnishing(root@),
{
    let names = tools::private_directories();
    let mut steps: Vec<Furnish> = Vec::new();
    steps.push(Furnish::Harden(copy_bytes(root.as_slice())));
    let mut index: usize = 0;
    while index < names.len()
        invariant
            index <= names.len(),
            text::views(names@) == tools::layout(),
            steps@.len() == index + 1,
            steps@[0]@ == FurnishView::Harden(root@),
            forall|i: int|
                0 <= i < index ==> (#[trigger] steps@[i + 1])@ == FurnishView::Create(
                    ospath::joined(root@, tools::layout()[i]),
                ),
        decreases names.len() - index,
    {
        assert(tools::layout()[index as int] == names@[index as int]@);
        steps.push(Furnish::Create(join(root.as_slice(), names[index].as_slice())));
        index += 1;
    }
    assert(names@.len() == tools::layout().len());
    steps.push(Furnish::Harden(join_text(root.as_slice(), "xdg/runtime")));
    assert(steps@.map_values(|step: Furnish| step@) =~= furnishing(root@)) by {
        assert forall|j: int| 0 <= j < steps@.len() implies #[trigger] steps@[j]@ == furnishing(
            root@,
        )[j] by {
            if 0 < j && j <= tools::layout().len() {
                assert(steps@[(j - 1) + 1]@ == FurnishView::Create(
                    ospath::joined(root@, tools::layout()[j - 1]),
                ));
            }
        }
    }
    steps
}

/// The report of a step of furnishing that failed.
pub open spec fn furnish_fault(step: FurnishView, source: Source) -> ErrorView {
    match step {
        FurnishView::Harden(path) => ErrorView::Io {
            operation: "harden private directory"@,
            path,
            source: source@,
        },
        FurnishView::Create(path) => ErrorView::Io {
            operation: "create private test directory"@,
            path,
            source: source@,
        },
    }
}

/// Report a step of furnishing that failed.
pub fn furnish_failure(step: &Furnish, source: Source) -> (error: Error)
    ensures
        error@ == furnish_fault(step@, source),
{
    match step {
        Furnish::Harden(path) => io("harden private directory", path, source),
        Furnish::Create(path) => io("create private test directory", path, source),
    }
}

// ---------------------------------------------------------------------------
// Displays
// ---------------------------------------------------------------------------

/// The display that a universe owns, as its applications see it.
#[derive(Debug)]
pub enum DisplayServer {
    /// A virtual X server: its display number, its socket, and the cookie that
    /// admits a client.
    X11 { display: u16, socket: Vec<u8>, cookie: Vec<u8> },
    /// A headless compositor: its socket name.
    Wayland { socket_name: String },
}

/// Content of a [`DisplayServer`].
#[verifier::ext_equal]
pub enum DisplayServerView {
    X11 { display: u16, socket: Seq<u8>, cookie: Seq<u8> },
    Wayland { socket_name: Seq<char> },
}

impl View for DisplayServer {
    type V = DisplayServerView;

    open spec fn view(&self) -> DisplayServerView {
        match self {
            DisplayServer::X11 { display, socket, cookie } => DisplayServerView::X11 {
                display: *display,
                socket: socket@,
                cookie: cookie@,
            },
            DisplayServer::Wayland { socket_name } => DisplayServerView::Wayland {
                socket_name: socket_name@,
            },
        }
    }
}

impl DisplayServerView {
    /// An environment pointed at the display.
    pub open spec fn armed(self, environment: Map<Seq<u8>, Seq<u8>>) -> Map<Seq<u8>, Seq<u8>> {
        match self {
            DisplayServerView::X11 { display, .. } => environment.insert(
                text::word("DISPLAY"),
                encode_utf8(":"@ + text::decimal(display as nat)),
            ).insert(text::word("XAUTHORITY"), text::word("/test/xauthority")).insert(
                text::word("WINIT_UNIX_BACKEND"),
                text::word("x11"),
            ),
            DisplayServerView::Wayland { socket_name } => environment.insert(
                text::word("WAYLAND_DISPLAY"),
                encode_utf8(socket_name),
            ).insert(text::word("WINIT_UNIX_BACKEND"), text::word("wayland")),
        }
    }
}

impl DisplayServer {
    /// Point an application's environment at the display.
    pub fn append_environment(&self, environment: &mut Environment)
        ensures
            final(environment)@ == self@.armed(old(environment)@),
    {
        match self {
            DisplayServer::X11 { display, .. } => {
                let name = text::glue2(":", decimal_text(*display as u128).as_str());
                environment.insert(text_bytes("DISPLAY"), text_bytes(name.as_str()));
                environment.assign("XAUTHORITY", "/test/xauthority");
                environment.assign("WINIT_UNIX_BACKEND", "x11");
            },
            DisplayServer::Wayland { socket_name } => {
                environment.insert(text_bytes("WAYLAND_DISPLAY"), text_bytes(socket_name.as_str()));
                environment.assign("WINIT_UNIX_BACKEND", "wayland");
            },
        }
    }
}

// ---------------------------------------------------------------------------
// The universe
// ---------------------------------------------------------------------------

/// Owned display, process boundary, and disposable filesystem universe.
#[derive(Debug)]
pub struct Testbed {
    id: String,
    root: Vec<u8>,
    display: DisplayServer,
    next_app: u64,
    failure_artifacts: Option<Vec<u8>>,
    retained: Vec<Vec<u8>>,
}

/// Content of a [`Testbed`].
#[verifier::ext_equal]
pub struct TestbedView {
    pub id: Seq<char>,
    pub root: Seq<u8>,
    pub display: DisplayServerView,
    /// Ordinal of the next application.
    pub next_app: u64,
    pub sink: Option<Seq<u8>>,
    /// Private paths to keep on failure, in order and without repetition.
    pub retained: Seq<Seq<u8>>,
}

impl View for Testbed {
    type V = TestbedView;

    closed spec fn view(&self) -> TestbedView {
        TestbedView {
            id: self.id@,
            root: self.root@,
            display: self.display@,
            next_app: self.next_app,
            sink: match self.failure_artifacts {
                Some(path) => Some(path@),
                None => None,
            },
            retained: text::views(self.retained@),
        }
    }
}

/// The refusal of a path that could leave the private tree.
pub open spec fn unconfined(path: Seq<u8>) -> ErrorView {
    ErrorView::Containment {
        layer: "private filesystem"@,
        detail: "`"@ + text::lossy(path) + "` is not a confined relative path"@,
    }
}

/// Demand a path that stays beneath the private root.
pub fn validate_relative(path: &Vec<u8>) -> (verdict: Result<()>)
    ensures
        match verdict {
            Ok(_) => ospath::confined(path@),
            Err(error) => !ospath::confined(path@) && error@ == unconfined(path@),
        },
{
    if confined_relative(path.as_slice()) {
        Ok(())
    } else {
        Err(
            Error::Containment {
                layer: "private filesystem",
                detail: glue3(
                    "`",
                    lossy_text(path.as_slice()).as_str(),
                    "` is not a confined relative path",
                ),
            },
        )
    }
}

/// The names among a run of steps.
pub open spec fn names(list: Seq<ospath::ComponentView>) -> Seq<Seq<u8>>
    decreases list.len(),
{
    if list.len() == 0 {
        Seq::empty()
    } else {
        match list[0] {
            ospath::ComponentView::Normal(name) => seq![name] + names(list.skip(1)),
            _ => names(list.skip(1)),
        }
    }
}

fn named_steps(path: &[u8]) -> (parts: Vec<Vec<u8>>)
    ensures
        text::views(parts@) == names(ospath::components(path@)),
{
    let list = split_components(path);
    let ghost all = ospath::components(path@);
    let mut parts: Vec<Vec<u8>> = Vec::new();
    let mut index: usize = 0;
    assert(all.skip(0) =~= all);
    assert(text::views(parts@) + names(all) =~= names(all));
    while index < list.len()
        invariant
            index <= list.len(),
            all == ospath::steps(list@),
            text::views(parts@) + names(all.skip(index as int)) == names(all),
        decreases list.len() - index,
    {
        let ghost before = text::views(parts@);
        let ghost rest = all.skip(index as int);
        assert(rest[0] == list@[index as int]@);
        assert(rest.skip(1) =~= all.skip(index + 1));
        match &list[index] {
            Component::Normal(name) => {
                push_bytes(&mut parts, name.as_slice());
                assert(before.push(name@) + names(rest.skip(1)) =~= before + names(rest));
            },
            _ => {},
        }
        index += 1;
    }
    assert(all.skip(index as int) =~= Seq::<ospath::ComponentView>::empty());
    assert(text::views(parts@) =~= names(all));
    parts
}

impl Testbed {
    #[verifier::type_invariant]
    spec fn ordered(self) -> bool {
        &&& ospath::sorted_paths(text::views(self.retained@))
        &&& forall|path: Seq<u8>| #[trigger]
            text::views(self.retained@).contains(path) ==> ospath::confined(path)
    }

    /// The default construction policy.
    pub fn builder() -> (builder: TestbedBuilder)
        ensures
            builder.policy() == Backend::X11(X11Config { width: 1440, height: 920, depth: 24 }),
            builder.sink() is None,
    {
        TestbedBuilder::default()
    }

    /// Identity of the universe.
    pub fn id(&self) -> (id: &str)
        ensures
            id@ == self@.id,
    {
        self.id.as_str()
    }

    /// Root of the disposable tree.
    pub fn root(&self) -> (root: &Vec<u8>)
        ensures
            root@ == self@.root,
    {
        &self.root
    }

    /// The owned display.
    pub fn display_seal(&self) -> (display: &DisplayServer)
        ensures
            display@ == self@.display,
    {
        &self.display
    }

    /// Resolve a path handle inside the owned tree.
    ///
    /// This is appropriate for interfaces that must watch a live path. Oracle
    /// input and output go through descents instead, which refuse links created
    /// by the application.
    pub fn private_path(&self, relative: &Vec<u8>) -> (path: Result<Vec<u8>>)
        ensures
            match path {
                Ok(path) => ospath::confined(relative@) && path@ == ospath::joined(
                    self@.root,
                    relative@,
                ),
                Err(error) => !ospath::confined(relative@) && error@ == unconfined(relative@),
            },
    {
        match validate_relative(relative) {
            Ok(_) => Ok(join(self.root.as_slice(), relative.as_slice())),
            Err(error) => Err(error),
        }
    }

    /// Where a private path appears inside the application sandbox.
    pub fn guest_path(relative: &Vec<u8>) -> (path: Vec<u8>)
        ensures
            path@ == ospath::joined(text::word("/test"), relative@),
    {
        join(text_bytes("/test").as_slice(), relative.as_slice())
    }

    /// The directories to create, outermost first, so that a private directory
    /// exists.
    pub fn create_private_dirs(&self, relative: &Vec<u8>) -> (parts: Result<Vec<Vec<u8>>>)
        ensures
            match parts {
                Ok(parts) => ospath::confined(relative@) && text::views(parts@) == names(
                    ospath::components(relative@),
                ),
                Err(error) => !ospath::confined(relative@) && error@ == unconfined(relative@),
            },
    {
        match validate_relative(relative) {
            Ok(_) => Ok(named_steps(relative.as_slice())),
            Err(error) => Err(error),
        }
    }

    /// The directories to descend through, outermost first, and the name of the
    /// file behind them.
    pub fn open_private_parent(&self, relative: &Vec<u8>) -> (descent: Result<
        (Vec<Vec<u8>>, Vec<u8>),
    >)
        ensures
            match descent {
                Ok((directories, leaf)) => text::views(directories@).push(leaf@) == names(
                    ospath::components(relative@),
                ),
                Err(error) => names(ospath::components(relative@)).len() == 0 && error@ == (
                ErrorView::Containment {
                    layer: "private filesystem"@,
                    detail: "private path `"@ + text::lossy(relative@) + "` has no filename"@,
                }),
            },
    {
        let mut parts = named_steps(relative.as_slice());
        let ghost whole = text::views(parts@);
        match parts.pop() {
            Some(leaf) => {
                assert(whole =~= text::views(parts@).push(leaf@));
                Ok((parts, leaf))
            },
            None => {
                assert(whole.len() == 0);
                Err(
                    Error::Containment {
                        layer: "private filesystem",
                        detail: glue3(
                            "private path `",
                            lossy_text(relative.as_slice()).as_str(),
                            "` has no filename",
                        ),
                    },
                )
            },
        }
    }

    /// A private file's bytes as text.
    pub fn private_text(relative: &Vec<u8>, bytes: &Vec<u8>) -> (text: Result<String>)
        ensures
            match text {
                Ok(text) => files::worded(relative@, bytes@) == Ok::<Seq<char>, ErrorView>(text@),
                Err(error) => files::worded(relative@, bytes@) == Err::<Seq<char>, ErrorView>(
                    error@,
                ),
            },
    {
        match strict_text(bytes.as_slice()) {
            Ok(text) => Ok(text),
            Err(fault) => Err(
                Error::Containment {
                    layer: "private filesystem",
                    detail: glue4(
                        "private file `",
                        lossy_text(relative.as_slice()).as_str(),
                        "` is not UTF-8: ",
                        fault.as_str(),
                    ),
                },
            ),
        }
    }

    /// Claim the ordinal of the next application; ordinals start over after the
    /// largest.
    pub fn launch_ordinal(&mut self) -> (ordinal: u64)
        ensures
            ordinal == old(self)@.next_app,
            final(self)@ == (TestbedView {
                next_app: if old(self)@.next_app == u64::MAX {
                    0
                } else {
                    (old(self)@.next_app + 1) as u64
                },
                ..old(self)@
            }),
    {
        proof {
            use_type_invariant(&*self);
        }
        let ordinal: u64 = self.next_app;
        self.next_app = if ordinal == u64::MAX {
            0
        } else {
            ordinal + 1
        };
        ordinal
    }

    /// The X11 display and its cookie, for input and capture.
    pub fn x11(&self) -> (display: Result<(u16, Vec<u8>)>)
        ensures
            match display {
                Ok((display, key)) => self@.display matches DisplayServerView::X11 {
                    display: owned,
                    cookie,
                    ..
                } && owned == display && cookie == key@,
                Err(error) => self@.display is Wayland && error@ == (ErrorView::Unsupported {
                    capability: "X11 control"@,
                    detail: "the testbed owns a Wayland compositor"@,
                }),
            },
    {
        match &self.display {
            DisplayServer::X11 { display, cookie, .. } => Ok(
                (*display, copy_bytes(cookie.as_slice())),
            ),
            DisplayServer::Wayland { .. } => Err(
                Error::Unsupported {
                    capability: "X11 control",
                    detail: "the testbed owns a Wayland compositor".to_owned(),
                },
            ),
        }
    }

    /// The compositor's socket name, for output capture.
    pub fn capture_wayland(&self) -> (socket: Result<String>)
        ensures
            match socket {
                Ok(socket) => self@.display matches DisplayServerView::Wayland { socket_name }
                    && socket@ == socket_name,
                Err(error) => self@.display is X11 && error@ == (ErrorView::Unsupported {
                    capability: "Wayland output capture"@,
                    detail: "the testbed owns an X11 server"@,
                }),
            },
    {
        match &self.display {
            DisplayServer::Wayland { socket_name } => Ok(socket_name.clone()),
            DisplayServer::X11 { .. } => Err(
                Error::Unsupported {
                    capability: "Wayland output capture",
                    detail: "the testbed owns an X11 server".to_owned(),
                },
            ),
        }
    }

    /// Include one private file or tree in failure diagnostics.
    pub fn retain_on_failure(&mut self, relative: &Vec<u8>) -> (verdict: Result<()>)
        ensures
            final(self)@ == (TestbedView { retained: final(self)@.retained, ..old(self)@ }),
            match verdict {
                Ok(_) => ospath::confined(relative@) && ospath::sorted_paths(final(self)@.retained)
                    && forall|path: Seq<u8>|
                    final(self)@.retained.contains(path) <==> old(self)@.retained.contains(path)
                        || (path == relative@ && !ospath::holds(old(self)@.retained, relative@)),
                Err(error) => !ospath::confined(relative@) && error@ == unconfined(relative@)
                    && final(self)@.retained == old(self)@.retained,
            },
    {
        proof {
            use_type_invariant(&*self);
        }
        match validate_relative(relative) {
            Ok(_) => {},
            Err(error) => {
                return Err(error);
            },
        }
        let mut retained: Vec<Vec<u8>> = Vec::new();
        std::mem::swap(&mut retained, &mut self.retained);
        insert_path(&mut retained, relative.as_slice());
        self.retained = retained;
        Ok(())
    }

    /// A path beneath the owned tree.
    pub fn host_path(&self, relative: &Vec<u8>) -> (path: Vec<u8>)
        ensures
            path@ == ospath::joined(self@.root, relative@),
    {
        join(self.root.as_slice(), relative.as_slice())
    }

    /// A path beneath the owned tree's diagnostics.
    pub fn diagnostic_path(&self, relative: &Vec<u8>) -> (path: Vec<u8>)
        ensures
            path@ == ospath::joined(
                self@.root,
                ospath::joined(text::word("diagnostics"), relative@),
            ),
    {
        let inner = join(text_bytes("diagnostics").as_slice(), relative.as_slice());
        join(self.root.as_slice(), inner.as_slice())
    }

    /// What a failure exports: from each source beneath the owned tree to its
    /// destination beneath the sink, the curated directories first.
    pub fn export_failure_artifacts(&self, sink: &Vec<u8>) -> (copies: Vec<(Vec<u8>, Vec<u8>)>)
        ensures
            copies@.len() == artifacts(self@).len(),
            forall|i: int|
                0 <= i < copies@.len() ==> (#[trigger] copies@[i]).0@ == ospath::joined(
                    self@.root,
                    artifacts(self@)[i],
                ) && copies@[i].1@ == ospath::joined(
                    ospath::joined(sink@, encode_utf8(self@.id)),
                    artifacts(self@)[i],
                ),
            self@.root.len() > 0 && self@.root.last() != 47 ==> forall|i: int|
                4 <= i < copies@.len() ==> ospath::within((#[trigger] copies@[i]).0@, self@.root),
    {
        proof {
            use_type_invariant(self);
        }
        let target = join(sink.as_slice(), self.id.as_str().as_bytes());
        let mut sources: Vec<Vec<u8>> = Vec::new();
        push_words(&mut sources, &["logs", "probes", "captures", "diagnostics"]);
        text::push_all(&mut sources, &self.retained);
        assert(text::views(sources@) =~= artifacts(self@));
        let mut copies: Vec<(Vec<u8>, Vec<u8>)> = Vec::new();
        let mut index: usize = 0;
        while index < sources.len()
            invariant
                index <= sources.len(),
                copies@.len() == index,
                text::views(sources@) == artifacts(self@),
                target@ == ospath::joined(sink@, encode_utf8(self@.id)),
                forall|i: int|
                    0 <= i < index ==> (#[trigger] copies@[i]).0@ == ospath::joined(
                        self@.root,
                        artifacts(self@)[i],
                    ) && copies@[i].1@ == ospath::joined(target@, artifacts(self@)[i]),
            decreases sources.len() - index,
        {
            assert(artifacts(self@)[index as int] == sources@[index as int]@);
            copies.push(
                (
                    join(self.root.as_slice(), sources[index].as_slice()),
                    join(target.as_slice(), sources[index].as_slice()),
                ),
            );
            index += 1;
        }
        proof {
            if self@.root.len() > 0 && self@.root.last() != 47 {
                assert forall|i: int| 4 <= i < copies@.len() implies ospath::within(
                    (#[trigger] copies@[i]).0@,
                    self@.root,
                ) by {
                    let path = artifacts(self@)[i];
                    assert(path == text::views(self.retained@)[i - 4]);
                    assert(text::views(self.retained@).contains(path));
                    ospath::law_confined_paths_never_escape(self@.root, path);
                }
            }
        }
        copies
    }
}

impl Testbed {
    /// What a failure exports, when there is somewhere to export to.
    pub fn failure_exports(&self) -> (copies: Option<Vec<(Vec<u8>, Vec<u8>)>>)
        ensures
            match self@.sink {
                None => copies is None,
                Some(sink) => copies matches Some(copies) && copies@.len() == artifacts(self@).len()
                    && forall|i: int|
                    0 <= i < copies@.len() ==> (#[trigger] copies@[i]).0@ == ospath::joined(
                        self@.root,
                        artifacts(self@)[i],
                    ) && copies@[i].1@ == ospath::joined(
                        ospath::joined(sink, encode_utf8(self@.id)),
                        artifacts(self@)[i],
                    ),
            },
    {
        match &self.failure_artifacts {
            Some(sink) => Some(self.export_failure_artifacts(sink)),
            None => None,
        }
    }
}

/// Private paths that a failure exports.
pub open spec fn artifacts(testbed: TestbedView) -> Seq<Seq<u8>> {
    text::words(seq!["logs", "probes", "captures", "diagnostics"]) + testbed.retained
}

// ---------------------------------------------------------------------------
// Laws
// ---------------------------------------------------------------------------

/// A private path is granted exactly where it cannot leave the tree, beneath the root on the
/// host and beneath `/test` in the sandbox.
pub proof fn law_private_paths_stay_private(
    testbed: Testbed,
    relative: Vec<u8>,
    path: Result<Vec<u8>>,
    guest: Vec<u8>,
    parts: Result<Vec<Vec<u8>>>,
)
    requires
        Testbed::private_path.ensures((&testbed, &relative), path),
        Testbed::guest_path.ensures((&relative,), guest),
        Testbed::create_private_dirs.ensures((&testbed, &relative), parts),
        testbed@.root.len() > 0,
        testbed@.root.last() != 47,
    ensures
        path is Ok <==> ospath::confined(relative@),
        parts is Ok <==> ospath::confined(relative@),
        path matches Ok(path) ==> path@ == testbed@.root + seq![47u8] + relative@
            && ospath::within(path@, testbed@.root),
        path is Ok ==> guest@ == text::word("/test") + seq![47u8] + relative@,
{
    if ospath::confined(relative@) {
        ospath::law_confined_paths_never_escape(testbed@.root, relative@);
        reveal_strlit("/test");
        vstd::utf8::is_ascii_chars_encode_utf8("/test"@);
        assert(text::word("/test").last() != 47);
    }
}

/// A failure exports the four curated directories and whatever was retained, each from the
/// owned tree to the same place beneath the universe's own directory of the sink.
pub proof fn law_failures_export_what_was_kept(
    testbed: Testbed,
    sink: Vec<u8>,
    copies: Vec<(Vec<u8>, Vec<u8>)>,
    kept: Seq<u8>,
)
    requires
        Testbed::export_failure_artifacts.ensures((&testbed, &sink), copies),
        kept == text::word("logs") || kept == text::word("probes") || kept == text::word(
            "captures",
        ) || kept == text::word("diagnostics") || testbed@.retained.contains(kept),
    ensures
        exists|i: int|
            0 <= i < copies@.len() && (#[trigger] copies@[i]).0@ == ospath::joined(
                testbed@.root,
                kept,
            ) && copies@[i].1@ == ospath::joined(
                ospath::joined(sink@, encode_utf8(testbed@.id)),
                kept,
            ),
        copies@.len() == 4 + testbed@.retained.len(),
{
    let all = artifacts(testbed@);
    let at = if kept == text::word("logs") {
        0
    } else if kept == text::word("probes") {
        1
    } else if kept == text::word("captures") {
        2
    } else if kept == text::word("diagnostics") {
        3
    } else {
        4 + choose|i: int| 0 <= i < testbed@.retained.len() && testbed@.retained[i] == kept
    };
    assert(all[at] == kept);
    assert(copies@[at].0@ == ospath::joined(testbed@.root, kept));
}

/// A failure exports nothing without a sink.
pub proof fn law_exports_need_a_sink(testbed: Testbed, copies: Option<Vec<(Vec<u8>, Vec<u8>)>>)
    requires
        Testbed::failure_exports.ensures((&testbed,), copies),
    ensures
        copies is Some <==> testbed@.sink is Some,
{
}

/// A universe is controlled through the display that it owns, and through no other.
pub proof fn law_displays_are_controlled_by_their_kind(
    testbed: Testbed,
    x11: Result<(u16, Vec<u8>)>,
    wayland: Result<String>,
)
    requires
        Testbed::x11.ensures((&testbed,), x11),
        Testbed::capture_wayland.ensures((&testbed,), wayland),
    ensures
        x11 is Ok <==> testbed@.display is X11,
        wayland is Ok <==> testbed@.display is Wayland,
        x11 matches Ok((display, cookie)) ==> display == testbed@.display->X11_display && cookie@
            == testbed@.display->cookie,
        wayland matches Ok(socket) ==> socket@ == testbed@.display->socket_name,
{
}

/// A failed scenario keeps its diagnostics, and a good one leaves none.
pub proof fn law_only_failures_are_exported<
    T,
    R: FnOnce(TestbedBuilder) -> Result<Testbed>,
    S: FnOnce(&Testbed) -> Result<T>,
    X: FnOnce(&Testbed),
>(builder: TestbedBuilder, raise: R, scenario: S, export: X, verdict: Result<T>)
    requires
        TestbedBuilder::run.ensures((builder, raise, scenario, export), verdict),
    ensures
        verdict matches Ok(value) ==> exists|testbed: &Testbed| #[trigger]
            scenario.ensures((testbed,), Ok::<T, Error>(value)),
        verdict matches Err(error) ==> raise.ensures((builder,), Err::<Testbed, Error>(error)) || (
        exists|testbed: &Testbed| #[trigger]
            scenario.ensures((testbed,), Err::<T, Error>(error)) && export.ensures(
                (testbed,),
                (),
            )),
{
    let raised = choose|raised: Result<Testbed>| #[trigger]
        raise.ensures((builder,), raised) && match raised {
            Err(error) => verdict == Err::<T, Error>(error),
            Ok(testbed) => {
                &&& scenario.ensures((&testbed,), verdict)
                &&& verdict is Err ==> export.ensures((&testbed,), ())
            },
        };
    if let Ok(testbed) = raised {
        assert(verdict matches Ok(value) ==> scenario.ensures(
            (&testbed,),
            Ok::<T, Error>(value),
        ));
        assert(verdict matches Err(error) ==> scenario.ensures(
            (&testbed,),
            Err::<T, Error>(error),
        ));
    }
}

/// A fresh tree is closed to others before anything is created in it, gets its eleven
/// directories, and then its runtime directory is closed too.
pub proof fn law_trees_are_closed_before_they_are_filled(root: Vec<u8>, steps: Vec<Furnish>)
    requires
        furnish.ensures((&root,), steps),
    ensures
        steps@.len() == 13,
        steps@[0]@ == FurnishView::Harden(root@),
        steps@[12]@ == FurnishView::Harden(ospath::joined(root@, text::word("xdg/runtime"))),
        forall|i: int| 1 <= i < 12 ==> (#[trigger] steps@[i])@ is Create,
        steps@[1]@ == FurnishView::Create(ospath::joined(root@, text::word("home"))),
        steps@[2]@ == FurnishView::Create(ospath::joined(root@, text::word("tmp"))),
        steps@[3]@ == FurnishView::Create(ospath::joined(root@, text::word("logs"))),
        steps@[4]@ == FurnishView::Create(ospath::joined(root@, text::word("captures"))),
        steps@[5]@ == FurnishView::Create(ospath::joined(root@, text::word("diagnostics"))),
        steps@[6]@ == FurnishView::Create(ospath::joined(root@, text::word("probes"))),
        steps@[7]@ == FurnishView::Create(ospath::joined(root@, text::word("xdg/config"))),
        steps@[8]@ == FurnishView::Create(ospath::joined(root@, text::word("xdg/cache"))),
        steps@[9]@ == FurnishView::Create(ospath::joined(root@, text::word("xdg/data"))),
        steps@[10]@ == FurnishView::Create(ospath::joined(root@, text::word("xdg/state"))),
        steps@[11]@ == FurnishView::Create(ospath::joined(root@, text::word("xdg/runtime"))),
{
    let seen = steps@.map_values(|step: Furnish| step@);
    assert(seen.len() == 13);
    assert forall|i: int| 0 <= i < 13 implies (#[trigger] steps@[i])@ == furnishing(root@)[i] by {
        assert(seen[i] == steps@[i]@);
    }
}

/// A universe is equipped only where the sandbox, the service starter and the service client
/// were all found.
pub proof fn law_universes_need_their_tools<F: Fn(&Vec<u8>) -> bool>(
    builder: TestbedBuilder,
    path: Option<Vec<u8>>,
    is_file: &F,
    verdict: Result<()>,
)
    requires
        TestbedBuilder::equip::<F>.ensures((&builder, &path, is_file), verdict),
    ensures
        verdict is Ok ==> xvfb::equipped(tools::told(path), is_file, text::word("bwrap"), true)
            && xvfb::equipped(tools::told(path), is_file, text::word("systemd-run"), true)
            && xvfb::equipped(tools::told(path), is_file, text::word("systemctl"), true),
        verdict matches Err(error) ==> error@ is MissingTool,
{
    if verdict is Ok {
        assert(staples()[0] == "bwrap");
        assert(staples()[1] == "systemd-run");
        assert(staples()[2] == "systemctl");
    }
}

/// A policy changes only what it is told to, and a fresh universe owns what it was made of.
pub proof fn law_policies_change_one_thing(
    builder: TestbedBuilder,
    backend: Backend,
    rebased: TestbedBuilder,
    sink: Vec<u8>,
    watched: TestbedBuilder,
    id: String,
    root: Vec<u8>,
    display: DisplayServer,
    testbed: Testbed,
)
    requires
        TestbedBuilder::backend.ensures((builder, backend), rebased),
        TestbedBuilder::failure_artifacts.ensures((builder, &sink), watched),
        TestbedBuilder::assemble.ensures((builder, id, root, display), testbed),
    ensures
        rebased.policy() == backend && rebased.sink() == builder.sink(),
        watched.policy() == builder.policy() && watched.sink() == Some(sink@),
        testbed@.id == id@ && testbed@.root == root@ && testbed@.display == display@,
        testbed@.next_app == 1 && testbed@.retained.len() == 0 && testbed@.sink == builder.sink(),
{
}

} // verus!
