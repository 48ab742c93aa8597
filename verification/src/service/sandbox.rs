//! The Bubblewrap sandbox of one launch, and the sealed environment inside it.
use crate::environment;
use crate::environment::Environment;
use crate::error::{Error, ErrorView, Result, Source};
use crate::ospath;
use crate::ospath::{join, parent, split_components, Component};
use crate::service::command::{AppCommand, Graphics, Network};
use crate::service::devices;
use crate::service::devices::{device_parents, host_graphics_devices, lavapipe_root, Listing, Survey};
use crate::testbed::{DisplayServer, DisplayServerView};
use crate::text;
use crate::text::{glue3, lossy_text, push_all, push_bytes, push_word, push_words, text_bytes};
use vstd::prelude::*;

verus! {

/// What one sandbox option does.
#[derive(Clone, Copy, Debug, PartialEq, Eq, Structural)]
pub enum Verb {
    DieWithParent,
    UnsharePid,
    UnshareIpc,
    UnshareUts,
    UnshareNet,
    NewSession,
    CapDrop,
    ClearEnv,
    /// Reveal a host path read-only.
    RoBind,
    /// Reveal a host path writable.
    Bind,
    /// Reveal a host device.
    DevBind,
    Symlink,
    Proc,
    Tmpfs,
    Dir,
    Dev,
    SetEnv,
    Chdir,
}

impl Verb {
    /// The option's spelling.
    pub open spec fn spelling(self) -> &'static str {
        match self {
            Verb::DieWithParent => "--die-with-parent",
            Verb::UnsharePid => "--unshare-pid",
            Verb::UnshareIpc => "--unshare-ipc",
            Verb::UnshareUts => "--unshare-uts",
            Verb::UnshareNet => "--unshare-net",
            Verb::NewSession => "--new-session",
            Verb::CapDrop => "--cap-drop",
            Verb::ClearEnv => "--clearenv",
            Verb::RoBind => "--ro-bind",
            Verb::Bind => "--bind",
            Verb::DevBind => "--dev-bind",
            Verb::Symlink => "--symlink",
            Verb::Proc => "--proc",
            Verb::Tmpfs => "--tmpfs",
            Verb::Dir => "--dir",
            Verb::Dev => "--dev",
            Verb::SetEnv => "--setenv",
            Verb::Chdir => "--chdir",
        }
    }

    /// Spell the option.
    pub fn flag(self) -> (flag: &'static str)
        ensures
            flag == self.spelling(),
    {
        match self {
            Verb::DieWithParent => "--die-with-parent",
            Verb::UnsharePid => "--unshare-pid",
            Verb::UnshareIpc => "--unshare-ipc",
            Verb::UnshareUts => "--unshare-uts",
            Verb::UnshareNet => "--unshare-net",
            Verb::NewSession => "--new-session",
            Verb::CapDrop => "--cap-drop",
            Verb::ClearEnv => "--clearenv",
            Verb::RoBind => "--ro-bind",
            Verb::Bind => "--bind",
            Verb::DevBind => "--dev-bind",
            Verb::Symlink => "--symlink",
            Verb::Proc => "--proc",
            Verb::Tmpfs => "--tmpfs",
            Verb::Dir => "--dir",
            Verb::Dev => "--dev",
            Verb::SetEnv => "--setenv",
            Verb::Chdir => "--chdir",
        }
    }
}

/// One sandbox option and its operands.
#[derive(Debug)]
pub struct BwrapOption {
    pub verb: Verb,
    pub operands: Vec<Vec<u8>>,
}

/// Content of a [`BwrapOption`].
#[verifier::ext_equal]
pub struct BwrapOptionView {
    pub verb: Verb,
    pub operands: Seq<Seq<u8>>,
}

impl View for BwrapOption {
    type V = BwrapOptionView;

    open spec fn view(&self) -> BwrapOptionView {
        BwrapOptionView { verb: self.verb, operands: text::views(self.operands@) }
    }
}

/// Content of a run of options.
pub open spec fn options(list: Seq<BwrapOption>) -> Seq<BwrapOptionView> {
    Seq::new(list.len(), |i: int| list[i]@)
}

/// An option with literal operands.
pub open spec fn literal(verb: Verb, operands: Seq<&str>) -> BwrapOptionView {
    BwrapOptionView { verb, operands: text::words(operands) }
}

/// An option with given operands.
pub open spec fn option(verb: Verb, operands: Seq<Seq<u8>>) -> BwrapOptionView {
    BwrapOptionView { verb, operands }
}

fn push_literal(list: &mut Vec<BwrapOption>, verb: Verb, operands: &[&str])
    ensures
        options(final(list)@) == options(old(list)@).push(literal(verb, operands@)),
{
    let mut given: Vec<Vec<u8>> = Vec::new();
    assert(text::views(given@) =~= Seq::<Seq<u8>>::empty());
    push_words(&mut given, operands);
    assert(text::views(given@) =~= text::words(operands@));
    list.push(BwrapOption { verb, operands: given });
    assert(options(list@) =~= options(old(list)@).push(literal(verb, operands@)));
}

fn push_one(list: &mut Vec<BwrapOption>, verb: Verb, operand: &[u8])
    ensures
        options(final(list)@) == options(old(list)@).push(option(verb, seq![operand@])),
{
    let mut given: Vec<Vec<u8>> = Vec::new();
    push_bytes(&mut given, operand);
    assert(text::views(given@) =~= seq![operand@]);
    list.push(BwrapOption { verb, operands: given });
    assert(options(list@) =~= options(old(list)@).push(option(verb, seq![operand@])));
}

fn push_two(list: &mut Vec<BwrapOption>, verb: Verb, first: &[u8], second: &[u8])
    ensures
        options(final(list)@) == options(old(list)@).push(option(verb, seq![first@, second@])),
{
    let mut given: Vec<Vec<u8>> = Vec::new();
    push_bytes(&mut given, first);
    push_bytes(&mut given, second);
    assert(text::views(given@) =~= seq![first@, second@]);
    list.push(BwrapOption { verb, operands: given });
    assert(options(list@) =~= options(old(list)@).push(option(verb, seq![first@, second@])));
}

// ---------------------------------------------------------------------------
// The sandbox
// ---------------------------------------------------------------------------

/// A host path revealed read-only at a guest path.
#[derive(Debug)]
pub struct ReadOnlyMount {
    pub source: Vec<u8>,
    pub guest: Vec<u8>,
}

/// Content of a run of mounts: source and guest of each.
pub open spec fn mounts(list: Seq<ReadOnlyMount>) -> Seq<(Seq<u8>, Seq<u8>)> {
    Seq::new(list.len(), |i: int| (list[i].source@, list[i].guest@))
}

/// The graphics that a launch was granted.
#[derive(Debug)]
pub enum GraphicsRuntime {
    /// A software renderer at a host root.
    Software { lavapipe: Vec<u8> },
    /// Host devices, and the directories that hold them.
    Host { parents: Vec<Vec<u8>>, devices: Vec<Vec<u8>> },
}

/// Content of a [`GraphicsRuntime`].
#[verifier::ext_equal]
pub enum GraphicsRuntimeView {
    Software { lavapipe: Seq<u8> },
    Host { parents: Seq<Seq<u8>>, devices: Seq<Seq<u8>> },
}

impl View for GraphicsRuntime {
    type V = GraphicsRuntimeView;

    open spec fn view(&self) -> GraphicsRuntimeView {
        match self {
            GraphicsRuntime::Software { lavapipe } => GraphicsRuntimeView::Software {
                lavapipe: lavapipe@,
            },
            GraphicsRuntime::Host { parents, devices } => GraphicsRuntimeView::Host {
                parents: text::views(parents@),
                devices: text::views(devices@),
            },
        }
    }
}

impl GraphicsRuntime {
    /// Grant a software renderer.
    pub fn software(lavapipe: Vec<u8>) -> (graphics: Self)
        ensures
            graphics@ == (GraphicsRuntimeView::Software { lavapipe: lavapipe@ }),
    {
        GraphicsRuntime::Software { lavapipe }
    }

    /// Grant host devices.
    pub fn host(devices: Vec<Vec<u8>>) -> (graphics: Self)
        ensures
            graphics@ matches GraphicsRuntimeView::Host { parents, devices: granted } && granted
                == text::views(devices@) && ospath::distils(
                parents,
                devices::foreign_parents(text::views(devices@), 0),
            ),
    {
        GraphicsRuntime::Host { parents: device_parents(&devices), devices }
    }
}

/// Whether a runtime can be granted for an authority.
pub open spec fn grants<
    F: Fn(&Vec<u8>) -> bool,
    L: Fn(&Vec<u8>) -> std::result::Result<Listing, Source>,
>(
    graphics: Graphics,
    configured: Option<Seq<u8>>,
    home: Option<Seq<u8>>,
    is_file: &F,
    list: &L,
    outcome: std::result::Result<GraphicsRuntimeView, ErrorView>,
) -> bool {
    match graphics {
        Graphics::Software => {
            let roots = devices::lavapipe_roots(configured, home);
            match outcome {
                Ok(granted) => exists|i: int|
                    0 <= i < roots.len() && granted == (GraphicsRuntimeView::Software {
                        lavapipe: #[trigger] roots[i],
                    }) && devices::proves(is_file, roots[i]) && forall|j: int|
                        0 <= j < i ==> devices::refutes(is_file, #[trigger] roots[j]),
                Err(error) => (forall|i: int|
                    0 <= i < roots.len() ==> devices::refutes(is_file, #[trigger] roots[i]))
                    && error == (ErrorView::Unsupported {
                    capability: "software graphics"@,
                    detail: "lavapipe was not found; set EGUI_TESTER_LAVAPIPE or install the x11-gui-testing lavapipe runtime"@,
                }),
            }
        },
        Graphics::Host => exists|survey: Survey| #[trigger]
            survey.told(list) && match outcome {
                Ok(granted) => survey.gathered() matches Ok(found)
                    && granted matches GraphicsRuntimeView::Host { parents, devices }
                    && ospath::distils(devices, found) && ospath::distils(
                    parents,
                    devices::foreign_parents(devices, 0),
                ),
                Err(error) => survey.gathered() == Err::<Seq<Seq<u8>>, _>(error),
            },
    }
}

/// The content of a granted runtime.
pub open spec fn granted(outcome: Result<GraphicsRuntime>) -> std::result::Result<
    GraphicsRuntimeView,
    ErrorView,
> {
    match outcome {
        Ok(runtime) => Ok(runtime@),
        Err(error) => Err(error@),
    }
}

impl GraphicsRuntime {
    /// Resolve what an authority grants: a complete software renderer, or the
    /// host's graphics devices.
    pub fn resolve<
        F: Fn(&Vec<u8>) -> bool,
        L: Fn(&Vec<u8>) -> std::result::Result<Listing, Source>,
    >(
        graphics: Graphics,
        configured: &Option<Vec<u8>>,
        home: &Option<Vec<u8>>,
        is_file: &F,
        list: &L,
    ) -> (runtime: Result<GraphicsRuntime>)
        requires
            forall|path: &Vec<u8>| #[trigger] is_file.requires((path,)),
            forall|directory: &Vec<u8>| #[trigger] list.requires((directory,)),
        ensures
            grants(
                graphics,
                devices::told(*configured),
                devices::told(*home),
                is_file,
                list,
                granted(runtime),
            ),
    {
        match graphics {
            Graphics::Software => match lavapipe_root(configured, home, is_file) {
                Ok(root) => Ok(GraphicsRuntime::software(root)),
                Err(error) => Err(error),
            },
            Graphics::Host => match host_graphics_devices(list) {
                Ok(devices) => Ok(GraphicsRuntime::host(devices)),
                Err(error) => Err(error),
            },
        }
    }
}

/// Isolation, system mounts, the private root, and the binary.
pub open spec fn foundation(root: Seq<u8>, binary: Seq<u8>) -> Seq<BwrapOptionView> {
    seq![
        literal(Verb::DieWithParent, seq![]),
        literal(Verb::UnsharePid, seq![]),
        literal(Verb::UnshareIpc, seq![]),
        literal(Verb::UnshareUts, seq![]),
        literal(Verb::NewSession, seq![]),
        literal(Verb::CapDrop, seq!["ALL"]),
        literal(Verb::ClearEnv, seq![]),
        literal(Verb::RoBind, seq!["/usr", "/usr"]),
        literal(Verb::RoBind, seq!["/etc", "/etc"]),
        literal(Verb::Symlink, seq!["usr/bin", "/bin"]),
        literal(Verb::Symlink, seq!["usr/lib", "/lib"]),
        literal(Verb::Symlink, seq!["usr/lib64", "/lib64"]),
        literal(Verb::Proc, seq!["/proc"]),
        literal(Verb::Tmpfs, seq!["/run"]),
        literal(Verb::Dir, seq!["/tmp"]),
        option(Verb::Bind, seq![root, text::word("/test")]),
        literal(Verb::Dir, seq!["/app"]),
        option(Verb::RoBind, seq![binary, text::word("/app/application")]),
    ]
}

/// One option per path.
pub open spec fn each(verb: Verb, paths: Seq<Seq<u8>>) -> Seq<BwrapOptionView> {
    Seq::new(paths.len(), |i: int| option(verb, seq![paths[i]]))
}

/// One device bound at its own path, per device.
pub open spec fn device_binds(devices: Seq<Seq<u8>>) -> Seq<BwrapOptionView> {
    Seq::new(devices.len(), |i: int| option(Verb::DevBind, seq![devices[i], devices[i]]))
}

/// The graphics part.
pub open spec fn graphics_options(graphics: GraphicsRuntimeView) -> Seq<BwrapOptionView> {
    match graphics {
        GraphicsRuntimeView::Software { lavapipe } => seq![
            literal(Verb::Dev, seq!["/dev"]),
            literal(Verb::Dir, seq!["/opt"]),
            literal(Verb::Dir, seq!["/opt/egui-tester"]),
            option(Verb::RoBind, seq![lavapipe, text::word("/opt/egui-tester/lavapipe")]),
        ],
        GraphicsRuntimeView::Host { parents, devices } => seq![literal(Verb::Dev, seq!["/dev"])]
            + each(Verb::Dir, parents) + device_binds(devices) + seq![
            literal(Verb::RoBind, seq!["/sys", "/sys"]),
        ],
    }
}

/// The network part.
pub open spec fn network_options(network: Network) -> Seq<BwrapOptionView> {
    if network == Network::Deny {
        seq![literal(Verb::UnshareNet, seq![])]
    } else {
        Seq::empty()
    }
}

/// The display part: an X server's socket, read-only.
pub open spec fn display_options(display: DisplayServerView) -> Seq<BwrapOptionView> {
    match display {
        DisplayServerView::X11 { socket, .. } => seq![
            literal(Verb::Dir, seq!["/tmp/.X11-unix"]),
            option(Verb::RoBind, seq![socket, socket]),
        ],
        DisplayServerView::Wayland { .. } => Seq::empty(),
    }
}

/// The directories to create above a guest path, outermost first, when every
/// step to it is a name.
pub open spec fn ladder(steps: Seq<ospath::ComponentView>, built: Seq<u8>) -> Option<
    Seq<Seq<u8>>,
>
    decreases steps.len(),
{
    if steps.len() == 0 {
        Some(Seq::empty())
    } else {
        match steps[0] {
            ospath::ComponentView::RootDir => ladder(steps.skip(1), built),
            ospath::ComponentView::Normal(name) => {
                let rung = ospath::joined(built, name);
                match ladder(steps.skip(1), rung) {
                    Some(rest) => Some(seq![rung] + rest),
                    None => None,
                }
            },
            _ => None,
        }
    }
}

/// The directories to create above a guest path, or why it cannot be mounted.
pub open spec fn parent_dirs(path: Seq<u8>) -> std::result::Result<Seq<Seq<u8>>, ErrorView> {
    match ospath::parent_of(path) {
        None => Err(
            ErrorView::Containment {
                layer: "mount namespace"@,
                detail: "borrow `"@ + text::lossy(path) + "` has no parent"@,
            },
        ),
        Some(directory) => match ladder(ospath::components(directory), text::word("/")) {
            Some(rungs) => Ok(rungs),
            None => Err(
                ErrorView::Containment {
                    layer: "mount namespace"@,
                    detail: "borrow `"@ + text::lossy(path)
                        + "` contains a non-normal component"@,
                },
            ),
        },
    }
}

/// The borrows' part, from `from` on: the directories above each guest path,
/// then the path itself, read-only.
pub open spec fn borrow_options(borrows: Seq<(Seq<u8>, Seq<u8>)>, from: int) -> std::result::Result<
    Seq<BwrapOptionView>,
    ErrorView,
>
    decreases borrows.len() - from,
{
    if from >= borrows.len() {
        Ok(Seq::empty())
    } else {
        match parent_dirs(borrows[from].1) {
            Err(error) => Err(error),
            Ok(rungs) => match borrow_options(borrows, from + 1) {
                Err(error) => Err(error),
                Ok(rest) => Ok(
                    each(Verb::Dir, rungs).push(
                        option(Verb::RoBind, seq![borrows[from].0, borrows[from].1]),
                    ) + rest,
                ),
            },
        }
    }
}

/// The environment's part.
pub open spec fn environment_options(listing: Seq<(Seq<u8>, Seq<u8>)>) -> Seq<BwrapOptionView> {
    Seq::new(
        listing.len(),
        |i: int| option(Verb::SetEnv, seq![listing[i].0, listing[i].1]),
    )
}

/// Everything that shapes one sandbox.
pub struct SandboxView {
    pub root: Seq<u8>,
    pub binary: Seq<u8>,
    pub graphics: GraphicsRuntimeView,
    pub network: Network,
    pub display: DisplayServerView,
    /// Source and guest path of each borrow.
    pub borrows: Seq<(Seq<u8>, Seq<u8>)>,
    /// Variables and values in order.
    pub environment: Seq<(Seq<u8>, Seq<u8>)>,
}

impl SandboxView {
    /// The options of the sandbox, or why it cannot be built.
    pub open spec fn shape(self) -> std::result::Result<Seq<BwrapOptionView>, ErrorView> {
        match borrow_options(self.borrows, 0) {
            Err(error) => Err(error),
            Ok(borrowed) => Ok(
                foundation(self.root, self.binary) + graphics_options(self.graphics)
                    + network_options(self.network) + display_options(self.display) + borrowed
                    + environment_options(self.environment) + seq![
                    literal(Verb::Chdir, seq!["/test/home"]),
                ],
            ),
        }
    }
}

/// The spelling of a run of options.
pub open spec fn rendered(list: Seq<BwrapOptionView>) -> Seq<Seq<u8>>
    decreases list.len(),
{
    if list.len() == 0 {
        Seq::empty()
    } else {
        (seq![text::word(list[0].verb.spelling())] + list[0].operands) + rendered(list.skip(1))
    }
}

fn push_foundation(list: &mut Vec<BwrapOption>, root: &[u8], binary: &[u8])
    ensures
        options(final(list)@) == options(old(list)@) + foundation(root@, binary@),
{
    push_literal(list, Verb::DieWithParent, &[]);
    push_literal(list, Verb::UnsharePid, &[]);
    push_literal(list, Verb::UnshareIpc, &[]);
    push_literal(list, Verb::UnshareUts, &[]);
    push_literal(list, Verb::NewSession, &[]);
    push_literal(list, Verb::CapDrop, &["ALL"]);
    push_literal(list, Verb::ClearEnv, &[]);
    push_literal(list, Verb::RoBind, &["/usr", "/usr"]);
    push_literal(list, Verb::RoBind, &["/etc", "/etc"]);
    push_literal(list, Verb::Symlink, &["usr/bin", "/bin"]);
    push_literal(list, Verb::Symlink, &["usr/lib", "/lib"]);
    push_literal(list, Verb::Symlink, &["usr/lib64", "/lib64"]);
    push_literal(list, Verb::Proc, &["/proc"]);
    push_literal(list, Verb::Tmpfs, &["/run"]);
    push_literal(list, Verb::Dir, &["/tmp"]);
    push_two(list, Verb::Bind, root, "/test".as_bytes());
    push_literal(list, Verb::Dir, &["/app"]);
    push_two(list, Verb::RoBind, binary, "/app/application".as_bytes());
    assert(options(list@) =~~= options(old(list)@) + foundation(root@, binary@));
}

fn push_graphics(list: &mut Vec<BwrapOption>, graphics: &GraphicsRuntime)
    ensures
        options(final(list)@) == options(old(list)@) + graphics_options(graphics@),
{
    match graphics {
        GraphicsRuntime::Software { lavapipe } => {
            push_literal(list, Verb::Dev, &["/dev"]);
            push_literal(list, Verb::Dir, &["/opt"]);
            push_literal(list, Verb::Dir, &["/opt/egui-tester"]);
            push_two(
                list,
                Verb::RoBind,
                lavapipe.as_slice(),
                "/opt/egui-tester/lavapipe".as_bytes(),
            );
            assert(options(list@) =~~= options(old(list)@) + graphics_options(graphics@));
        },
        GraphicsRuntime::Host { parents, devices } => {
            push_literal(list, Verb::Dev, &["/dev"]);
            push_each(list, Verb::Dir, parents);
            let ghost before = options(list@);
            let mut index: usize = 0;
            assert(before + device_binds(text::views(devices@).take(0)) =~= before);
            while index < devices.len()
                invariant
                    index <= devices.len(),
                    options(list@) == before + device_binds(
                        text::views(devices@).take(index as int),
                    ),
                decreases devices.len() - index,
            {
                let ghost all = text::views(devices@);
                push_two(list, Verb::DevBind, devices[index].as_slice(), devices[index].as_slice());
                assert(device_binds(all.take(index + 1)) =~= device_binds(
                    all.take(index as int),
                ).push(option(Verb::DevBind, seq![all[index as int], all[index as int]])));
                index += 1;
            }
            assert(text::views(devices@).take(index as int) =~= text::views(devices@));
            push_literal(list, Verb::RoBind, &["/sys", "/sys"]);
            assert(options(list@) =~~= options(old(list)@) + graphics_options(graphics@));
        },
    }
}

fn push_each(list: &mut Vec<BwrapOption>, verb: Verb, paths: &Vec<Vec<u8>>)
    ensures
        options(final(list)@) == options(old(list)@) + each(verb, text::views(paths@)),
{
    let ghost all = text::views(paths@);
    let mut index: usize = 0;
    assert(options(list@) =~= options(old(list)@) + each(verb, all.take(0)));
    while index < paths.len()
        invariant
            index <= paths.len(),
            all == text::views(paths@),
            options(list@) == options(old(list)@) + each(verb, all.take(index as int)),
        decreases paths.len() - index,
    {
        push_one(list, verb, paths[index].as_slice());
        assert(each(verb, all.take(index + 1)) =~= each(verb, all.take(index as int)).push(
            option(verb, seq![all[index as int]]),
        ));
        index += 1;
    }
    assert(all.take(index as int) =~= all);
}

/// List the directories to create above a guest path, outermost first.
pub fn append_parent_dirs(path: &Vec<u8>) -> (rungs: Result<Vec<Vec<u8>>>)
    ensures
        match rungs {
            Ok(rungs) => parent_dirs(path@) == Ok::<_, ErrorView>(text::views(rungs@)),
            Err(error) => parent_dirs(path@) == Err::<Seq<Seq<u8>>, _>(error@),
        },
{
    let directory = match parent(path.as_slice()) {
        Some(directory) => directory,
        None => {
            return Err(
                Error::Containment {
                    layer: "mount namespace",
                    detail: glue3(
                        "borrow `",
                        lossy_text(path.as_slice()).as_str(),
                        "` has no parent",
                    ),
                },
            );
        },
    };
    let steps = split_components(directory.as_slice());
    let ghost all = ospath::components(directory@);
    let mut built = text_bytes("/");
    let mut rungs: Vec<Vec<u8>> = Vec::new();
    let mut index: usize = 0;
    assert(all.skip(0) =~= all);
    assert(ladder(all, built@) matches Some(rest) ==> text::views(rungs@) + rest =~= rest);
    while index < steps.len()
        invariant
            index <= steps.len(),
            all == ospath::steps(steps@),
            all == ospath::components(directory@),
            ospath::parent_of(path@) == Some(directory@),
            match ladder(all.skip(index as int), built@) {
                Some(rest) => ladder(all, text::word("/")) == Some(text::views(rungs@) + rest),
                None => ladder(all, text::word("/")) is None,
            },
        decreases steps.len() - index,
    {
        let ghost rest = all.skip(index as int);
        let ghost before = text::views(rungs@);
        assert(rest[0] == steps@[index as int]@);
        assert(rest.skip(1) =~= all.skip(index + 1));
        match &steps[index] {
            Component::RootDir => {},
            Component::Normal(name) => {
                built = join(built.as_slice(), name.as_slice());
                push_bytes(&mut rungs, built.as_slice());
                assert(ladder(rest.skip(1), built@) matches Some(more) ==> text::views(rungs@)
                    + more =~= before + (seq![built@] + more));
            },
            _ => {
                return Err(
                    Error::Containment {
                        layer: "mount namespace",
                        detail: glue3(
                            "borrow `",
                            lossy_text(path.as_slice()).as_str(),
                            "` contains a non-normal component",
                        ),
                    },
                );
            },
        }
        index += 1;
    }
    assert(all.skip(index as int) =~= Seq::<ospath::ComponentView>::empty());
    assert(text::views(rungs@) + Seq::<Seq<u8>>::empty() =~= text::views(rungs@));
    Ok(rungs)
}

fn push_borrows(list: &mut Vec<BwrapOption>, borrows: &Vec<ReadOnlyMount>) -> (verdict: Result<()>)
    ensures
        match verdict {
            Ok(_) => borrow_options(mounts(borrows@), 0) matches Ok(borrowed) && options(
                final(list)@,
            ) == options(old(list)@) + borrowed,
            Err(error) => borrow_options(mounts(borrows@), 0) == Err::<Seq<BwrapOptionView>, _>(
                error@,
            ),
        },
{
    let ghost all = mounts(borrows@);
    let ghost start = options(list@);
    let ghost mut done = Seq::<BwrapOptionView>::empty();
    let mut index: usize = 0;
    assert(options(list@) =~= start + done);
    assert(borrow_options(all, 0) matches Ok(rest) ==> done + rest =~= rest);
    while index < borrows.len()
        invariant
            index <= borrows.len(),
            all == mounts(borrows@),
            start == options(old(list)@),
            options(list@) == start + done,
            match borrow_options(all, index as int) {
                Ok(rest) => borrow_options(all, 0) == Ok::<_, ErrorView>(done + rest),
                Err(error) => borrow_options(all, 0) == Err::<Seq<BwrapOptionView>, _>(error),
            },
        decreases borrows.len() - index,
    {
        assert(all[index as int] == (
            borrows@[index as int].source@,
            borrows@[index as int].guest@,
        ));
        let rungs = match append_parent_dirs(&borrows[index].guest) {
            Ok(rungs) => rungs,
            Err(error) => {
                return Err(error);
            },
        };
        push_each(list, Verb::Dir, &rungs);
        push_two(
            list,
            Verb::RoBind,
            borrows[index].source.as_slice(),
            borrows[index].guest.as_slice(),
        );
        proof {
            let part = each(Verb::Dir, text::views(rungs@)).push(
                option(Verb::RoBind, seq![all[index as int].0, all[index as int].1]),
            );
            assert(options(list@) =~= start + (done + part));
            assert(borrow_options(all, index + 1) matches Ok(rest) ==> done + (part + rest) =~= (
            done + part) + rest);
            done = done + part;
        }
        index += 1;
    }
    assert(done + Seq::<BwrapOptionView>::empty() =~= done);
    Ok(())
}

fn push_environment(list: &mut Vec<BwrapOption>, environment: &Environment)
    ensures
        options(final(list)@) == options(old(list)@) + environment_options(environment.listing()),
{
    let entries = environment.entries();
    let ghost all = environment.listing();
    let ghost start = options(list@);
    let mut index: usize = 0;
    assert(start + environment_options(all.take(0)) =~= start);
    while index < entries.len()
        invariant
            index <= entries.len(),
            all == environment::pairs(entries@),
            options(list@) == start + environment_options(all.take(index as int)),
        decreases entries.len() - index,
    {
        push_two(list, Verb::SetEnv, entries[index].0.as_slice(), entries[index].1.as_slice());
        assert(environment_options(all.take(index + 1)) =~= environment_options(
            all.take(index as int),
        ).push(option(Verb::SetEnv, seq![all[index as int].0, all[index as int].1])));
        index += 1;
    }
    assert(all.take(index as int) =~= all);
}

fn render(list: &Vec<BwrapOption>, arguments: &mut Vec<Vec<u8>>)
    ensures
        text::views(final(arguments)@) == text::views(old(arguments)@) + rendered(options(list@)),
{
    let ghost all = options(list@);
    let ghost start = text::views(arguments@);
    let ghost mut done = Seq::<Seq<u8>>::empty();
    let mut index: usize = 0;
    assert(all.skip(0) =~= all);
    assert(done + rendered(all) =~= rendered(all));
    assert(start + done =~= start);
    while index < list.len()
        invariant
            index <= list.len(),
            all == options(list@),
            text::views(arguments@) == start + done,
            done + rendered(all.skip(index as int)) == rendered(all),
        decreases list.len() - index,
    {
        let ghost rest = all.skip(index as int);
        assert(rest[0] == list@[index as int]@);
        assert(rest.skip(1) =~= all.skip(index + 1));
        push_word(arguments, list[index].verb.flag());
        push_all(arguments, &list[index].operands);
        proof {
            let part = seq![text::word(rest[0].verb.spelling())] + rest[0].operands;
            assert(text::views(arguments@) =~= start + (done + part));
            assert((done + part) + rendered(rest.skip(1)) =~= done + rendered(rest));
            done = done + part;
        }
        index += 1;
    }
    assert(all.skip(index as int) =~= Seq::<BwrapOptionView>::empty());
    assert(done =~= rendered(all));
}

/// The argument vector of a sandboxed launch.
pub open spec fn launch_arguments(shape: Seq<BwrapOptionView>, args: Seq<Seq<u8>>) -> Seq<Seq<u8>> {
    seq![text::word("/usr/bin/bwrap")] + rendered(shape) + text::words(
        seq!["--", "/app/application"],
    ) + args
}

/// Build the sandbox of a launch and spell its argument vector.
pub fn bwrap_argv(
    root: &Vec<u8>,
    display: &DisplayServer,
    command: &AppCommand,
    binary: &Vec<u8>,
    borrows: &Vec<ReadOnlyMount>,
    graphics: &GraphicsRuntime,
    environment: &Environment,
) -> (arguments: Result<Vec<Vec<u8>>>)
    ensures
        ({
            let sandbox = SandboxView {
                root: root@,
                binary: binary@,
                graphics: graphics@,
                network: command@.network,
                display: display@,
                borrows: mounts(borrows@),
                environment: environment.listing(),
            };
            match arguments {
                Ok(arguments) => sandbox.shape() matches Ok(shape) && text::views(arguments@)
                    == launch_arguments(shape, command@.args),
                Err(error) => sandbox.shape() == Err::<Seq<BwrapOptionView>, _>(error@),
            }
        }),
{
    let mut list: Vec<BwrapOption> = Vec::new();
    assert(options(list@) =~= Seq::<BwrapOptionView>::empty());
    push_foundation(&mut list, root.as_slice(), binary.as_slice());
    push_graphics(&mut list, graphics);
    if command.network_authority() == Network::Deny {
        push_literal(&mut list, Verb::UnshareNet, &[]);
    }
    let ghost so_far = foundation(root@, binary@) + graphics_options(graphics@) + network_options(
        command@.network,
    );
    assert(options(list@) =~~= so_far);
    match display {
        DisplayServer::X11 { socket, .. } => {
            push_literal(&mut list, Verb::Dir, &["/tmp/.X11-unix"]);
            push_two(&mut list, Verb::RoBind, socket.as_slice(), socket.as_slice());
        },
        DisplayServer::Wayland { .. } => {},
    }
    assert(options(list@) =~~= so_far + display_options(display@));
    match push_borrows(&mut list, borrows) {
        Ok(_) => {},
        Err(error) => {
            return Err(error);
        },
    }
    push_environment(&mut list, environment);
    push_literal(&mut list, Verb::Chdir, &["/test/home"]);
    let ghost shape = (SandboxView {
        root: root@,
        binary: binary@,
        graphics: graphics@,
        network: command@.network,
        display: display@,
        borrows: mounts(borrows@),
        environment: environment.listing(),
    }).shape()->Ok_0;
    assert(options(list@) =~~= shape);
    let mut arguments: Vec<Vec<u8>> = Vec::new();
    push_word(&mut arguments, "/usr/bin/bwrap");
    assert(text::views(arguments@) =~= seq![text::word("/usr/bin/bwrap")]);
    render(&list, &mut arguments);
    push_words(&mut arguments, &["--", "/app/application"]);
    push_all(&mut arguments, command.arguments());
    assert(text::views(arguments@) =~~= launch_arguments(shape, command@.args));
    Ok(arguments)
}

// ---------------------------------------------------------------------------
// Laws
// ---------------------------------------------------------------------------

pub proof fn lemma_borrow_verbs(borrows: Seq<(Seq<u8>, Seq<u8>)>, from: int)
    requires
        borrow_options(borrows, from) is Ok,
    ensures
        forall|i: int|
            0 <= i < (borrow_options(borrows, from)->Ok_0).len() ==> (#[trigger] (borrow_options(
                borrows,
                from,
            )->Ok_0)[i]).verb == Verb::Dir || (borrow_options(borrows, from)->Ok_0)[i].verb
                == Verb::RoBind,
    decreases borrows.len() - from,
{
    if from < borrows.len() {
        lemma_borrow_verbs(borrows, from + 1);
        let rungs = parent_dirs(borrows[from].1)->Ok_0;
        let part = each(Verb::Dir, rungs).push(
            option(Verb::RoBind, seq![borrows[from].0, borrows[from].1]),
        );
        let rest = borrow_options(borrows, from + 1)->Ok_0;
        let whole = borrow_options(borrows, from)->Ok_0;
        assert forall|i: int| 0 <= i < whole.len() implies (#[trigger] whole[i]).verb == Verb::Dir
            || whole[i].verb == Verb::RoBind by {
            if i < part.len() {
                assert(whole[i] == part[i]);
            } else {
                assert(whole[i] == rest[i - part.len()]);
            }
        }
    }
}

/// The private root is the one path that a sandbox reveals writable.
pub proof fn law_only_the_private_root_is_writable(sandbox: SandboxView, index: int)
    requires
        sandbox.shape() is Ok,
        0 <= index < (sandbox.shape()->Ok_0).len(),
        (sandbox.shape()->Ok_0)[index].verb == Verb::Bind,
    ensures
        (sandbox.shape()->Ok_0)[index].operands == seq![sandbox.root, text::word("/test")],
{
    lemma_borrow_verbs(sandbox.borrows, 0);
    let base = foundation(sandbox.root, sandbox.binary);
    let shape = sandbox.shape()->Ok_0;
    if index < base.len() {
        assert(shape[index] == base[index]);
    } else {
        lemma_rest_is_not_writable(sandbox, index);
    }
}

proof fn lemma_rest_is_not_writable(sandbox: SandboxView, index: int)
    requires
        sandbox.shape() is Ok,
        foundation(sandbox.root, sandbox.binary).len() <= index < (sandbox.shape()->Ok_0).len(),
    ensures
        (sandbox.shape()->Ok_0)[index].verb != Verb::Bind,
        (sandbox.shape()->Ok_0)[index].verb == Verb::UnshareNet <==> (sandbox.network
            == Network::Deny && index == foundation(sandbox.root, sandbox.binary).len()
            + graphics_options(sandbox.graphics).len()),
{
    lemma_borrow_verbs(sandbox.borrows, 0);
    let a = foundation(sandbox.root, sandbox.binary);
    let b = graphics_options(sandbox.graphics);
    let c = network_options(sandbox.network);
    let d = display_options(sandbox.display);
    let e = borrow_options(sandbox.borrows, 0)->Ok_0;
    let f = environment_options(sandbox.environment);
    let shape = sandbox.shape()->Ok_0;
    let at = index - a.len();
    if at < b.len() {
        assert(shape[index] == b[at]);
        lemma_graphics_verbs(sandbox.graphics, at);
    } else if at < b.len() + c.len() {
        assert(shape[index] == c[at - b.len()]);
    } else if at < b.len() + c.len() + d.len() {
        assert(shape[index] == d[at - b.len() - c.len()]);
    } else if at < b.len() + c.len() + d.len() + e.len() {
        assert(shape[index] == e[at - b.len() - c.len() - d.len()]);
    } else if at < b.len() + c.len() + d.len() + e.len() + f.len() {
        assert(shape[index] == f[at - b.len() - c.len() - d.len() - e.len()]);
    } else {
        assert(shape[index].verb == Verb::Chdir);
    }
}

proof fn lemma_graphics_verbs(graphics: GraphicsRuntimeView, index: int)
    requires
        0 <= index < graphics_options(graphics).len(),
    ensures
        graphics_options(graphics)[index].verb == Verb::Dev || graphics_options(
            graphics,
        )[index].verb == Verb::Dir || graphics_options(graphics)[index].verb == Verb::RoBind
            || graphics_options(graphics)[index].verb == Verb::DevBind,
{
    match graphics {
        GraphicsRuntimeView::Software { .. } => {},
        GraphicsRuntimeView::Host { parents, devices } => {
            let dirs = each(Verb::Dir, parents);
            let binds = device_binds(devices);
            let whole = graphics_options(graphics);
            if 0 < index <= dirs.len() {
                assert(whole[index] == dirs[index - 1]);
            } else if dirs.len() < index <= dirs.len() + binds.len() {
                assert(whole[index] == binds[index - 1 - dirs.len()]);
            }
        },
    }
}

/// A sandbox leaves the host network exactly when the launch denies it.
pub proof fn law_network_denial_is_exact(sandbox: SandboxView)
    requires
        sandbox.shape() is Ok,
    ensures
        (exists|i: int|
            0 <= i < (sandbox.shape()->Ok_0).len() && (#[trigger] (sandbox.shape()->Ok_0)[i]).verb
                == Verb::UnshareNet) <==> sandbox.network == Network::Deny,
{
    let base = foundation(sandbox.root, sandbox.binary);
    let shape = sandbox.shape()->Ok_0;
    if sandbox.network == Network::Deny {
        let at = (base.len() + graphics_options(sandbox.graphics).len()) as int;
        assert(shape[at] == network_options(sandbox.network)[0]);
    } else if exists|i: int| 0 <= i < shape.len() && (#[trigger] shape[i]).verb
        == Verb::UnshareNet {
        let i = choose|i: int|
            0 <= i < shape.len() && (#[trigger] shape[i]).verb == Verb::UnshareNet;
        if i < base.len() {
            assert(shape[i] == base[i]);
        } else {
            lemma_rest_is_not_writable(sandbox, i);
        }
    }
}

/// Every borrow of a sandbox is revealed read-only at its guest path.
pub proof fn law_borrows_are_read_only(sandbox: SandboxView, index: int)
    requires
        sandbox.shape() is Ok,
        0 <= index < sandbox.borrows.len(),
    ensures
        (sandbox.shape()->Ok_0).contains(
            option(Verb::RoBind, seq![sandbox.borrows[index].0, sandbox.borrows[index].1]),
        ),
{
    lemma_borrow_present(sandbox.borrows, 0, index);
    let wanted = option(Verb::RoBind, seq![sandbox.borrows[index].0, sandbox.borrows[index].1]);
    let e = borrow_options(sandbox.borrows, 0)->Ok_0;
    let k = choose|k: int| 0 <= k < e.len() && e[k] == wanted;
    let offset = foundation(sandbox.root, sandbox.binary).len() + graphics_options(
        sandbox.graphics,
    ).len() + network_options(sandbox.network).len() + display_options(sandbox.display).len();
    assert((sandbox.shape()->Ok_0)[offset + k] == wanted);
}

/// Whether an option reveals a host path that the sandbox declares: the runtime,
/// the binary, the renderer or the granted devices, the display's socket, or a
/// borrow.
pub open spec fn declared(sandbox: SandboxView, revealed: BwrapOptionView) -> bool {
    ||| revealed == literal(Verb::RoBind, seq!["/usr", "/usr"])
    ||| revealed == literal(Verb::RoBind, seq!["/etc", "/etc"])
    ||| revealed == option(Verb::Bind, seq![sandbox.root, text::word("/test")])
    ||| revealed == option(Verb::RoBind, seq![sandbox.binary, text::word("/app/application")])
    ||| match sandbox.graphics {
        GraphicsRuntimeView::Software { lavapipe } => revealed == option(
            Verb::RoBind,
            seq![lavapipe, text::word("/opt/egui-tester/lavapipe")],
        ),
        GraphicsRuntimeView::Host { devices, .. } => revealed == literal(
            Verb::RoBind,
            seq!["/sys", "/sys"],
        ) || exists|i: int|
            0 <= i < devices.len() && revealed == option(
                Verb::DevBind,
                seq![#[trigger] devices[i], devices[i]],
            ),
    }
    ||| sandbox.display matches DisplayServerView::X11 { socket, .. } && revealed == option(
        Verb::RoBind,
        seq![socket, socket],
    )
    ||| exists|i: int|
        0 <= i < sandbox.borrows.len() && revealed == option(
            Verb::RoBind,
            seq![(#[trigger] sandbox.borrows[i]).0, sandbox.borrows[i].1],
        )
}

/// Whether an option makes a host path appear in a sandbox.
pub open spec fn reveals(option: BwrapOptionView) -> bool {
    option.verb == Verb::Bind || option.verb == Verb::RoBind || option.verb == Verb::DevBind
}

/// A sandbox reveals no host path but those it declares.
pub proof fn law_nothing_undeclared_is_revealed(sandbox: SandboxView, index: int)
    requires
        sandbox.shape() is Ok,
        0 <= index < (sandbox.shape()->Ok_0).len(),
        reveals((sandbox.shape()->Ok_0)[index]),
    ensures
        declared(sandbox, (sandbox.shape()->Ok_0)[index]),
{
    let a = foundation(sandbox.root, sandbox.binary);
    let b = graphics_options(sandbox.graphics);
    let c = network_options(sandbox.network);
    let d = display_options(sandbox.display);
    let e = borrow_options(sandbox.borrows, 0)->Ok_0;
    let f = environment_options(sandbox.environment);
    let shape = sandbox.shape()->Ok_0;
    let at = index - a.len();
    if index < a.len() {
        assert(shape[index] == a[index]);
    } else if at < b.len() {
        assert(shape[index] == b[at]);
        lemma_graphics_are_declared(sandbox, at);
    } else if at < b.len() + c.len() {
        assert(shape[index] == c[at - b.len()]);
    } else if at < b.len() + c.len() + d.len() {
        assert(shape[index] == d[at - b.len() - c.len()]);
    } else if at < b.len() + c.len() + d.len() + e.len() {
        assert(shape[index] == e[at - b.len() - c.len() - d.len()]);
        lemma_borrows_are_declared(sandbox.borrows, 0, at - b.len() - c.len() - d.len());
    } else if at < b.len() + c.len() + d.len() + e.len() + f.len() {
        assert(shape[index] == f[at - b.len() - c.len() - d.len() - e.len()]);
    } else {
        assert(shape[index].verb == Verb::Chdir);
    }
}

proof fn lemma_graphics_are_declared(sandbox: SandboxView, index: int)
    requires
        0 <= index < graphics_options(sandbox.graphics).len(),
        reveals(graphics_options(sandbox.graphics)[index]),
    ensures
        declared(sandbox, graphics_options(sandbox.graphics)[index]),
{
    match sandbox.graphics {
        GraphicsRuntimeView::Software { .. } => {},
        GraphicsRuntimeView::Host { parents, devices } => {
            let dirs = each(Verb::Dir, parents);
            let binds = device_binds(devices);
            let whole = graphics_options(sandbox.graphics);
            if 0 < index <= dirs.len() {
                assert(whole[index] == dirs[index - 1]);
            } else if dirs.len() < index <= dirs.len() + binds.len() {
                let device = index - 1 - dirs.len();
                assert(whole[index] == binds[device]);
                assert(whole[index] == option(Verb::DevBind, seq![devices[device], devices[device]]));
            }
        },
    }
}

proof fn lemma_borrows_are_declared(borrows: Seq<(Seq<u8>, Seq<u8>)>, from: int, index: int)
    requires
        borrow_options(borrows, from) is Ok,
        0 <= from,
        0 <= index < (borrow_options(borrows, from)->Ok_0).len(),
        reveals((borrow_options(borrows, from)->Ok_0)[index]),
    ensures
        exists|i: int|
            0 <= i < borrows.len() && (borrow_options(borrows, from)->Ok_0)[index] == option(
                Verb::RoBind,
                seq![(#[trigger] borrows[i]).0, borrows[i].1],
            ),
    decreases borrows.len() - from,
{
    if from < borrows.len() {
        let rungs = parent_dirs(borrows[from].1)->Ok_0;
        let part = each(Verb::Dir, rungs).push(
            option(Verb::RoBind, seq![borrows[from].0, borrows[from].1]),
        );
        let rest = borrow_options(borrows, from + 1)->Ok_0;
        let whole = borrow_options(borrows, from)->Ok_0;
        if index < part.len() {
            assert(whole[index] == part[index]);
            assert(part[index] == option(Verb::RoBind, seq![borrows[from].0, borrows[from].1]));
        } else {
            assert(whole[index] == rest[index - part.len()]);
            lemma_borrows_are_declared(borrows, from + 1, index - part.len());
        }
    }
}

proof fn lemma_borrow_present(borrows: Seq<(Seq<u8>, Seq<u8>)>, from: int, index: int)
    requires
        borrow_options(borrows, from) is Ok,
        0 <= from <= index < borrows.len(),
    ensures
        (borrow_options(borrows, from)->Ok_0).contains(
            option(Verb::RoBind, seq![borrows[index].0, borrows[index].1]),
        ),
    decreases borrows.len() - from,
{
    let rungs = parent_dirs(borrows[from].1)->Ok_0;
    let part = each(Verb::Dir, rungs).push(
        option(Verb::RoBind, seq![borrows[from].0, borrows[from].1]),
    );
    let rest = borrow_options(borrows, from + 1)->Ok_0;
    let whole = borrow_options(borrows, from)->Ok_0;
    let wanted = option(Verb::RoBind, seq![borrows[index].0, borrows[index].1]);
    if from == index {
        assert(whole[rungs.len() as int] == wanted);
    } else {
        lemma_borrow_present(borrows, from + 1, index);
        let k = choose|k: int| 0 <= k < rest.len() && rest[k] == wanted;
        assert(whole[part.len() + k] == wanted);
    }
}

proof fn lemma_ladder(steps: Seq<ospath::ComponentView>, built: Seq<u8>)
    requires
        forall|i: int| 0 <= i < steps.len() ==> (#[trigger] steps[i]) is Normal,
    ensures
        ladder(steps, built) is Some,
        ladder(steps, built)->0.len() == steps.len(),
        forall|i: int|
            0 <= i < steps.len() ==> #[trigger] ladder(steps, built)->0[i] == ospath::joined(
                if i == 0 {
                    built
                } else {
                    ladder(steps, built)->0[i - 1]
                },
                steps[i]->Normal_0,
            ),
    decreases steps.len(),
{
    if steps.len() > 0 {
        let rung = ospath::joined(built, steps[0]->Normal_0);
        let rest = steps.skip(1);
        assert forall|i: int| 0 <= i < rest.len() implies (#[trigger] rest[i]) is Normal by {
            assert(rest[i] == steps[i + 1]);
        }
        lemma_ladder(rest, rung);
        let tail = ladder(rest, rung)->0;
        assert(ladder(steps, built) == Some(seq![rung] + tail));
        let whole = seq![rung] + tail;
        assert forall|i: int| 0 <= i < steps.len() implies #[trigger] whole[i] == ospath::joined(
            if i == 0 {
                built
            } else {
                whole[i - 1]
            },
            steps[i]->Normal_0,
        ) by {
            if i > 0 {
                assert(whole[i] == tail[i - 1]);
                assert(rest[i - 1] == steps[i]);
                if i > 1 {
                    assert(whole[i - 1] == tail[i - 2]);
                }
            }
        }
    }
}

/// The directories above a guest path are created from the root down: one for each step of
/// its directory, each within the one before.
pub proof fn law_mount_points_are_built_from_the_root(
    path: Vec<u8>,
    directory: Seq<u8>,
    steps: Seq<ospath::ComponentView>,
    rungs: Result<Vec<Vec<u8>>>,
)
    requires
        append_parent_dirs.ensures((&path,), rungs),
        ospath::parent_of(path@) == Some(directory),
        ospath::components(directory) == seq![ospath::ComponentView::RootDir] + steps,
        forall|i: int| 0 <= i < steps.len() ==> (#[trigger] steps[i]) is Normal,
    ensures
        rungs matches Ok(rungs) && rungs@.len() == steps.len() && forall|i: int|
            0 <= i < steps.len() ==> (#[trigger] rungs@[i])@ == ospath::joined(
                if i == 0 {
                    text::word("/")
                } else {
                    rungs@[i - 1]@
                },
                steps[i]->Normal_0,
            ),
{
    let whole = seq![ospath::ComponentView::RootDir] + steps;
    let built = text::word("/");
    assert(whole.skip(1) =~= steps);
    assert(ladder(whole, built) == ladder(steps, built));
    lemma_ladder(steps, built);
    if let Ok(rungs) = rungs {
        let all = text::views(rungs@);
        assert(all == ladder(steps, built)->0);
        assert forall|i: int| 0 <= i < steps.len() implies (#[trigger] rungs@[i])@
            == ospath::joined(
            if i == 0 {
                built
            } else {
                rungs@[i - 1]@
            },
            steps[i]->Normal_0,
        ) by {
            assert(all[i] == rungs@[i]@);
            if i > 0 {
                assert(all[i - 1] == rungs@[i - 1]@);
            }
        }
    }
}

} // verus!
