//! A private headless compositor.
use crate::duration::Duration;
use crate::environment::Environment;
use crate::error::{io, Error, ErrorView, Result, Source};
use crate::ospath;
use crate::ospath::{extension, join_text};
use crate::poll::Round;
use crate::service::unit;
use crate::service::unit::{trimmed_text, CommandOutput};
use crate::testbed::tools;
use crate::testbed::tools::find_tool;
use crate::testbed::{DisplayServer, DisplayServerView, WaylandConfig};
use crate::text;
use crate::text::{bytes_equal, copy_bytes, decimal_text, glue2, glue3, glue4, glue5, lossy_text, push_bytes, push_word, push_words, text_bytes};
use vstd::prelude::*;
use vstd::utf8::*;

verus! {

// ---------------------------------------------------------------------------
// The installation
// ---------------------------------------------------------------------------

/// The compositor's executables, and the tree that they were unpacked into when
/// they are not the host's own.
#[derive(Debug)]
pub struct WestonRuntime {
    weston: Vec<u8>,
    screenshooter: Vec<u8>,
    root: Option<Vec<u8>>,
}

/// Content of a [`WestonRuntime`].
#[verifier::ext_equal]
pub struct WestonRuntimeView {
    pub weston: Seq<u8>,
    pub screenshooter: Seq<u8>,
    pub root: Option<Seq<u8>>,
}

impl View for WestonRuntime {
    type V = WestonRuntimeView;

    closed spec fn view(&self) -> WestonRuntimeView {
        WestonRuntimeView {
            weston: self.weston@,
            screenshooter: self.screenshooter@,
            root: tools::told(self.root),
        }
    }
}

/// The installation unpacked beneath a tree.
pub open spec fn unpacked(root: Seq<u8>) -> WestonRuntimeView {
    WestonRuntimeView {
        weston: ospath::joined(root, text::word("usr/bin/weston")),
        screenshooter: ospath::joined(root, text::word("usr/bin/weston-screenshooter")),
        root: Some(root),
    }
}

/// The refusal of a tree that lacks the executables.
pub open spec fn bare(root: Seq<u8>) -> ErrorView {
    ErrorView::Unsupported {
        capability: "headless Wayland"@,
        detail: "EGUI_TESTER_WESTON_ROOT `"@ + text::lossy(root) + "` lacks Weston executables"@,
    }
}

/// Whether looking for an installation can end so. A named tree is the only
/// place to look; otherwise the search path is.
pub open spec fn resolves<F: Fn(&Vec<u8>) -> bool>(
    named: Option<Seq<u8>>,
    path: Option<Seq<u8>>,
    is_file: &F,
    runtime: std::result::Result<WestonRuntimeView, ErrorView>,
) -> bool {
    match (named, runtime) {
        (Some(root), Ok(runtime)) => {
            &&& runtime == unpacked(root)
            &&& tools::answered(is_file, unpacked(root).weston, true)
            &&& tools::answered(is_file, unpacked(root).screenshooter, true)
        },
        (Some(root), Err(error)) => {
            &&& error == bare(root)
            &&& tools::answered(is_file, unpacked(root).weston, false) || (tools::answered(
                is_file,
                unpacked(root).weston,
                true,
            ) && tools::answered(is_file, unpacked(root).screenshooter, false))
        },
        (None, Ok(runtime)) => {
            &&& runtime.root is None
            &&& tools::searched(is_file, path, text::word("weston"), Some(runtime.weston))
            &&& tools::searched(
                is_file,
                path,
                text::word("weston-screenshooter"),
                Some(runtime.screenshooter),
            )
        },
        (None, Err(error)) => {
            ||| error == ErrorView::MissingTool("weston"@) && tools::searched(
                is_file,
                path,
                text::word("weston"),
                None,
            )
            ||| error == ErrorView::MissingTool("weston-screenshooter"@) && tools::searched(
                is_file,
                path,
                text::word("weston-screenshooter"),
                None,
            ) && exists|weston: Seq<u8>| #[trigger]
                tools::searched(is_file, path, text::word("weston"), Some(weston))
        },
    }
}

/// The content of a look for an installation.
pub open spec fn found(runtime: Result<WestonRuntime>) -> std::result::Result<
    WestonRuntimeView,
    ErrorView,
> {
    match runtime {
        Ok(runtime) => Ok(runtime@),
        Err(error) => Err(error@),
    }
}

/// One module of an unpacked installation.
pub open spec fn module(name: &str, directory: Seq<u8>) -> Seq<char> {
    name@ + "="@ + text::lossy(ospath::joined(directory, text::word(name)))
}

/// The modules of an unpacked installation.
pub open spec fn module_map(root: Seq<u8>) -> Seq<char> {
    let shell = ospath::joined(root, text::word("usr/lib/weston"));
    let backend = ospath::joined(root, text::word("usr/lib/libweston-15"));
    module("headless-backend.so", backend) + ";"@ + module("desktop-shell.so", shell) + ";"@
        + module("weston-desktop-shell", shell) + ";"@ + module("weston-keyboard", shell) + ";"@
        + module("weston-simple-im", shell)
}

/// Where an unpacked installation keeps its libraries.
pub open spec fn libraries(root: Seq<u8>) -> Seq<char> {
    text::lossy(ospath::joined(root, text::word("usr/lib"))) + ":"@ + text::lossy(
        ospath::joined(root, text::word("usr/lib/weston")),
    )
}

impl WestonRuntimeView {
    /// An environment in which the installation's executables run.
    pub open spec fn armed(self, environment: Map<Seq<u8>, Seq<u8>>) -> Map<Seq<u8>, Seq<u8>> {
        match self.root {
            None => environment,
            Some(root) => environment.insert(
                text::word("LD_LIBRARY_PATH"),
                encode_utf8(libraries(root)),
            ).insert(text::word("WESTON_MODULE_MAP"), encode_utf8(module_map(root))).insert(
                text::word("WESTON_DATA_DIR"),
                ospath::joined(root, text::word("usr/share")),
            ),
        }
    }

    /// Asks the compositor for its options.
    pub open spec fn help_line(self) -> Seq<Seq<u8>> {
        seq![self.weston, text::word("--help")]
    }

    /// The environment of an ask.
    pub open spec fn help_environment(self) -> Map<Seq<u8>, Seq<u8>> {
        self.armed(Map::empty().insert(text::word("PATH"), text::word("/usr/bin")))
    }
}

fn module_text(name: &str, directory: &Vec<u8>) -> (text: String)
    ensures
        text@ == module(name, directory@),
{
    glue3(name, "=", lossy_text(join_text(directory.as_slice(), name).as_slice()).as_str())
}

// ---------------------------------------------------------------------------
// Capabilities
// ---------------------------------------------------------------------------

/// ASCII white space.
pub open spec fn blank(byte: u8) -> bool {
    byte == 32 || byte == 9 || byte == 10 || byte == 12 || byte == 13
}

/// Whether a word stands in a text between white space.
pub open spec fn stands_at(text: Seq<u8>, word: Seq<u8>, at: int) -> bool {
    &&& text::occurs_at(text, word, at)
    &&& at == 0 || blank(text[at - 1])
    &&& at + word.len() == text.len() || blank(text[at + word.len()])
}

/// Whether a text has a word.
pub open spec fn mentions(text: Seq<u8>, word: Seq<u8>) -> bool {
    exists|at: int| #[trigger] stands_at(text, word, at)
}

fn is_blank(byte: u8) -> (verdict: bool)
    ensures
        verdict == blank(byte),
{
    byte == 32 || byte == 9 || byte == 10 || byte == 12 || byte == 13
}

fn word_at(text: &Vec<u8>, word: &Vec<u8>, at: usize) -> (verdict: bool)
    requires
        at <= text@.len(),
    ensures
        verdict == stands_at(text@, word@, at as int),
{
    if text.len() - at < word.len() {
        return false;
    }
    if at > 0 && !is_blank(text[at - 1]) {
        return false;
    }
    if at + word.len() < text.len() && !is_blank(text[at + word.len()]) {
        return false;
    }
    let mut index: usize = 0;
    while index < word.len()
        invariant
            index <= word.len(),
            at + word.len() <= text.len(),
            forall|i: int| 0 <= i < index ==> text@[at + i] == #[trigger] word@[i],
        decreases word.len() - index,
    {
        if text[at + index] != word[index] {
            assert(text@.subrange(at as int, at + word@.len())[index as int] != word@[index as int]);
            return false;
        }
        index += 1;
    }
    assert(text@.subrange(at as int, at + word@.len()) =~= word@);
    true
}

fn has_word(text: &Vec<u8>, word: &Vec<u8>) -> (verdict: bool)
    ensures
        verdict == mentions(text@, word@),
{
    let mut at: usize = 0;
    loop
        invariant
            at <= text@.len(),
            forall|i: int| 0 <= i < at ==> !#[trigger] stands_at(text@, word@, i),
        decreases text@.len() - at,
    {
        if word_at(text, word, at) {
            assert(stands_at(text@, word@, at as int));
            return true;
        }
        if at == text.len() {
            assert forall|i: int| !#[trigger] stands_at(text@, word@, i) by {
                if i > text@.len() {
                    assert(!text::occurs_at(text@, word@, i));
                }
            }
            return false;
        }
        at += 1;
    }
}

impl WestonRuntimeView {
    /// What an ask for the options means: whether a fake seat can be had, or why
    /// that is not known.
    pub open spec fn fake_seat(self, help: std::result::Result<CommandOutput, Source>) -> std::result::Result<
        bool,
        ErrorView,
    > {
        match help {
            Err(source) => Err(
                ErrorView::Io {
                    operation: "inspect Weston capabilities"@,
                    path: self.weston,
                    source: source@,
                },
            ),
            Ok(output) => if !output.success {
                Err(
                    ErrorView::Command {
                        command: text::lossy(self.weston) + " --help"@,
                        status: output.status@,
                        stderr: unit::trimmed(output.stderr@),
                    },
                )
            } else {
                Ok(
                    mentions(output.stdout@, text::word("--fake-seat")) || mentions(
                        output.stderr@,
                        text::word("--fake-seat"),
                    ),
                )
            },
        }
    }
}

impl WestonRuntime {
    /// Find the compositor: in a named tree, or else on the search path.
    pub fn resolve<F: Fn(&Vec<u8>) -> bool>(
        named: &Option<Vec<u8>>,
        path: &Option<Vec<u8>>,
        is_file: &F,
    ) -> (runtime: Result<Self>)
        requires
            tools::askable(is_file),
        ensures
            resolves(tools::told(*named), tools::told(*path), is_file, found(runtime)),
    {
        match named {
            Some(root) => {
                let weston = join_text(root.as_slice(), "usr/bin/weston");
                let screenshooter = join_text(root.as_slice(), "usr/bin/weston-screenshooter");
                let first = is_file(&weston);
                assert(tools::answered(is_file, weston@, first));
                if first {
                    let second = is_file(&screenshooter);
                    assert(tools::answered(is_file, screenshooter@, second));
                    if second {
                        let runtime = WestonRuntime {
                            weston,
                            screenshooter,
                            root: Some(copy_bytes(root.as_slice())),
                        };
                        assert(runtime@ =~= unpacked(root@));
                        return Ok(runtime);
                    }
                }
                Err(
                    Error::Unsupported {
                        capability: "headless Wayland",
                        detail: glue3(
                            "EGUI_TESTER_WESTON_ROOT `",
                            lossy_text(root.as_slice()).as_str(),
                            "` lacks Weston executables",
                        ),
                    },
                )
            },
            None => {
                let weston = match find_tool(path, "weston", is_file) {
                    Some(weston) => weston,
                    None => {
                        return Err(Error::MissingTool("weston"));
                    },
                };
                match find_tool(path, "weston-screenshooter", is_file) {
                    Some(screenshooter) => Ok(WestonRuntime { weston, screenshooter, root: None }),
                    None => Err(Error::MissingTool("weston-screenshooter")),
                }
            },
        }
    }

    /// The compositor's executable.
    pub fn weston(&self) -> (path: &Vec<u8>)
        ensures
            path@ == self@.weston,
    {
        &self.weston
    }

    /// The capture tool's executable.
    pub fn screenshooter(&self) -> (path: &Vec<u8>)
        ensures
            path@ == self@.screenshooter,
    {
        &self.screenshooter
    }

    /// Point an environment at an unpacked installation.
    pub fn apply_environment(&self, environment: &mut Environment)
        ensures
            final(environment)@ == self@.armed(old(environment)@),
    {
        let root = match &self.root {
            Some(root) => root,
            None => {
                return ;
            },
        };
        let shell = join_text(root.as_slice(), "usr/lib/weston");
        let backend = join_text(root.as_slice(), "usr/lib/libweston-15");
        let mut map = module_text("headless-backend.so", &backend);
        map.append(";");
        map.append(module_text("desktop-shell.so", &shell).as_str());
        map.append(";");
        map.append(module_text("weston-desktop-shell", &shell).as_str());
        map.append(";");
        map.append(module_text("weston-keyboard", &shell).as_str());
        map.append(";");
        map.append(module_text("weston-simple-im", &shell).as_str());
        let libraries = glue3(
            lossy_text(join_text(root.as_slice(), "usr/lib").as_slice()).as_str(),
            ":",
            lossy_text(shell.as_slice()).as_str(),
        );
        environment.insert(text_bytes("LD_LIBRARY_PATH"), text_bytes(libraries.as_str()));
        environment.insert(text_bytes("WESTON_MODULE_MAP"), text_bytes(map.as_str()));
        environment.insert(text_bytes("WESTON_DATA_DIR"), join_text(root.as_slice(), "usr/share"));
    }

    /// Whether the compositor offers a fake seat. `inspect` runs a line in an
    /// environment of its own.
    pub fn supports_fake_seat<
        I: FnOnce(&Vec<Vec<u8>>, &Environment) -> std::result::Result<CommandOutput, Source>,
    >(&self, inspect: I) -> (verdict: Result<bool>)
        requires
            runnable(inspect, self@.help_line(), self@.help_environment()),
        ensures
            exists|help: std::result::Result<CommandOutput, Source>| #[trigger]
                runs(inspect, self@.help_line(), self@.help_environment(), help) && match verdict {
                    Ok(offered) => self@.fake_seat(help) == Ok::<bool, ErrorView>(offered),
                    Err(error) => self@.fake_seat(help) == Err::<bool, ErrorView>(error@),
                },
    {
        let mut line: Vec<Vec<u8>> = Vec::new();
        push_bytes(&mut line, self.weston.as_slice());
        push_word(&mut line, "--help");
        assert(text::views(line@) =~= self@.help_line());
        let mut environment = Environment::empty();
        environment.assign("PATH", "/usr/bin");
        self.apply_environment(&mut environment);
        let help = inspect(&line, &environment);
        assert(runs(inspect, self@.help_line(), self@.help_environment(), help));
        match help {
            Err(source) => Err(io("inspect Weston capabilities", &self.weston, source)),
            Ok(output) => {
                if output.success {
                    let seat = text_bytes("--fake-seat");
                    Ok(has_word(&output.stdout, &seat) || has_word(&output.stderr, &seat))
                } else {
                    Err(
                        Error::Command {
                            command: glue2(lossy_text(self.weston.as_slice()).as_str(), " --help"),
                            stderr: trimmed_text(&output.stderr),
                            status: output.status,
                        },
                    )
                }
            },
        }
    }
}

/// Whether a line may be run in an environment. Of no other line or environment is
/// anything known.
pub open spec fn runnable<
    T,
    R: FnOnce(&Vec<Vec<u8>>, &Environment) -> std::result::Result<T, Source>,
>(run: R, line: Seq<Seq<u8>>, environment: Map<Seq<u8>, Seq<u8>>) -> bool {
    forall|arguments: &Vec<Vec<u8>>, variables: &Environment|
        text::views(arguments@) == line && variables@ == environment ==> #[trigger] run.requires(
            (arguments, variables),
        )
}

/// Whether running a line in an environment can come to an outcome.
pub open spec fn runs<T, R: FnOnce(&Vec<Vec<u8>>, &Environment) -> std::result::Result<T, Source>>(
    run: R,
    line: Seq<Seq<u8>>,
    environment: Map<Seq<u8>, Seq<u8>>,
    outcome: std::result::Result<T, Source>,
) -> bool {
    exists|arguments: &Vec<Vec<u8>>, variables: &Environment|
        text::views(arguments@) == line && variables@ == environment && #[trigger] run.ensures(
            (arguments, variables),
            outcome,
        )
}

// ---------------------------------------------------------------------------
// Raising
// ---------------------------------------------------------------------------

/// How the wait for a compositor's socket can end.
#[derive(Debug)]
pub enum Vigil {
    /// The socket is there.
    Ready,
    /// The compositor exited with this status, leaving this log.
    Exited { status: String, log: String },
    /// The compositor could not be polled.
    Fault(Source),
    /// No socket appeared in time; the compositor must be killed.
    Silent,
}

/// The wait for a compositor's socket, in seconds.
pub const SOCKET_TIMEOUT_SECS: u64 = 5;

/// One round of the wait for a compositor's socket. `exited` is the status with
/// which the compositor left, and `log` what its log says.
pub fn vigil_round(
    expired: bool,
    present: bool,
    exited: std::result::Result<Option<String>, Source>,
    log: String,
) -> (round: Round<Vigil>)
    ensures
        round == if expired {
            Round::Done(Vigil::Silent)
        } else if present {
            Round::Done(Vigil::Ready)
        } else {
            match exited {
                Err(source) => Round::Done(Vigil::Fault(source)),
                Ok(Some(status)) => Round::Done(Vigil::Exited { status, log }),
                Ok(None) => Round::Again(20),
            }
        },
{
    if expired {
        Round::Done(Vigil::Silent)
    } else if present {
        Round::Done(Vigil::Ready)
    } else {
        match exited {
            Err(source) => Round::Done(Vigil::Fault(source)),
            Ok(Some(status)) => Round::Done(Vigil::Exited { status, log }),
            Ok(None) => Round::Again(20),
        }
    }
}

/// The name of a universe's compositor socket.
pub open spec fn socket_name(id: Seq<char>) -> Seq<char> {
    "egui-tester-"@ + id
}

/// Where a universe's sockets live.
pub open spec fn runtime_directory(root: Seq<u8>) -> Seq<u8> {
    ospath::joined(root, text::word("xdg/runtime"))
}

impl WestonRuntimeView {
    /// Starts the compositor.
    pub open spec fn line(
        self,
        config: WaylandConfig,
        root: Seq<u8>,
        id: Seq<char>,
        fake_seat: bool,
    ) -> Seq<Seq<u8>> {
        let base = seq![self.weston] + text::words(
            seq![
                "--backend=headless",
                "--renderer=pixman",
                "--no-config",
                "--idle-time=0",
                "--debug",
            ],
        ) + seq![
            encode_utf8("--socket="@ + socket_name(id)),
            encode_utf8("--width="@ + text::decimal(config.width as nat)),
            encode_utf8("--height="@ + text::decimal(config.height as nat)),
            encode_utf8(
                "--log="@ + text::lossy(ospath::joined(root, text::word("logs/weston.log"))),
            ),
        ];
        if fake_seat {
            base.push(text::word("--fake-seat"))
        } else {
            base
        }
    }

    /// The compositor's environment.
    pub open spec fn environment(self, root: Seq<u8>) -> Map<Seq<u8>, Seq<u8>> {
        self.armed(
            Map::empty().insert(text::word("PATH"), text::word("/usr/bin")).insert(
                text::word("HOME"),
                ospath::joined(root, text::word("home")),
            ).insert(text::word("XDG_RUNTIME_DIR"), runtime_directory(root)),
        )
    }

    /// What the wait for the socket means.
    pub open spec fn conclusion(self, config: WaylandConfig, id: Seq<char>, vigil: Vigil) -> std::result::Result<
        DisplayServerView,
        ErrorView,
    > {
        match vigil {
            Vigil::Ready => Ok(DisplayServerView::Wayland { socket_name: socket_name(id) }),
            Vigil::Exited { status, log } => Err(
                ErrorView::Containment {
                    layer: "Weston"@,
                    detail: "headless compositor exited with "@ + status@ + "; log: "@ + log@,
                },
            ),
            Vigil::Fault(source) => Err(
                ErrorView::Io {
                    operation: "poll Weston"@,
                    path: text::word("weston"),
                    source: source@,
                },
            ),
            Vigil::Silent => Err(
                ErrorView::Timeout {
                    waiting: "Weston socket for "@ + text::decimal(config.width as nat) + "x"@
                        + text::decimal(config.height as nat) + " headless output"@,
                    timeout: 5_000_000_000,
                },
            ),
        }
    }
}

/// Whether waiting for a socket can end so.
pub open spec fn keeps<T: FnOnce(&Vec<u8>) -> Vigil>(stand: T, socket: Seq<u8>, vigil: Vigil) -> bool {
    exists|place: &Vec<u8>| place@ == socket && #[trigger] stand.ensures((place,), vigil)
}

/// Whether a compositor that was told to start can come to an outcome.
pub open spec fn launches<
    P: FnOnce(&Vec<Vec<u8>>, &Environment) -> std::result::Result<(), Source>,
    T: FnOnce(&Vec<u8>) -> Vigil,
>(
    runtime: WestonRuntimeView,
    config: WaylandConfig,
    root: Seq<u8>,
    id: Seq<char>,
    fake_seat: bool,
    spawn: P,
    stand: T,
    outcome: std::result::Result<DisplayServerView, ErrorView>,
) -> bool {
    exists|spawned: std::result::Result<(), Source>| #[trigger]
        runs(spawn, runtime.line(config, root, id, fake_seat), runtime.environment(root), spawned)
            && match spawned {
            Err(source) => outcome == Err::<DisplayServerView, _>(
                ErrorView::Io {
                    operation: "spawn Weston"@,
                    path: runtime.weston,
                    source: source@,
                },
            ),
            Ok(_) => exists|vigil: Vigil| #[trigger]
                keeps(stand, ospath::joined(runtime_directory(root), encode_utf8(socket_name(id))), vigil)
                    && outcome == runtime.conclusion(config, id, vigil),
        }
}

/// Whether a compositor may be started: its own line is run in its own environment,
/// and its socket is awaited once that succeeded.
pub open spec fn launchable<
    P: FnOnce(&Vec<Vec<u8>>, &Environment) -> std::result::Result<(), Source>,
    T: FnOnce(&Vec<u8>) -> Vigil,
>(
    runtime: WestonRuntimeView,
    config: WaylandConfig,
    root: Seq<u8>,
    id: Seq<char>,
    fake_seat: bool,
    spawn: P,
    stand: T,
) -> bool {
    let line = runtime.line(config, root, id, fake_seat);
    &&& runnable(spawn, line, runtime.environment(root))
    &&& runs(spawn, line, runtime.environment(root), Ok(())) ==> forall|place: &Vec<u8>|
        place@ == ospath::joined(runtime_directory(root), encode_utf8(socket_name(id)))
            ==> #[trigger] stand.requires((place,))
}

/// The content of an attempt to raise a display.
pub open spec fn raised(server: Result<DisplayServer>) -> std::result::Result<
    DisplayServerView,
    ErrorView,
> {
    match server {
        Ok(server) => Ok(server@),
        Err(error) => Err(error@),
    }
}

impl WestonRuntime {
    fn command(&self, config: WaylandConfig, root: &Vec<u8>, socket: &str, fake_seat: bool, Ghost(
        id,
    ): Ghost<Seq<char>>) -> (line: Vec<Vec<u8>>)
        requires
            socket@ == socket_name(id),
        ensures
            text::views(line@) == self@.line(config, root@, id, fake_seat),
    {
        let mut line: Vec<Vec<u8>> = Vec::new();
        push_bytes(&mut line, self.weston.as_slice());
        push_words(
            &mut line,
            &[
                "--backend=headless",
                "--renderer=pixman",
                "--no-config",
                "--idle-time=0",
                // The capture protocol is part of the compositor's debug protocol.
                // The socket is private to a root that only the owner enters.
                "--debug",
            ],
        );
        push_word(&mut line, glue2("--socket=", socket).as_str());
        push_word(
            &mut line,
            glue2("--width=", decimal_text(config.width as u128).as_str()).as_str(),
        );
        push_word(
            &mut line,
            glue2("--height=", decimal_text(config.height as u128).as_str()).as_str(),
        );
        let log = join_text(root.as_slice(), "logs/weston.log");
        push_word(&mut line, glue2("--log=", lossy_text(log.as_slice()).as_str()).as_str());
        assert(text::views(line@) =~= self@.line(config, root@, id, false));
        if fake_seat {
            push_word(&mut line, "--fake-seat");
            assert(text::views(line@) =~= self@.line(config, root@, id, true));
        }
        line
    }

    /// Raise a headless compositor on a private socket.
    ///
    /// `inspect` asks the compositor for its options, `spawn` starts it, and
    /// `stand` waits for its socket.
    pub fn raise<
        I: FnOnce(&Vec<Vec<u8>>, &Environment) -> std::result::Result<CommandOutput, Source>,
        P: FnOnce(&Vec<Vec<u8>>, &Environment) -> std::result::Result<(), Source>,
        T: FnOnce(&Vec<u8>) -> Vigil,
    >(
        &self,
        config: WaylandConfig,
        root: &Vec<u8>,
        id: &str,
        inspect: I,
        spawn: P,
        stand: T,
    ) -> (server: Result<DisplayServer>)
        requires
            runnable(inspect, self@.help_line(), self@.help_environment()),
            forall|help: std::result::Result<CommandOutput, Source>| #[trigger]
                runs(inspect, self@.help_line(), self@.help_environment(), help) ==> (
                self@.fake_seat(help) matches Ok(fake_seat) ==> launchable(
                    self@,
                    config,
                    root@,
                    id@,
                    fake_seat,
                    spawn,
                    stand,
                )),
        ensures
            exists|help: std::result::Result<CommandOutput, Source>| #[trigger]
                runs(inspect, self@.help_line(), self@.help_environment(), help)
                    && match self@.fake_seat(help) {
                    Err(error) => raised(server) == Err::<DisplayServerView, ErrorView>(error),
                    Ok(fake_seat) => launches(
                        self@,
                        config,
                        root@,
                        id@,
                        fake_seat,
                        spawn,
                        stand,
                        raised(server),
                    ),
                },
    {
        let fake_seat = match self.supports_fake_seat(inspect) {
            Ok(fake_seat) => fake_seat,
            Err(error) => {
                return Err(error);
            },
        };
        let socket = glue2("egui-tester-", id);
        let line = self.command(config, root, socket.as_str(), fake_seat, Ghost(id@));
        let runtime = join_text(root.as_slice(), "xdg/runtime");
        let mut environment = Environment::empty();
        environment.assign("PATH", "/usr/bin");
        environment.insert(text_bytes("HOME"), join_text(root.as_slice(), "home"));
        environment.insert(text_bytes("XDG_RUNTIME_DIR"), copy_bytes(runtime.as_slice()));
        self.apply_environment(&mut environment);
        let spawned = spawn(&line, &environment);
        assert(runs(
            spawn,
            self@.line(config, root@, id@, fake_seat),
            self@.environment(root@),
            spawned,
        ));
        match spawned {
            Err(source) => {
                return Err(io("spawn Weston", &self.weston, source));
            },
            Ok(unit) => {
                assert(unit == ());
            },
        }
        let place = join_text(runtime.as_slice(), socket.as_str());
        let vigil = stand(&place);
        assert(keeps(
            stand,
            ospath::joined(runtime_directory(root@), encode_utf8(socket_name(id@))),
            vigil,
        ));
        match vigil {
            Vigil::Ready => Ok(DisplayServer::Wayland { socket_name: socket }),
            Vigil::Exited { status, log } => Err(
                Error::Containment {
                    layer: "Weston",
                    detail: glue4(
                        "headless compositor exited with ",
                        status.as_str(),
                        "; log: ",
                        log.as_str(),
                    ),
                },
            ),
            Vigil::Fault(source) => Err(io("poll Weston", &text_bytes("weston"), source)),
            Vigil::Silent => Err(
                Error::Timeout {
                    waiting: glue5(
                        "Weston socket for ",
                        decimal_text(config.width as u128).as_str(),
                        "x",
                        decimal_text(config.height as u128).as_str(),
                        " headless output",
                    ),
                    timeout: Duration::from_secs(SOCKET_TIMEOUT_SECS),
                },
            ),
        }
    }
}

// ---------------------------------------------------------------------------
// Capture
// ---------------------------------------------------------------------------

/// Where captures of a universe's output go.
pub open spec fn capture_directory(root: Seq<u8>) -> Seq<u8> {
    ospath::joined(root, text::word("captures/wayland"))
}

/// Where captures of a universe's output go.
pub fn capture_place(root: &Vec<u8>) -> (directory: Vec<u8>)
    ensures
        directory@ == capture_directory(root@),
{
    join_text(root.as_slice(), "captures/wayland")
}

impl WestonRuntimeView {
    /// The environment of the capture tool.
    pub open spec fn capture_variables(self, root: Seq<u8>, socket_name: Seq<char>) -> Map<
        Seq<u8>,
        Seq<u8>,
    > {
        self.armed(
            Map::empty().insert(text::word("PATH"), text::word("/usr/bin")).insert(
                text::word("XDG_RUNTIME_DIR"),
                runtime_directory(root),
            ).insert(text::word("WAYLAND_DISPLAY"), encode_utf8(socket_name)),
        )
    }

    /// What is wrong with a run of the capture tool, if anything: it must succeed
    /// without complaint.
    pub open spec fn capture_fault(
        self,
        outcome: std::result::Result<CommandOutput, Source>,
    ) -> Option<ErrorView> {
        match outcome {
            Err(source) => Some(
                ErrorView::Io {
                    operation: "run Weston output capture"@,
                    path: self.screenshooter,
                    source: source@,
                },
            ),
            Ok(output) => if output.success && unit::trimmed(output.stderr@).len() == 0 {
                None
            } else {
                Some(
                    ErrorView::Command {
                        command: "weston-screenshooter"@,
                        status: output.status@,
                        stderr: unit::trimmed(output.stderr@),
                    },
                )
            },
        }
    }
}

impl WestonRuntime {
    /// The environment of the capture tool.
    pub fn capture_environment(&self, root: &Vec<u8>, socket_name: &str) -> (environment: Environment)
        ensures
            environment@ == self@.capture_variables(root@, socket_name@),
    {
        let mut environment = Environment::empty();
        environment.assign("PATH", "/usr/bin");
        environment.insert(
            text_bytes("XDG_RUNTIME_DIR"),
            join_text(root.as_slice(), "xdg/runtime"),
        );
        environment.insert(text_bytes("WAYLAND_DISPLAY"), text_bytes(socket_name));
        self.apply_environment(&mut environment);
        environment
    }

    /// Judge a run of the capture tool: it must succeed without complaint.
    pub fn judge_capture(&self, outcome: std::result::Result<CommandOutput, Source>) -> (verdict: Result<
        (),
    >)
        ensures
            match verdict {
                Ok(_) => self@.capture_fault(outcome) is None,
                Err(error) => self@.capture_fault(outcome) == Some(error@),
            },
    {
        match outcome {
            Err(source) => Err(io("run Weston output capture", &self.screenshooter, source)),
            Ok(output) => {
                let stderr = trimmed_text(&output.stderr);
                if output.success && text::same(stderr.as_str(), "") {
                    proof {
                        reveal_strlit("");
                    }
                    Ok(())
                } else {
                    proof {
                        reveal_strlit("");
                        if stderr@.len() == 0 {
                            assert(stderr@ =~= ""@);
                        }
                    }
                    Err(
                        Error::Command {
                            command: "weston-screenshooter".to_owned(),
                            status: output.status,
                            stderr,
                        },
                    )
                }
            },
        }
    }
}

/// The pictures among a directory's entries.
pub open spec fn pictures(entries: Seq<Seq<u8>>) -> Seq<Seq<u8>>
    decreases entries.len(),
{
    if entries.len() == 0 {
        Seq::empty()
    } else if ospath::extension_of(entries.last()) == Some(text::word("png")) {
        pictures(entries.drop_last()).push(entries.last())
    } else {
        pictures(entries.drop_last())
    }
}

/// Demand exactly one picture among the entries of the capture directory.
pub fn single_capture(
    directory: &Vec<u8>,
    listing: std::result::Result<Vec<Vec<u8>>, Source>,
) -> (capture: Result<Vec<u8>>)
    ensures
        match listing {
            Err(source) => capture matches Err(error) && error@ == (ErrorView::Io {
                operation: "read Wayland captures"@,
                path: directory@,
                source: source@,
            }),
            Ok(entries) => match capture {
                Ok(capture) => pictures(text::views(entries@)) == seq![capture@],
                Err(error) => pictures(text::views(entries@)).len() != 1 && error@ == (
                ErrorView::X11 {
                    operation: "capture Wayland output"@,
                    detail: "expected one PNG from one virtual output, found "@ + text::decimal(
                        pictures(text::views(entries@)).len(),
                    ),
                }),
            },
        },
{
    let entries = match listing {
        Ok(entries) => entries,
        Err(source) => {
            return Err(io("read Wayland captures", directory, source));
        },
    };
    let ghost all = text::views(entries@);
    let mut found: Vec<Vec<u8>> = Vec::new();
    let mut index: usize = 0;
    assert(text::views(found@) =~= pictures(all.take(0)));
    while index < entries.len()
        invariant
            index <= entries.len(),
            all == text::views(entries@),
            text::views(found@) == pictures(all.take(index as int)),
        decreases entries.len() - index,
    {
        assert(all.take(index + 1).drop_last() =~= all.take(index as int));
        assert(all.take(index + 1).last() == entries@[index as int]@);
        let picture = match extension(entries[index].as_slice()) {
            Some(found) => bytes_equal(found.as_slice(), "png".as_bytes()),
            None => false,
        };
        if picture {
            push_bytes(&mut found, entries[index].as_slice());
        }
        index += 1;
    }
    assert(all.take(index as int) =~= all);
    if found.len() == 1 {
        let capture = copy_bytes(found[0].as_slice());
        assert(pictures(all) =~= seq![capture@]);
        Ok(capture)
    } else {
        Err(
            Error::X11 {
                operation: "capture Wayland output",
                detail: glue2(
                    "expected one PNG from one virtual output, found ",
                    decimal_text(found.len() as u128).as_str(),
                ),
            },
        )
    }
}

/// A compositor is started headless, on its own socket, with the asked screen and its own
/// log, and with a fake seat only where it has one.
pub proof fn law_compositors_are_private(
    runtime: WestonRuntimeView,
    config: WaylandConfig,
    root: Seq<u8>,
    id: Seq<char>,
    fake_seat: bool,
)
    ensures
        ({
            let line = runtime.line(config, root, id, fake_seat);
            &&& line[0] == runtime.weston
            &&& line[1] == text::word("--backend=headless")
            &&& line[2] == text::word("--renderer=pixman")
            &&& line[3] == text::word("--no-config")
            &&& line[4] == text::word("--idle-time=0")
            &&& line[5] == text::word("--debug")
            &&& line[6] == encode_utf8("--socket="@ + ("egui-tester-"@ + id))
            &&& line[7] == encode_utf8("--width="@ + text::decimal(config.width as nat))
            &&& line[8] == encode_utf8("--height="@ + text::decimal(config.height as nat))
            &&& line[9] == encode_utf8(
                "--log="@ + text::lossy(ospath::joined(root, text::word("logs/weston.log"))),
            )
            &&& fake_seat ==> line.len() == 11 && line[10] == text::word("--fake-seat")
            &&& !fake_seat ==> line.len() == 10
        }),
{
}

/// A compositor is ready once its socket is there, in time; one that left before is not.
pub proof fn law_ready_compositors_have_their_socket(
    expired: bool,
    present: bool,
    exited: std::result::Result<Option<String>, Source>,
    log: String,
    round: Round<Vigil>,
)
    requires
        vigil_round.ensures((expired, present, exited, log), round),
    ensures
        (round matches Round::Done(Vigil::Ready)) <==> !expired && present,
        (round matches Round::Done(Vigil::Silent)) <==> expired,
        (round matches Round::Done(Vigil::Exited { .. })) <==> !expired && !present && (exited
            matches Ok(Some(_))),
        (round matches Round::Again(_)) <==> !expired && !present && (exited matches Ok(None)),
{
}

/// A capture is taken as good only where its tool succeeded without a complaint.
pub proof fn law_captures_are_taken_without_complaint(
    runtime: WestonRuntime,
    outcome: std::result::Result<CommandOutput, Source>,
    verdict: Result<()>,
)
    requires
        WestonRuntime::judge_capture.ensures((&runtime, outcome), verdict),
    ensures
        verdict is Ok <==> (outcome matches Ok(output) && output.success && unit::trimmed(
            output.stderr@,
        ).len() == 0),
{
}

/// The capture tool sees the compositor's own socket, beneath the runtime directory of the
/// universe.
pub proof fn law_captures_look_at_their_own_output(
    runtime: WestonRuntime,
    root: Vec<u8>,
    socket: &str,
    environment: Environment,
    place: Vec<u8>,
)
    requires
        runtime@.root is None,
        WestonRuntime::capture_environment.ensures((&runtime, &root, socket), environment),
        capture_place.ensures((&root,), place),
    ensures
        environment@.dom().contains(text::word("WAYLAND_DISPLAY")),
        environment@[text::word("WAYLAND_DISPLAY")] == encode_utf8(socket@),
        place@ == ospath::joined(root@, text::word("captures/wayland")),
{
}

proof fn lemma_pictures(entries: Seq<Seq<u8>>)
    ensures
        forall|i: int|
            0 <= i < pictures(entries).len() ==> entries.contains(#[trigger] pictures(entries)[i])
                && ospath::extension_of(pictures(entries)[i]) == Some(text::word("png")),
        forall|i: int|
            0 <= i < entries.len() && ospath::extension_of(#[trigger] entries[i]) == Some(
                text::word("png"),
            ) ==> pictures(entries).contains(entries[i]),
    decreases entries.len(),
{
    if entries.len() > 0 {
        let front = entries.drop_last();
        let rest = pictures(front);
        let whole = pictures(entries);
        lemma_pictures(front);
        assert forall|i: int| 0 <= i < whole.len() implies entries.contains(#[trigger] whole[i])
            && ospath::extension_of(whole[i]) == Some(text::word("png")) by {
            if i < rest.len() {
                assert(whole[i] == rest[i]);
                assert(front.contains(rest[i]));
                let at = choose|at: int| 0 <= at < front.len() && front[at] == rest[i];
                assert(entries[at] == whole[i]);
            } else {
                assert(entries[entries.len() - 1] == whole[i]);
            }
        }
        assert forall|i: int|
            0 <= i < entries.len() && ospath::extension_of(#[trigger] entries[i]) == Some(
                text::word("png"),
            ) implies whole.contains(entries[i]) by {
            if i < front.len() {
                assert(front[i] == entries[i]);
                assert(rest.contains(front[i]));
                let at = choose|at: int| 0 <= at < rest.len() && rest[at] == front[i];
                assert(whole[at] == entries[i]);
            } else {
                assert(whole[whole.len() - 1] == entries[i]);
            }
        }
    }
}

/// The capture is the directory's one picture: it stands there under the ending of a PNG,
/// and no other entry has that ending.
pub proof fn law_the_only_picture_is_the_capture(
    directory: Vec<u8>,
    entries: Vec<Vec<u8>>,
    capture: Vec<u8>,
)
    requires
        single_capture.ensures((&directory, Ok(entries)), Ok(capture)),
    ensures
        text::views(entries@).contains(capture@),
        ospath::extension_of(capture@) == Some(text::word("png")),
        forall|i: int|
            0 <= i < entries@.len() && ospath::extension_of((#[trigger] entries@[i])@) == Some(
                text::word("png"),
            ) ==> entries@[i]@ == capture@,
{
    let all = text::views(entries@);
    lemma_pictures(all);
    assert(pictures(all)[0] == capture@);
    assert forall|i: int|
        0 <= i < entries@.len() && ospath::extension_of((#[trigger] entries@[i])@) == Some(
            text::word("png"),
        ) implies entries@[i]@ == capture@ by {
        assert(all[i] == entries@[i]@);
        assert(pictures(all).contains(all[i]));
    }
}

/// A compositor offers a fake seat exactly where its help, asked for with success, names the
/// flag as a word of its own.
pub proof fn law_fake_seats_are_advertised<
    I: FnOnce(&Vec<Vec<u8>>, &Environment) -> std::result::Result<CommandOutput, Source>,
>(runtime: WestonRuntime, inspect: I, line: Seq<Seq<u8>>, verdict: Result<bool>)
    requires
        WestonRuntime::supports_fake_seat::<I>.ensures((&runtime, inspect), verdict),
        line == seq![runtime@.weston, text::word("--help")],
    ensures
        verdict matches Ok(offered) ==> exists|output: CommandOutput| #[trigger]
            runs(
                inspect,
                line,
                runtime@.help_environment(),
                Ok::<CommandOutput, Source>(output),
            ) && output.success && (offered <==> (exists|at: int| #[trigger]
                stands_at(output.stdout@, text::word("--fake-seat"), at)) || (exists|
                at: int,
            | #[trigger]
                stands_at(output.stderr@, text::word("--fake-seat"), at))),
{
    if let Ok(offered) = verdict {
        let help = choose|help: std::result::Result<CommandOutput, Source>| #[trigger]
            runs(inspect, runtime@.help_line(), runtime@.help_environment(), help)
                && runtime@.fake_seat(help) == Ok::<bool, ErrorView>(offered);
        let output = help->Ok_0;
        assert(runs(
            inspect,
            line,
            runtime@.help_environment(),
            Ok::<CommandOutput, Source>(output),
        ));
    }
}

} // verus!
