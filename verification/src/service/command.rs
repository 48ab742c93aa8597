//! What an application launch asks for, and when the harness refuses it.
use crate::duration::Duration;
use crate::environment::Environment;
use crate::error::{Error, ErrorView, Result};
use crate::ospath;
use crate::ospath::{confined_relative, is_normalized, starts_with};
use crate::text;
use crate::text::{bytes_equal, copy_bytes, glue3, glue5, lossy_text, push_all, push_bytes, text_bytes};
use crate::environment;
use vstd::prelude::*;
use vstd::utf8::*;

verus! {

/// Application network authority.
#[derive(Clone, Copy, Debug, Eq, PartialEq, Structural)]
pub enum Network {
    /// A private network namespace with no interfaces.
    Deny,
    /// Share the host network namespace.
    Host,
}

impl Default for Network {
    fn default() -> (network: Self)
        ensures
            network == Network::Deny,
    {
        Network::Deny
    }
}

/// Graphics device authority.
#[derive(Clone, Copy, Debug, Eq, PartialEq, Structural)]
pub enum Graphics {
    /// A pinned, read-only lavapipe runtime with a synthetic `/dev`.
    Software,
    /// Host GPU devices plus read-only sysfs, for representative performance.
    Host,
}

impl Default for Graphics {
    fn default() -> (graphics: Self)
        ensures
            graphics == Graphics::Software,
    {
        Graphics::Software
    }
}

/// A black-box application launch specification.
#[derive(Debug)]
pub struct AppCommand {
    binary: Vec<u8>,
    args: Vec<Vec<u8>>,
    env: Environment,
    borrows: Vec<Vec<u8>>,
    violations: Vec<String>,
    network: Network,
    graphics: Graphics,
    runtime: Duration,
    witness: Option<Vec<u8>>,
}

/// Content of an [`AppCommand`].
#[verifier::ext_equal]
pub struct AppCommandView {
    pub binary: Seq<u8>,
    pub args: Seq<Seq<u8>>,
    pub env: Map<Seq<u8>, Seq<u8>>,
    /// Host paths to reveal read-only.
    pub borrows: Seq<Seq<u8>>,
    /// Refusals already earned while building.
    pub violations: Seq<Seq<char>>,
    pub network: Network,
    pub graphics: Graphics,
    pub runtime: nat,
    pub witness: Option<Seq<u8>>,
}

impl View for AppCommand {
    type V = AppCommandView;

    closed spec fn view(&self) -> AppCommandView {
        AppCommandView {
            binary: self.binary@,
            args: text::views(self.args@),
            env: self.env@,
            borrows: text::views(self.borrows@),
            violations: text::strings(self.violations@),
            network: self.network,
            graphics: self.graphics,
            runtime: self.runtime@,
            witness: match self.witness {
                Some(path) => Some(path@),
                None => None,
            },
        }
    }
}

/// The refusals of a builder step: one more when its path is not confined.
pub open spec fn noted(
    violations: Seq<Seq<char>>,
    subject: Seq<char>,
    path: Seq<u8>,
) -> Seq<Seq<char>> {
    if ospath::confined(path) {
        violations
    } else {
        violations.push(subject + text::lossy(path) + "` is not confined"@)
    }
}

impl AppCommand {
    /// Launch a binary with nothing granted, for at most two minutes.
    pub fn new(binary: &Vec<u8>) -> (command: Self)
        ensures
            command@ == (AppCommandView {
                binary: binary@,
                args: Seq::empty(),
                env: Map::empty(),
                borrows: Seq::empty(),
                violations: Seq::empty(),
                network: Network::Deny,
                graphics: Graphics::Software,
                runtime: 120_000_000_000,
                witness: None,
            }),
    {
        let command = AppCommand {
            binary: copy_bytes(binary.as_slice()),
            args: Vec::new(),
            env: Environment::empty(),
            borrows: Vec::new(),
            violations: Vec::new(),
            network: Network::Deny,
            graphics: Graphics::Software,
            runtime: Duration::from_secs(120),
            witness: None,
        };
        assert(command@.args =~= Seq::<Seq<u8>>::empty());
        assert(command@.borrows =~= Seq::<Seq<u8>>::empty());
        assert(command@.violations =~= Seq::<Seq<char>>::empty());
        command
    }

    /// Append one argument.
    pub fn arg(self, arg: &Vec<u8>) -> (command: Self)
        ensures
            command@ == (AppCommandView { args: self@.args.push(arg@), ..self@ }),
    {
        let mut command = self;
        push_bytes(&mut command.args, arg.as_slice());
        command
    }

    /// Append arguments.
    pub fn args(self, args: &Vec<Vec<u8>>) -> (command: Self)
        ensures
            command@ == (AppCommandView { args: self@.args + text::views(args@), ..self@ }),
    {
        let mut command = self;
        push_all(&mut command.args, args);
        command
    }

    /// Set a non-reserved environment variable.
    pub fn env(self, key: &Vec<u8>, value: &Vec<u8>) -> (command: Self)
        ensures
            command@ == (AppCommandView { env: self@.env.insert(key@, value@), ..self@ }),
    {
        let mut command = self;
        let mut env = Environment::empty();
        std::mem::swap(&mut env, &mut command.env);
        env.insert(copy_bytes(key.as_slice()), copy_bytes(value.as_slice()));
        command.env = env;
        command
    }

    /// Set an environment variable to a path inside the disposable test root.
    pub fn private_env(self, key: &Vec<u8>, relative: &Vec<u8>) -> (command: Self)
        ensures
            command@ == (AppCommandView {
                env: self@.env.insert(key@, ospath::joined(text::word("/test"), relative@)),
                violations: noted(
                    self@.violations,
                    "private environment path `"@,
                    relative@,
                ),
                ..self@
            }),
    {
        let mut command = self;
        command.note("private environment path `", relative);
        let path = ospath::join(text_bytes("/test").as_slice(), relative.as_slice());
        command.env(key, &path)
    }

    fn note(&mut self, subject: &str, path: &Vec<u8>)
        ensures
            final(self)@ == (AppCommandView {
                violations: noted(old(self)@.violations, subject@, path@),
                ..old(self)@
            }),
    {
        if !confined_relative(path.as_slice()) {
            let ghost before = text::strings(self.violations@);
            let detail = glue3(
                subject,
                lossy_text(path.as_slice()).as_str(),
                "` is not confined",
            );
            self.violations.push(detail);
            assert(text::strings(self.violations@) =~= before.push(detail@));
        }
    }

    /// Reveal one live host path read-only at the same absolute path.
    ///
    /// There is intentionally no writable counterpart.
    pub fn borrow_read_only(self, path: &Vec<u8>) -> (command: Self)
        ensures
            command@ == (AppCommandView { borrows: self@.borrows.push(path@), ..self@ }),
    {
        let mut command = self;
        push_bytes(&mut command.borrows, path.as_slice());
        command
    }

    /// Choose the network authority.
    pub fn network(self, network: Network) -> (command: Self)
        ensures
            command@ == (AppCommandView { network, ..self@ }),
    {
        let mut command = self;
        command.network = network;
        command
    }

    /// Choose the graphics authority.
    pub fn graphics(self, graphics: Graphics) -> (command: Self)
        ensures
            command@ == (AppCommandView { graphics, ..self@ }),
    {
        let mut command = self;
        command.graphics = graphics;
        command
    }

    /// Bound the application's lifetime.
    pub fn runtime(self, runtime: Duration) -> (command: Self)
        ensures
            command@ == (AppCommandView { runtime: runtime@, ..self@ }),
    {
        let mut command = self;
        command.runtime = runtime;
        command
    }

    /// Arm the standard one-way witness at a private `/test` path.
    pub fn witness(self, relative: &Vec<u8>) -> (command: Self)
        ensures
            command@ == (AppCommandView {
                witness: Some(relative@),
                violations: noted(self@.violations, "witness path `"@, relative@),
                ..self@
            }),
    {
        let mut command = self;
        command.note("witness path `", relative);
        command.witness = Some(copy_bytes(relative.as_slice()));
        command
    }

    /// The binary to launch.
    pub fn binary(&self) -> (binary: &Vec<u8>)
        ensures
            binary@ == self@.binary,
    {
        &self.binary
    }

    /// The application's own arguments.
    pub fn arguments(&self) -> (args: &Vec<Vec<u8>>)
        ensures
            text::views(args@) == self@.args,
    {
        &self.args
    }

    /// The application's own variables.
    pub fn environment(&self) -> (env: &Environment)
        ensures
            env@ == self@.env,
    {
        &self.env
    }

    /// Host paths to reveal read-only.
    pub fn borrows(&self) -> (borrows: &Vec<Vec<u8>>)
        ensures
            text::views(borrows@) == self@.borrows,
    {
        &self.borrows
    }

    /// The granted network authority.
    pub fn network_authority(&self) -> (network: Network)
        ensures
            network == self@.network,
    {
        self.network
    }

    /// The granted graphics authority.
    pub fn graphics_authority(&self) -> (graphics: Graphics)
        ensures
            graphics == self@.graphics,
    {
        self.graphics
    }

    /// The application's longest lifetime.
    pub fn lifetime(&self) -> (runtime: Duration)
        ensures
            runtime@ == self@.runtime,
    {
        self.runtime
    }

    /// Private path of the witness, when it is armed.
    pub fn witness_path(&self) -> (witness: &Option<Vec<u8>>)
        ensures
            self@.witness == match *witness {
                Some(path) => Some(path@),
                None => None,
            },
    {
        &self.witness
    }
}

/// Variables that only the harness may set.
pub open spec fn reserved() -> Seq<&'static str> {
    seq![
        "PATH",
        "DISPLAY",
        "WAYLAND_DISPLAY",
        "XAUTHORITY",
        "WINIT_UNIX_BACKEND",
        "HOME",
        "TMPDIR",
        "XDG_CONFIG_HOME",
        "XDG_CACHE_HOME",
        "XDG_DATA_HOME",
        "XDG_STATE_HOME",
        "XDG_RUNTIME_DIR",
        "DBUS_SESSION_BUS_ADDRESS",
        "DBUS_SYSTEM_BUS_ADDRESS",
        "LANG",
        "LC_ALL",
        "TZ",
        "RUST_BACKTRACE",
        "LD_LIBRARY_PATH",
        "LD_PRELOAD",
        "LD_AUDIT",
        "VK_ICD_FILENAMES",
        "VK_DRIVER_FILES",
        "VK_ADD_DRIVER_FILES",
        "LIBGL_ALWAYS_SOFTWARE",
        "LIBGL_DRIVERS_PATH",
        "MESA_LOADER_DRIVER_OVERRIDE",
        "WGPU_BACKEND",
        "WGPU_POWER_PREF",
        "__GLX_VENDOR_LIBRARY_NAME",
        "DRI_PRIME",
        "EGUI_TESTER_WITNESS",
        "EGUI_TESTER_LAUNCH",
        "EGUI_TESTER_FRAMES",
    ]
}

/// A variable that only the harness may set.
pub open spec fn is_reserved(name: Seq<u8>) -> bool {
    exists|i: int| 0 <= i < reserved().len() && name == text::word(#[trigger] reserved()[i])
}

/// Decide whether only the harness may set a variable.
pub fn reserves(name: &[u8]) -> (verdict: bool)
    ensures
        verdict == is_reserved(name@),
{
    let list: [&'static str; 34] = [
        "PATH",
        "DISPLAY",
        "WAYLAND_DISPLAY",
        "XAUTHORITY",
        "WINIT_UNIX_BACKEND",
        "HOME",
        "TMPDIR",
        "XDG_CONFIG_HOME",
        "XDG_CACHE_HOME",
        "XDG_DATA_HOME",
        "XDG_STATE_HOME",
        "XDG_RUNTIME_DIR",
        "DBUS_SESSION_BUS_ADDRESS",
        "DBUS_SYSTEM_BUS_ADDRESS",
        "LANG",
        "LC_ALL",
        "TZ",
        "RUST_BACKTRACE",
        "LD_LIBRARY_PATH",
        "LD_PRELOAD",
        "LD_AUDIT",
        "VK_ICD_FILENAMES",
        "VK_DRIVER_FILES",
        "VK_ADD_DRIVER_FILES",
        "LIBGL_ALWAYS_SOFTWARE",
        "LIBGL_DRIVERS_PATH",
        "MESA_LOADER_DRIVER_OVERRIDE",
        "WGPU_BACKEND",
        "WGPU_POWER_PREF",
        "__GLX_VENDOR_LIBRARY_NAME",
        "DRI_PRIME",
        "EGUI_TESTER_WITNESS",
        "EGUI_TESTER_LAUNCH",
        "EGUI_TESTER_FRAMES",
    ];
    assert(list@ =~= reserved());
    let mut index: usize = 0;
    while index < 34
        invariant
            index <= 34,
            list@ == reserved(),
            list@.len() == 34,
            forall|i: int| 0 <= i < index ==> name@ != text::word(#[trigger] reserved()[i]),
        decreases 34 - index,
    {
        if bytes_equal(name, list[index].as_bytes()) {
            assert(name@ == text::word(reserved()[index as int]));
            return true;
        }
        index += 1;
    }
    false
}

/// The first reserved name of a listing, at or after `from`.
pub open spec fn first_reserved(listing: Seq<(Seq<u8>, Seq<u8>)>, from: int) -> Option<Seq<u8>>
    decreases listing.len() - from,
{
    if from >= listing.len() {
        None
    } else if is_reserved(listing[from].0) {
        Some(listing[from].0)
    } else {
        first_reserved(listing, from + 1)
    }
}

/// Guest directories that only the harness populates.
pub open spec fn guest_roots() -> Seq<&'static str> {
    seq!["/app", "/dev", "/proc", "/run", "/sys", "/test"]
}

/// The first guest root, at or after `from`, that a path lies beneath.
pub open spec fn overlapped_root(path: Seq<u8>, from: int) -> Option<Seq<char>>
    decreases guest_roots().len() - from,
{
    if from >= guest_roots().len() {
        None
    } else if ospath::within(path, text::word(guest_roots()[from])) {
        Some(guest_roots()[from]@)
    } else {
        overlapped_root(path, from + 1)
    }
}

/// Why a read-only borrow is refused, when it is.
pub open spec fn borrow_objection(path: Seq<u8>) -> Option<Seq<char>> {
    if !ospath::normalized(path) {
        Some(
            "read-only borrow `"@ + text::lossy(path) + "` is not a normalized absolute path"@,
        )
    } else if overlapped_root(path, 0) is Some {
        Some(
            "read-only borrow `"@ + text::lossy(path) + "` overlaps reserved guest root `"@
                + overlapped_root(path, 0)->0 + "`"@,
        )
    } else if ospath::within(path, text::word("/tmp/.X11-unix")) {
        Some("X11 sockets are owned exclusively by the display seal"@)
    } else {
        None
    }
}

/// The first refusal among borrows, at or after `from`.
pub open spec fn borrows_objection(borrows: Seq<Seq<u8>>, from: int) -> Option<Seq<char>>
    decreases borrows.len() - from,
{
    if from >= borrows.len() {
        None
    } else if borrow_objection(borrows[from]) is Some {
        borrow_objection(borrows[from])
    } else {
        borrows_objection(borrows, from + 1)
    }
}

/// The harness's refusal of a command, when it refuses it. `listing` holds the
/// command's variables in order.
pub open spec fn refusal(
    command: AppCommandView,
    listing: Seq<(Seq<u8>, Seq<u8>)>,
) -> Option<ErrorView> {
    if command.violations.len() > 0 {
        Some(
            ErrorView::Containment {
                layer: "private environment"@,
                detail: command.violations[0],
            },
        )
    } else if first_reserved(listing, 0) is Some {
        Some(
            ErrorView::Containment {
                layer: "environment seal"@,
                detail: "reserved environment variable `"@ + text::lossy(
                    first_reserved(listing, 0)->0,
                ) + "` cannot be overridden"@,
            },
        )
    } else if borrows_objection(command.borrows, 0) is Some {
        Some(
            ErrorView::Containment {
                layer: "mount namespace"@,
                detail: borrows_objection(command.borrows, 0)->0,
            },
        )
    } else if command.runtime == 0 {
        Some(
            ErrorView::Containment {
                layer: "systemd"@,
                detail: "application runtime must be nonzero"@,
            },
        )
    } else {
        None
    }
}

impl AppCommand {
    /// The command's variables in order.
    pub closed spec fn listing(&self) -> Seq<(Seq<u8>, Seq<u8>)> {
        self.env.listing()
    }
}

fn validate_borrow(path: &Vec<u8>) -> (verdict: Result<()>)
    ensures
        match verdict {
            Ok(_) => borrow_objection(path@) is None,
            Err(error) => borrow_objection(path@) matches Some(detail) && error@ == (
            ErrorView::Containment { layer: "mount namespace"@, detail }),
        },
{
    if !is_normalized(path.as_slice()) {
        return Err(
            Error::Containment {
                layer: "mount namespace",
                detail: glue3(
                    "read-only borrow `",
                    lossy_text(path.as_slice()).as_str(),
                    "` is not a normalized absolute path",
                ),
            },
        );
    }
    let roots: [&'static str; 6] = ["/app", "/dev", "/proc", "/run", "/sys", "/test"];
    assert(roots@ =~= guest_roots());
    let mut index: usize = 0;
    while index < 6
        invariant
            index <= 6,
            roots@ == guest_roots(),
            roots@.len() == 6,
            ospath::normalized(path@),
            overlapped_root(path@, 0) == overlapped_root(path@, index as int),
        decreases 6 - index,
    {
        if starts_with(path.as_slice(), roots[index].as_bytes()) {
            return Err(
                Error::Containment {
                    layer: "mount namespace",
                    detail: glue5(
                        "read-only borrow `",
                        lossy_text(path.as_slice()).as_str(),
                        "` overlaps reserved guest root `",
                        roots[index],
                        "`",
                    ),
                },
            );
        }
        index += 1;
    }
    if starts_with(path.as_slice(), "/tmp/.X11-unix".as_bytes()) {
        return Err(
            Error::Containment {
                layer: "mount namespace",
                detail: "X11 sockets are owned exclusively by the display seal".to_owned(),
            },
        );
    }
    Ok(())
}

/// Refuse a command that would breach containment.
pub fn validate_command(command: &AppCommand) -> (verdict: Result<()>)
    ensures
        environment::ascending(command.listing()),
        command@.env == environment::assignment(command.listing()),
        match verdict {
            Ok(_) => refusal(command@, command.listing()) is None,
            Err(error) => refusal(command@, command.listing()) == Some(error@),
        },
{
    let entries = command.env.entries();
    let ghost listing = command.listing();
    if command.violations.len() > 0 {
        assert(text::strings(command.violations@)[0] == command.violations@[0]@);
        return Err(
            Error::Containment {
                layer: "private environment",
                detail: command.violations[0].clone(),
            },
        );
    }
    let mut index: usize = 0;
    while index < entries.len()
        invariant
            index <= entries.len(),
            listing == environment::pairs(entries@),
            listing == command.listing(),
            environment::ascending(listing),
            command@.env == environment::assignment(listing),
            command@.violations.len() == 0,
            first_reserved(listing, 0) == first_reserved(listing, index as int),
        decreases entries.len() - index,
    {
        assert(listing[index as int].0 == entries@[index as int].0@);
        if reserves(entries[index].0.as_slice()) {
            return Err(
                Error::Containment {
                    layer: "environment seal",
                    detail: glue3(
                        "reserved environment variable `",
                        lossy_text(entries[index].0.as_slice()).as_str(),
                        "` cannot be overridden",
                    ),
                },
            );
        }
        index += 1;
    }
    let mut index: usize = 0;
    while index < command.borrows.len()
        invariant
            index <= command.borrows.len(),
            listing == command.listing(),
            environment::ascending(listing),
            command@.env == environment::assignment(listing),
            command@.violations.len() == 0,
            first_reserved(listing, 0) is None,
            borrows_objection(command@.borrows, 0) == borrows_objection(
                command@.borrows,
                index as int,
            ),
        decreases command.borrows.len() - index,
    {
        assert(command@.borrows[index as int] == command.borrows@[index as int]@);
        match validate_borrow(&command.borrows[index]) {
            Ok(_) => {},
            Err(error) => {
                return Err(error);
            },
        }
        index += 1;
    }
    if command.runtime.is_zero() {
        return Err(
            Error::Containment {
                layer: "systemd",
                detail: "application runtime must be nonzero".to_owned(),
            },
        );
    }
    Ok(())
}

proof fn lemma_none_reserved(listing: Seq<(Seq<u8>, Seq<u8>)>, from: int, index: int)
    requires
        0 <= from <= index < listing.len(),
        first_reserved(listing, from) is None,
    ensures
        !is_reserved(listing[index].0),
    decreases index - from,
{
    if from < index {
        lemma_none_reserved(listing, from + 1, index);
    }
}

proof fn lemma_none_refused(borrows: Seq<Seq<u8>>, from: int, index: int)
    requires
        0 <= from <= index < borrows.len(),
        borrows_objection(borrows, from) is None,
    ensures
        borrow_objection(borrows[index]) is None,
    decreases index - from,
{
    if from < index {
        lemma_none_refused(borrows, from + 1, index);
    }
}

/// An accepted command sets no variable that only the harness may set.
pub proof fn law_reserved_variables_stay_sealed(
    command: AppCommandView,
    listing: Seq<(Seq<u8>, Seq<u8>)>,
    name: Seq<u8>,
)
    requires
        command.env == environment::assignment(listing),
        refusal(command, listing) is None,
        is_reserved(name),
    ensures
        !command.env.dom().contains(name),
{
    if command.env.dom().contains(name) {
        let i = environment::place(listing, name);
        assert(environment::names(listing, name));
        lemma_none_reserved(listing, 0, i);
    }
}

/// Every borrow of an accepted command is a normalized absolute path outside the
/// guest directories that only the harness populates.
pub proof fn law_borrows_avoid_guest_roots(
    command: AppCommandView,
    listing: Seq<(Seq<u8>, Seq<u8>)>,
    index: int,
    root: int,
)
    requires
        refusal(command, listing) is None,
        0 <= index < command.borrows.len(),
        0 <= root < guest_roots().len(),
    ensures
        ospath::normalized(command.borrows[index]),
        !ospath::within(command.borrows[index], text::word(guest_roots()[root])),
        !ospath::within(command.borrows[index], text::word("/tmp/.X11-unix")),
{
    lemma_none_refused(command.borrows, 0, index);
    lemma_no_overlap(command.borrows[index], 0, root);
}

proof fn lemma_no_overlap(path: Seq<u8>, from: int, root: int)
    requires
        0 <= from <= root < guest_roots().len(),
        overlapped_root(path, from) is None,
    ensures
        !ospath::within(path, text::word(guest_roots()[root])),
    decreases root - from,
{
    if from < root {
        lemma_no_overlap(path, from + 1, root);
    }
}

/// Only the harness may say where a product finds its tools, displays, homes, buses, locale,
/// libraries, drivers and reports.
pub proof fn law_the_world_is_the_harness_to_name(name: &[u8], verdict: bool)
    requires
        reserves.ensures((name,), verdict),
    ensures
        name@ == text::word("PATH") || name@ == text::word("HOME") || name@ == text::word("TMPDIR")
            ==> verdict,
        name@ == text::word("DISPLAY") || name@ == text::word("WAYLAND_DISPLAY") || name@
            == text::word("XAUTHORITY") || name@ == text::word("WINIT_UNIX_BACKEND") ==> verdict,
        name@ == text::word("XDG_CONFIG_HOME") || name@ == text::word("XDG_CACHE_HOME") || name@
            == text::word("XDG_DATA_HOME") || name@ == text::word("XDG_STATE_HOME") || name@
            == text::word("XDG_RUNTIME_DIR") ==> verdict,
        name@ == text::word("DBUS_SESSION_BUS_ADDRESS") || name@ == text::word(
            "DBUS_SYSTEM_BUS_ADDRESS",
        ) ==> verdict,
        name@ == text::word("LANG") || name@ == text::word("LC_ALL") || name@ == text::word("TZ")
            || name@ == text::word("RUST_BACKTRACE") ==> verdict,
        name@ == text::word("LD_LIBRARY_PATH") || name@ == text::word("LD_PRELOAD") || name@
            == text::word("LD_AUDIT") ==> verdict,
        name@ == text::word("VK_ICD_FILENAMES") || name@ == text::word("VK_DRIVER_FILES") || name@
            == text::word("VK_ADD_DRIVER_FILES") || name@ == text::word("LIBGL_ALWAYS_SOFTWARE")
            || name@ == text::word("LIBGL_DRIVERS_PATH") || name@ == text::word(
            "MESA_LOADER_DRIVER_OVERRIDE",
        ) || name@ == text::word("WGPU_BACKEND") || name@ == text::word("WGPU_POWER_PREF") || name@
            == text::word("__GLX_VENDOR_LIBRARY_NAME") || name@ == text::word("DRI_PRIME")
            ==> verdict,
        name@ == text::word("EGUI_TESTER_WITNESS") || name@ == text::word("EGUI_TESTER_LAUNCH")
            || name@ == text::word("EGUI_TESTER_FRAMES") ==> verdict,
{
    let all = reserved();
    assert forall|i: int| 0 <= i < all.len() && name@ == text::word(
        #[trigger] all[i],
    ) implies verdict by {
        assert(is_reserved(name@));
    }
    assert(all[0] == "PATH" && all[1] == "DISPLAY" && all[2] == "WAYLAND_DISPLAY" && all[3]
        == "XAUTHORITY" && all[4] == "WINIT_UNIX_BACKEND" && all[5] == "HOME" && all[6]
        == "TMPDIR" && all[7] == "XDG_CONFIG_HOME" && all[8] == "XDG_CACHE_HOME" && all[9]
        == "XDG_DATA_HOME" && all[10] == "XDG_STATE_HOME" && all[11] == "XDG_RUNTIME_DIR");
    assert(all[12] == "DBUS_SESSION_BUS_ADDRESS" && all[13] == "DBUS_SYSTEM_BUS_ADDRESS" && all[14]
        == "LANG" && all[15] == "LC_ALL" && all[16] == "TZ" && all[17] == "RUST_BACKTRACE"
        && all[18] == "LD_LIBRARY_PATH" && all[19] == "LD_PRELOAD" && all[20] == "LD_AUDIT");
    assert(all[21] == "VK_ICD_FILENAMES" && all[22] == "VK_DRIVER_FILES" && all[23]
        == "VK_ADD_DRIVER_FILES" && all[24] == "LIBGL_ALWAYS_SOFTWARE" && all[25]
        == "LIBGL_DRIVERS_PATH" && all[26] == "MESA_LOADER_DRIVER_OVERRIDE" && all[27]
        == "WGPU_BACKEND" && all[28] == "WGPU_POWER_PREF" && all[29] == "__GLX_VENDOR_LIBRARY_NAME"
        && all[30] == "DRI_PRIME");
    assert(all[31] == "EGUI_TESTER_WITNESS" && all[32] == "EGUI_TESTER_LAUNCH" && all[33]
        == "EGUI_TESTER_FRAMES");
}

} // verus!
