//! The sealed environment of a launch.
use crate::environment;
use crate::environment::Environment;
use crate::service::command;
use crate::service::command::{AppCommand, AppCommandView, Graphics};
use crate::testbed::{DisplayServer, DisplayServerView};
use crate::text;
use crate::text::{copy_bytes, text_bytes};
use vstd::prelude::*;
use vstd::utf8::*;

verus! {

/// Where a launch keeps its witness, on both sides of the sandbox.
#[derive(Debug)]
pub struct WitnessSeal {
    pub host: Vec<u8>,
    pub guest: Vec<u8>,
    pub frame_host: Vec<u8>,
    pub frame_guest: Vec<u8>,
    pub launch: String,
}

/// Content of a [`WitnessSeal`].
#[verifier::ext_equal]
pub struct WitnessSealView {
    pub host: Seq<u8>,
    pub guest: Seq<u8>,
    pub frame_host: Seq<u8>,
    pub frame_guest: Seq<u8>,
    pub launch: Seq<char>,
}

impl View for WitnessSeal {
    type V = WitnessSealView;

    open spec fn view(&self) -> WitnessSealView {
        WitnessSealView {
            host: self.host@,
            guest: self.guest@,
            frame_host: self.frame_host@,
            frame_guest: self.frame_guest@,
            launch: self.launch@,
        }
    }
}

/// Content of an optional seal.
pub open spec fn optional_seal(seal: Option<WitnessSeal>) -> Option<WitnessSealView> {
    match seal {
        Some(seal) => Some(seal@),
        None => None,
    }
}

/// The variables of every launch.
pub open spec fn base() -> Map<Seq<u8>, Seq<u8>> {
    Map::<Seq<u8>, Seq<u8>>::empty().insert(text::word("PATH"), text::word("/usr/bin")).insert(
        text::word("HOME"),
        text::word("/test/home"),
    ).insert(text::word("XDG_CONFIG_HOME"), text::word("/test/xdg/config")).insert(
        text::word("XDG_CACHE_HOME"),
        text::word("/test/xdg/cache"),
    ).insert(text::word("XDG_DATA_HOME"), text::word("/test/xdg/data")).insert(
        text::word("XDG_STATE_HOME"),
        text::word("/test/xdg/state"),
    ).insert(text::word("XDG_RUNTIME_DIR"), text::word("/test/xdg/runtime")).insert(
        text::word("TMPDIR"),
        text::word("/test/tmp"),
    ).insert(text::word("LANG"), text::word("C.UTF-8")).insert(
        text::word("LC_ALL"),
        text::word("C.UTF-8"),
    ).insert(text::word("TZ"), text::word("UTC")).insert(
        text::word("RUST_BACKTRACE"),
        text::word("1"),
    )
}

/// An environment pointed at the granted graphics.
pub open spec fn rendering(environment: Map<Seq<u8>, Seq<u8>>, graphics: Graphics) -> Map<
    Seq<u8>,
    Seq<u8>,
> {
    if graphics == Graphics::Software {
        environment.insert(
            text::word("LD_LIBRARY_PATH"),
            text::word("/opt/egui-tester/lavapipe/usr/lib"),
        ).insert(
            text::word("VK_ICD_FILENAMES"),
            text::word("/opt/egui-tester/lavapipe/usr/share/vulkan/icd.d/lvp_icd.json"),
        ).insert(text::word("LIBGL_ALWAYS_SOFTWARE"), text::word("1"))
    } else {
        environment
    }
}

/// An environment armed with the witness.
pub open spec fn witnessed(
    environment: Map<Seq<u8>, Seq<u8>>,
    witness: Option<WitnessSealView>,
) -> Map<Seq<u8>, Seq<u8>> {
    match witness {
        Some(seal) => environment.insert(text::word("EGUI_TESTER_WITNESS"), seal.guest).insert(
            text::word("EGUI_TESTER_LAUNCH"),
            encode_utf8(seal.launch),
        ).insert(text::word("EGUI_TESTER_FRAMES"), seal.frame_guest),
        None => environment,
    }
}

/// What the harness itself sets.
pub open spec fn seal_of(
    display: DisplayServerView,
    graphics: Graphics,
    witness: Option<WitnessSealView>,
) -> Map<Seq<u8>, Seq<u8>> {
    witnessed(rendering(display.armed(base()), graphics), witness)
}

/// The environment of a launch: what the harness sets, then the command's own
/// variables.
pub fn sealed_environment(
    display: &DisplayServer,
    command: &AppCommand,
    witness: &Option<WitnessSeal>,
) -> (environment: Environment)
    ensures
        environment@ == seal_of(
            display@,
            command@.graphics,
            optional_seal(*witness),
        ).union_prefer_right(command@.env),
{
    let mut environment = Environment::empty();
    environment.assign("PATH", "/usr/bin");
    environment.assign("HOME", "/test/home");
    environment.assign("XDG_CONFIG_HOME", "/test/xdg/config");
    environment.assign("XDG_CACHE_HOME", "/test/xdg/cache");
    environment.assign("XDG_DATA_HOME", "/test/xdg/data");
    environment.assign("XDG_STATE_HOME", "/test/xdg/state");
    environment.assign("XDG_RUNTIME_DIR", "/test/xdg/runtime");
    environment.assign("TMPDIR", "/test/tmp");
    environment.assign("LANG", "C.UTF-8");
    environment.assign("LC_ALL", "C.UTF-8");
    environment.assign("TZ", "UTC");
    environment.assign("RUST_BACKTRACE", "1");
    assert(environment@ == base());
    display.append_environment(&mut environment);
    if command.graphics_authority() == Graphics::Software {
        environment.assign("LD_LIBRARY_PATH", "/opt/egui-tester/lavapipe/usr/lib");
        environment.assign(
            "VK_ICD_FILENAMES",
            "/opt/egui-tester/lavapipe/usr/share/vulkan/icd.d/lvp_icd.json",
        );
        environment.assign("LIBGL_ALWAYS_SOFTWARE", "1");
    }
    match witness {
        Some(seal) => {
            environment.insert(
                text_bytes("EGUI_TESTER_WITNESS"),
                copy_bytes(seal.guest.as_slice()),
            );
            environment.insert(text_bytes("EGUI_TESTER_LAUNCH"), text_bytes(seal.launch.as_str()));
            environment.insert(
                text_bytes("EGUI_TESTER_FRAMES"),
                copy_bytes(seal.frame_guest.as_slice()),
            );
        },
        None => {},
    }
    environment.extend(command.environment());
    environment
}

/// An accepted command changes nothing that the harness itself sets: each
/// reserved variable keeps the harness's value, or stays unset.
pub proof fn law_commands_cannot_break_the_seal(
    display: DisplayServerView,
    witness: Option<WitnessSealView>,
    command: AppCommandView,
    listing: Seq<(Seq<u8>, Seq<u8>)>,
    name: Seq<u8>,
)
    requires
        command.env == environment::assignment(listing),
        command::refusal(command, listing) is None,
        command::is_reserved(name),
    ensures
        ({
            let seal = seal_of(display, command.graphics, witness);
            let whole = seal.union_prefer_right(command.env);
            &&& whole.dom().contains(name) == seal.dom().contains(name)
            &&& seal.dom().contains(name) ==> whole[name] == seal[name]
        }),
{
    command::law_reserved_variables_stay_sealed(command, listing, name);
}

/// Everything that the harness itself sets is reserved.
pub proof fn law_the_seal_is_reserved(
    display: DisplayServerView,
    graphics: Graphics,
    witness: Option<WitnessSealView>,
    name: Seq<u8>,
)
    requires
        seal_of(display, graphics, witness).dom().contains(name),
    ensures
        command::is_reserved(name),
{
    let list = command::reserved();
    let position: int = if name == text::word("PATH") {
        0
    } else if name == text::word("DISPLAY") {
        1
    } else if name == text::word("WAYLAND_DISPLAY") {
        2
    } else if name == text::word("XAUTHORITY") {
        3
    } else if name == text::word("WINIT_UNIX_BACKEND") {
        4
    } else if name == text::word("HOME") {
        5
    } else if name == text::word("TMPDIR") {
        6
    } else if name == text::word("XDG_CONFIG_HOME") {
        7
    } else if name == text::word("XDG_CACHE_HOME") {
        8
    } else if name == text::word("XDG_DATA_HOME") {
        9
    } else if name == text::word("XDG_STATE_HOME") {
        10
    } else if name == text::word("XDG_RUNTIME_DIR") {
        11
    } else if name == text::word("LANG") {
        14
    } else if name == text::word("LC_ALL") {
        15
    } else if name == text::word("TZ") {
        16
    } else if name == text::word("RUST_BACKTRACE") {
        17
    } else if name == text::word("LD_LIBRARY_PATH") {
        18
    } else if name == text::word("VK_ICD_FILENAMES") {
        21
    } else if name == text::word("LIBGL_ALWAYS_SOFTWARE") {
        24
    } else if name == text::word("EGUI_TESTER_WITNESS") {
        31
    } else if name == text::word("EGUI_TESTER_LAUNCH") {
        32
    } else {
        33
    };
    assert(name == text::word(list[position]));
}

proof fn lemma_apart(left: &str, right: &str)
    requires
        left@.len() != right@.len(),
    ensures
        text::word(left) != text::word(right),
{
    if text::word(left) == text::word(right) {
        text::lemma_bytes_determine_text(left@, right@);
    }
}

proof fn lemma_the_seal_names_no_bus(
    display: DisplayServerView,
    graphics: Graphics,
    witness: Option<WitnessSealView>,
    bus: &str,
)
    requires
        bus@.len() > 21,
    ensures
        !seal_of(display, graphics, witness).dom().contains(text::word(bus)),
{
    reveal_strlit("PATH");
    lemma_apart(bus, "PATH");
    reveal_strlit("HOME");
    lemma_apart(bus, "HOME");
    reveal_strlit("XDG_CONFIG_HOME");
    lemma_apart(bus, "XDG_CONFIG_HOME");
    reveal_strlit("XDG_CACHE_HOME");
    lemma_apart(bus, "XDG_CACHE_HOME");
    reveal_strlit("XDG_DATA_HOME");
    lemma_apart(bus, "XDG_DATA_HOME");
    reveal_strlit("XDG_STATE_HOME");
    lemma_apart(bus, "XDG_STATE_HOME");
    reveal_strlit("XDG_RUNTIME_DIR");
    lemma_apart(bus, "XDG_RUNTIME_DIR");
    reveal_strlit("TMPDIR");
    lemma_apart(bus, "TMPDIR");
    reveal_strlit("LANG");
    lemma_apart(bus, "LANG");
    reveal_strlit("LC_ALL");
    lemma_apart(bus, "LC_ALL");
    reveal_strlit("TZ");
    lemma_apart(bus, "TZ");
    reveal_strlit("RUST_BACKTRACE");
    lemma_apart(bus, "RUST_BACKTRACE");
    reveal_strlit("DISPLAY");
    lemma_apart(bus, "DISPLAY");
    reveal_strlit("XAUTHORITY");
    lemma_apart(bus, "XAUTHORITY");
    reveal_strlit("WINIT_UNIX_BACKEND");
    lemma_apart(bus, "WINIT_UNIX_BACKEND");
    reveal_strlit("WAYLAND_DISPLAY");
    lemma_apart(bus, "WAYLAND_DISPLAY");
    reveal_strlit("LD_LIBRARY_PATH");
    lemma_apart(bus, "LD_LIBRARY_PATH");
    reveal_strlit("VK_ICD_FILENAMES");
    lemma_apart(bus, "VK_ICD_FILENAMES");
    reveal_strlit("LIBGL_ALWAYS_SOFTWARE");
    lemma_apart(bus, "LIBGL_ALWAYS_SOFTWARE");
    reveal_strlit("EGUI_TESTER_WITNESS");
    lemma_apart(bus, "EGUI_TESTER_WITNESS");
    reveal_strlit("EGUI_TESTER_LAUNCH");
    lemma_apart(bus, "EGUI_TESTER_LAUNCH");
    reveal_strlit("EGUI_TESTER_FRAMES");
    lemma_apart(bus, "EGUI_TESTER_FRAMES");
}

/// No application learns of a live message bus: an accepted command's environment
/// names neither the session's nor the system's.
pub proof fn law_no_bus_reaches_the_guest(
    display: DisplayServerView,
    witness: Option<WitnessSealView>,
    command: AppCommandView,
    listing: Seq<(Seq<u8>, Seq<u8>)>,
)
    requires
        command.env == environment::assignment(listing),
        command::refusal(command, listing) is None,
    ensures
        ({
            let whole = seal_of(display, command.graphics, witness).union_prefer_right(command.env);
            &&& !whole.dom().contains(text::word("DBUS_SESSION_BUS_ADDRESS"))
            &&& !whole.dom().contains(text::word("DBUS_SYSTEM_BUS_ADDRESS"))
        }),
{
    let list = command::reserved();
    assert(text::word("DBUS_SESSION_BUS_ADDRESS") == text::word(list[12]));
    assert(text::word("DBUS_SYSTEM_BUS_ADDRESS") == text::word(list[13]));
    law_commands_cannot_break_the_seal(
        display,
        witness,
        command,
        listing,
        text::word("DBUS_SESSION_BUS_ADDRESS"),
    );
    law_commands_cannot_break_the_seal(
        display,
        witness,
        command,
        listing,
        text::word("DBUS_SYSTEM_BUS_ADDRESS"),
    );
    reveal_strlit("DBUS_SESSION_BUS_ADDRESS");
    reveal_strlit("DBUS_SYSTEM_BUS_ADDRESS");
    lemma_the_seal_names_no_bus(
        display,
        command.graphics,
        witness,
        "DBUS_SESSION_BUS_ADDRESS",
    );
    lemma_the_seal_names_no_bus(display, command.graphics, witness, "DBUS_SYSTEM_BUS_ADDRESS");
}

} // verus!
