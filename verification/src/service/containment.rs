//! What an accepted launch is confined to: its environment, and the sandbox that holds
//! it.
use crate::duration::Duration;
use crate::environment;
use crate::environment::Environment;
use crate::error::Error;
use crate::ospath;
use crate::service::command;
use crate::service::command::{AppCommand, AppCommandView, Graphics, Network};
use crate::service::sandbox;
use crate::service::sandbox::{BwrapOptionView, GraphicsRuntime, ReadOnlyMount, SandboxView};
use crate::service::seal;
use crate::service::seal::WitnessSeal;
use crate::testbed::{DisplayServer, DisplayServerView};
use crate::text;
use vstd::prelude::*;
use vstd::utf8::*;

verus! {

// ---------------------------------------------------------------------------
// Environment
// ---------------------------------------------------------------------------

/// Whether an environment sets a variable to a value.
pub open spec fn sets(environment: Map<Seq<u8>, Seq<u8>>, name: &str, value: Seq<u8>) -> bool {
    environment.dom().contains(text::word(name)) && environment[text::word(name)] == value
}

/// Whether an environment leaves a variable unset.
pub open spec fn leaves(environment: Map<Seq<u8>, Seq<u8>>, name: &str) -> bool {
    !environment.dom().contains(text::word(name))
}

proof fn lemma_apart(left: &str, right: &str)
    requires
        left@ != right@,
    ensures
        text::word(left) != text::word(right),
{
    text::lemma_bytes_determine_text(left@, right@);
}

proof fn lemma_path_is_its_own()
    ensures
        text::word("PATH") != text::word("HOME"),
        text::word("PATH") != text::word("XDG_CONFIG_HOME"),
        text::word("PATH") != text::word("XDG_CACHE_HOME"),
        text::word("PATH") != text::word("XDG_DATA_HOME"),
        text::word("PATH") != text::word("XDG_STATE_HOME"),
        text::word("PATH") != text::word("XDG_RUNTIME_DIR"),
        text::word("PATH") != text::word("TMPDIR"),
        text::word("PATH") != text::word("LANG"),
        text::word("PATH") != text::word("LC_ALL"),
        text::word("PATH") != text::word("TZ"),
        text::word("PATH") != text::word("RUST_BACKTRACE"),
        text::word("PATH") != text::word("DISPLAY"),
        text::word("PATH") != text::word("XAUTHORITY"),
        text::word("PATH") != text::word("WINIT_UNIX_BACKEND"),
        text::word("PATH") != text::word("WAYLAND_DISPLAY"),
        text::word("PATH") != text::word("LD_LIBRARY_PATH"),
        text::word("PATH") != text::word("VK_ICD_FILENAMES"),
        text::word("PATH") != text::word("LIBGL_ALWAYS_SOFTWARE"),
        text::word("PATH") != text::word("EGUI_TESTER_WITNESS"),
        text::word("PATH") != text::word("EGUI_TESTER_LAUNCH"),
        text::word("PATH") != text::word("EGUI_TESTER_FRAMES"),
{
    reveal_strlit("PATH");
    reveal_strlit("HOME");
    assert("PATH"@[0] != "HOME"@[0]);
    lemma_apart("PATH", "HOME");
    reveal_strlit("XDG_CONFIG_HOME");
    lemma_apart("PATH", "XDG_CONFIG_HOME");
    reveal_strlit("XDG_CACHE_HOME");
    lemma_apart("PATH", "XDG_CACHE_HOME");
    reveal_strlit("XDG_DATA_HOME");
    lemma_apart("PATH", "XDG_DATA_HOME");
    reveal_strlit("XDG_STATE_HOME");
    lemma_apart("PATH", "XDG_STATE_HOME");
    reveal_strlit("XDG_RUNTIME_DIR");
    lemma_apart("PATH", "XDG_RUNTIME_DIR");
    reveal_strlit("TMPDIR");
    lemma_apart("PATH", "TMPDIR");
    reveal_strlit("LANG");
    assert("PATH"@[0] != "LANG"@[0]);
    lemma_apart("PATH", "LANG");
    reveal_strlit("LC_ALL");
    lemma_apart("PATH", "LC_ALL");
    reveal_strlit("TZ");
    lemma_apart("PATH", "TZ");
    reveal_strlit("RUST_BACKTRACE");
    lemma_apart("PATH", "RUST_BACKTRACE");
    reveal_strlit("DISPLAY");
    lemma_apart("PATH", "DISPLAY");
    reveal_strlit("XAUTHORITY");
    lemma_apart("PATH", "XAUTHORITY");
    reveal_strlit("WINIT_UNIX_BACKEND");
    lemma_apart("PATH", "WINIT_UNIX_BACKEND");
    reveal_strlit("WAYLAND_DISPLAY");
    lemma_apart("PATH", "WAYLAND_DISPLAY");
    reveal_strlit("LD_LIBRARY_PATH");
    lemma_apart("PATH", "LD_LIBRARY_PATH");
    reveal_strlit("VK_ICD_FILENAMES");
    lemma_apart("PATH", "VK_ICD_FILENAMES");
    reveal_strlit("LIBGL_ALWAYS_SOFTWARE");
    lemma_apart("PATH", "LIBGL_ALWAYS_SOFTWARE");
    reveal_strlit("EGUI_TESTER_WITNESS");
    lemma_apart("PATH", "EGUI_TESTER_WITNESS");
    reveal_strlit("EGUI_TESTER_LAUNCH");
    lemma_apart("PATH", "EGUI_TESTER_LAUNCH");
    reveal_strlit("EGUI_TESTER_FRAMES");
    lemma_apart("PATH", "EGUI_TESTER_FRAMES");
}

proof fn lemma_home_is_its_own()
    ensures
        text::word("HOME") != text::word("XDG_CONFIG_HOME"),
        text::word("HOME") != text::word("XDG_CACHE_HOME"),
        text::word("HOME") != text::word("XDG_DATA_HOME"),
        text::word("HOME") != text::word("XDG_STATE_HOME"),
        text::word("HOME") != text::word("XDG_RUNTIME_DIR"),
        text::word("HOME") != text::word("TMPDIR"),
        text::word("HOME") != text::word("LANG"),
        text::word("HOME") != text::word("LC_ALL"),
        text::word("HOME") != text::word("TZ"),
        text::word("HOME") != text::word("RUST_BACKTRACE"),
        text::word("HOME") != text::word("DISPLAY"),
        text::word("HOME") != text::word("XAUTHORITY"),
        text::word("HOME") != text::word("WINIT_UNIX_BACKEND"),
        text::word("HOME") != text::word("WAYLAND_DISPLAY"),
        text::word("HOME") != text::word("LD_LIBRARY_PATH"),
        text::word("HOME") != text::word("VK_ICD_FILENAMES"),
        text::word("HOME") != text::word("LIBGL_ALWAYS_SOFTWARE"),
        text::word("HOME") != text::word("EGUI_TESTER_WITNESS"),
        text::word("HOME") != text::word("EGUI_TESTER_LAUNCH"),
        text::word("HOME") != text::word("EGUI_TESTER_FRAMES"),
{
    reveal_strlit("HOME");
    reveal_strlit("XDG_CONFIG_HOME");
    lemma_apart("HOME", "XDG_CONFIG_HOME");
    reveal_strlit("XDG_CACHE_HOME");
    lemma_apart("HOME", "XDG_CACHE_HOME");
    reveal_strlit("XDG_DATA_HOME");
    lemma_apart("HOME", "XDG_DATA_HOME");
    reveal_strlit("XDG_STATE_HOME");
    lemma_apart("HOME", "XDG_STATE_HOME");
    reveal_strlit("XDG_RUNTIME_DIR");
    lemma_apart("HOME", "XDG_RUNTIME_DIR");
    reveal_strlit("TMPDIR");
    lemma_apart("HOME", "TMPDIR");
    reveal_strlit("LANG");
    assert("HOME"@[0] != "LANG"@[0]);
    lemma_apart("HOME", "LANG");
    reveal_strlit("LC_ALL");
    lemma_apart("HOME", "LC_ALL");
    reveal_strlit("TZ");
    lemma_apart("HOME", "TZ");
    reveal_strlit("RUST_BACKTRACE");
    lemma_apart("HOME", "RUST_BACKTRACE");
    reveal_strlit("DISPLAY");
    lemma_apart("HOME", "DISPLAY");
    reveal_strlit("XAUTHORITY");
    lemma_apart("HOME", "XAUTHORITY");
    reveal_strlit("WINIT_UNIX_BACKEND");
    lemma_apart("HOME", "WINIT_UNIX_BACKEND");
    reveal_strlit("WAYLAND_DISPLAY");
    lemma_apart("HOME", "WAYLAND_DISPLAY");
    reveal_strlit("LD_LIBRARY_PATH");
    lemma_apart("HOME", "LD_LIBRARY_PATH");
    reveal_strlit("VK_ICD_FILENAMES");
    lemma_apart("HOME", "VK_ICD_FILENAMES");
    reveal_strlit("LIBGL_ALWAYS_SOFTWARE");
    lemma_apart("HOME", "LIBGL_ALWAYS_SOFTWARE");
    reveal_strlit("EGUI_TESTER_WITNESS");
    lemma_apart("HOME", "EGUI_TESTER_WITNESS");
    reveal_strlit("EGUI_TESTER_LAUNCH");
    lemma_apart("HOME", "EGUI_TESTER_LAUNCH");
    reveal_strlit("EGUI_TESTER_FRAMES");
    lemma_apart("HOME", "EGUI_TESTER_FRAMES");
}

proof fn lemma_xdg_config_home_is_its_own()
    ensures
        text::word("XDG_CONFIG_HOME") != text::word("XDG_CACHE_HOME"),
        text::word("XDG_CONFIG_HOME") != text::word("XDG_DATA_HOME"),
        text::word("XDG_CONFIG_HOME") != text::word("XDG_STATE_HOME"),
        text::word("XDG_CONFIG_HOME") != text::word("XDG_RUNTIME_DIR"),
        text::word("XDG_CONFIG_HOME") != text::word("TMPDIR"),
        text::word("XDG_CONFIG_HOME") != text::word("LANG"),
        text::word("XDG_CONFIG_HOME") != text::word("LC_ALL"),
        text::word("XDG_CONFIG_HOME") != text::word("TZ"),
        text::word("XDG_CONFIG_HOME") != text::word("RUST_BACKTRACE"),
        text::word("XDG_CONFIG_HOME") != text::word("DISPLAY"),
        text::word("XDG_CONFIG_HOME") != text::word("XAUTHORITY"),
        text::word("XDG_CONFIG_HOME") != text::word("WINIT_UNIX_BACKEND"),
        text::word("XDG_CONFIG_HOME") != text::word("WAYLAND_DISPLAY"),
        text::word("XDG_CONFIG_HOME") != text::word("LD_LIBRARY_PATH"),
        text::word("XDG_CONFIG_HOME") != text::word("VK_ICD_FILENAMES"),
        text::word("XDG_CONFIG_HOME") != text::word("LIBGL_ALWAYS_SOFTWARE"),
        text::word("XDG_CONFIG_HOME") != text::word("EGUI_TESTER_WITNESS"),
        text::word("XDG_CONFIG_HOME") != text::word("EGUI_TESTER_LAUNCH"),
        text::word("XDG_CONFIG_HOME") != text::word("EGUI_TESTER_FRAMES"),
{
    reveal_strlit("XDG_CONFIG_HOME");
    reveal_strlit("XDG_CACHE_HOME");
    lemma_apart("XDG_CONFIG_HOME", "XDG_CACHE_HOME");
    reveal_strlit("XDG_DATA_HOME");
    lemma_apart("XDG_CONFIG_HOME", "XDG_DATA_HOME");
    reveal_strlit("XDG_STATE_HOME");
    lemma_apart("XDG_CONFIG_HOME", "XDG_STATE_HOME");
    reveal_strlit("XDG_RUNTIME_DIR");
    assert("XDG_CONFIG_HOME"@[4] != "XDG_RUNTIME_DIR"@[4]);
    lemma_apart("XDG_CONFIG_HOME", "XDG_RUNTIME_DIR");
    reveal_strlit("TMPDIR");
    lemma_apart("XDG_CONFIG_HOME", "TMPDIR");
    reveal_strlit("LANG");
    lemma_apart("XDG_CONFIG_HOME", "LANG");
    reveal_strlit("LC_ALL");
    lemma_apart("XDG_CONFIG_HOME", "LC_ALL");
    reveal_strlit("TZ");
    lemma_apart("XDG_CONFIG_HOME", "TZ");
    reveal_strlit("RUST_BACKTRACE");
    lemma_apart("XDG_CONFIG_HOME", "RUST_BACKTRACE");
    reveal_strlit("DISPLAY");
    lemma_apart("XDG_CONFIG_HOME", "DISPLAY");
    reveal_strlit("XAUTHORITY");
    lemma_apart("XDG_CONFIG_HOME", "XAUTHORITY");
    reveal_strlit("WINIT_UNIX_BACKEND");
    lemma_apart("XDG_CONFIG_HOME", "WINIT_UNIX_BACKEND");
    reveal_strlit("WAYLAND_DISPLAY");
    assert("XDG_CONFIG_HOME"@[0] != "WAYLAND_DISPLAY"@[0]);
    lemma_apart("XDG_CONFIG_HOME", "WAYLAND_DISPLAY");
    reveal_strlit("LD_LIBRARY_PATH");
    assert("XDG_CONFIG_HOME"@[0] != "LD_LIBRARY_PATH"@[0]);
    lemma_apart("XDG_CONFIG_HOME", "LD_LIBRARY_PATH");
    reveal_strlit("VK_ICD_FILENAMES");
    lemma_apart("XDG_CONFIG_HOME", "VK_ICD_FILENAMES");
    reveal_strlit("LIBGL_ALWAYS_SOFTWARE");
    lemma_apart("XDG_CONFIG_HOME", "LIBGL_ALWAYS_SOFTWARE");
    reveal_strlit("EGUI_TESTER_WITNESS");
    lemma_apart("XDG_CONFIG_HOME", "EGUI_TESTER_WITNESS");
    reveal_strlit("EGUI_TESTER_LAUNCH");
    lemma_apart("XDG_CONFIG_HOME", "EGUI_TESTER_LAUNCH");
    reveal_strlit("EGUI_TESTER_FRAMES");
    lemma_apart("XDG_CONFIG_HOME", "EGUI_TESTER_FRAMES");
}

proof fn lemma_xdg_cache_home_is_its_own()
    ensures
        text::word("XDG_CACHE_HOME") != text::word("XDG_DATA_HOME"),
        text::word("XDG_CACHE_HOME") != text::word("XDG_STATE_HOME"),
        text::word("XDG_CACHE_HOME") != text::word("XDG_RUNTIME_DIR"),
        text::word("XDG_CACHE_HOME") != text::word("TMPDIR"),
        text::word("XDG_CACHE_HOME") != text::word("LANG"),
        text::word("XDG_CACHE_HOME") != text::word("LC_ALL"),
        text::word("XDG_CACHE_HOME") != text::word("TZ"),
        text::word("XDG_CACHE_HOME") != text::word("RUST_BACKTRACE"),
        text::word("XDG_CACHE_HOME") != text::word("DISPLAY"),
        text::word("XDG_CACHE_HOME") != text::word("XAUTHORITY"),
        text::word("XDG_CACHE_HOME") != text::word("WINIT_UNIX_BACKEND"),
        text::word("XDG_CACHE_HOME") != text::word("WAYLAND_DISPLAY"),
        text::word("XDG_CACHE_HOME") != text::word("LD_LIBRARY_PATH"),
        text::word("XDG_CACHE_HOME") != text::word("VK_ICD_FILENAMES"),
        text::word("XDG_CACHE_HOME") != text::word("LIBGL_ALWAYS_SOFTWARE"),
        text::word("XDG_CACHE_HOME") != text::word("EGUI_TESTER_WITNESS"),
        text::word("XDG_CACHE_HOME") != text::word("EGUI_TESTER_LAUNCH"),
        text::word("XDG_CACHE_HOME") != text::word("EGUI_TESTER_FRAMES"),
{
    reveal_strlit("XDG_CACHE_HOME");
    reveal_strlit("XDG_DATA_HOME");
    lemma_apart("XDG_CACHE_HOME", "XDG_DATA_HOME");
    reveal_strlit("XDG_STATE_HOME");
    assert("XDG_CACHE_HOME"@[4] != "XDG_STATE_HOME"@[4]);
    lemma_apart("XDG_CACHE_HOME", "XDG_STATE_HOME");
    reveal_strlit("XDG_RUNTIME_DIR");
    lemma_apart("XDG_CACHE_HOME", "XDG_RUNTIME_DIR");
    reveal_strlit("TMPDIR");
    lemma_apart("XDG_CACHE_HOME", "TMPDIR");
    reveal_strlit("LANG");
    lemma_apart("XDG_CACHE_HOME", "LANG");
    reveal_strlit("LC_ALL");
    lemma_apart("XDG_CACHE_HOME", "LC_ALL");
    reveal_strlit("TZ");
    lemma_apart("XDG_CACHE_HOME", "TZ");
    reveal_strlit("RUST_BACKTRACE");
    assert("XDG_CACHE_HOME"@[0] != "RUST_BACKTRACE"@[0]);
    lemma_apart("XDG_CACHE_HOME", "RUST_BACKTRACE");
    reveal_strlit("DISPLAY");
    lemma_apart("XDG_CACHE_HOME", "DISPLAY");
    reveal_strlit("XAUTHORITY");
    lemma_apart("XDG_CACHE_HOME", "XAUTHORITY");
    reveal_strlit("WINIT_UNIX_BACKEND");
    lemma_apart("XDG_CACHE_HOME", "WINIT_UNIX_BACKEND");
    reveal_strlit("WAYLAND_DISPLAY");
    lemma_apart("XDG_CACHE_HOME", "WAYLAND_DISPLAY");
    reveal_strlit("LD_LIBRARY_PATH");
    lemma_apart("XDG_CACHE_HOME", "LD_LIBRARY_PATH");
    reveal_strlit("VK_ICD_FILENAMES");
    lemma_apart("XDG_CACHE_HOME", "VK_ICD_FILENAMES");
    reveal_strlit("LIBGL_ALWAYS_SOFTWARE");
    lemma_apart("XDG_CACHE_HOME", "LIBGL_ALWAYS_SOFTWARE");
    reveal_strlit("EGUI_TESTER_WITNESS");
    lemma_apart("XDG_CACHE_HOME", "EGUI_TESTER_WITNESS");
    reveal_strlit("EGUI_TESTER_LAUNCH");
    lemma_apart("XDG_CACHE_HOME", "EGUI_TESTER_LAUNCH");
    reveal_strlit("EGUI_TESTER_FRAMES");
    lemma_apart("XDG_CACHE_HOME", "EGUI_TESTER_FRAMES");
}

proof fn lemma_xdg_data_home_is_its_own()
    ensures
        text::word("XDG_DATA_HOME") != text::word("XDG_STATE_HOME"),
        text::word("XDG_DATA_HOME") != text::word("XDG_RUNTIME_DIR"),
        text::word("XDG_DATA_HOME") != text::word("TMPDIR"),
        text::word("XDG_DATA_HOME") != text::word("LANG"),
        text::word("XDG_DATA_HOME") != text::word("LC_ALL"),
        text::word("XDG_DATA_HOME") != text::word("TZ"),
        text::word("XDG_DATA_HOME") != text::word("RUST_BACKTRACE"),
        text::word("XDG_DATA_HOME") != text::word("DISPLAY"),
        text::word("XDG_DATA_HOME") != text::word("XAUTHORITY"),
        text::word("XDG_DATA_HOME") != text::word("WINIT_UNIX_BACKEND"),
        text::word("XDG_DATA_HOME") != text::word("WAYLAND_DISPLAY"),
        text::word("XDG_DATA_HOME") != text::word("LD_LIBRARY_PATH"),
        text::word("XDG_DATA_HOME") != text::word("VK_ICD_FILENAMES"),
        text::word("XDG_DATA_HOME") != text::word("LIBGL_ALWAYS_SOFTWARE"),
        text::word("XDG_DATA_HOME") != text::word("EGUI_TESTER_WITNESS"),
        text::word("XDG_DATA_HOME") != text::word("EGUI_TESTER_LAUNCH"),
        text::word("XDG_DATA_HOME") != text::word("EGUI_TESTER_FRAMES"),
{
    reveal_strlit("XDG_DATA_HOME");
    reveal_strlit("XDG_STATE_HOME");
    lemma_apart("XDG_DATA_HOME", "XDG_STATE_HOME");
    reveal_strlit("XDG_RUNTIME_DIR");
    lemma_apart("XDG_DATA_HOME", "XDG_RUNTIME_DIR");
    reveal_strlit("TMPDIR");
    lemma_apart("XDG_DATA_HOME", "TMPDIR");
    reveal_strlit("LANG");
    lemma_apart("XDG_DATA_HOME", "LANG");
    reveal_strlit("LC_ALL");
    lemma_apart("XDG_DATA_HOME", "LC_ALL");
    reveal_strlit("TZ");
    lemma_apart("XDG_DATA_HOME", "TZ");
    reveal_strlit("RUST_BACKTRACE");
    lemma_apart("XDG_DATA_HOME", "RUST_BACKTRACE");
    reveal_strlit("DISPLAY");
    lemma_apart("XDG_DATA_HOME", "DISPLAY");
    reveal_strlit("XAUTHORITY");
    lemma_apart("XDG_DATA_HOME", "XAUTHORITY");
    reveal_strlit("WINIT_UNIX_BACKEND");
    lemma_apart("XDG_DATA_HOME", "WINIT_UNIX_BACKEND");
    reveal_strlit("WAYLAND_DISPLAY");
    lemma_apart("XDG_DATA_HOME", "WAYLAND_DISPLAY");
    reveal_strlit("LD_LIBRARY_PATH");
    lemma_apart("XDG_DATA_HOME", "LD_LIBRARY_PATH");
    reveal_strlit("VK_ICD_FILENAMES");
    lemma_apart("XDG_DATA_HOME", "VK_ICD_FILENAMES");
    reveal_strlit("LIBGL_ALWAYS_SOFTWARE");
    lemma_apart("XDG_DATA_HOME", "LIBGL_ALWAYS_SOFTWARE");
    reveal_strlit("EGUI_TESTER_WITNESS");
    lemma_apart("XDG_DATA_HOME", "EGUI_TESTER_WITNESS");
    reveal_strlit("EGUI_TESTER_LAUNCH");
    lemma_apart("XDG_DATA_HOME", "EGUI_TESTER_LAUNCH");
    reveal_strlit("EGUI_TESTER_FRAMES");
    lemma_apart("XDG_DATA_HOME", "EGUI_TESTER_FRAMES");
}

proof fn lemma_xdg_state_home_is_its_own()
    ensures
        text::word("XDG_STATE_HOME") != text::word("XDG_RUNTIME_DIR"),
        text::word("XDG_STATE_HOME") != text::word("TMPDIR"),
        text::word("XDG_STATE_HOME") != text::word("LANG"),
        text::word("XDG_STATE_HOME") != text::word("LC_ALL"),
        text::word("XDG_STATE_HOME") != text::word("TZ"),
        text::word("XDG_STATE_HOME") != text::word("RUST_BACKTRACE"),
        text::word("XDG_STATE_HOME") != text::word("DISPLAY"),
        text::word("XDG_STATE_HOME") != text::word("XAUTHORITY"),
        text::word("XDG_STATE_HOME") != text::word("WINIT_UNIX_BACKEND"),
        text::word("XDG_STATE_HOME") != text::word("WAYLAND_DISPLAY"),
        text::word("XDG_STATE_HOME") != text::word("LD_LIBRARY_PATH"),
        text::word("XDG_STATE_HOME") != text::word("VK_ICD_FILENAMES"),
        text::word("XDG_STATE_HOME") != text::word("LIBGL_ALWAYS_SOFTWARE"),
        text::word("XDG_STATE_HOME") != text::word("EGUI_TESTER_WITNESS"),
        text::word("XDG_STATE_HOME") != text::word("EGUI_TESTER_LAUNCH"),
        text::word("XDG_STATE_HOME") != text::word("EGUI_TESTER_FRAMES"),
{
    reveal_strlit("XDG_STATE_HOME");
    reveal_strlit("XDG_RUNTIME_DIR");
    lemma_apart("XDG_STATE_HOME", "XDG_RUNTIME_DIR");
    reveal_strlit("TMPDIR");
    lemma_apart("XDG_STATE_HOME", "TMPDIR");
    reveal_strlit("LANG");
    lemma_apart("XDG_STATE_HOME", "LANG");
    reveal_strlit("LC_ALL");
    lemma_apart("XDG_STATE_HOME", "LC_ALL");
    reveal_strlit("TZ");
    lemma_apart("XDG_STATE_HOME", "TZ");
    reveal_strlit("RUST_BACKTRACE");
    assert("XDG_STATE_HOME"@[0] != "RUST_BACKTRACE"@[0]);
    lemma_apart("XDG_STATE_HOME", "RUST_BACKTRACE");
    reveal_strlit("DISPLAY");
    lemma_apart("XDG_STATE_HOME", "DISPLAY");
    reveal_strlit("XAUTHORITY");
    lemma_apart("XDG_STATE_HOME", "XAUTHORITY");
    reveal_strlit("WINIT_UNIX_BACKEND");
    lemma_apart("XDG_STATE_HOME", "WINIT_UNIX_BACKEND");
    reveal_strlit("WAYLAND_DISPLAY");
    lemma_apart("XDG_STATE_HOME", "WAYLAND_DISPLAY");
    reveal_strlit("LD_LIBRARY_PATH");
    lemma_apart("XDG_STATE_HOME", "LD_LIBRARY_PATH");
    reveal_strlit("VK_ICD_FILENAMES");
    lemma_apart("XDG_STATE_HOME", "VK_ICD_FILENAMES");
    reveal_strlit("LIBGL_ALWAYS_SOFTWARE");
    lemma_apart("XDG_STATE_HOME", "LIBGL_ALWAYS_SOFTWARE");
    reveal_strlit("EGUI_TESTER_WITNESS");
    lemma_apart("XDG_STATE_HOME", "EGUI_TESTER_WITNESS");
    reveal_strlit("EGUI_TESTER_LAUNCH");
    lemma_apart("XDG_STATE_HOME", "EGUI_TESTER_LAUNCH");
    reveal_strlit("EGUI_TESTER_FRAMES");
    lemma_apart("XDG_STATE_HOME", "EGUI_TESTER_FRAMES");
}

proof fn lemma_xdg_runtime_dir_is_its_own()
    ensures
        text::word("XDG_RUNTIME_DIR") != text::word("TMPDIR"),
        text::word("XDG_RUNTIME_DIR") != text::word("LANG"),
        text::word("XDG_RUNTIME_DIR") != text::word("LC_ALL"),
        text::word("XDG_RUNTIME_DIR") != text::word("TZ"),
        text::word("XDG_RUNTIME_DIR") != text::word("RUST_BACKTRACE"),
        text::word("XDG_RUNTIME_DIR") != text::word("DISPLAY"),
        text::word("XDG_RUNTIME_DIR") != text::word("XAUTHORITY"),
        text::word("XDG_RUNTIME_DIR") != text::word("WINIT_UNIX_BACKEND"),
        text::word("XDG_RUNTIME_DIR") != text::word("WAYLAND_DISPLAY"),
        text::word("XDG_RUNTIME_DIR") != text::word("LD_LIBRARY_PATH"),
        text::word("XDG_RUNTIME_DIR") != text::word("VK_ICD_FILENAMES"),
        text::word("XDG_RUNTIME_DIR") != text::word("LIBGL_ALWAYS_SOFTWARE"),
        text::word("XDG_RUNTIME_DIR") != text::word("EGUI_TESTER_WITNESS"),
        text::word("XDG_RUNTIME_DIR") != text::word("EGUI_TESTER_LAUNCH"),
        text::word("XDG_RUNTIME_DIR") != text::word("EGUI_TESTER_FRAMES"),
{
    reveal_strlit("XDG_RUNTIME_DIR");
    reveal_strlit("TMPDIR");
    lemma_apart("XDG_RUNTIME_DIR", "TMPDIR");
    reveal_strlit("LANG");
    lemma_apart("XDG_RUNTIME_DIR", "LANG");
    reveal_strlit("LC_ALL");
    lemma_apart("XDG_RUNTIME_DIR", "LC_ALL");
    reveal_strlit("TZ");
    lemma_apart("XDG_RUNTIME_DIR", "TZ");
    reveal_strlit("RUST_BACKTRACE");
    lemma_apart("XDG_RUNTIME_DIR", "RUST_BACKTRACE");
    reveal_strlit("DISPLAY");
    lemma_apart("XDG_RUNTIME_DIR", "DISPLAY");
    reveal_strlit("XAUTHORITY");
    lemma_apart("XDG_RUNTIME_DIR", "XAUTHORITY");
    reveal_strlit("WINIT_UNIX_BACKEND");
    lemma_apart("XDG_RUNTIME_DIR", "WINIT_UNIX_BACKEND");
    reveal_strlit("WAYLAND_DISPLAY");
    assert("XDG_RUNTIME_DIR"@[0] != "WAYLAND_DISPLAY"@[0]);
    lemma_apart("XDG_RUNTIME_DIR", "WAYLAND_DISPLAY");
    reveal_strlit("LD_LIBRARY_PATH");
    assert("XDG_RUNTIME_DIR"@[0] != "LD_LIBRARY_PATH"@[0]);
    lemma_apart("XDG_RUNTIME_DIR", "LD_LIBRARY_PATH");
    reveal_strlit("VK_ICD_FILENAMES");
    lemma_apart("XDG_RUNTIME_DIR", "VK_ICD_FILENAMES");
    reveal_strlit("LIBGL_ALWAYS_SOFTWARE");
    lemma_apart("XDG_RUNTIME_DIR", "LIBGL_ALWAYS_SOFTWARE");
    reveal_strlit("EGUI_TESTER_WITNESS");
    lemma_apart("XDG_RUNTIME_DIR", "EGUI_TESTER_WITNESS");
    reveal_strlit("EGUI_TESTER_LAUNCH");
    lemma_apart("XDG_RUNTIME_DIR", "EGUI_TESTER_LAUNCH");
    reveal_strlit("EGUI_TESTER_FRAMES");
    lemma_apart("XDG_RUNTIME_DIR", "EGUI_TESTER_FRAMES");
}

proof fn lemma_tmpdir_is_its_own()
    ensures
        text::word("TMPDIR") != text::word("LANG"),
        text::word("TMPDIR") != text::word("LC_ALL"),
        text::word("TMPDIR") != text::word("TZ"),
        text::word("TMPDIR") != text::word("RUST_BACKTRACE"),
        text::word("TMPDIR") != text::word("DISPLAY"),
        text::word("TMPDIR") != text::word("XAUTHORITY"),
        text::word("TMPDIR") != text::word("WINIT_UNIX_BACKEND"),
        text::word("TMPDIR") != text::word("WAYLAND_DISPLAY"),
        text::word("TMPDIR") != text::word("LD_LIBRARY_PATH"),
        text::word("TMPDIR") != text::word("VK_ICD_FILENAMES"),
        text::word("TMPDIR") != text::word("LIBGL_ALWAYS_SOFTWARE"),
        text::word("TMPDIR") != text::word("EGUI_TESTER_WITNESS"),
        text::word("TMPDIR") != text::word("EGUI_TESTER_LAUNCH"),
        text::word("TMPDIR") != text::word("EGUI_TESTER_FRAMES"),
{
    reveal_strlit("TMPDIR");
    reveal_strlit("LANG");
    lemma_apart("TMPDIR", "LANG");
    reveal_strlit("LC_ALL");
    assert("TMPDIR"@[0] != "LC_ALL"@[0]);
    lemma_apart("TMPDIR", "LC_ALL");
    reveal_strlit("TZ");
    lemma_apart("TMPDIR", "TZ");
    reveal_strlit("RUST_BACKTRACE");
    lemma_apart("TMPDIR", "RUST_BACKTRACE");
    reveal_strlit("DISPLAY");
    lemma_apart("TMPDIR", "DISPLAY");
    reveal_strlit("XAUTHORITY");
    lemma_apart("TMPDIR", "XAUTHORITY");
    reveal_strlit("WINIT_UNIX_BACKEND");
    lemma_apart("TMPDIR", "WINIT_UNIX_BACKEND");
    reveal_strlit("WAYLAND_DISPLAY");
    lemma_apart("TMPDIR", "WAYLAND_DISPLAY");
    reveal_strlit("LD_LIBRARY_PATH");
    lemma_apart("TMPDIR", "LD_LIBRARY_PATH");
    reveal_strlit("VK_ICD_FILENAMES");
    lemma_apart("TMPDIR", "VK_ICD_FILENAMES");
    reveal_strlit("LIBGL_ALWAYS_SOFTWARE");
    lemma_apart("TMPDIR", "LIBGL_ALWAYS_SOFTWARE");
    reveal_strlit("EGUI_TESTER_WITNESS");
    lemma_apart("TMPDIR", "EGUI_TESTER_WITNESS");
    reveal_strlit("EGUI_TESTER_LAUNCH");
    lemma_apart("TMPDIR", "EGUI_TESTER_LAUNCH");
    reveal_strlit("EGUI_TESTER_FRAMES");
    lemma_apart("TMPDIR", "EGUI_TESTER_FRAMES");
}

proof fn lemma_lang_is_its_own()
    ensures
        text::word("LANG") != text::word("LC_ALL"),
        text::word("LANG") != text::word("TZ"),
        text::word("LANG") != text::word("RUST_BACKTRACE"),
        text::word("LANG") != text::word("DISPLAY"),
        text::word("LANG") != text::word("XAUTHORITY"),
        text::word("LANG") != text::word("WINIT_UNIX_BACKEND"),
        text::word("LANG") != text::word("WAYLAND_DISPLAY"),
        text::word("LANG") != text::word("LD_LIBRARY_PATH"),
        text::word("LANG") != text::word("VK_ICD_FILENAMES"),
        text::word("LANG") != text::word("LIBGL_ALWAYS_SOFTWARE"),
        text::word("LANG") != text::word("EGUI_TESTER_WITNESS"),
        text::word("LANG") != text::word("EGUI_TESTER_LAUNCH"),
        text::word("LANG") != text::word("EGUI_TESTER_FRAMES"),
{
    reveal_strlit("LANG");
    reveal_strlit("LC_ALL");
    lemma_apart("LANG", "LC_ALL");
    reveal_strlit("TZ");
    lemma_apart("LANG", "TZ");
    reveal_strlit("RUST_BACKTRACE");
    lemma_apart("LANG", "RUST_BACKTRACE");
    reveal_strlit("DISPLAY");
    lemma_apart("LANG", "DISPLAY");
    reveal_strlit("XAUTHORITY");
    lemma_apart("LANG", "XAUTHORITY");
    reveal_strlit("WINIT_UNIX_BACKEND");
    lemma_apart("LANG", "WINIT_UNIX_BACKEND");
    reveal_strlit("WAYLAND_DISPLAY");
    lemma_apart("LANG", "WAYLAND_DISPLAY");
    reveal_strlit("LD_LIBRARY_PATH");
    lemma_apart("LANG", "LD_LIBRARY_PATH");
    reveal_strlit("VK_ICD_FILENAMES");
    lemma_apart("LANG", "VK_ICD_FILENAMES");
    reveal_strlit("LIBGL_ALWAYS_SOFTWARE");
    lemma_apart("LANG", "LIBGL_ALWAYS_SOFTWARE");
    reveal_strlit("EGUI_TESTER_WITNESS");
    lemma_apart("LANG", "EGUI_TESTER_WITNESS");
    reveal_strlit("EGUI_TESTER_LAUNCH");
    lemma_apart("LANG", "EGUI_TESTER_LAUNCH");
    reveal_strlit("EGUI_TESTER_FRAMES");
    lemma_apart("LANG", "EGUI_TESTER_FRAMES");
}

proof fn lemma_lc_all_is_its_own()
    ensures
        text::word("LC_ALL") != text::word("TZ"),
        text::word("LC_ALL") != text::word("RUST_BACKTRACE"),
        text::word("LC_ALL") != text::word("DISPLAY"),
        text::word("LC_ALL") != text::word("XAUTHORITY"),
        text::word("LC_ALL") != text::word("WINIT_UNIX_BACKEND"),
        text::word("LC_ALL") != text::word("WAYLAND_DISPLAY"),
        text::word("LC_ALL") != text::word("LD_LIBRARY_PATH"),
        text::word("LC_ALL") != text::word("VK_ICD_FILENAMES"),
        text::word("LC_ALL") != text::word("LIBGL_ALWAYS_SOFTWARE"),
        text::word("LC_ALL") != text::word("EGUI_TESTER_WITNESS"),
        text::word("LC_ALL") != text::word("EGUI_TESTER_LAUNCH"),
        text::word("LC_ALL") != text::word("EGUI_TESTER_FRAMES"),
{
    reveal_strlit("LC_ALL");
    reveal_strlit("TZ");
    lemma_apart("LC_ALL", "TZ");
    reveal_strlit("RUST_BACKTRACE");
    lemma_apart("LC_ALL", "RUST_BACKTRACE");
    reveal_strlit("DISPLAY");
    lemma_apart("LC_ALL", "DISPLAY");
    reveal_strlit("XAUTHORITY");
    lemma_apart("LC_ALL", "XAUTHORITY");
    reveal_strlit("WINIT_UNIX_BACKEND");
    lemma_apart("LC_ALL", "WINIT_UNIX_BACKEND");
    reveal_strlit("WAYLAND_DISPLAY");
    lemma_apart("LC_ALL", "WAYLAND_DISPLAY");
    reveal_strlit("LD_LIBRARY_PATH");
    lemma_apart("LC_ALL", "LD_LIBRARY_PATH");
    reveal_strlit("VK_ICD_FILENAMES");
    lemma_apart("LC_ALL", "VK_ICD_FILENAMES");
    reveal_strlit("LIBGL_ALWAYS_SOFTWARE");
    lemma_apart("LC_ALL", "LIBGL_ALWAYS_SOFTWARE");
    reveal_strlit("EGUI_TESTER_WITNESS");
    lemma_apart("LC_ALL", "EGUI_TESTER_WITNESS");
    reveal_strlit("EGUI_TESTER_LAUNCH");
    lemma_apart("LC_ALL", "EGUI_TESTER_LAUNCH");
    reveal_strlit("EGUI_TESTER_FRAMES");
    lemma_apart("LC_ALL", "EGUI_TESTER_FRAMES");
}

proof fn lemma_tz_is_its_own()
    ensures
        text::word("TZ") != text::word("RUST_BACKTRACE"),
        text::word("TZ") != text::word("DISPLAY"),
        text::word("TZ") != text::word("XAUTHORITY"),
        text::word("TZ") != text::word("WINIT_UNIX_BACKEND"),
        text::word("TZ") != text::word("WAYLAND_DISPLAY"),
        text::word("TZ") != text::word("LD_LIBRARY_PATH"),
        text::word("TZ") != text::word("VK_ICD_FILENAMES"),
        text::word("TZ") != text::word("LIBGL_ALWAYS_SOFTWARE"),
        text::word("TZ") != text::word("EGUI_TESTER_WITNESS"),
        text::word("TZ") != text::word("EGUI_TESTER_LAUNCH"),
        text::word("TZ") != text::word("EGUI_TESTER_FRAMES"),
{
    reveal_strlit("TZ");
    reveal_strlit("RUST_BACKTRACE");
    lemma_apart("TZ", "RUST_BACKTRACE");
    reveal_strlit("DISPLAY");
    lemma_apart("TZ", "DISPLAY");
    reveal_strlit("XAUTHORITY");
    lemma_apart("TZ", "XAUTHORITY");
    reveal_strlit("WINIT_UNIX_BACKEND");
    lemma_apart("TZ", "WINIT_UNIX_BACKEND");
    reveal_strlit("WAYLAND_DISPLAY");
    lemma_apart("TZ", "WAYLAND_DISPLAY");
    reveal_strlit("LD_LIBRARY_PATH");
    lemma_apart("TZ", "LD_LIBRARY_PATH");
    reveal_strlit("VK_ICD_FILENAMES");
    lemma_apart("TZ", "VK_ICD_FILENAMES");
    reveal_strlit("LIBGL_ALWAYS_SOFTWARE");
    lemma_apart("TZ", "LIBGL_ALWAYS_SOFTWARE");
    reveal_strlit("EGUI_TESTER_WITNESS");
    lemma_apart("TZ", "EGUI_TESTER_WITNESS");
    reveal_strlit("EGUI_TESTER_LAUNCH");
    lemma_apart("TZ", "EGUI_TESTER_LAUNCH");
    reveal_strlit("EGUI_TESTER_FRAMES");
    lemma_apart("TZ", "EGUI_TESTER_FRAMES");
}

proof fn lemma_rust_backtrace_is_its_own()
    ensures
        text::word("RUST_BACKTRACE") != text::word("DISPLAY"),
        text::word("RUST_BACKTRACE") != text::word("XAUTHORITY"),
        text::word("RUST_BACKTRACE") != text::word("WINIT_UNIX_BACKEND"),
        text::word("RUST_BACKTRACE") != text::word("WAYLAND_DISPLAY"),
        text::word("RUST_BACKTRACE") != text::word("LD_LIBRARY_PATH"),
        text::word("RUST_BACKTRACE") != text::word("VK_ICD_FILENAMES"),
        text::word("RUST_BACKTRACE") != text::word("LIBGL_ALWAYS_SOFTWARE"),
        text::word("RUST_BACKTRACE") != text::word("EGUI_TESTER_WITNESS"),
        text::word("RUST_BACKTRACE") != text::word("EGUI_TESTER_LAUNCH"),
        text::word("RUST_BACKTRACE") != text::word("EGUI_TESTER_FRAMES"),
{
    reveal_strlit("RUST_BACKTRACE");
    reveal_strlit("DISPLAY");
    lemma_apart("RUST_BACKTRACE", "DISPLAY");
    reveal_strlit("XAUTHORITY");
    lemma_apart("RUST_BACKTRACE", "XAUTHORITY");
    reveal_strlit("WINIT_UNIX_BACKEND");
    lemma_apart("RUST_BACKTRACE", "WINIT_UNIX_BACKEND");
    reveal_strlit("WAYLAND_DISPLAY");
    lemma_apart("RUST_BACKTRACE", "WAYLAND_DISPLAY");
    reveal_strlit("LD_LIBRARY_PATH");
    lemma_apart("RUST_BACKTRACE", "LD_LIBRARY_PATH");
    reveal_strlit("VK_ICD_FILENAMES");
    lemma_apart("RUST_BACKTRACE", "VK_ICD_FILENAMES");
    reveal_strlit("LIBGL_ALWAYS_SOFTWARE");
    lemma_apart("RUST_BACKTRACE", "LIBGL_ALWAYS_SOFTWARE");
    reveal_strlit("EGUI_TESTER_WITNESS");
    lemma_apart("RUST_BACKTRACE", "EGUI_TESTER_WITNESS");
    reveal_strlit("EGUI_TESTER_LAUNCH");
    lemma_apart("RUST_BACKTRACE", "EGUI_TESTER_LAUNCH");
    reveal_strlit("EGUI_TESTER_FRAMES");
    lemma_apart("RUST_BACKTRACE", "EGUI_TESTER_FRAMES");
}

proof fn lemma_display_is_its_own()
    ensures
        text::word("DISPLAY") != text::word("XAUTHORITY"),
        text::word("DISPLAY") != text::word("WINIT_UNIX_BACKEND"),
        text::word("DISPLAY") != text::word("WAYLAND_DISPLAY"),
        text::word("DISPLAY") != text::word("LD_LIBRARY_PATH"),
        text::word("DISPLAY") != text::word("VK_ICD_FILENAMES"),
        text::word("DISPLAY") != text::word("LIBGL_ALWAYS_SOFTWARE"),
        text::word("DISPLAY") != text::word("EGUI_TESTER_WITNESS"),
        text::word("DISPLAY") != text::word("EGUI_TESTER_LAUNCH"),
        text::word("DISPLAY") != text::word("EGUI_TESTER_FRAMES"),
{
    reveal_strlit("DISPLAY");
    reveal_strlit("XAUTHORITY");
    lemma_apart("DISPLAY", "XAUTHORITY");
    reveal_strlit("WINIT_UNIX_BACKEND");
    lemma_apart("DISPLAY", "WINIT_UNIX_BACKEND");
    reveal_strlit("WAYLAND_DISPLAY");
    lemma_apart("DISPLAY", "WAYLAND_DISPLAY");
    reveal_strlit("LD_LIBRARY_PATH");
    lemma_apart("DISPLAY", "LD_LIBRARY_PATH");
    reveal_strlit("VK_ICD_FILENAMES");
    lemma_apart("DISPLAY", "VK_ICD_FILENAMES");
    reveal_strlit("LIBGL_ALWAYS_SOFTWARE");
    lemma_apart("DISPLAY", "LIBGL_ALWAYS_SOFTWARE");
    reveal_strlit("EGUI_TESTER_WITNESS");
    lemma_apart("DISPLAY", "EGUI_TESTER_WITNESS");
    reveal_strlit("EGUI_TESTER_LAUNCH");
    lemma_apart("DISPLAY", "EGUI_TESTER_LAUNCH");
    reveal_strlit("EGUI_TESTER_FRAMES");
    lemma_apart("DISPLAY", "EGUI_TESTER_FRAMES");
}

proof fn lemma_xauthority_is_its_own()
    ensures
        text::word("XAUTHORITY") != text::word("WINIT_UNIX_BACKEND"),
        text::word("XAUTHORITY") != text::word("WAYLAND_DISPLAY"),
        text::word("XAUTHORITY") != text::word("LD_LIBRARY_PATH"),
        text::word("XAUTHORITY") != text::word("VK_ICD_FILENAMES"),
        text::word("XAUTHORITY") != text::word("LIBGL_ALWAYS_SOFTWARE"),
        text::word("XAUTHORITY") != text::word("EGUI_TESTER_WITNESS"),
        text::word("XAUTHORITY") != text::word("EGUI_TESTER_LAUNCH"),
        text::word("XAUTHORITY") != text::word("EGUI_TESTER_FRAMES"),
{
    reveal_strlit("XAUTHORITY");
    reveal_strlit("WINIT_UNIX_BACKEND");
    lemma_apart("XAUTHORITY", "WINIT_UNIX_BACKEND");
    reveal_strlit("WAYLAND_DISPLAY");
    lemma_apart("XAUTHORITY", "WAYLAND_DISPLAY");
    reveal_strlit("LD_LIBRARY_PATH");
    lemma_apart("XAUTHORITY", "LD_LIBRARY_PATH");
    reveal_strlit("VK_ICD_FILENAMES");
    lemma_apart("XAUTHORITY", "VK_ICD_FILENAMES");
    reveal_strlit("LIBGL_ALWAYS_SOFTWARE");
    lemma_apart("XAUTHORITY", "LIBGL_ALWAYS_SOFTWARE");
    reveal_strlit("EGUI_TESTER_WITNESS");
    lemma_apart("XAUTHORITY", "EGUI_TESTER_WITNESS");
    reveal_strlit("EGUI_TESTER_LAUNCH");
    lemma_apart("XAUTHORITY", "EGUI_TESTER_LAUNCH");
    reveal_strlit("EGUI_TESTER_FRAMES");
    lemma_apart("XAUTHORITY", "EGUI_TESTER_FRAMES");
}

proof fn lemma_winit_unix_backend_is_its_own()
    ensures
        text::word("WINIT_UNIX_BACKEND") != text::word("WAYLAND_DISPLAY"),
        text::word("WINIT_UNIX_BACKEND") != text::word("LD_LIBRARY_PATH"),
        text::word("WINIT_UNIX_BACKEND") != text::word("VK_ICD_FILENAMES"),
        text::word("WINIT_UNIX_BACKEND") != text::word("LIBGL_ALWAYS_SOFTWARE"),
        text::word("WINIT_UNIX_BACKEND") != text::word("EGUI_TESTER_WITNESS"),
        text::word("WINIT_UNIX_BACKEND") != text::word("EGUI_TESTER_LAUNCH"),
        text::word("WINIT_UNIX_BACKEND") != text::word("EGUI_TESTER_FRAMES"),
{
    reveal_strlit("WINIT_UNIX_BACKEND");
    reveal_strlit("WAYLAND_DISPLAY");
    lemma_apart("WINIT_UNIX_BACKEND", "WAYLAND_DISPLAY");
    reveal_strlit("LD_LIBRARY_PATH");
    lemma_apart("WINIT_UNIX_BACKEND", "LD_LIBRARY_PATH");
    reveal_strlit("VK_ICD_FILENAMES");
    lemma_apart("WINIT_UNIX_BACKEND", "VK_ICD_FILENAMES");
    reveal_strlit("LIBGL_ALWAYS_SOFTWARE");
    lemma_apart("WINIT_UNIX_BACKEND", "LIBGL_ALWAYS_SOFTWARE");
    reveal_strlit("EGUI_TESTER_WITNESS");
    lemma_apart("WINIT_UNIX_BACKEND", "EGUI_TESTER_WITNESS");
    reveal_strlit("EGUI_TESTER_LAUNCH");
    assert("WINIT_UNIX_BACKEND"@[0] != "EGUI_TESTER_LAUNCH"@[0]);
    lemma_apart("WINIT_UNIX_BACKEND", "EGUI_TESTER_LAUNCH");
    reveal_strlit("EGUI_TESTER_FRAMES");
    assert("WINIT_UNIX_BACKEND"@[0] != "EGUI_TESTER_FRAMES"@[0]);
    lemma_apart("WINIT_UNIX_BACKEND", "EGUI_TESTER_FRAMES");
}

proof fn lemma_wayland_display_is_its_own()
    ensures
        text::word("WAYLAND_DISPLAY") != text::word("LD_LIBRARY_PATH"),
        text::word("WAYLAND_DISPLAY") != text::word("VK_ICD_FILENAMES"),
        text::word("WAYLAND_DISPLAY") != text::word("LIBGL_ALWAYS_SOFTWARE"),
        text::word("WAYLAND_DISPLAY") != text::word("EGUI_TESTER_WITNESS"),
        text::word("WAYLAND_DISPLAY") != text::word("EGUI_TESTER_LAUNCH"),
        text::word("WAYLAND_DISPLAY") != text::word("EGUI_TESTER_FRAMES"),
{
    reveal_strlit("WAYLAND_DISPLAY");
    reveal_strlit("LD_LIBRARY_PATH");
    assert("WAYLAND_DISPLAY"@[0] != "LD_LIBRARY_PATH"@[0]);
    lemma_apart("WAYLAND_DISPLAY", "LD_LIBRARY_PATH");
    reveal_strlit("VK_ICD_FILENAMES");
    lemma_apart("WAYLAND_DISPLAY", "VK_ICD_FILENAMES");
    reveal_strlit("LIBGL_ALWAYS_SOFTWARE");
    lemma_apart("WAYLAND_DISPLAY", "LIBGL_ALWAYS_SOFTWARE");
    reveal_strlit("EGUI_TESTER_WITNESS");
    lemma_apart("WAYLAND_DISPLAY", "EGUI_TESTER_WITNESS");
    reveal_strlit("EGUI_TESTER_LAUNCH");
    lemma_apart("WAYLAND_DISPLAY", "EGUI_TESTER_LAUNCH");
    reveal_strlit("EGUI_TESTER_FRAMES");
    lemma_apart("WAYLAND_DISPLAY", "EGUI_TESTER_FRAMES");
}

proof fn lemma_ld_library_path_is_its_own()
    ensures
        text::word("LD_LIBRARY_PATH") != text::word("VK_ICD_FILENAMES"),
        text::word("LD_LIBRARY_PATH") != text::word("LIBGL_ALWAYS_SOFTWARE"),
        text::word("LD_LIBRARY_PATH") != text::word("EGUI_TESTER_WITNESS"),
        text::word("LD_LIBRARY_PATH") != text::word("EGUI_TESTER_LAUNCH"),
        text::word("LD_LIBRARY_PATH") != text::word("EGUI_TESTER_FRAMES"),
{
    reveal_strlit("LD_LIBRARY_PATH");
    reveal_strlit("VK_ICD_FILENAMES");
    lemma_apart("LD_LIBRARY_PATH", "VK_ICD_FILENAMES");
    reveal_strlit("LIBGL_ALWAYS_SOFTWARE");
    lemma_apart("LD_LIBRARY_PATH", "LIBGL_ALWAYS_SOFTWARE");
    reveal_strlit("EGUI_TESTER_WITNESS");
    lemma_apart("LD_LIBRARY_PATH", "EGUI_TESTER_WITNESS");
    reveal_strlit("EGUI_TESTER_LAUNCH");
    lemma_apart("LD_LIBRARY_PATH", "EGUI_TESTER_LAUNCH");
    reveal_strlit("EGUI_TESTER_FRAMES");
    lemma_apart("LD_LIBRARY_PATH", "EGUI_TESTER_FRAMES");
}

proof fn lemma_vk_icd_filenames_is_its_own()
    ensures
        text::word("VK_ICD_FILENAMES") != text::word("LIBGL_ALWAYS_SOFTWARE"),
        text::word("VK_ICD_FILENAMES") != text::word("EGUI_TESTER_WITNESS"),
        text::word("VK_ICD_FILENAMES") != text::word("EGUI_TESTER_LAUNCH"),
        text::word("VK_ICD_FILENAMES") != text::word("EGUI_TESTER_FRAMES"),
{
    reveal_strlit("VK_ICD_FILENAMES");
    reveal_strlit("LIBGL_ALWAYS_SOFTWARE");
    lemma_apart("VK_ICD_FILENAMES", "LIBGL_ALWAYS_SOFTWARE");
    reveal_strlit("EGUI_TESTER_WITNESS");
    lemma_apart("VK_ICD_FILENAMES", "EGUI_TESTER_WITNESS");
    reveal_strlit("EGUI_TESTER_LAUNCH");
    lemma_apart("VK_ICD_FILENAMES", "EGUI_TESTER_LAUNCH");
    reveal_strlit("EGUI_TESTER_FRAMES");
    lemma_apart("VK_ICD_FILENAMES", "EGUI_TESTER_FRAMES");
}

proof fn lemma_libgl_always_software_is_its_own()
    ensures
        text::word("LIBGL_ALWAYS_SOFTWARE") != text::word("EGUI_TESTER_WITNESS"),
        text::word("LIBGL_ALWAYS_SOFTWARE") != text::word("EGUI_TESTER_LAUNCH"),
        text::word("LIBGL_ALWAYS_SOFTWARE") != text::word("EGUI_TESTER_FRAMES"),
{
    reveal_strlit("LIBGL_ALWAYS_SOFTWARE");
    reveal_strlit("EGUI_TESTER_WITNESS");
    lemma_apart("LIBGL_ALWAYS_SOFTWARE", "EGUI_TESTER_WITNESS");
    reveal_strlit("EGUI_TESTER_LAUNCH");
    lemma_apart("LIBGL_ALWAYS_SOFTWARE", "EGUI_TESTER_LAUNCH");
    reveal_strlit("EGUI_TESTER_FRAMES");
    lemma_apart("LIBGL_ALWAYS_SOFTWARE", "EGUI_TESTER_FRAMES");
}

proof fn lemma_egui_tester_witness_is_its_own()
    ensures
        text::word("EGUI_TESTER_WITNESS") != text::word("EGUI_TESTER_LAUNCH"),
        text::word("EGUI_TESTER_WITNESS") != text::word("EGUI_TESTER_FRAMES"),
{
    reveal_strlit("EGUI_TESTER_WITNESS");
    reveal_strlit("EGUI_TESTER_LAUNCH");
    lemma_apart("EGUI_TESTER_WITNESS", "EGUI_TESTER_LAUNCH");
    reveal_strlit("EGUI_TESTER_FRAMES");
    lemma_apart("EGUI_TESTER_WITNESS", "EGUI_TESTER_FRAMES");
}

proof fn lemma_egui_tester_launch_is_its_own()
    ensures
        text::word("EGUI_TESTER_LAUNCH") != text::word("EGUI_TESTER_FRAMES"),
{
    reveal_strlit("EGUI_TESTER_LAUNCH");
    reveal_strlit("EGUI_TESTER_FRAMES");
    assert("EGUI_TESTER_LAUNCH"@[12] != "EGUI_TESTER_FRAMES"@[12]);
    lemma_apart("EGUI_TESTER_LAUNCH", "EGUI_TESTER_FRAMES");
}

proof fn lemma_reserved()
    ensures
        command::is_reserved(text::word("PATH")),
        command::is_reserved(text::word("HOME")),
        command::is_reserved(text::word("XDG_CONFIG_HOME")),
        command::is_reserved(text::word("XDG_CACHE_HOME")),
        command::is_reserved(text::word("XDG_DATA_HOME")),
        command::is_reserved(text::word("XDG_STATE_HOME")),
        command::is_reserved(text::word("XDG_RUNTIME_DIR")),
        command::is_reserved(text::word("TMPDIR")),
        command::is_reserved(text::word("LANG")),
        command::is_reserved(text::word("LC_ALL")),
        command::is_reserved(text::word("TZ")),
        command::is_reserved(text::word("RUST_BACKTRACE")),
        command::is_reserved(text::word("DISPLAY")),
        command::is_reserved(text::word("XAUTHORITY")),
        command::is_reserved(text::word("WINIT_UNIX_BACKEND")),
        command::is_reserved(text::word("WAYLAND_DISPLAY")),
        command::is_reserved(text::word("LD_LIBRARY_PATH")),
        command::is_reserved(text::word("VK_ICD_FILENAMES")),
        command::is_reserved(text::word("LIBGL_ALWAYS_SOFTWARE")),
        command::is_reserved(text::word("EGUI_TESTER_WITNESS")),
        command::is_reserved(text::word("EGUI_TESTER_LAUNCH")),
        command::is_reserved(text::word("EGUI_TESTER_FRAMES")),
{
    let list = command::reserved();
    assert(text::word("PATH") == text::word(list[0]));
    assert(text::word("HOME") == text::word(list[5]));
    assert(text::word("XDG_CONFIG_HOME") == text::word(list[7]));
    assert(text::word("XDG_CACHE_HOME") == text::word(list[8]));
    assert(text::word("XDG_DATA_HOME") == text::word(list[9]));
    assert(text::word("XDG_STATE_HOME") == text::word(list[10]));
    assert(text::word("XDG_RUNTIME_DIR") == text::word(list[11]));
    assert(text::word("TMPDIR") == text::word(list[6]));
    assert(text::word("LANG") == text::word(list[14]));
    assert(text::word("LC_ALL") == text::word(list[15]));
    assert(text::word("TZ") == text::word(list[16]));
    assert(text::word("RUST_BACKTRACE") == text::word(list[17]));
    assert(text::word("DISPLAY") == text::word(list[1]));
    assert(text::word("XAUTHORITY") == text::word(list[3]));
    assert(text::word("WINIT_UNIX_BACKEND") == text::word(list[4]));
    assert(text::word("WAYLAND_DISPLAY") == text::word(list[2]));
    assert(text::word("LD_LIBRARY_PATH") == text::word(list[18]));
    assert(text::word("VK_ICD_FILENAMES") == text::word(list[21]));
    assert(text::word("LIBGL_ALWAYS_SOFTWARE") == text::word(list[24]));
    assert(text::word("EGUI_TESTER_WITNESS") == text::word(list[31]));
    assert(text::word("EGUI_TESTER_LAUNCH") == text::word(list[32]));
    assert(text::word("EGUI_TESTER_FRAMES") == text::word(list[33]));
}

/// What the harness sets, name by name.
#[verifier::spinoff_prover]
#[verifier::rlimit(60)]
proof fn lemma_seal(
    display: DisplayServerView,
    graphics: Graphics,
    witness: Option<seal::WitnessSealView>,
)
    ensures
        ({
            let whole = seal::seal_of(display, graphics, witness);
            &&& private_places(whole)
            &&& points_at_display(whole, display)
            &&& points_at_renderer(whole, graphics)
            &&& arms_witness(whole, witness)
        }),
{
    lemma_path_is_its_own();
    lemma_home_is_its_own();
    lemma_xdg_config_home_is_its_own();
    lemma_xdg_cache_home_is_its_own();
    lemma_xdg_data_home_is_its_own();
    lemma_xdg_state_home_is_its_own();
    lemma_xdg_runtime_dir_is_its_own();
    lemma_tmpdir_is_its_own();
    lemma_lang_is_its_own();
    lemma_lc_all_is_its_own();
    lemma_tz_is_its_own();
    lemma_rust_backtrace_is_its_own();
    lemma_display_is_its_own();
    lemma_xauthority_is_its_own();
    lemma_winit_unix_backend_is_its_own();
    lemma_wayland_display_is_its_own();
    lemma_ld_library_path_is_its_own();
    lemma_vk_icd_filenames_is_its_own();
    lemma_libgl_always_software_is_its_own();
    lemma_egui_tester_witness_is_its_own();
    lemma_egui_tester_launch_is_its_own();
}

/// Whether an environment keeps an application in its private places: its home, its
/// state, and its temporary files lie beneath the private root, it runs what the system
/// directory holds, and its locale and time are those of no place in particular.
pub open spec fn private_places(environment: Map<Seq<u8>, Seq<u8>>) -> bool {
    &&& sets(environment, "PATH", text::word("/usr/bin"))
    &&& sets(environment, "HOME", text::word("/test/home"))
    &&& sets(environment, "XDG_CONFIG_HOME", text::word("/test/xdg/config"))
    &&& sets(environment, "XDG_CACHE_HOME", text::word("/test/xdg/cache"))
    &&& sets(environment, "XDG_DATA_HOME", text::word("/test/xdg/data"))
    &&& sets(environment, "XDG_STATE_HOME", text::word("/test/xdg/state"))
    &&& sets(environment, "XDG_RUNTIME_DIR", text::word("/test/xdg/runtime"))
    &&& sets(environment, "TMPDIR", text::word("/test/tmp"))
    &&& sets(environment, "LANG", text::word("C.UTF-8"))
    &&& sets(environment, "LC_ALL", text::word("C.UTF-8"))
    &&& sets(environment, "TZ", text::word("UTC"))
    &&& sets(environment, "RUST_BACKTRACE", text::word("1"))
}

/// Whether an environment names the private display, and no display of the other kind.
pub open spec fn points_at_display(
    environment: Map<Seq<u8>, Seq<u8>>,
    display: DisplayServerView,
) -> bool {
    match display {
        DisplayServerView::X11 { display, .. } => {
            &&& sets(environment, "DISPLAY", encode_utf8(":"@ + text::decimal(display as nat)))
            &&& sets(environment, "XAUTHORITY", text::word("/test/xauthority"))
            &&& sets(environment, "WINIT_UNIX_BACKEND", text::word("x11"))
            &&& leaves(environment, "WAYLAND_DISPLAY")
        },
        DisplayServerView::Wayland { socket_name } => {
            &&& sets(environment, "WAYLAND_DISPLAY", encode_utf8(socket_name))
            &&& sets(environment, "WINIT_UNIX_BACKEND", text::word("wayland"))
            &&& leaves(environment, "DISPLAY")
            &&& leaves(environment, "XAUTHORITY")
        },
    }
}

/// Whether an environment names the software renderer beneath its mount exactly where
/// software graphics are granted.
pub open spec fn points_at_renderer(
    environment: Map<Seq<u8>, Seq<u8>>,
    graphics: Graphics,
) -> bool {
    match graphics {
        Graphics::Software => {
            &&& sets(
                environment,
                "LD_LIBRARY_PATH",
                text::word("/opt/egui-tester/lavapipe/usr/lib"),
            )
            &&& sets(
                environment,
                "VK_ICD_FILENAMES",
                text::word("/opt/egui-tester/lavapipe/usr/share/vulkan/icd.d/lvp_icd.json"),
            )
            &&& sets(environment, "LIBGL_ALWAYS_SOFTWARE", text::word("1"))
        },
        Graphics::Host => {
            &&& leaves(environment, "LD_LIBRARY_PATH")
            &&& leaves(environment, "VK_ICD_FILENAMES")
            &&& leaves(environment, "LIBGL_ALWAYS_SOFTWARE")
        },
    }
}

/// Whether an environment tells of the witness exactly where it is armed: the journals
/// at their guest paths, and the launch that seals them.
pub open spec fn arms_witness(
    environment: Map<Seq<u8>, Seq<u8>>,
    witness: Option<seal::WitnessSealView>,
) -> bool {
    match witness {
        Some(seal) => {
            &&& sets(environment, "EGUI_TESTER_WITNESS", seal.guest)
            &&& sets(environment, "EGUI_TESTER_LAUNCH", encode_utf8(seal.launch))
            &&& sets(environment, "EGUI_TESTER_FRAMES", seal.frame_guest)
        },
        None => {
            &&& leaves(environment, "EGUI_TESTER_WITNESS")
            &&& leaves(environment, "EGUI_TESTER_LAUNCH")
            &&& leaves(environment, "EGUI_TESTER_FRAMES")
        },
    }
}

/// The environment of an accepted launch keeps the application in its private places,
/// names its display, names the mounted software renderer exactly where software
/// graphics are granted, and tells of the witness exactly where it is armed, whatever
/// variables the command sets. Every variable of the command reaches the application.
pub proof fn law_launches_see_their_own_world(
    display: &DisplayServer,
    command: &AppCommand,
    witness: &Option<WitnessSeal>,
    environment: Environment,
)
    requires
        command::validate_command.ensures((command,), Ok(())),
        seal::sealed_environment.ensures((display, command, witness), environment),
    ensures
        private_places(environment@),
        points_at_display(environment@, display@),
        points_at_renderer(environment@, command@.graphics),
        arms_witness(environment@, seal::optional_seal(*witness)),
        forall|name: Seq<u8>| #[trigger]
            command@.env.dom().contains(name) ==> environment@.dom().contains(name)
                && environment@[name] == command@.env[name],
{
    lemma_seal(display@, command@.graphics, seal::optional_seal(*witness));
    lemma_reserved();
    let listing = command.listing();
    command::law_reserved_variables_stay_sealed(command@, listing, text::word("PATH"));
    command::law_reserved_variables_stay_sealed(command@, listing, text::word("HOME"));
    command::law_reserved_variables_stay_sealed(command@, listing, text::word("XDG_CONFIG_HOME"));
    command::law_reserved_variables_stay_sealed(command@, listing, text::word("XDG_CACHE_HOME"));
    command::law_reserved_variables_stay_sealed(command@, listing, text::word("XDG_DATA_HOME"));
    command::law_reserved_variables_stay_sealed(command@, listing, text::word("XDG_STATE_HOME"));
    command::law_reserved_variables_stay_sealed(command@, listing, text::word("XDG_RUNTIME_DIR"));
    command::law_reserved_variables_stay_sealed(command@, listing, text::word("TMPDIR"));
    command::law_reserved_variables_stay_sealed(command@, listing, text::word("LANG"));
    command::law_reserved_variables_stay_sealed(command@, listing, text::word("LC_ALL"));
    command::law_reserved_variables_stay_sealed(command@, listing, text::word("TZ"));
    command::law_reserved_variables_stay_sealed(command@, listing, text::word("RUST_BACKTRACE"));
    command::law_reserved_variables_stay_sealed(command@, listing, text::word("DISPLAY"));
    command::law_reserved_variables_stay_sealed(command@, listing, text::word("XAUTHORITY"));
    command::law_reserved_variables_stay_sealed(command@, listing, text::word("WINIT_UNIX_BACKEND"));
    command::law_reserved_variables_stay_sealed(command@, listing, text::word("WAYLAND_DISPLAY"));
    command::law_reserved_variables_stay_sealed(command@, listing, text::word("LD_LIBRARY_PATH"));
    command::law_reserved_variables_stay_sealed(command@, listing, text::word("VK_ICD_FILENAMES"));
    command::law_reserved_variables_stay_sealed(command@, listing, text::word("LIBGL_ALWAYS_SOFTWARE"));
    command::law_reserved_variables_stay_sealed(command@, listing, text::word("EGUI_TESTER_WITNESS"));
    command::law_reserved_variables_stay_sealed(command@, listing, text::word("EGUI_TESTER_LAUNCH"));
    command::law_reserved_variables_stay_sealed(command@, listing, text::word("EGUI_TESTER_FRAMES"));
}

// ---------------------------------------------------------------------------
// Commands
// ---------------------------------------------------------------------------

/// The variables that decide programs and private places.
pub open spec fn locates(name: Seq<u8>) -> bool {
    ||| name == text::word("PATH")
    ||| name == text::word("HOME")
    ||| name == text::word("TMPDIR")
    ||| name == text::word("XDG_CONFIG_HOME")
    ||| name == text::word("XDG_CACHE_HOME")
    ||| name == text::word("XDG_DATA_HOME")
    ||| name == text::word("XDG_STATE_HOME")
    ||| name == text::word("XDG_RUNTIME_DIR")
}

/// The variables that decide the display.
pub open spec fn shows(name: Seq<u8>) -> bool {
    ||| name == text::word("DISPLAY")
    ||| name == text::word("WAYLAND_DISPLAY")
    ||| name == text::word("XAUTHORITY")
    ||| name == text::word("WINIT_UNIX_BACKEND")
}

/// The variables that decide a message bus.
pub open spec fn calls(name: Seq<u8>) -> bool {
    ||| name == text::word("DBUS_SESSION_BUS_ADDRESS")
    ||| name == text::word("DBUS_SYSTEM_BUS_ADDRESS")
}

/// The variables that decide locale, time, and diagnostics.
pub open spec fn settles(name: Seq<u8>) -> bool {
    ||| name == text::word("LANG")
    ||| name == text::word("LC_ALL")
    ||| name == text::word("TZ")
    ||| name == text::word("RUST_BACKTRACE")
}

/// The variables that decide what is linked.
pub open spec fn loads(name: Seq<u8>) -> bool {
    ||| name == text::word("LD_LIBRARY_PATH")
    ||| name == text::word("LD_PRELOAD")
    ||| name == text::word("LD_AUDIT")
}

/// The variables that decide the renderer.
pub open spec fn renders(name: Seq<u8>) -> bool {
    ||| name == text::word("VK_ICD_FILENAMES")
    ||| name == text::word("VK_DRIVER_FILES")
    ||| name == text::word("VK_ADD_DRIVER_FILES")
    ||| name == text::word("LIBGL_ALWAYS_SOFTWARE")
    ||| name == text::word("LIBGL_DRIVERS_PATH")
    ||| name == text::word("MESA_LOADER_DRIVER_OVERRIDE")
    ||| name == text::word("WGPU_BACKEND")
    ||| name == text::word("WGPU_POWER_PREF")
    ||| name == text::word("__GLX_VENDOR_LIBRARY_NAME")
    ||| name == text::word("DRI_PRIME")
}

/// The variables that decide the witness.
pub open spec fn witnesses(name: Seq<u8>) -> bool {
    ||| name == text::word("EGUI_TESTER_WITNESS")
    ||| name == text::word("EGUI_TESTER_LAUNCH")
    ||| name == text::word("EGUI_TESTER_FRAMES")
}

/// The variables that belong to the harness, whether or not it sets them.
pub open spec fn harness_owns(name: Seq<u8>) -> bool {
    locates(name) || shows(name) || calls(name) || settles(name) || loads(name) || renders(name)
        || witnesses(name)
}

proof fn lemma_harness_owns(name: Seq<u8>)
    ensures
        harness_owns(name) == command::is_reserved(name),
{
    let list = command::reserved();
    assert(list[0] == "PATH");
    assert(list[1] == "DISPLAY");
    assert(list[2] == "WAYLAND_DISPLAY");
    assert(list[3] == "XAUTHORITY");
    assert(list[4] == "WINIT_UNIX_BACKEND");
    assert(list[5] == "HOME");
    assert(list[6] == "TMPDIR");
    assert(list[7] == "XDG_CONFIG_HOME");
    assert(list[8] == "XDG_CACHE_HOME");
    assert(list[9] == "XDG_DATA_HOME");
    assert(list[10] == "XDG_STATE_HOME");
    assert(list[11] == "XDG_RUNTIME_DIR");
    assert(list[12] == "DBUS_SESSION_BUS_ADDRESS");
    assert(list[13] == "DBUS_SYSTEM_BUS_ADDRESS");
    assert(list[14] == "LANG");
    assert(list[15] == "LC_ALL");
    assert(list[16] == "TZ");
    assert(list[17] == "RUST_BACKTRACE");
    assert(list[18] == "LD_LIBRARY_PATH");
    assert(list[19] == "LD_PRELOAD");
    assert(list[20] == "LD_AUDIT");
    assert(list[21] == "VK_ICD_FILENAMES");
    assert(list[22] == "VK_DRIVER_FILES");
    assert(list[23] == "VK_ADD_DRIVER_FILES");
    assert(list[24] == "LIBGL_ALWAYS_SOFTWARE");
    assert(list[25] == "LIBGL_DRIVERS_PATH");
    assert(list[26] == "MESA_LOADER_DRIVER_OVERRIDE");
    assert(list[27] == "WGPU_BACKEND");
    assert(list[28] == "WGPU_POWER_PREF");
    assert(list[29] == "__GLX_VENDOR_LIBRARY_NAME");
    assert(list[30] == "DRI_PRIME");
    assert(list[31] == "EGUI_TESTER_WITNESS");
    assert(list[32] == "EGUI_TESTER_LAUNCH");
    assert(list[33] == "EGUI_TESTER_FRAMES");
    if command::is_reserved(name) {
        let i = choose|i: int|
            0 <= i < command::reserved().len() && name == text::word(
                #[trigger] command::reserved()[i],
            );
        assert(list.len() == 34);
    }
}

/// Whether a host path may be revealed to an application: an absolute path made of names
/// alone, outside everything that the harness itself puts into the sandbox.
pub open spec fn may_be_borrowed(path: Seq<u8>) -> bool {
    &&& ospath::normalized(path)
    &&& !ospath::within(path, text::word("/app"))
    &&& !ospath::within(path, text::word("/dev"))
    &&& !ospath::within(path, text::word("/proc"))
    &&& !ospath::within(path, text::word("/run"))
    &&& !ospath::within(path, text::word("/sys"))
    &&& !ospath::within(path, text::word("/test"))
    &&& !ospath::within(path, text::word("/tmp/.X11-unix"))
}

proof fn lemma_borrow(path: Seq<u8>)
    ensures
        command::borrow_objection(path) is None <==> may_be_borrowed(path),
{
    let roots = command::guest_roots();
    assert(roots =~= seq!["/app", "/dev", "/proc", "/run", "/sys", "/test"]);
    reveal_with_fuel(command::overlapped_root, 8);
}

proof fn lemma_borrows(borrows: Seq<Seq<u8>>, from: int)
    requires
        0 <= from,
    ensures
        command::borrows_objection(borrows, from) is None <==> forall|i: int|
            from <= i < borrows.len() ==> may_be_borrowed(#[trigger] borrows[i]),
    decreases borrows.len() - from,
{
    if from < borrows.len() {
        lemma_borrow(borrows[from]);
        lemma_borrows(borrows, from + 1);
    }
}

proof fn lemma_variables(listing: Seq<(Seq<u8>, Seq<u8>)>, from: int)
    requires
        0 <= from,
    ensures
        command::first_reserved(listing, from) is None <==> forall|i: int|
            from <= i < listing.len() ==> !harness_owns((#[trigger] listing[i]).0),
    decreases listing.len() - from,
{
    if from < listing.len() {
        lemma_harness_owns(listing[from].0);
        lemma_variables(listing, from + 1);
    }
}

/// A command is accepted exactly where none of its private paths climbs out, it sets no
/// variable that belongs to the harness, every path that it borrows may be borrowed, and
/// it may run for some time.
pub proof fn law_commands_are_refused_for_a_breach(
    command: &AppCommand,
    verdict: std::result::Result<(), Error>,
)
    requires
        command::validate_command.ensures((command,), verdict),
    ensures
        verdict is Ok <==> {
            &&& command@.violations.len() == 0
            &&& forall|name: Seq<u8>| #[trigger]
                command@.env.dom().contains(name) ==> !harness_owns(name)
            &&& forall|i: int|
                0 <= i < command@.borrows.len() ==> may_be_borrowed(#[trigger] command@.borrows[i])
            &&& command@.runtime > 0
        },
        verdict matches Err(error) ==> error@ is Containment,
{
    let listing = command.listing();
    lemma_variables(listing, 0);
    lemma_borrows(command@.borrows, 0);
    if forall|name: Seq<u8>| #[trigger] command@.env.dom().contains(name) ==> !harness_owns(name) {
        assert forall|i: int| 0 <= i < listing.len() implies !harness_owns(
            (#[trigger] listing[i]).0,
        ) by {
            assert(environment::names(listing, listing[i].0));
            assert(command@.env.dom().contains(listing[i].0));
        }
    }
    if forall|i: int| 0 <= i < listing.len() ==> !harness_owns((#[trigger] listing[i]).0) {
        assert forall|name: Seq<u8>| #[trigger]
            command@.env.dom().contains(name) implies !harness_owns(name) by {
            assert(environment::names(listing, name));
            let i = environment::place(listing, name);
            assert(!harness_owns(listing[i].0));
        }
    }
}

/// A fresh command is granted nothing: no argument, no variable, no borrow, no network,
/// no device of the host, and no witness, for two minutes.
pub proof fn law_fresh_commands_are_granted_nothing(binary: &Vec<u8>, fresh: AppCommand)
    requires
        AppCommand::new.ensures((binary,), fresh),
    ensures
        fresh@.binary == binary@,
        fresh@.args.len() == 0,
        forall|name: Seq<u8>| !#[trigger] fresh@.env.dom().contains(name),
        fresh@.borrows.len() == 0,
        fresh@.violations.len() == 0,
        fresh@.network == Network::Deny,
        fresh@.graphics == Graphics::Software,
        fresh@.runtime == 120 * 1_000_000_000,
        fresh@.witness is None,
{
}

proof fn lemma_private_root()
    ensures
        text::word("/test").len() > 0,
        text::word("/test").last() != 47,
{
    broadcast use vstd::utf8::is_ascii_chars_encode_utf8;

    reveal_strlit("/test");
    assert(is_ascii_chars("/test"@));
    assert(text::word("/test").len() == 5);
    assert(text::word("/test")[4] == 't' as u8);
}

/// A part of a command.
pub enum Part {
    Arguments,
    Variables,
    Borrows,
    Authority,
    Witness,
}

/// Whether two commands differ in nothing but, at most, one part, and in what is held
/// against them.
pub open spec fn alike_but(left: AppCommandView, right: AppCommandView, part: Part) -> bool {
    &&& left.binary == right.binary
    &&& part is Arguments || left.args == right.args
    &&& part is Variables || left.env == right.env
    &&& part is Borrows || left.borrows == right.borrows
    &&& part is Authority || (left.network == right.network && left.graphics == right.graphics
        && left.runtime == right.runtime)
    &&& part is Witness || left.witness == right.witness
}

/// Each step of building a command grants what it names, and nothing else: an argument
/// goes behind the others, a variable replaces its namesake, a borrow joins the others,
/// and an authority takes the place of the one before it. A private variable or a witness
/// lies beneath the private root, and its path is held against the command where it is
/// not confined.
pub proof fn law_commands_are_granted_what_they_name(
    before: AppCommand,
    key: &Vec<u8>,
    value: &Vec<u8>,
    list: &Vec<Vec<u8>>,
    network: Network,
    graphics: Graphics,
    runtime: Duration,
    after: AppCommand,
)
    ensures
        AppCommand::arg.ensures((before, value), after) ==> after@.args == before@.args.push(value@)
            && alike_but(before@, after@, Part::Arguments) && after@.violations == before@.violations,
        AppCommand::args.ensures((before, list), after) ==> after@.args == before@.args
            + text::views(list@) && alike_but(before@, after@, Part::Arguments)
            && after@.violations == before@.violations,
        AppCommand::env.ensures((before, key, value), after) ==> after@.env
            == before@.env.insert(key@, value@) && alike_but(before@, after@, Part::Variables)
            && after@.violations == before@.violations,
        AppCommand::private_env.ensures((before, key, value), after) ==> {
            &&& after@.env.dom().contains(key@)
            &&& after@.env.remove(key@) =~= before@.env.remove(key@)
            &&& alike_but(before@, after@, Part::Variables)
            &&& ospath::confined(value@) ==> after@.env[key@] == text::word("/test").push(47)
                + value@ && ospath::within(after@.env[key@], text::word("/test"))
            &&& ospath::confined(value@) <==> after@.violations.len() == before@.violations.len()
            &&& before@.violations.len() <= after@.violations.len()
        },
        AppCommand::borrow_read_only.ensures((before, value), after) ==> after@.borrows
            == before@.borrows.push(value@) && alike_but(before@, after@, Part::Borrows)
            && after@.violations == before@.violations,
        AppCommand::network.ensures((before, network), after) ==> after@.network == network
            && after@.graphics == before@.graphics && after@.runtime == before@.runtime && alike_but(
            before@,
            after@,
            Part::Authority,
        ) && after@.violations == before@.violations,
        AppCommand::graphics.ensures((before, graphics), after) ==> after@.graphics == graphics
            && after@.network == before@.network && after@.runtime == before@.runtime && alike_but(
            before@,
            after@,
            Part::Authority,
        ) && after@.violations == before@.violations,
        AppCommand::runtime.ensures((before, runtime), after) ==> after@.runtime == runtime@
            && after@.network == before@.network && after@.graphics == before@.graphics
            && alike_but(before@, after@, Part::Authority) && after@.violations == before@.violations,
        AppCommand::witness.ensures((before, value), after) ==> {
            &&& after@.witness == Some(value@)
            &&& alike_but(before@, after@, Part::Witness)
            &&& ospath::confined(value@) <==> after@.violations.len() == before@.violations.len()
            &&& before@.violations.len() <= after@.violations.len()
        },
{
    lemma_private_root();
    if ospath::confined(value@) {
        ospath::law_confined_paths_never_escape(text::word("/test"), value@);
    }
}

// ---------------------------------------------------------------------------
// Sandbox
// ---------------------------------------------------------------------------

/// Whether an argument vector gives a flag with its operands right behind it.
pub open spec fn gives(arguments: Seq<Seq<u8>>, flag: &str, operands: Seq<Seq<u8>>) -> bool {
    exists|at: int|
        0 <= at && at + 1 + operands.len() <= arguments.len() && #[trigger] arguments[at]
            == text::word(flag) && forall|i: int|
            0 <= i < operands.len() ==> arguments[at + 1 + i] == #[trigger] operands[i]
}

/// Where an option stands among the spelled ones.
spec fn spot(list: Seq<BwrapOptionView>, index: int) -> int
    decreases index,
{
    if index <= 0 {
        0
    } else {
        1 + list[0].operands.len() + spot(list.skip(1), index - 1)
    }
}

proof fn lemma_spelled(list: Seq<BwrapOptionView>, index: int)
    requires
        0 <= index < list.len(),
    ensures
        ({
            let (words, at) = (sandbox::rendered(list), spot(list, index));
            &&& 0 <= at
            &&& at + 1 + list[index].operands.len() <= words.len()
            &&& words[at] == text::word(list[index].verb.spelling())
            &&& forall|i: int|
                0 <= i < list[index].operands.len() ==> words[at + 1 + i]
                    == #[trigger] list[index].operands[i]
        }),
    decreases index,
{
    let words = sandbox::rendered(list);
    let rest = sandbox::rendered(list.skip(1));
    let head = seq![text::word(list[0].verb.spelling())] + list[0].operands;
    assert(words == head + rest);
    if index > 0 {
        lemma_spelled(list.skip(1), index - 1);
        let (at, inner) = (spot(list, index), spot(list.skip(1), index - 1));
        assert(list.skip(1)[index - 1] == list[index]);
        assert(at == head.len() + inner);
        assert forall|i: int| 0 <= i < list[index].operands.len() implies words[at + 1 + i]
            == #[trigger] list[index].operands[i] by {
            assert(words[at + 1 + i] == rest[inner + 1 + i]);
        }
    } else {
        assert forall|i: int| 0 <= i < list[0].operands.len() implies words[1 + i]
            == #[trigger] list[0].operands[i] by {
            assert(words[1 + i] == head[1 + i]);
        }
    }
}

proof fn lemma_given(
    arguments: Seq<Seq<u8>>,
    shape: Seq<BwrapOptionView>,
    args: Seq<Seq<u8>>,
    index: int,
)
    requires
        arguments == sandbox::launch_arguments(shape, args),
        0 <= index < shape.len(),
    ensures
        gives(arguments, shape[index].verb.spelling(), shape[index].operands),
{
    lemma_spelled(shape, index);
    let words = sandbox::rendered(shape);
    let at = spot(shape, index) + 1;
    let operands = shape[index].operands;
    assert forall|i: int| 0 <= i < words.len() implies arguments[i + 1] == #[trigger] words[i] by {}
    assert(arguments[at] == words[at - 1]);
    assert forall|i: int| 0 <= i < operands.len() implies arguments[at + 1 + i]
        == #[trigger] operands[i] by {
        assert(arguments[at + 1 + i] == words[at + i]);
    }
}

proof fn lemma_given_literal(arguments: Seq<Seq<u8>>, flag: &str, operands: Seq<&str>)
    requires
        gives(arguments, flag, text::words(operands)),
    ensures
        operands.len() == 0 ==> gives(arguments, flag, seq![]),
        operands.len() == 1 ==> gives(arguments, flag, seq![text::word(operands[0])]),
        operands.len() == 2 ==> gives(
            arguments,
            flag,
            seq![text::word(operands[0]), text::word(operands[1])],
        ),
{
    let spelled = text::words(operands);
    if operands.len() == 0 {
        assert(spelled =~= seq![]);
    } else if operands.len() == 1 {
        assert(spelled =~= seq![text::word(operands[0])]);
    } else if operands.len() == 2 {
        assert(spelled =~= seq![text::word(operands[0]), text::word(operands[1])]);
    }
}

/// Whether an argument vector isolates what it launches: it dies with its parent, shares
/// no processes, no memory, no host name and no session, has no capability, inherits no
/// variable, and sees of the system its programs and its configuration only, read-only.
pub open spec fn isolates(arguments: Seq<Seq<u8>>) -> bool {
    &&& gives(arguments, "--die-with-parent", seq![])
    &&& gives(arguments, "--unshare-pid", seq![])
    &&& gives(arguments, "--unshare-ipc", seq![])
    &&& gives(arguments, "--unshare-uts", seq![])
    &&& gives(arguments, "--new-session", seq![])
    &&& gives(arguments, "--cap-drop", seq![text::word("ALL")])
    &&& gives(arguments, "--clearenv", seq![])
    &&& gives(arguments, "--ro-bind", seq![text::word("/usr"), text::word("/usr")])
    &&& gives(arguments, "--ro-bind", seq![text::word("/etc"), text::word("/etc")])
    &&& gives(arguments, "--symlink", seq![text::word("usr/bin"), text::word("/bin")])
    &&& gives(arguments, "--symlink", seq![text::word("usr/lib"), text::word("/lib")])
    &&& gives(arguments, "--symlink", seq![text::word("usr/lib64"), text::word("/lib64")])
    &&& gives(arguments, "--proc", seq![text::word("/proc")])
    &&& gives(arguments, "--tmpfs", seq![text::word("/run")])
    &&& gives(arguments, "--dev", seq![text::word("/dev")])
}

/// Whether an argument vector grants graphics: the software renderer, read-only, where
/// the environment looks for it; or each device of the host, and the system's view of
/// them.
pub open spec fn grants_graphics(
    arguments: Seq<Seq<u8>>,
    graphics: GraphicsRuntime,
) -> bool {
    match graphics {
        GraphicsRuntime::Software { lavapipe } => gives(
            arguments,
            "--ro-bind",
            seq![lavapipe@, text::word("/opt/egui-tester/lavapipe")],
        ),
        GraphicsRuntime::Host { parents, devices } => {
            &&& gives(arguments, "--ro-bind", seq![text::word("/sys"), text::word("/sys")])
            &&& forall|i: int|
                0 <= i < devices@.len() ==> gives(
                    arguments,
                    "--dev-bind",
                    seq![(#[trigger] devices@[i])@, devices@[i]@],
                )
        },
    }
}

proof fn lemma_foundation(
    arguments: Seq<Seq<u8>>,
    world: SandboxView,
    shape: Seq<BwrapOptionView>,
    args: Seq<Seq<u8>>,
)
    requires
        world.shape() == Ok::<_, crate::error::ErrorView>(shape),
        arguments == sandbox::launch_arguments(shape, args),
    ensures
        isolates(arguments),
        gives(arguments, "--bind", seq![world.root, text::word("/test")]),
        gives(arguments, "--ro-bind", seq![world.binary, text::word("/app/application")]),
        gives(arguments, "--chdir", seq![text::word("/test/home")]),
{
    let base = sandbox::foundation(world.root, world.binary);
    assert forall|i: int| 0 <= i < base.len() implies shape[i] == #[trigger] base[i] by {}
    lemma_given(arguments, shape, args, 0);
    lemma_given_literal(arguments, "--die-with-parent", seq![]);
    lemma_given(arguments, shape, args, 1);
    lemma_given_literal(arguments, "--unshare-pid", seq![]);
    lemma_given(arguments, shape, args, 2);
    lemma_given_literal(arguments, "--unshare-ipc", seq![]);
    lemma_given(arguments, shape, args, 3);
    lemma_given_literal(arguments, "--unshare-uts", seq![]);
    lemma_given(arguments, shape, args, 4);
    lemma_given_literal(arguments, "--new-session", seq![]);
    lemma_given(arguments, shape, args, 5);
    lemma_given_literal(arguments, "--cap-drop", seq!["ALL"]);
    lemma_given(arguments, shape, args, 6);
    lemma_given_literal(arguments, "--clearenv", seq![]);
    lemma_given(arguments, shape, args, 7);
    lemma_given_literal(arguments, "--ro-bind", seq!["/usr", "/usr"]);
    lemma_given(arguments, shape, args, 8);
    lemma_given_literal(arguments, "--ro-bind", seq!["/etc", "/etc"]);
    lemma_given(arguments, shape, args, 9);
    lemma_given_literal(arguments, "--symlink", seq!["usr/bin", "/bin"]);
    lemma_given(arguments, shape, args, 10);
    lemma_given_literal(arguments, "--symlink", seq!["usr/lib", "/lib"]);
    lemma_given(arguments, shape, args, 11);
    lemma_given_literal(arguments, "--symlink", seq!["usr/lib64", "/lib64"]);
    lemma_given(arguments, shape, args, 12);
    lemma_given_literal(arguments, "--proc", seq!["/proc"]);
    lemma_given(arguments, shape, args, 13);
    lemma_given_literal(arguments, "--tmpfs", seq!["/run"]);
    lemma_given(arguments, shape, args, 15);
    lemma_given(arguments, shape, args, 17);
    let first = sandbox::graphics_options(world.graphics)[0];
    assert(first == sandbox::literal(sandbox::Verb::Dev, seq!["/dev"]));
    assert(shape[base.len() as int] == first);
    lemma_given(arguments, shape, args, base.len() as int);
    lemma_given_literal(arguments, "--dev", seq!["/dev"]);
    assert(shape.last() == sandbox::literal(sandbox::Verb::Chdir, seq!["/test/home"]));
    lemma_given(arguments, shape, args, shape.len() - 1);
    lemma_given_literal(arguments, "--chdir", seq!["/test/home"]);
}

proof fn lemma_graphics(
    arguments: Seq<Seq<u8>>,
    world: SandboxView,
    shape: Seq<BwrapOptionView>,
    args: Seq<Seq<u8>>,
    graphics: GraphicsRuntime,
)
    requires
        world.shape() == Ok::<_, crate::error::ErrorView>(shape),
        arguments == sandbox::launch_arguments(shape, args),
        world.graphics == graphics@,
    ensures
        grants_graphics(arguments, graphics),
{
    let a = sandbox::foundation(world.root, world.binary);
    let b = sandbox::graphics_options(world.graphics);
    assert forall|i: int| 0 <= i < b.len() implies shape[a.len() + i] == #[trigger] b[i] by {}
    match graphics {
        GraphicsRuntime::Software { lavapipe } => {
            assert(b[3] == sandbox::option(
                sandbox::Verb::RoBind,
                seq![lavapipe@, text::word("/opt/egui-tester/lavapipe")],
            ));
            lemma_given(arguments, shape, args, a.len() as int + 3);
        },
        GraphicsRuntime::Host { parents, devices } => {
            let dirs = sandbox::each(sandbox::Verb::Dir, text::views(parents@));
            let binds = sandbox::device_binds(text::views(devices@));
            assert forall|i: int| 0 <= i < devices@.len() implies gives(
                arguments,
                "--dev-bind",
                seq![(#[trigger] devices@[i])@, devices@[i]@],
            ) by {
                assert(b[1 + dirs.len() + i] == binds[i]);
                lemma_given(arguments, shape, args, a.len() + 1 + dirs.len() + i);
            }
            assert(b[b.len() - 1] == sandbox::literal(sandbox::Verb::RoBind, seq!["/sys", "/sys"]));
            lemma_given(arguments, shape, args, a.len() + b.len() - 1);
            lemma_given_literal(arguments, "--ro-bind", seq!["/sys", "/sys"]);
        },
    }
}

proof fn lemma_network_and_display(
    arguments: Seq<Seq<u8>>,
    world: SandboxView,
    shape: Seq<BwrapOptionView>,
    args: Seq<Seq<u8>>,
)
    requires
        world.shape() == Ok::<_, crate::error::ErrorView>(shape),
        arguments == sandbox::launch_arguments(shape, args),
    ensures
        world.network == Network::Deny ==> gives(arguments, "--unshare-net", seq![]),
        world.display matches DisplayServerView::X11 { socket, .. } ==> gives(
            arguments,
            "--ro-bind",
            seq![socket, socket],
        ),
{
    let a = sandbox::foundation(world.root, world.binary);
    let b = sandbox::graphics_options(world.graphics);
    let c = sandbox::network_options(world.network);
    let d = sandbox::display_options(world.display);
    if world.network == Network::Deny {
        assert(shape[(a.len() + b.len()) as int] == c[0]);
        lemma_given(arguments, shape, args, (a.len() + b.len()) as int);
        lemma_given_literal(arguments, "--unshare-net", seq![]);
    }
    if world.display is X11 {
        assert(shape[a.len() as int + b.len() + c.len() + 1] == d[1]);
        lemma_given(arguments, shape, args, a.len() as int + b.len() + c.len() + 1);
    }
}

proof fn lemma_borrows_and_variables(
    arguments: Seq<Seq<u8>>,
    world: SandboxView,
    shape: Seq<BwrapOptionView>,
    args: Seq<Seq<u8>>,
)
    requires
        world.shape() == Ok::<_, crate::error::ErrorView>(shape),
        arguments == sandbox::launch_arguments(shape, args),
    ensures
        forall|i: int|
            0 <= i < world.borrows.len() ==> gives(
                arguments,
                "--ro-bind",
                seq![(#[trigger] world.borrows[i]).0, world.borrows[i].1],
            ),
        forall|i: int|
            0 <= i < world.environment.len() ==> gives(
                arguments,
                "--setenv",
                seq![(#[trigger] world.environment[i]).0, world.environment[i].1],
            ),
{
    let a = sandbox::foundation(world.root, world.binary);
    let b = sandbox::graphics_options(world.graphics);
    let c = sandbox::network_options(world.network);
    let d = sandbox::display_options(world.display);
    let e = sandbox::borrow_options(world.borrows, 0)->Ok_0;
    let f = sandbox::environment_options(world.environment);
    assert forall|i: int| 0 <= i < world.borrows.len() implies gives(
        arguments,
        "--ro-bind",
        seq![(#[trigger] world.borrows[i]).0, world.borrows[i].1],
    ) by {
        sandbox::law_borrows_are_read_only(world, i);
        let wanted = sandbox::option(
            sandbox::Verb::RoBind,
            seq![world.borrows[i].0, world.borrows[i].1],
        );
        let k = choose|k: int| 0 <= k < shape.len() && shape[k] == wanted;
        lemma_given(arguments, shape, args, k);
    }
    assert forall|i: int| 0 <= i < world.environment.len() implies gives(
        arguments,
        "--setenv",
        seq![(#[trigger] world.environment[i]).0, world.environment[i].1],
    ) by {
        let at = a.len() + b.len() + c.len() + d.len() + e.len() + i;
        assert(shape[at] == f[i]);
        lemma_given(arguments, shape, args, at);
    }
}

/// The sandbox of a launch isolates the application, holds the private root as its only
/// root that can be written, at the same place for every launch, and the binary; grants
/// exactly the graphics that were resolved; leaves the host's network where it is denied;
/// holds the display's socket and every borrow, read-only; sets every variable of the
/// sealed environment; and runs the binary in its private home with its own arguments.
pub proof fn law_sandboxes_confine_their_launch(
    root: &Vec<u8>,
    display: &DisplayServer,
    command: &AppCommand,
    binary: &Vec<u8>,
    borrows: &Vec<ReadOnlyMount>,
    graphics: &GraphicsRuntime,
    environment: &Environment,
    argv: Vec<Vec<u8>>,
)
    requires
        sandbox::bwrap_argv.ensures(
            (root, display, command, binary, borrows, graphics, environment),
            Ok(argv),
        ),
    ensures
        ({
            let arguments = text::views(argv@);
            let count = command@.args.len();
            &&& arguments.len() >= count + 3
            &&& arguments[0] == text::word("/usr/bin/bwrap")
            &&& isolates(arguments)
            &&& gives(arguments, "--bind", seq![root@, text::word("/test")])
            &&& gives(arguments, "--ro-bind", seq![binary@, text::word("/app/application")])
            &&& gives(arguments, "--chdir", seq![text::word("/test/home")])
            &&& grants_graphics(arguments, *graphics)
            &&& command@.network == Network::Deny ==> gives(arguments, "--unshare-net", seq![])
            &&& display@ matches DisplayServerView::X11 { socket, .. } ==> gives(
                arguments,
                "--ro-bind",
                seq![socket, socket],
            )
            &&& forall|i: int|
                0 <= i < borrows@.len() ==> gives(
                    arguments,
                    "--ro-bind",
                    seq![(#[trigger] borrows@[i]).source@, borrows@[i].guest@],
                )
            &&& forall|i: int|
                0 <= i < environment.listing().len() ==> gives(
                    arguments,
                    "--setenv",
                    seq![(#[trigger] environment.listing()[i]).0, environment.listing()[i].1],
                )
            &&& arguments[arguments.len() - count - 2] == text::word("--")
            &&& arguments[arguments.len() - count - 1] == text::word("/app/application")
            &&& arguments.skip(arguments.len() - count) =~= command@.args
        }),
{
    let world = SandboxView {
        root: root@,
        binary: binary@,
        graphics: graphics@,
        network: command@.network,
        display: display@,
        borrows: sandbox::mounts(borrows@),
        environment: environment.listing(),
    };
    let shape = world.shape()->Ok_0;
    let arguments = text::views(argv@);
    let args = command@.args;
    lemma_foundation(arguments, world, shape, args);
    lemma_graphics(arguments, world, shape, args, *graphics);
    lemma_network_and_display(arguments, world, shape, args);
    lemma_borrows_and_variables(arguments, world, shape, args);
    assert forall|i: int| 0 <= i < borrows@.len() implies gives(
        arguments,
        "--ro-bind",
        seq![(#[trigger] borrows@[i]).source@, borrows@[i].guest@],
    ) by {
        assert(world.borrows[i] == (borrows@[i].source@, borrows@[i].guest@));
    }
}

/// Variables are set only once the inherited ones are gone, and devices are granted only
/// once the private device directory is there to hold them.
pub proof fn law_sandboxes_are_built_in_order(world: SandboxView, earlier: int, later: int)
    requires
        world.shape() is Ok,
        0 <= earlier < (world.shape()->Ok_0).len(),
        0 <= later < (world.shape()->Ok_0).len(),
        ({
            let (first, second) = (
                (world.shape()->Ok_0)[earlier].verb,
                (world.shape()->Ok_0)[later].verb,
            );
            ||| first == sandbox::Verb::ClearEnv && second == sandbox::Verb::SetEnv
            ||| first == sandbox::Verb::Dev && second == sandbox::Verb::DevBind
        }),
    ensures
        earlier < later,
{
    let shape = world.shape()->Ok_0;
    lemma_segment(world, earlier);
    lemma_segment(world, later);
}

proof fn lemma_segment(world: SandboxView, index: int)
    requires
        world.shape() is Ok,
        0 <= index < (world.shape()->Ok_0).len(),
    ensures
        ({
            let verb = (world.shape()->Ok_0)[index].verb;
            let base = sandbox::foundation(world.root, world.binary).len();
            &&& verb == sandbox::Verb::ClearEnv ==> index == 6
            &&& verb == sandbox::Verb::SetEnv ==> index > base
            &&& verb == sandbox::Verb::Dev ==> index == base
            &&& verb == sandbox::Verb::DevBind ==> index > base
            &&& base > 6
        }),
{
    let a = sandbox::foundation(world.root, world.binary);
    let b = sandbox::graphics_options(world.graphics);
    let c = sandbox::network_options(world.network);
    let d = sandbox::display_options(world.display);
    let e = sandbox::borrow_options(world.borrows, 0)->Ok_0;
    let f = sandbox::environment_options(world.environment);
    let shape = world.shape()->Ok_0;
    let at = index - a.len();
    if index < a.len() {
        assert(shape[index] == a[index]);
    } else if at < b.len() {
        assert(shape[index] == b[at]);
        lemma_graphics_segment(world.graphics, at);
    } else if at < b.len() + c.len() {
        assert(shape[index] == c[at - b.len()]);
    } else if at < b.len() + c.len() + d.len() {
        assert(shape[index] == d[at - b.len() - c.len()]);
    } else if at < b.len() + c.len() + d.len() + e.len() {
        assert(shape[index] == e[at - b.len() - c.len() - d.len()]);
        sandbox::lemma_borrow_verbs(world.borrows, 0);
    } else if at < b.len() + c.len() + d.len() + e.len() + f.len() {
        assert(shape[index] == f[at - b.len() - c.len() - d.len() - e.len()]);
    } else {
        assert(shape[index].verb == sandbox::Verb::Chdir);
    }
}

proof fn lemma_graphics_segment(graphics: sandbox::GraphicsRuntimeView, index: int)
    requires
        0 <= index < sandbox::graphics_options(graphics).len(),
    ensures
        ({
            let verb = sandbox::graphics_options(graphics)[index].verb;
            &&& verb == sandbox::Verb::Dev <==> index == 0
            &&& verb != sandbox::Verb::ClearEnv
            &&& verb != sandbox::Verb::SetEnv
        }),
{
    if let sandbox::GraphicsRuntimeView::Host { parents, devices } = graphics {
        let dirs = sandbox::each(sandbox::Verb::Dir, parents);
        let binds = sandbox::device_binds(devices);
        let whole = sandbox::graphics_options(graphics);
        if 0 < index <= dirs.len() {
            assert(whole[index] == dirs[index - 1]);
        } else if dirs.len() < index <= dirs.len() + binds.len() {
            assert(whole[index] == binds[index - 1 - dirs.len()]);
        }
    }
}

} // verus!
