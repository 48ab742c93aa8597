//! One-way, versioned semantic telemetry for black-box GUI tests.
//!
//! Applications publish immutable observations after presenting a frame. The
//! harness may use them to locate controls and synchronize, never to mutate
//! product state or substitute for an external oracle.
use vstd::prelude::*;

pub mod anchor;
pub mod clock;
pub mod error;
pub mod frame_journal;
pub mod observation_journal;
pub mod pass;
pub mod publisher;
pub mod raising;
pub mod target;

verus! {

/// Version of the wire frame.
pub const SCHEMA: u32 = 3;

/// Variable naming the observation journal.
pub const PATH_ENV: &'static str = "EGUI_TESTER_WITNESS";

/// Variable holding the launch seal.
pub const LAUNCH_ENV: &'static str = "EGUI_TESTER_LAUNCH";

/// Variable naming the frame journal.
pub const FRAMES_ENV: &'static str = "EGUI_TESTER_FRAMES";

} // verus!
