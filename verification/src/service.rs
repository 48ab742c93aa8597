//! Application launches: the command, its sandbox, its transient service, and
//! the devices it may see.
use vstd::prelude::*;

pub mod application;
pub mod command;
pub mod containment;
pub mod devices;
pub mod launch;
pub mod sandbox;
pub mod seal;
pub mod seccomp;
pub mod unit;

verus! {

/// Where the private root appears inside the sandbox.
pub const GUEST_ROOT: &'static str = "/test";

} // verus!
