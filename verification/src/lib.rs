//! Hermetic, black-box end-to-end control for native GUI applications: the
//! verified decisions behind the harness.
use vstd::prelude::*;

pub mod acceptance;
pub mod android;
pub mod bytes;
pub mod condition;
pub mod demo;
pub mod duration;
pub mod environment;
pub mod error;
pub mod fixture;
pub mod frames;
pub mod host;
pub mod ieee;
pub mod input;
pub mod order;
pub mod ospath;
pub mod pixels;
pub mod poll;
pub mod probe;
pub mod service;
pub mod stage;
pub mod story;
pub mod testbed;
pub mod text;
pub mod timing;
pub mod witness;
pub mod x11;

verus! {

} // verus!
