//! Native input and pixels of the private X11 display.
pub mod gesture;
pub mod hand;
pub mod image;
pub mod keyboard;
pub mod play;
pub mod pointer;
pub mod session;
pub mod window;
