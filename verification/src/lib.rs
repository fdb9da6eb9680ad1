//! The logic of a window backend that draws straight to a display card: no
//! display server, one surface per window, buffers shown by page flips.
//!
//! Everything that decides or computes stands in this library and is verified.
//! The surrounding program opens the card, runs the readiness loop, calls the
//! user's callback, and hands the library plain values.
pub mod calls;
pub mod card;
pub mod dpi;
pub mod event;
pub mod event_loop;
pub mod flip;
pub mod ids;
pub mod monitor;
pub mod proxy;
pub mod run;
pub mod sink;
pub mod store;
pub mod target;
pub mod time;
pub mod turns;
pub mod window;
