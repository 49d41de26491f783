//! The scheduling core of a kiosk display: a state machine that, driven by a
//! fixed-rate tick and by the completions of background requests, decides when
//! to reload the list of upcoming events, when to show the next slide, and
//! which images to request, keep or drop.
//!
//! The machine performs no input or output. Every handler takes the current
//! reading of a monotonic clock and returns the requests that the caller has
//! to carry out; their outcomes come back as further messages.

pub mod cache;
pub mod calendar;
pub mod clock;
pub mod config;
pub mod event;
pub mod image;
pub mod order;
pub mod pocketbase;
pub mod sign;
pub mod slide;
pub mod text;
