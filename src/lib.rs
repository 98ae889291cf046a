//! The core of a small side-scrolling runner animation.
//!
//! `controller` advances the runner's state once per tick from the elapsed time
//! and the keys held; `atlas` holds the regions of the runner's pose sheet;
//! `presentation` turns a state into the ordered draw commands of one frame.
//!
//! Positions are kept in half-units (the smallest step the runner takes), and
//! sheet regions in hundredths of the sheet, so that the logic is exact.

pub mod atlas;
pub mod controller;
pub mod presentation;
