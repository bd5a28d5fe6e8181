//! Display and terminal core of a freestanding kernel: pixel sinks, a
//! double-buffered compositor, a character-cell terminal with dirty-region
//! tracking and run coalescing, and the driver state machine that owns the
//! display across mode switches.

pub mod geometry;
pub mod cell;
pub mod error;
pub mod pixel;
pub mod display;
pub mod text;
pub mod dirty;
pub mod segments;
pub mod render;
pub mod text_driver;
pub mod drivers;
pub mod manager;
pub mod laws;
pub mod logging;
pub mod interrupts;
