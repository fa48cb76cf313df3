//! Core engine of a terminal process monitor: the mode-driven state machine
//! that interprets key events, the process-selection and matching logic, the
//! CPU-percentage computation from cumulative counters, and the time-series
//! accumulation exported as CSV.
//!
//! All quantities are integers: cumulative CPU readings are taken in
//! milli-units, CPU percentages are held in tenths of a percent, and memory
//! in hundredths of a megabyte. The surrounding terminal loop queries the
//! operating system, converts its readings to these units, and feeds plain
//! values into this crate.

pub mod collector;
pub mod config;
pub mod cpu;
pub mod csv;
pub mod events;
pub mod matcher;
pub mod process;
pub mod state;
pub mod text;
