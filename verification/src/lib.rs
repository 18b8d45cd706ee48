//! Run orchestration and telemetry export planning for a time-stepped
//! simulation of point masses.
//!
//! The crate decides; its caller acts. Every function here is a computation
//! from plain values to plain values: which file operations an export
//! consists of, which activity of a run comes next, how a chart is laid out,
//! how a duration reads. Touching the file system, advancing the physical
//! state and drawing are left to the caller.
//!
//! - [`config`]: the settings of a run.
//! - [`simulation`]: the run loop as a state machine, and what a run in
//!   which nothing fails performs.
//! - [`export`]: the plans of the three telemetry exports.
//! - [`records`]: records of comma-separated values as bytes.
//! - [`store`]: a model of the export directory, and what the plans achieve
//!   when they are carried out on it.
//! - [`run_files`]: what a whole run, with all its exports, leaves in the
//!   export directory.
//! - [`plot`]: the layout of the energy chart.
//! - [`duration`]: durations in words.
//! - [`ratio`], [`text`]: rounding to two decimals, and decimal numerals.
pub mod config;
pub mod duration;
pub mod export;
pub mod plot;
pub mod ratio;
pub mod records;
pub mod run_files;
pub mod simulation;
pub mod store;
pub mod text;
