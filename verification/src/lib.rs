//! A memory-usage heartbeat.
//!
//! The crate plans how a process should size one region of its address space
//! so that its resident memory, plotted over time, traces the electrical phases
//! of a cardiac cycle. It holds the waveform, the page arithmetic of the region
//! and the pacing of the run; mapping memory, sleeping and printing are left to
//! the program around it.

pub mod controller;
pub mod harness;
pub mod heartbeat;
pub mod level;
