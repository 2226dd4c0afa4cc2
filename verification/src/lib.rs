//! Decisions, bookkeeping and texts of a tool that thins, scales and converts
//! laser-scan point clouds (LAS, LAZ and E57).
//!
//! Files, windows, threads and floating-point coordinates belong to the program
//! around this library. The library receives plain values, decides what is kept,
//! where it goes and what is reported, and proves what it decides.

pub mod copying;
pub mod duration;
pub mod format;
pub mod grid;
pub mod guid;
pub mod job;
pub mod message;
pub mod outcome;
pub mod paths;
pub mod pipeline;
pub mod record;
pub mod run;
pub mod session;
pub mod text;
pub mod voxel;
