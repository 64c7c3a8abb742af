//! Sampling and derived-metric engine for the telemetry of an embedded Linux
//! board: parsing of kernel pseudo-files, conversion of raw counters into
//! derived values, and per-subsystem fault isolation.
pub mod text;
pub mod pattern;
pub mod metric;
pub mod cpu;
pub mod memory;
pub mod disk;
pub mod gpu;
pub mod fan;
pub mod thermal;
pub mod system;
pub mod board;
pub mod power;
pub mod engine;
pub mod network;
pub mod app;
pub mod laws;
