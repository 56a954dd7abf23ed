//! Normalisation of the GPU telemetry that the `rocm-smi` diagnostic tool
//! reports as JSON.
//!
//! - [`json`] reads a report with `serde_json` and copies it into a tree of
//!   plain values.
//! - [`merge`] lays supplementary reports over the base report, in the maps
//!   of `serde_json`.
//! - [`coerce`] reads single fields that may arrive in more than one shape.
//! - [`snapshot`] turns the merged report into one record per device.
//! - [`rocm`] holds the device record and its classification.
//! - [`rocm_pid`] reads the list of processes that use a GPU.
//! - [`version`] reads the version report of the tool.
//! - [`text`], [`decimal`] and [`float`] are the string, number and
//!   floating-point helpers that the others rest on.
pub mod coerce;
pub mod decimal;
pub mod float;
pub mod json;
pub mod merge;
pub mod rocm;
pub mod rocm_pid;
pub mod snapshot;
pub mod text;
pub mod version;
