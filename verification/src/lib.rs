//! Core library of an imaging tool for single-board computers: it models the
//! flashing engine that writes an operating-system image to a target device
//! while reporting progress, verifying content digests, caching downloads and
//! enumerating candidate destinations.

pub mod bcf;
pub mod common;
pub mod customization;
pub mod digest;
pub mod download;
pub mod error;
pub mod flasher;
pub mod img;
pub mod sd;
pub mod status;
