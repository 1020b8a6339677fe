//! Capture of publish/subscribe samples into per-channel buffers.
//!
//! The crate holds the rules of two small tools: one that records the raw
//! payloads of several channels together with the time at which each
//! arrived and later turns every channel into a table of rows, and one
//! that follows a single channel and reports each sample as it comes.
//! Transport, decoding of payloads and the output file belong to the
//! program around this library; here they appear as plain values.

pub mod text;
pub mod record;
pub mod clock;
pub mod buffers;
pub mod recorder;
pub mod report;
pub mod follow;
pub mod config;
