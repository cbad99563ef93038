//! Every byte format and pure protocol or bitstream rule of the stream.
//!
//! - [`v2`]: the wire protocol (media fragments and the control plane)
//! - [`h264`]: H.264 bitstream normalization and inspection
//! - [`hevc`]: H.265 NAL classification
//! - [`reassembly`]: putting fragments back together
//! - [`v1_fragment`], [`frame`], [`control`]: the version 1 formats

pub mod control;
pub mod frame;
pub mod h264;
pub mod hevc;
pub mod reassembly;
pub mod v1_fragment;
pub mod v2;
