//! EternalMonitor: the verified core of a wireless second display.
//!
//! - [`wire`]: the datagram formats and bitstream rules shared by both ends.
//! - [`host`]: the decisions of the machine whose screen is shown: sessions,
//!   bitrate, input, capture, encoding and supervision.
//!
//! Everything here is pure: sockets, clocks, the GPU and the encoder belong to
//! the application around this library, which hands in plain values and acts
//! on the plain values it gets back.

pub mod bytes;
pub mod host;
pub mod text;
pub mod wire;
