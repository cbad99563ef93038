//! The transport: the session with the client, its bitrate and its pacing.

pub mod abr;
pub mod fragment;
pub mod pacer;
pub mod sender;
pub mod session;
