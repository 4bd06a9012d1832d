//! Control of a video/audio matrix switch over its serial command protocol:
//! the command codec, the response framing, a client that speaks to any
//! byte-duplex transport, and an in-process emulator of the device.

pub mod codec;
pub mod config;
pub mod crosspoint;
pub mod document;
pub mod emulated;
pub mod http;
pub mod service;
pub mod snapshot;
pub mod text;
pub mod transport;
pub mod vextron;
