//! A verified implementation of the PulseAudio native protocol's wire format,
//! suitable for writing clients and servers.
//!
//! The library works on byte buffers: it decodes and encodes "tagstructs",
//! the packet descriptors that frame them, and the command messages built
//! from them. Reading from and writing to sockets is left to the caller.

pub mod client;
pub mod protocol;
