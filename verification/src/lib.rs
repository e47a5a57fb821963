//! Marshaling bridge between an owned peer-connection configuration model and
//! the flat, C-compatible mirrors that a native media engine consumes.
//!
//! Native memory is modelled by [`heap::NativeHeap`], an arena whose addresses
//! play the part of raw pointers: address `0` is the null pointer, and every
//! mirror field that would be a pointer holds such an address.

pub mod policy;
pub mod heap;
pub mod text;
pub mod ice_server;
pub mod configuration;
pub mod video_encoder;
