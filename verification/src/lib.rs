//! Fragmentation and reassembly of image frames over a datagram path.
//!
//! A sender splits each frame into header-prefixed chunks that fit one
//! datagram; a receiver collects the chunks of each frame, in whatever order
//! and multiplicity they arrive, and hands out the frame once it is whole.

pub mod error;
pub mod header;
pub mod chunker;
pub mod reassembly;
pub mod laws;
pub mod session;
pub mod webcam;
pub mod setup;
pub mod opencv;
pub mod pixels;
