//! The decisions of an Ogg Vorbis decoder binding.
//!
//! The native decoder is driven by a host that owns the byte source and the
//! native state. This library holds what the host has to decide along the
//! way: which error a native status stands for, how a read callback fills
//! whole elements from a source that delivers in fragments, what a decode
//! call exposes, when native cleanup is owed, and which of the native
//! comment bytes are text.

pub mod callbacks;
pub mod comments;
pub mod decoder;
pub mod status;
