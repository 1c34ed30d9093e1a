//! Identities and geometry shared by the queue and the renderer-facing types.

use vstd::prelude::*;

verus! {

/// Opaque, comparable identity of one input stream; stable for the stream's
/// lifetime.
#[derive(Clone, Copy, Debug, PartialEq, Eq, Structural)]
pub struct InputId(pub u64);

/// Opaque, comparable identity of one output stream.
#[derive(Clone, Copy, Debug, PartialEq, Eq, Structural)]
pub struct OutputId(pub u64);

/// Size of a video frame in pixels.
#[derive(Clone, Copy, Debug, PartialEq, Eq, Structural)]
pub struct Resolution {
    pub width: usize,
    pub height: usize,
}

/// Output frame rate in frames per second.
#[derive(Clone, Copy, Debug, PartialEq, Eq, Structural)]
pub struct Framerate(pub u32);

} // verus!
