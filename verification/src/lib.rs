//! Timing and transport core of a live audio/video compositor.
//!
//! Two subsystems share a single timeline: a synchronization queue that
//! reconciles independently clocked input streams onto one queue clock, and a
//! pull-driven packetization stream that turns encoder output into
//! size-bounded transport packets. Around them sit the renderer's scene
//! bookkeeping, the builtin transformation parameters, and the registration
//! request model.
//!
//! All durations and instants are carried as `u64` nanosecond counts: a
//! duration counts nanoseconds of elapsed time, an instant counts nanoseconds
//! since an arbitrary wall-clock epoch fixed for the process.

pub mod audio_queue;
pub mod channel;
pub mod input_processor;
pub mod packet_stream;
pub mod payloader;
pub mod register_request;
pub mod renderer;
pub mod samples;
pub mod transformations;
pub mod types;
