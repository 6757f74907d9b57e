//! Runtime core of an audio-plugin host adapter: lock-free parameter
//! propagation between a control thread and the audio thread, sample-accurate
//! event timelines, and an aliasing-safe router for host-supplied channel
//! buffers.
//!
//! Parameter values and audio samples are carried as plain 64-bit and 32-bit
//! words: the core stores and moves them but never does arithmetic on them,
//! so the host adapter is free to put IEEE 754 bit patterns in them.

pub mod buffers;
pub mod bus;
pub mod dirty;
pub mod events;
pub mod plugin;
pub mod process;
pub mod sync;
