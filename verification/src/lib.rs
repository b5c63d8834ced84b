//! The core of an audio-reactive renderer.
//!
//! Captured stereo audio is decoded into one block of samples per channel
//! ([`pipewire`]), kept in rolling histories at the full and at half the sample
//! rate ([`history`], [`channel`]), and folded once per frame into the feature
//! frame that a compute kernel reads ([`audiolink`]). The kernel is driven by a
//! small state machine that waits for its pipelines and then alternates between
//! two images, reading the one and writing the other ([`node`]). A level meter
//! for the terminal shows what was captured ([`meter`], [`style`]).
//!
//! The library is generic over the sample type: it moves and orders samples
//! and leaves the arithmetic on them to its caller.

pub mod audiolink;
pub mod channel;
pub mod history;
pub mod meter;
pub mod node;
pub mod pipewire;
pub mod style;
