//! Verified core of an echo-cancelling virtual microphone.
//!
//! The library holds the decisions of the audio pipeline: how enumerated
//! devices are sorted into microphones, loopback sources and outputs; how a
//! device is picked by name; how captured stereo audio is folded to mono and
//! cut into 10 ms frames; how processed audio is queued for the virtual
//! microphone and played out; when the engine runs; and what the control API
//! answers.

pub mod device;
pub mod frames;
pub mod playout;
pub mod ring;
pub mod engine;
pub mod api;
pub mod config;
