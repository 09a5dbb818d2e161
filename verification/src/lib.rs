//! The logic of an audio output mixer for PulseAudio/PipeWire: which devices
//! are offered, the channels of the mix, what to ask of the sound server to
//! combine them, and the state of the mixer window.
pub mod text;
pub mod devices;
pub mod engine;
pub mod monitor;
pub mod keyed;
pub mod ui_state;
pub mod icon;
