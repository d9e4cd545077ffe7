//! Verified core of a MIDI inspection and playback tool.
//!
//! The library covers the two passes where ordering and timing matter:
//! a metadata aggregator that walks decoded tracks once, and a playback
//! scheduler that merges tracks into a time-ordered sheet and converts
//! tick deltas into wall-clock delays under a changing tempo.
//! Decoding raw bytes into events and talking to an output device are
//! left to the surrounding application.

pub mod events;
pub mod instruments;
pub mod info;
pub mod device;
pub mod sheet;
pub mod timing;
pub mod player;
