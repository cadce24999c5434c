//! Core of a MIDI-driven volume controller with a real-time spectrum
//! visualizer backend.
//!
//! The library holds the verified logic: channel ring buffers and the
//! band/bin mapping tables of the spectrum analyzer, the analyzer's
//! lifecycle decisions, the waterfall history consumed by a renderer,
//! configuration handling, MIDI message parsing and routing, and the
//! volume-command planning around external mixer utilities.  Audio
//! capture, process spawning and device I/O live outside the library
//! and hand it plain values.

use vstd::prelude::*;

pub mod bands;
pub mod config;
pub mod midi;
pub mod numerals;
pub mod pipewire;
pub mod rings;
pub mod router;
pub mod sorting;
pub mod spectrum;
pub mod textutil;
pub mod waterfall;

verus! {

/// Number of frequency bands reported by the analyzer.
pub const NUM_BANDS: usize = 32;

/// Size of the analysis window, in samples per channel.
pub const FFT_SIZE: usize = 512;

/// Number of new samples consumed per channel before each new analysis.
pub const HOP_SIZE: usize = 128;

/// Sample rate of the capture stream, in Hz.
pub const SAMPLE_RATE: u32 = 44100;

/// Number of rows the waterfall view remembers.
pub const WATERFALL_HISTORY: usize = 128;

} // verus!
