//! Realtime audio core of a terminal step sequencer and mixer.
//!
//! Everything here works on exact integer values: sample counts, tempo in
//! beats per minute, frequencies in millihertz, gains in fixed point or in
//! percent. The float sample arithmetic (waveform shapes, summing, soft
//! clipping) is left to the host around this crate.
use vstd::prelude::*;

pub mod generators;
pub mod sequencer;
pub mod track;
pub mod mixer;
pub mod control;
pub mod engine;

verus! {

} // verus!
