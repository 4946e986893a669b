use vstd::prelude::*;

verus! {

/// The shape of the base waveform a voice plays.
#[derive(PartialEq, Eq, Structural, Clone, Copy, Debug)]
pub enum WaveType {
    Square,
    Triangle,
    Sine,
    Noise,
}

} // verus!
