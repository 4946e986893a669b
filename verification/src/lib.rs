//! The integer side of a retro sound-effect synthesiser: the waveform
//! kinds, the volume envelope, the oscillator phase clock, the repeat and
//! arpeggio triggers, the phaser delay line, and the voice that ties them
//! together. The audio arithmetic itself works on floats and lives outside
//! this library; everything here is verified.

pub mod clock;
pub mod envelope;
pub mod phaser;
pub mod trigger;
pub mod voice;
pub mod wave;

pub use clock::PhaseClock;
pub use envelope::Envelope;
pub use phaser::DelayLine;
pub use trigger::Trigger;
pub use voice::{FrameStart, ResetPlan, Voice};
pub use wave::WaveType;
