//! Index and event logic of a kora physical-modelling synthesizer.

pub mod delay;
pub mod tuning;
pub mod midi;
pub mod sequencer;
pub mod strings;
