//! A generative MIDI note sequencer: pitch producers shaped by waveforms or
//! chance, a scale quantizer, rhythm-driven trigger producers, and the engine
//! state machine that turns one tick of them into note events.
pub mod pitch;
pub mod random;
pub mod sequencer;
pub mod trigger;
