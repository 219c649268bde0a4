//! A verified core for a small music-synthesis toolkit: the composition DSL
//! (tokenizer and parser), the OpenSound Control wire format, and the
//! integer logic of notes, meters and effects.
pub mod text;
pub mod numbers;
pub mod oscillator;
pub mod scales;
pub mod dsl;
pub mod osc;
pub mod note_pool;
pub mod meter;
pub mod effect;
pub mod sample_manager;
pub mod midi;
pub mod sequence;
pub mod flanger;
pub mod sample_buffer;
pub mod midi_file;
