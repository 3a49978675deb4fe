//! Reduces a decoded MIDI event stream to a dense list of note-on / note-off
//! events and renders that list as a C array declaration.

pub mod decimal;
pub mod header;
pub mod laws;
pub mod names;
pub mod source;
pub mod tones;

pub use tones::{Note, Tones};
