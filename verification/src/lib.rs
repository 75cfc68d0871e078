//! Core of an Array30 input method: the key alphabet, the text buffers of one
//! editing session, the code dictionary, and the engine that turns key
//! strokes into candidates and committed text. With them come the parts of
//! the front ends that decide and compute: the actions of terminal keys and
//! the screen of the console, the lines of the settings file, the list of
//! fonts, and the command line.

pub mod cli;
pub mod config;
pub mod console;
pub mod dict;
pub mod input_engine;
pub mod keymap;
pub mod state;
pub mod text;

pub use input_engine::InputEngine;
pub use state::InputState;
