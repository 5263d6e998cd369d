//! Editing core of a minimal modal terminal text editor: a line/character
//! buffer, a cursor model, and a two-mode (normal/insert) input state machine
//! that turns key events into buffer mutations and screen-cursor updates.

pub mod clipboard;
pub mod direction;
pub mod keyboard;
pub mod laws;
pub mod mode;
pub mod model;
pub mod render;
pub mod screen;
pub mod terminal;
