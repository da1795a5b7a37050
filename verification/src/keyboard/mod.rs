//! Keyboard input, from key presses to lines: `tokens` resolves a key press to a token, the line
//! buffers edit a line from tokens, the line discipline draws it, and `history` remembers finished
//! lines for recall.

pub mod events;
pub mod history;
pub mod keymap;
pub mod line;
pub mod line_discipline;
pub mod queue;
pub mod stdin;
pub mod tokens;
