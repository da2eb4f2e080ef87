//! Parsing and interpretation of input-automation scripts: one instruction per
//! line (keystrokes, key sequences, mouse moves and clicks, waits, and key clicks
//! gated on a comparison of a screen region against a reference image).
pub mod text;
pub mod percentage;
pub mod keys;
pub mod command_types;
pub mod screen_compare;
pub mod command_executor;
pub mod grammar;
