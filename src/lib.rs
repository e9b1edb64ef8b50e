//! Keystroke capture core: key-name tables, the keystroke display buffer,
//! the modifier-tracking key parser and the per-device capture decisions.

pub mod capture;
pub mod config;
pub mod events;
pub mod geometry;
pub mod keypress;
pub mod keys;
pub mod parser;
pub mod render;
pub mod text;
pub mod utils;
