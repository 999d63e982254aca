//! An interpreter for a two-dimensional, stack-based language of the
//! Befunge family.

pub mod direction;
pub mod grid;
pub mod input;
pub mod laws;
pub mod program;
pub mod source;
pub mod state;
pub mod text;
pub mod token;
