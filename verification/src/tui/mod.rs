//! The terminal chat front end's state and its input handling.

pub mod shared;
pub mod logic;
pub mod state;
pub mod history;
pub mod keys;
pub mod render;
pub mod input;
pub mod session;
pub mod outgoing;
pub mod clicks;
