//! The decision logic of a terminal web-browser client: the wire protocol's
//! message and payload types, the mapping of terminal input onto
//! commands, the command interpreter that drives the display state, and the
//! text models from which the screen is drawn.
pub mod text;
pub mod json;
pub mod protocol;
pub mod display;
pub mod commands;
pub mod input;
pub mod client;
pub mod screen;
pub mod laws;
