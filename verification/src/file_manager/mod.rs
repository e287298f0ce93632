//! The file manager application: directory navigation state and its input handling.
pub mod state;
pub mod input;
pub mod view;
