//! Project registry and command decisions of the `pyra` blockchain project manager.
//!
//! The registry is the content of the settings file: the command that opens a
//! project directory in an editor, and the list of registered projects.
pub mod registry;
pub mod command;
pub mod platform;
pub mod location;
pub mod laws;
