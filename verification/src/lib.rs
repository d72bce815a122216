//! The state and rules of a small grid file manager: which entries are shown
//! and in what order, how clicks select them, what the context menu offers and
//! what each of its actions asks the file system to do.
//!
//! Everything that touches the screen, the file system or the clock lives in
//! the program around this library; it hands plain values in and performs the
//! effects that come back.

pub mod actions;
pub mod files;
pub mod paths;
pub mod decimal;
pub mod app;
pub mod gui;
