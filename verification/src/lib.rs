//! An in-memory window-management engine: it tracks windows, workspaces,
//! focus order and screen geometry, parses keybinding configuration into
//! structured bindings, and translates raw input events (keys, modifiers,
//! pointer motion and buttons) into window-management actions and live
//! geometry mutations.
//!
//! The engine is purely computational: process spawning, configuration file
//! I/O and the display-server event loop live outside it and interact with it
//! through plain values.

pub mod window;
pub mod manager;
pub mod seq_util;
pub mod text;
pub mod input;
pub mod config;
pub mod compositor;
