//! Helium Gecko: the state and decision logic of an always-on-top,
//! transparent browser window manager.
//!
//! The windowing toolkit, the rendering and the browser engine live outside
//! this library; they hand it plain values (key presses, button clicks,
//! stored settings, bytes received from other windows) and carry out what it
//! decides.

pub mod config;
pub mod engine;
pub mod ipc;
pub mod overlay;
pub mod platform;
pub mod session;
pub mod shortcuts;
pub mod window_manager;
