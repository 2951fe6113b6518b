//! Verified core of RustShot Wayland: the tool palette, the undo/redo canvas,
//! the overlay chrome theme, pixel swizzling, and the decision logic of the
//! overlay, capture and client paths.

pub mod canvas;
pub mod text;
pub mod hex;
pub mod theme;
pub mod capture;
pub mod screens;
pub mod overlay;
pub mod logging;
pub mod ui;
pub mod config;
pub mod cli;
pub mod client;
pub mod dbus;
pub mod tray;
pub mod export;
