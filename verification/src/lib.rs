//! Luminaire: control logic for an Elgato Key Light over its local HTTP API.
//!
//! The crate holds the verified core of the desktop controller: the
//! connection/error state machine, the Kelvin <-> API temperature scale,
//! the JSON request bodies sent to the light, the interpretation of its
//! replies, and the tray icon renderer.

pub mod app_state;
pub mod commands;
pub mod config;
pub mod icon;
pub mod keylight;
pub mod text;
pub mod tray;
