//! The logic of a menu-bar utility that controls displays and system audio.

pub mod bridge;
pub mod control;
pub mod ddc;
pub mod devices;
pub mod display;
pub mod eq;
pub mod format;
pub mod lists;
pub mod mixer;
pub mod names;
pub mod offline;
pub mod playable;
pub mod playback;
pub mod power;
pub mod prefs;
pub mod processes;
pub mod protection;
pub mod render;
pub mod ring;
pub mod router;
pub mod service;
pub mod shared;
pub mod sound;
pub mod state;
pub mod tap;
pub mod text;
pub mod views;
