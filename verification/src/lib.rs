//! Verified core of `swp`, a small wallpaper manager: interval parsing,
//! wallpaper discovery and matching, wallpaper collections, playback
//! state, and the decision logic of the command line and the GUI.

pub mod text;
pub mod paths;
pub mod sort;
pub mod rng;
pub mod error;
pub mod wallpaper_core;
pub mod utils;
pub mod gui;
pub mod cli;
pub mod wallpaper;
pub mod backends;
pub mod kde;
