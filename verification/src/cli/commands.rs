//! The commands of `swp`, as parsed from the command line.

use vstd::prelude::*;

verus! {

/// The parsed command line.
#[derive(Debug)]
pub struct Cli {
    pub command: Commands,
}

/// The commands of `swp`.
#[derive(Debug)]
pub enum Commands {
    /// Import image files into the wallpaper directory.
    Add { files: Vec<String> },
    /// Remove one wallpaper from the wallpaper directory.
    Rmv { name: Option<String>, force: bool },
    /// Apply a wallpaper chosen by name, path or interactively (`swp set`).
    SetWallpaper { name: Vec<String> },
    /// Apply a random wallpaper.
    Random,
    /// Show the wallpapers.
    Wallpapers { plain: bool },
    /// Manage wallpaper lists.
    Lists { command: Option<ListsCommands> },
    /// Print the wallpaper directory.
    Path,
    /// Open the graphical window.
    Gui,
}

/// The subcommands of `swp lists`.
#[derive(Debug)]
pub enum ListsCommands {
    Create { name: String },
    Delete { name: String },
    Show { name: String, plain: bool },
    Add { name: String, wallpapers: Vec<String> },
    Remove { name: String, wallpapers: Vec<String> },
    Play { name: Option<String>, interval: String, foreground: bool, resume: bool },
    Stop,
}

} // verus!
