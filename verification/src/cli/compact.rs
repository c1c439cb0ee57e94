//! The commands of the compact command line: `set`, `random`, `slideshow`
//! and `path`.

use vstd::prelude::*;

verus! {

/// The parsed compact command line.
#[derive(Debug)]
pub struct Cli {
    pub command: Commands,
}

/// The commands of the compact command line.
#[derive(Debug)]
pub enum Commands {
    SetWallpaper { name: String },
    Random,
    Slideshow { interval: String },
    Path,
}

} // verus!
