//! The wallpaper operations shared by the command line and the GUI.

use vstd::prelude::*;
use crate::error::{QueryError, SwpError};
use crate::sort::{path_order, sort_paths, stable_sort_of};
use crate::wallpaper_core::backends::{apply_outcome, apply_outcome_is, run_succeeded, Backend, CommandRun};
use crate::wallpaper_core::wallpaper::{list_images, listed_image, random_image, reservoir_draws, reservoir_spec};

verus! {

/// The wallpaper applied at `path` with the backend `b`, given how its
/// program ran: the path where applying succeeded, else the backend's error
/// (as `apply_outcome` gives it).
pub fn apply_wallpaper(path: String, b: &Backend, run: CommandRun) -> (r: Result<String, SwpError>)
    ensures
        match r {
            Ok(p) => p == path && run_succeeded(run),
            Err(e) => !run_succeeded(run) && apply_outcome_is(*b, run, Err(e)),
        },
{
    match apply_outcome(b, run) {
        Ok(()) => Ok(path),
        Err(e) => Err(e),
    }
}

/// The wallpaper to apply at random among `images` (a walk of the
/// wallpaper directory); with none, an error.
pub fn random_wallpaper(images: &Vec<String>) -> (r: Result<String, SwpError>)
    requires
        images.len() < u64::MAX,
    ensures
        images@.len() == 0 ==> r matches Err(SwpError::Query(QueryError::NoImagesFound)),
        images@.len() > 0 ==> (r matches Ok(p) && images@.contains(p)),
        r matches Ok(p) ==> exists|draws: Seq<u64>| #[trigger] reservoir_draws(draws, images@.len())
            && reservoir_spec(images@, draws) == Some(p),
{
    match random_image(images) {
        Some(p) => Ok(p),
        None => Err(SwpError::Query(QueryError::NoImagesFound)),
    }
}

/// The wallpaper directory `dir` and its wallpapers sorted by path, from
/// the entries of a full walk of `dir`.
pub fn list_wallpapers(dir: String, entries: &Vec<String>) -> (r: (String, Vec<String>))
    ensures
        r.0 == dir,
        stable_sort_of(r.1@, entries@.filter(|e: String| listed_image(dir@, e@)), path_order()),
{
    let images = list_images(dir.as_str(), entries);
    let sorted = sort_paths(images);
    (dir, sorted)
}

} // verus!
