//! The messages that drive the GUI.

use vstd::prelude::*;
use crate::error::SwpError;
use crate::wallpaper_core::thumbnail::ThumbnailData;

verus! {

/// `Clone::clone` on a `Result`, which the messages' derived `clone` uses:
/// as std's impl shows, the copy has the same variant and holds a clone of
/// the value (`cloned` says what `clone` of that type gives).
pub assume_specification<T: Clone, E: Clone>[ <Result<T, E> as Clone>::clone ](r: &Result<T, E>) -> (copy: Result<T, E>)
    ensures
        copy is Ok == r is Ok,
        copy matches Ok(b) ==> r matches Ok(a) && cloned::<T>(*a, b),
        copy matches Err(b) ==> r matches Err(a) && cloned::<E>(*a, b),
;

/// A message, routed to the part of the GUI it concerns.
#[derive(Debug, Clone)]
pub enum Message {
    Wallpapers(WallpaperMessage),
    Lists(ListsMessage),
    Slideshow(SlideshowMessage),
}

/// Messages of the wallpaper grid.
#[derive(Debug, Clone)]
pub enum WallpaperMessage {
    LoadWallpapers,
    WallpapersLoaded(Result<Vec<String>, SwpError>),
    GenerateNextThumbnail,
    GenerateThumbnail(String),
    ThumbnailLoaded(String, ThumbnailData),
    ThumbnailFailed(String, String),
    ApplyRandom,
    ApplySpecific(String),
    WallpaperApplied(Result<String, SwpError>),
}

/// Messages of the lists page.
#[derive(Debug, Clone)]
pub enum ListsMessage {
    LoadLists,
    ListsLoaded(Result<Vec<(String, usize)>, SwpError>),
    CreateListPressed,
    ConfirmCreateList(String),
    CreatedList(Result<(), SwpError>),
    SelectList(String),
    AddWallpapersPressed(String),
    ConfirmedAddWallpapers(String, Vec<String>),
    AddedToList(String, Result<(), SwpError>),
    RemoveWallpapersPressed(String, Vec<String>),
    RemovedFromList(String, Result<(), SwpError>),
    DeleteListPressed(String),
    ConfirmedDeleteList(String),
    DeletedList(String, Result<(), SwpError>),
    PlayListPressed(String, u64),
}

/// Messages of the slideshow.
#[derive(Debug, Clone)]
pub enum SlideshowMessage {
    StartSlideshowPressed,
    SelectListForSlideshow(String),
    ChangeIntervalInput(String),
    ConfirmStartSlideshow,
    CancelSlideshowDialog,
    StartWithList(String, String),
    SlideApplied(Result<String, SwpError>),
    PausePressed,
    ResumePressed,
    StopPressed,
    IntervalChanged(String),
}

} // verus!
