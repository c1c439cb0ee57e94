//! The wallpaper grid: loading the wallpapers, generating thumbnails one at
//! a time, and applying a wallpaper.

use vstd::prelude::*;

use crate::gui::message::WallpaperMessage;
use crate::gui::state::{ThumbnailState, WallpaperItem, WallpaperState};
use crate::paths::{display_name, display_name_spec, path_eq, same_path};
use crate::text::{chars_of, decimal, push_decimal, string_of};

verus! {

/// The work that a grid message starts; each ends in the message named.
#[derive(Debug)]
pub enum WallpaperTask {
    /// Nothing to do.
    Idle,
    /// Deliver this message next.
    Done(WallpaperMessage),
    /// List the wallpapers (then `WallpapersLoaded`).
    ListWallpapers,
    /// Make the thumbnail of `path` within `width` by `height` (then
    /// `ThumbnailLoaded` or `ThumbnailFailed`).
    GenerateThumbnail { path: String, width: u16, height: u16 },
    /// Apply a random wallpaper (then `WallpaperApplied`).
    ApplyRandom,
    /// Apply this wallpaper (then `WallpaperApplied`).
    Apply(String),
}

/// Whether `item` is a fresh grid entry for `p`.
pub open spec fn fresh_item(item: WallpaperItem, p: String) -> bool {
    &&& item.path == p
    &&& item.filename@ == display_name_spec(p@)
    &&& item.thumbnail is None
    &&& item.thumb_state is Pending
}

/// The status shown once `n` wallpapers are loaded.
pub open spec fn loaded_status(n: nat) -> Seq<char> {
    "Loaded "@ + decimal(n) + " wallpaper(s)."@
}

/// Whether `i` is the first index of `items` whose thumbnail is pending.
pub open spec fn first_pending(items: Seq<WallpaperItem>, i: int) -> bool {
    &&& 0 <= i < items.len()
    &&& items[i].thumb_state is Pending
    &&& forall|j: int| 0 <= j < i ==> (#[trigger] items[j]).thumb_state !is Pending
}

/// Whether `i` is the first index of `items` with the path `p`.
pub open spec fn first_with_path(items: Seq<WallpaperItem>, p: Seq<char>, i: int) -> bool {
    &&& 0 <= i < items.len()
    &&& same_path(items[i].path@, p)
    &&& forall|j: int| 0 <= j < i ==> !same_path((#[trigger] items[j]).path@, p)
}

/// Whether the grid's fields other than its items and messages are as in `old`.
pub open spec fn same_flags(new: WallpaperState, old: WallpaperState) -> bool {
    new.is_loading_list == old.is_loading_list && new.is_applying == old.is_applying && new.selected == old.selected
}

fn find_pending(items: &Vec<WallpaperItem>) -> (r: Option<usize>)
    ensures
        match r {
            Some(i) => first_pending(items@, i as int),
            None => forall|j: int| 0 <= j < items@.len() ==> (#[trigger] items@[j]).thumb_state !is Pending,
        },
{
    let mut i: usize = 0;
    while i < items.len()
        invariant
            i <= items.len(),
            forall|j: int| 0 <= j < i ==> (#[trigger] items@[j]).thumb_state !is Pending,
        decreases items.len() - i,
    {
        if let ThumbnailState::Pending = items[i].thumb_state {
            return Some(i);
        }
        i = i + 1;
    }
    None
}

fn find_path(items: &Vec<WallpaperItem>, p: &str) -> (r: Option<usize>)
    ensures
        match r {
            Some(i) => first_with_path(items@, p@, i as int),
            None => forall|j: int| 0 <= j < items@.len() ==> !same_path((#[trigger] items@[j]).path@, p@),
        },
{
    let mut i: usize = 0;
    while i < items.len()
        invariant
            i <= items.len(),
            forall|j: int| 0 <= j < i ==> !same_path((#[trigger] items@[j]).path@, p@),
        decreases items.len() - i,
    {
        if path_eq(items[i].path.as_str(), p) {
            return Some(i);
        }
        i = i + 1;
    }
    None
}

/// Takes the item at `i` out of `items` and puts `item` in its place.
fn replace_item(items: &mut Vec<WallpaperItem>, i: usize, item: WallpaperItem) -> (old_item: WallpaperItem)
    requires
        i < old(items).len(),
    ensures
        final(items)@ == old(items)@.update(i as int, item),
        old_item == old(items)@[i as int],
{
    let mut it = item;
    items.set_and_swap(i, &mut it);
    it
}

/// What updating the grid `old` on `message` leads to: the grid `new` and the work `r`.
pub open spec fn wallpaper_update_post(old: WallpaperState, new: WallpaperState, message: WallpaperMessage, r: WallpaperTask) -> bool {
    match message {
        WallpaperMessage::LoadWallpapers => new.is_loading_list && new.error_message is None
            && new.items@.len() == 0 && new.status_message@ == "Loading wallpapers..."@
            && new.is_applying == old.is_applying && new.selected == old.selected
            && r is ListWallpapers,
        WallpaperMessage::WallpapersLoaded(Ok(images)) => !new.is_loading_list
            && new.items@.len() == images@.len()
            && (forall|i: int| 0 <= i < images@.len() ==> fresh_item(#[trigger] new.items@[i], images@[i]))
            && new.status_message@ == loaded_status(images@.len()) && new.error_message is None
            && new.is_applying == old.is_applying && new.selected == old.selected
            && r == WallpaperTask::Done(WallpaperMessage::GenerateNextThumbnail),
        WallpaperMessage::WallpapersLoaded(Err(e)) => !new.is_loading_list
            && new.items@.len() == 0 && new.status_message@ == "Failed to load wallpapers."@
            && (new.error_message matches Some(m) && m@ == e.message_spec())
            && new.is_applying == old.is_applying && new.selected == old.selected
            && r is Idle,
        WallpaperMessage::GenerateNextThumbnail => same_flags(new, old)
            && new.status_message == old.status_message
            && new.error_message == old.error_message && (if exists|i: int| first_pending(old.items@, i) {
            exists|i: int| #[trigger] first_pending(old.items@, i) && new.items@ == old.items@.update(
                i,
                WallpaperItem { thumb_state: ThumbnailState::Loading, ..old.items@[i] },
            ) && r == WallpaperTask::Done(WallpaperMessage::GenerateThumbnail(old.items@[i].path))
        } else {
            new.items == old.items && r is Idle
        }),
        WallpaperMessage::GenerateThumbnail(p) => new == old && r == (WallpaperTask::GenerateThumbnail {
            path: p,
            width: 256,
            height: 160,
        }),
        WallpaperMessage::ThumbnailLoaded(p, data) => same_flags(new, old)
            && new.status_message == old.status_message
            && new.error_message == old.error_message && (if exists|i: int| first_with_path(old.items@, p@, i) {
            exists|i: int| #[trigger] first_with_path(old.items@, p@, i) && new.items@ == old.items@.update(
                i,
                WallpaperItem { thumbnail: Some(data), thumb_state: ThumbnailState::Ready, ..old.items@[i] },
            )
        } else {
            new.items == old.items
        }) && r == WallpaperTask::Done(WallpaperMessage::GenerateNextThumbnail),
        WallpaperMessage::ThumbnailFailed(p, err) => same_flags(new, old)
            && new.status_message == old.status_message
            && new.error_message == old.error_message && (if exists|i: int| first_with_path(old.items@, p@, i) {
            exists|i: int| #[trigger] first_with_path(old.items@, p@, i) && new.items@ == old.items@.update(
                i,
                WallpaperItem { thumbnail: None, thumb_state: ThumbnailState::Failed(err), ..old.items@[i] },
            )
        } else {
            new.items == old.items
        }) && r == WallpaperTask::Done(WallpaperMessage::GenerateNextThumbnail),
        WallpaperMessage::ApplyRandom => new.is_applying && new.error_message is None
            && new.status_message@ == "Applying random wallpaper..."@
            && new.items == old.items && new.is_loading_list == old.is_loading_list
            && new.selected == old.selected && r is ApplyRandom,
        WallpaperMessage::ApplySpecific(p) => new.is_applying && new.selected == Some(p)
            && new.error_message is None
            && new.status_message@ == "Applying "@ + display_name_spec(p@) + "..."@
            && new.items == old.items && new.is_loading_list == old.is_loading_list
            && r == WallpaperTask::Apply(p),
        WallpaperMessage::WallpaperApplied(Ok(p)) => !new.is_applying
            && new.status_message@ == "Applied: "@ + display_name_spec(p@) && new.error_message is None
            && new.items == old.items && new.is_loading_list == old.is_loading_list
            && new.selected == old.selected && r is Idle,
        WallpaperMessage::WallpaperApplied(Err(e)) => !new.is_applying
            && new.status_message@ == "Failed to apply wallpaper."@
            && (new.error_message matches Some(m) && m@ == e.message_spec())
            && new.items == old.items && new.is_loading_list == old.is_loading_list
            && new.selected == old.selected && r is Idle,
    }
}

/// Updates the grid on `message` and gives the work it starts.
pub fn update(state: &mut WallpaperState, message: WallpaperMessage) -> (r: WallpaperTask)
    ensures
        wallpaper_update_post(*old(state), *final(state), message, r),

{
    match message {
        WallpaperMessage::LoadWallpapers => {
            state.is_loading_list = true;
            state.error_message = None;
            state.items.clear();
            state.status_message = String::from_str("Loading wallpapers...");
            WallpaperTask::ListWallpapers
        },
        WallpaperMessage::WallpapersLoaded(Ok(images)) => {
            state.is_loading_list = false;
            let mut items: Vec<WallpaperItem> = Vec::new();
            let mut i: usize = 0;
            while i < images.len()
                invariant
                    i <= images.len(),
                    items@.len() == i,
                    forall|j: int| 0 <= j < i ==> fresh_item(#[trigger] items@[j], images@[j]),
                decreases images.len() - i,
            {
                let p = images[i].clone();
                let filename = display_name(p.as_str());
                items.push(WallpaperItem { path: p, filename, thumbnail: None, thumb_state: ThumbnailState::Pending });
                i = i + 1;
            }
            let n = items.len();
            state.items = items;
            let mut v = chars_of("Loaded ");
            push_decimal(&mut v, n as u64);
            let mut s = string_of(&v);
            s.append(" wallpaper(s).");
            state.status_message = s;
            state.error_message = None;
            WallpaperTask::Done(WallpaperMessage::GenerateNextThumbnail)
        },
        WallpaperMessage::WallpapersLoaded(Err(err)) => {
            state.is_loading_list = false;
            state.items.clear();
            state.status_message = String::from_str("Failed to load wallpapers.");
            state.error_message = Some(err.message());
            WallpaperTask::Idle
        },
        WallpaperMessage::GenerateNextThumbnail => {
            match find_pending(&state.items) {
                Some(i) => {
                    let placeholder = WallpaperItem {
                        path: String::new(),
                        filename: String::new(),
                        thumbnail: None,
                        thumb_state: ThumbnailState::Loading,
                    };
                    let ghost before = state.items@;
                    let item = replace_item(&mut state.items, i, placeholder);
                    let path = item.path.clone();
                    let updated = WallpaperItem { thumb_state: ThumbnailState::Loading, ..item };
                    let _ = replace_item(&mut state.items, i, updated);
                    assert(state.items@ =~= before.update(i as int, WallpaperItem { thumb_state: ThumbnailState::Loading, ..before[i as int] }));
                    assert(first_pending(before, i as int));
                    WallpaperTask::Done(WallpaperMessage::GenerateThumbnail(path))
                },
                None => WallpaperTask::Idle,
            }
        },
        WallpaperMessage::GenerateThumbnail(path) => WallpaperTask::GenerateThumbnail { path, width: 256, height: 160 },
        WallpaperMessage::ThumbnailLoaded(path, data) => {
            match find_path(&state.items, path.as_str()) {
                Some(i) => {
                    let placeholder = WallpaperItem {
                        path: String::new(),
                        filename: String::new(),
                        thumbnail: None,
                        thumb_state: ThumbnailState::Loading,
                    };
                    let ghost before = state.items@;
                    let item = replace_item(&mut state.items, i, placeholder);
                    let updated = WallpaperItem { thumbnail: Some(data), thumb_state: ThumbnailState::Ready, ..item };
                    let _ = replace_item(&mut state.items, i, updated);
                    assert(state.items@ =~= before.update(i as int, WallpaperItem { thumbnail: Some(data), thumb_state: ThumbnailState::Ready, ..before[i as int] }));
                    assert(first_with_path(before, path@, i as int));
                },
                None => {},
            }
            WallpaperTask::Done(WallpaperMessage::GenerateNextThumbnail)
        },
        WallpaperMessage::ThumbnailFailed(path, err) => {
            match find_path(&state.items, path.as_str()) {
                Some(i) => {
                    let placeholder = WallpaperItem {
                        path: String::new(),
                        filename: String::new(),
                        thumbnail: None,
                        thumb_state: ThumbnailState::Loading,
                    };
                    let ghost before = state.items@;
                    let item = replace_item(&mut state.items, i, placeholder);
                    let updated = WallpaperItem { thumbnail: None, thumb_state: ThumbnailState::Failed(err), ..item };
                    let _ = replace_item(&mut state.items, i, updated);
                    assert(state.items@ =~= before.update(i as int, WallpaperItem { thumbnail: None, thumb_state: ThumbnailState::Failed(err), ..before[i as int] }));
                    assert(first_with_path(before, path@, i as int));
                },
                None => {},
            }
            WallpaperTask::Done(WallpaperMessage::GenerateNextThumbnail)
        },
        WallpaperMessage::ApplyRandom => {
            state.is_applying = true;
            state.error_message = None;
            state.status_message = String::from_str("Applying random wallpaper...");
            WallpaperTask::ApplyRandom
        },
        WallpaperMessage::ApplySpecific(path) => {
            state.is_applying = true;
            state.selected = Some(path.clone());
            state.error_message = None;
            let name = display_name(path.as_str());
            state.status_message = crate::text::concat3("Applying ", name.as_str(), "...");
            WallpaperTask::Apply(path)
        },
        WallpaperMessage::WallpaperApplied(Ok(path)) => {
            state.is_applying = false;
            let name = display_name(path.as_str());
            state.status_message = crate::text::concat2("Applied: ", name.as_str());
            state.error_message = None;
            WallpaperTask::Idle
        },
        WallpaperMessage::WallpaperApplied(Err(err)) => {
            state.is_applying = false;
            state.status_message = String::from_str("Failed to apply wallpaper.");
            state.error_message = Some(err.message());
            WallpaperTask::Idle
        },
    }
}

} // verus!
