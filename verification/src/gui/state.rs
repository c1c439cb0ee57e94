//! The state of the GUI.

use vstd::prelude::*;
use crate::wallpaper_core::thumbnail::ThumbnailData;

verus! {

/// The pages of the GUI.
#[derive(Debug, Clone, Copy, PartialEq, Eq, Structural)]
pub enum GuiPage {
    Main,
    Collections,
}

/// Where the thumbnail of a wallpaper stands.
#[derive(Debug)]
pub enum ThumbnailState {
    Pending,
    Loading,
    Ready,
    Failed(String),
}

/// A wallpaper shown in the grid.
#[derive(Debug)]
pub struct WallpaperItem {
    pub path: String,
    pub filename: String,
    pub thumbnail: Option<ThumbnailData>,
    pub thumb_state: ThumbnailState,
}

/// The wallpaper grid: its items, messages and what is under way.
#[derive(Debug)]
pub struct WallpaperState {
    pub items: Vec<WallpaperItem>,
    pub status_message: String,
    pub error_message: Option<String>,
    pub is_loading_list: bool,
    pub is_applying: bool,
    pub selected: Option<String>,
}

impl WallpaperState {
    /// A grid with no wallpapers, ready.
    pub fn new() -> (r: WallpaperState)
        ensures
            r.items@.len() == 0,
            r.status_message@ == "Ready"@,
            r.error_message is None,
            !r.is_loading_list,
            !r.is_applying,
            r.selected is None,
    {
        WallpaperState {
            items: Vec::new(),
            status_message: String::from_str("Ready"),
            error_message: None,
            is_loading_list: false,
            is_applying: false,
            selected: None,
        }
    }

    /// Whether the list is loading or a wallpaper is being applied.
    pub fn is_busy(&self) -> (r: bool)
        ensures
            r == (self.is_loading_list || self.is_applying),
    {
        self.is_loading_list || self.is_applying
    }

    /// Clears the status and the error message.
    pub fn clear_messages(&mut self)
        ensures
            final(self).status_message@.len() == 0,
            final(self).error_message is None,
            final(self).items == old(self).items,
            final(self).is_loading_list == old(self).is_loading_list,
            final(self).is_applying == old(self).is_applying,
            final(self).selected == old(self).selected,
    {
        self.status_message = String::new();
        self.error_message = None;
    }
}

/// The lists page: the lists, the one selected, and pending edits.
#[derive(Debug)]
pub struct ListsState {
    pub lists: Vec<(String, usize)>,
    pub selected_list: Option<String>,
    pub is_editing: bool,
    pub error_message: Option<String>,
    pub status_message: String,
    pub selected_list_items: Vec<(String, String)>,
    pub new_list_name: String,
    pub pending_add_paths: Vec<String>,
    pub pending_remove_ids: Vec<String>,
    pub pending_delete_list: Option<String>,
    pub pending_remove_item: Option<(String, String, String)>,
}

impl ListsState {
    /// A lists page with no lists, ready.
    pub fn new() -> (r: ListsState)
        ensures
            r.lists@.len() == 0,
            r.selected_list is None,
            !r.is_editing,
            r.error_message is None,
            r.status_message@ == "Ready"@,
            r.selected_list_items@.len() == 0,
            r.new_list_name@.len() == 0,
            r.pending_add_paths@.len() == 0,
            r.pending_remove_ids@.len() == 0,
            r.pending_delete_list is None,
            r.pending_remove_item is None,
    {
        ListsState {
            lists: Vec::new(),
            selected_list: None,
            is_editing: false,
            error_message: None,
            status_message: String::from_str("Ready"),
            selected_list_items: Vec::new(),
            new_list_name: String::new(),
            pending_add_paths: Vec::new(),
            pending_remove_ids: Vec::new(),
            pending_delete_list: None,
            pending_remove_item: None,
        }
    }

    /// Whether an edit is under way.
    pub fn is_busy(&self) -> (r: bool)
        ensures
            r == self.is_editing,
    {
        self.is_editing
    }
}

/// The slideshow: whether it runs, what it plays and how often.
#[derive(Debug)]
pub struct SlideshowState {
    pub is_active: bool,
    pub current_list: Option<String>,
    pub message: Option<String>,
    pub is_paused: bool,
    pub current_interval: u64,
    pub currently_playing: Option<String>,
    pub cycle_count: u32,
    pub playlist_paths: Vec<String>,
    pub current_index: usize,
    pub run_id: u64,
}

impl SlideshowState {
    /// A stopped slideshow with a 5 second interval.
    pub fn new() -> (r: SlideshowState)
        ensures
            !r.is_active,
            r.current_list is None,
            r.message is None,
            !r.is_paused,
            r.current_interval == 5,
            r.currently_playing is None,
            r.cycle_count == 0,
            r.playlist_paths@.len() == 0,
            r.current_index == 0,
            r.run_id == 0,
            crate::gui::handlers::slideshow::flags_consistent(r),
    {
        SlideshowState {
            is_active: false,
            current_list: None,
            message: None,
            is_paused: false,
            current_interval: 5,
            currently_playing: None,
            cycle_count: 0,
            playlist_paths: Vec::new(),
            current_index: 0,
            run_id: 0,
        }
    }

    /// Stops the slideshow and forgets what it played; the interval and the
    /// run id stay.
    pub fn reset(&mut self)
        ensures
            !final(self).is_active,
            final(self).current_list is None,
            final(self).message is None,
            !final(self).is_paused,
            final(self).currently_playing is None,
            final(self).cycle_count == 0,
            final(self).playlist_paths@.len() == 0,
            final(self).current_index == 0,
            final(self).current_interval == old(self).current_interval,
            final(self).run_id == old(self).run_id,
    {
        self.is_active = false;
        self.current_list = None;
        self.message = None;
        self.is_paused = false;
        self.currently_playing = None;
        self.cycle_count = 0;
        self.playlist_paths.clear();
        self.current_index = 0;
    }
}

/// The whole GUI: its three parts, the slideshow dialog and the page shown.
#[derive(Debug)]
pub struct GuiApp {
    pub wallpapers: WallpaperState,
    pub lists: ListsState,
    pub slideshow: SlideshowState,
    pub show_slideshow_dialog: bool,
    pub slideshow_dialog_list: Option<String>,
    pub slideshow_dialog_interval: String,
    pub slideshow_dialog_error: Option<String>,
    pub current_page: GuiPage,
}

impl GuiApp {
    /// The GUI at start: the main page, parts fresh, the dialog closed with
    /// a 5 second interval.
    pub fn new() -> (r: GuiApp)
        ensures
            r.wallpapers.items@.len() == 0 && !r.wallpapers.is_loading_list && !r.wallpapers.is_applying,
            r.lists.lists@.len() == 0 && !r.lists.is_editing,
            !r.slideshow.is_active && r.slideshow.current_interval == 5,
            !r.show_slideshow_dialog,
            r.slideshow_dialog_list is None,
            r.slideshow_dialog_interval@ == "5s"@,
            r.slideshow_dialog_error is None,
            r.current_page == GuiPage::Main,
    {
        GuiApp {
            wallpapers: WallpaperState::new(),
            lists: ListsState::new(),
            slideshow: SlideshowState::new(),
            show_slideshow_dialog: false,
            slideshow_dialog_list: None,
            slideshow_dialog_interval: String::from_str("5s"),
            slideshow_dialog_error: None,
            current_page: GuiPage::Main,
        }
    }

    /// Whether anything is under way: the grid is busy, a list is being
    /// edited, or the slideshow runs.
    pub fn is_busy(&self) -> (r: bool)
        ensures
            r == (self.wallpapers.is_loading_list || self.wallpapers.is_applying || self.lists.is_editing
                || self.slideshow.is_active),
    {
        self.wallpapers.is_busy() || self.lists.is_editing || self.slideshow.is_active
    }
}

impl Default for WallpaperState {
    /// A grid with no wallpapers, ready (as `new`).
    fn default() -> (r: WallpaperState)
        ensures
            r.items@.len() == 0,
            r.status_message@ == "Ready"@,
            r.error_message is None,
            !r.is_loading_list,
            !r.is_applying,
            r.selected is None,
    {
        WallpaperState::new()
    }
}

impl Default for SlideshowState {
    /// A stopped slideshow with a 5 second interval (as `new`).
    fn default() -> (r: SlideshowState)
        ensures
            !r.is_active,
            r.current_list is None,
            r.message is None,
            !r.is_paused,
            r.current_interval == 5,
            r.currently_playing is None,
            r.cycle_count == 0,
            r.playlist_paths@.len() == 0,
            r.current_index == 0,
            r.run_id == 0,
    {
        SlideshowState::new()
    }
}

impl Default for GuiApp {
    /// The GUI at start (as `new`).
    fn default() -> (r: GuiApp)
        ensures
            r.wallpapers.items@.len() == 0 && !r.wallpapers.is_loading_list && !r.wallpapers.is_applying,
            r.lists.lists@.len() == 0 && !r.lists.is_editing,
            !r.slideshow.is_active && r.slideshow.current_interval == 5,
            !r.show_slideshow_dialog,
            r.slideshow_dialog_list is None,
            r.slideshow_dialog_interval@ == "5s"@,
            r.slideshow_dialog_error is None,
            r.current_page == GuiPage::Main,
    {
        GuiApp::new()
    }
}

} // verus!
