//! The texts and choices that the GUI's window shows; drawing them is left
//! to the caller.

use vstd::prelude::*;
use crate::gui::message::{Message, SlideshowMessage, WallpaperMessage};
use crate::gui::state::{GuiApp, ThumbnailState, WallpaperItem, WallpaperState};
use crate::text::{chars_of, concat2, decimal, push_decimal, string_of};

verus! {

/// The status bar's text: the error where there is one, else the status.
pub fn status_text(state: &WallpaperState) -> (r: String)
    ensures
        match state.error_message {
            Some(e) => r@ == "Error: "@ + e@,
            None => r@ == state.status_message@,
        },
{
    match &state.error_message {
        Some(e) => concat2("Error: ", e.as_str()),
        None => state.status_message.clone(),
    }
}

/// What the sidebar's buttons send when pressed; `None` for a button that
/// is disabled.
#[derive(Debug)]
pub struct SidebarPresses {
    pub random: Option<Message>,
    pub start_slideshow: Message,
    pub refresh: Option<Message>,
}

/// The sidebar's buttons: while anything is under way (see
/// `GuiApp::is_busy`), `Random` and `Refresh List` are disabled; `Start
/// Slideshow` always opens the dialog.
pub fn sidebar_presses(app: &GuiApp) -> (r: SidebarPresses)
    ensures
        r.start_slideshow == Message::Slideshow(SlideshowMessage::StartSlideshowPressed),
        if app.wallpapers.is_loading_list || app.wallpapers.is_applying || app.lists.is_editing
            || app.slideshow.is_active {
            r.random is None && r.refresh is None
        } else {
            r.random == Some(Message::Wallpapers(WallpaperMessage::ApplyRandom)) && r.refresh == Some(
                Message::Wallpapers(WallpaperMessage::LoadWallpapers),
            )
        },
{
    let start_slideshow = Message::Slideshow(SlideshowMessage::StartSlideshowPressed);
    if app.is_busy() {
        SidebarPresses { random: None, start_slideshow, refresh: None }
    } else {
        SidebarPresses {
            random: Some(Message::Wallpapers(WallpaperMessage::ApplyRandom)),
            start_slideshow,
            refresh: Some(Message::Wallpapers(WallpaperMessage::LoadWallpapers)),
        }
    }
}

/// The text shown in place of the grid: while the list loads, and when
/// there are no wallpapers; `None` where the grid is shown.
pub fn grid_placeholder(state: &WallpaperState) -> (r: Option<String>)
    ensures
        state.is_loading_list ==> (r matches Some(t) && t@ == "Loading wallpapers..."@),
        !state.is_loading_list && state.items@.len() == 0 ==> (r matches Some(t) && t@ == "No wallpapers found."@),
        !state.is_loading_list && state.items@.len() > 0 ==> r is None,
{
    if state.is_loading_list {
        Some(String::from_str("Loading wallpapers..."))
    } else if state.items.len() == 0 {
        Some(String::from_str("No wallpapers found."))
    } else {
        None
    }
}

/// What pressing the card of `item` sends: applying its wallpaper, or
/// nothing while a wallpaper is being applied.
pub fn card_press(item: &WallpaperItem, state: &WallpaperState) -> (r: Option<Message>)
    ensures
        state.is_applying ==> r is None,
        !state.is_applying ==> r == Some(Message::Wallpapers(WallpaperMessage::ApplySpecific(item.path))),
{
    if state.is_applying {
        None
    } else {
        Some(Message::Wallpapers(WallpaperMessage::ApplySpecific(item.path.clone())))
    }
}

/// What a grid card shows in place of its picture: nothing where a
/// thumbnail is there and ready (the picture is drawn), else a text by the
/// state of its thumbnail.
pub open spec fn card_caption_spec(has_thumbnail: bool, state: ThumbnailState) -> Option<Seq<char>> {
    match state {
        ThumbnailState::Ready => if has_thumbnail {
            None
        } else {
            Some("Preview pending..."@)
        },
        ThumbnailState::Loading => Some("Loading thumbnail..."@),
        ThumbnailState::Failed(reason) => Some("Preview unavailable\n"@ + reason@),
        ThumbnailState::Pending => Some("Preview pending..."@),
    }
}

/// The caption of a grid card's picture area, or `None` where the card
/// draws its thumbnail.
pub fn card_caption(item: &WallpaperItem) -> (r: Option<String>)
    ensures
        r matches Some(c) ==> card_caption_spec(item.thumbnail is Some, item.thumb_state) == Some(c@),
        r is None <==> card_caption_spec(item.thumbnail is Some, item.thumb_state) is None,
{
    match &item.thumb_state {
        ThumbnailState::Ready => if item.thumbnail.is_some() {
            None
        } else {
            Some(String::from_str("Preview pending..."))
        },
        ThumbnailState::Loading => Some(String::from_str("Loading thumbnail...")),
        ThumbnailState::Failed(reason) => Some(concat2("Preview unavailable\n", reason.as_str())),
        ThumbnailState::Pending => Some(String::from_str("Preview pending...")),
    }
}

/// The lines of the slideshow start dialog.
#[derive(Debug)]
pub struct DialogText {
    pub list_line: String,
    pub interval_line: String,
    pub lists_line: String,
}

/// The dialog's text, when the dialog is shown.
pub fn dialog_text(app: &GuiApp) -> (r: Option<DialogText>)
    ensures
        !app.show_slideshow_dialog ==> r is None,
        app.show_slideshow_dialog ==> (r matches Some(d) && d.list_line@ == "List: "@ + match app.slideshow_dialog_list {
            Some(l) => l@,
            None => "Select a list..."@,
        } && d.interval_line@ == "Interval: "@ + app.slideshow_dialog_interval@ && d.lists_line@ == if app.lists.lists@.len()
            == 0 {
            "No lists available"@
        } else {
            decimal(app.lists.lists@.len()) + " list(s) available"@
        }),
{
    if !app.show_slideshow_dialog {
        return None;
    }
    let list_line = match &app.slideshow_dialog_list {
        Some(l) => concat2("List: ", l.as_str()),
        None => String::from_str("List: Select a list..."),
    };
    proof {
        reveal_strlit("List: Select a list...");
        reveal_strlit("List: ");
        reveal_strlit("Select a list...");
    }
    let interval_line = concat2("Interval: ", app.slideshow_dialog_interval.as_str());
    let n = app.lists.lists.len();
    let lists_line = if n == 0 {
        String::from_str("No lists available")
    } else {
        let mut v: Vec<char> = Vec::new();
        push_decimal(&mut v, n as u64);
        let mut s = string_of(&v);
        s.append(" list(s) available");
        s
    };
    Some(DialogText { list_line, interval_line, lists_line })
}

/// The slideshow panel: the label and message of its pause/resume button
/// and its two lines.
#[derive(Debug)]
pub struct PanelText {
    pub toggle_label: String,
    pub toggle: SlideshowMessage,
    pub list_line: String,
    pub count_line: String,
}

/// The panel's text, while the slideshow runs.
pub fn panel_text(app: &GuiApp) -> (r: Option<PanelText>)
    ensures
        !app.slideshow.is_active ==> r is None,
        app.slideshow.is_active ==> (r matches Some(p) && (if app.slideshow.is_paused {
            p.toggle_label@ == "Resume"@ && p.toggle is ResumePressed
        } else {
            p.toggle_label@ == "Pause"@ && p.toggle is PausePressed
        }) && p.list_line@ == "List: "@ + match app.slideshow.current_list {
            Some(l) => l@,
            None => "Unknown"@,
        } && p.count_line@ == "Wallpaper #"@ + decimal(app.slideshow.cycle_count as nat) + " | Interval: "@ + decimal(
            app.slideshow.current_interval as nat,
        ) + "s"@),
{
    if !app.slideshow.is_active {
        return None;
    }
    let (toggle_label, toggle) = if app.slideshow.is_paused {
        (String::from_str("Resume"), SlideshowMessage::ResumePressed)
    } else {
        (String::from_str("Pause"), SlideshowMessage::PausePressed)
    };
    let list_line = match &app.slideshow.current_list {
        Some(l) => concat2("List: ", l.as_str()),
        None => String::from_str("List: Unknown"),
    };
    proof {
        reveal_strlit("List: Unknown");
        reveal_strlit("List: ");
        reveal_strlit("Unknown");
    }
    let mut v = chars_of("Wallpaper #");
    push_decimal(&mut v, app.slideshow.cycle_count as u64);
    let mid = chars_of(" | Interval: ");
    crate::text::push_chars_vec(&mut v, &mid);
    push_decimal(&mut v, app.slideshow.current_interval);
    v.push('s');
    proof {
        reveal_strlit("s");
        assert(v@ =~= "Wallpaper #"@ + decimal(app.slideshow.cycle_count as nat) + " | Interval: "@ + decimal(
            app.slideshow.current_interval as nat,
        ) + "s"@);
    }
    let count_line = string_of(&v);
    Some(PanelText { toggle_label, toggle, list_line, count_line })
}

} // verus!
