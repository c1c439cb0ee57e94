//! The GUI's top-level update: it routes each message to its part and
//! handles the slideshow dialog itself.

use vstd::prelude::*;
use crate::gui::handlers::lists::{lists_update_post, ListsTask};
use crate::gui::handlers::slideshow::{panel_interval_fits, panel_interval_spec, slideshow_update_post, SlideshowTask};
use crate::gui::handlers::wallpaper::{wallpaper_update_post, WallpaperTask};
use crate::gui::message::{Message, SlideshowMessage};
use crate::gui::state::GuiApp;

verus! {

/// The work that a message of the GUI starts, by the part it belongs to.
#[derive(Debug)]
pub enum AppTask {
    Wallpapers(WallpaperTask),
    Lists(ListsTask),
    Slideshow(SlideshowTask),
}

/// Whether the slideshow dialog of `new` is that of `old`.
pub open spec fn same_dialog(new: GuiApp, old: GuiApp) -> bool {
    &&& new.show_slideshow_dialog == old.show_slideshow_dialog
    &&& new.slideshow_dialog_list == old.slideshow_dialog_list
    &&& new.slideshow_dialog_interval == old.slideshow_dialog_interval
    &&& new.slideshow_dialog_error == old.slideshow_dialog_error
}

/// Whether `new` is `old` but for the parts and dialog fields that the flags free.
pub open spec fn app_keeps(new: GuiApp, old: GuiApp, wallpapers: bool, lists: bool, slideshow: bool) -> bool {
    &&& !wallpapers ==> new.wallpapers == old.wallpapers
    &&& !lists ==> new.lists == old.lists
    &&& !slideshow ==> new.slideshow == old.slideshow
    &&& new.current_page == old.current_page
    &&& new.slideshow_dialog_error == old.slideshow_dialog_error
}

/// What updating the GUI `old` on `message` leads to: the GUI `new` and the work `r`.
pub open spec fn app_update_post(old: GuiApp, new: GuiApp, message: Message, r: AppTask) -> bool {
    match message {
        Message::Wallpapers(m) => app_keeps(new, old, true, false, false) && same_dialog(new, old)
            && (r matches AppTask::Wallpapers(t) && wallpaper_update_post(old.wallpapers, new.wallpapers, m, t)),
        Message::Lists(m) => app_keeps(new, old, false, true, false) && same_dialog(new, old)
            && (r matches AppTask::Lists(t) && lists_update_post(old.lists, new.lists, m, t)),
        Message::Slideshow(SlideshowMessage::StartSlideshowPressed) => {
            &&& app_keeps(new, old, false, false, false)
            &&& new.show_slideshow_dialog
            &&& new.slideshow_dialog_list == (if old.lists.lists@.len() > 0 {
                Some(old.lists.lists@[0].0)
            } else {
                old.slideshow_dialog_list
            })
            &&& new.slideshow_dialog_interval == old.slideshow_dialog_interval
            &&& r == AppTask::Slideshow(SlideshowTask::Idle)
        },
        Message::Slideshow(SlideshowMessage::SelectListForSlideshow(l)) => {
            &&& app_keeps(new, old, false, false, false)
            &&& new.show_slideshow_dialog == old.show_slideshow_dialog
            &&& new.slideshow_dialog_list == Some(l)
            &&& new.slideshow_dialog_interval == old.slideshow_dialog_interval
            &&& r == AppTask::Slideshow(SlideshowTask::Idle)
        },
        Message::Slideshow(SlideshowMessage::ChangeIntervalInput(i)) => {
            &&& app_keeps(new, old, false, false, false)
            &&& new.show_slideshow_dialog == old.show_slideshow_dialog
            &&& new.slideshow_dialog_list == old.slideshow_dialog_list
            &&& new.slideshow_dialog_interval == i
            &&& r == AppTask::Slideshow(SlideshowTask::Idle)
        },
        Message::Slideshow(SlideshowMessage::CancelSlideshowDialog) => {
            &&& app_keeps(new, old, false, false, false)
            &&& !new.show_slideshow_dialog
            &&& new.slideshow_dialog_list == old.slideshow_dialog_list
            &&& new.slideshow_dialog_interval == old.slideshow_dialog_interval
            &&& r == AppTask::Slideshow(SlideshowTask::Idle)
        },
        Message::Slideshow(SlideshowMessage::ConfirmStartSlideshow) => match old.slideshow_dialog_list {
            Some(l) => {
                &&& app_keeps(new, old, false, false, true)
                &&& !new.show_slideshow_dialog
                &&& new.slideshow_dialog_list == old.slideshow_dialog_list
                &&& new.slideshow_dialog_interval == old.slideshow_dialog_interval
                &&& r matches AppTask::Slideshow(t) && slideshow_update_post(
                    old.slideshow,
                    new.slideshow,
                    SlideshowMessage::StartWithList(l, old.slideshow_dialog_interval),
                    t,
                )
            },
            None => new == old && r == AppTask::Slideshow(SlideshowTask::Idle),
        },
        Message::Slideshow(m) => app_keeps(new, old, false, false, true) && same_dialog(new, old)
            && (r matches AppTask::Slideshow(t) && slideshow_update_post(old.slideshow, new.slideshow, m, t)),
    }
}

/// Choosing a list in the start dialog and confirming starts the slideshow
/// with that list: the dialog holds the chosen list, and the confirmation
/// (with a well-formed interval) makes it the running slideshow's list and
/// asks for its first wallpaper; with a malformed interval nothing starts.
pub proof fn lemma_selected_list_is_started(
    a0: GuiApp,
    a1: GuiApp,
    a2: GuiApp,
    l: String,
    t1: AppTask,
    t2: AppTask,
)
    requires
        app_update_post(a0, a1, Message::Slideshow(SlideshowMessage::SelectListForSlideshow(l)), t1),
        app_update_post(a1, a2, Message::Slideshow(SlideshowMessage::ConfirmStartSlideshow), t2),
    ensures
        a1.slideshow_dialog_list == Some(l),
        t1 == AppTask::Slideshow(SlideshowTask::Idle),
        panel_interval_spec(a0.slideshow_dialog_interval@) is Ok ==> {
            &&& t2 == AppTask::Slideshow(SlideshowTask::FirstOfList(l))
            &&& a2.slideshow.current_list == Some(l)
            &&& a2.slideshow.is_active
            &&& !a2.slideshow.is_paused
            &&& !a2.show_slideshow_dialog
        },
        panel_interval_spec(a0.slideshow_dialog_interval@) is Err ==> {
            &&& t2 == AppTask::Slideshow(SlideshowTask::Idle)
            &&& a2.slideshow.current_list == a0.slideshow.current_list
            &&& a2.slideshow.is_active == a0.slideshow.is_active
        },
{
}

/// What a message asks of the GUI it reaches: that any interval it sets or
/// starts a slideshow with fits in a `u64`.
pub open spec fn app_message_ok(app: GuiApp, message: Message) -> bool {
    match message {
        Message::Slideshow(SlideshowMessage::ConfirmStartSlideshow) => app.slideshow_dialog_list is Some
            ==> panel_interval_fits(app.slideshow_dialog_interval@),
        Message::Slideshow(SlideshowMessage::StartWithList(_, s)) => panel_interval_fits(s@),
        Message::Slideshow(SlideshowMessage::IntervalChanged(s)) => panel_interval_fits(s@),
        _ => true,
    }
}

/// Updates the GUI on `message` and gives the work it starts.
pub fn update(app: &mut GuiApp, message: Message) -> (r: AppTask)
    requires
        app_message_ok(*old(app), message),
    ensures
        app_update_post(*old(app), *final(app), message, r),
{
    match message {
        Message::Wallpapers(m) => AppTask::Wallpapers(crate::gui::handlers::wallpaper::update(&mut app.wallpapers, m)),
        Message::Lists(m) => AppTask::Lists(crate::gui::handlers::lists::update(&mut app.lists, m)),
        Message::Slideshow(SlideshowMessage::StartSlideshowPressed) => {
            app.show_slideshow_dialog = true;
            if app.lists.lists.len() > 0 {
                app.slideshow_dialog_list = Some(app.lists.lists[0].0.clone());
            }
            AppTask::Slideshow(SlideshowTask::Idle)
        },
        Message::Slideshow(SlideshowMessage::SelectListForSlideshow(l)) => {
            app.slideshow_dialog_list = Some(l);
            AppTask::Slideshow(SlideshowTask::Idle)
        },
        Message::Slideshow(SlideshowMessage::ChangeIntervalInput(i)) => {
            app.slideshow_dialog_interval = i;
            AppTask::Slideshow(SlideshowTask::Idle)
        },
        Message::Slideshow(SlideshowMessage::CancelSlideshowDialog) => {
            app.show_slideshow_dialog = false;
            AppTask::Slideshow(SlideshowTask::Idle)
        },
        Message::Slideshow(SlideshowMessage::ConfirmStartSlideshow) => {
            match &app.slideshow_dialog_list {
                Some(l) => {
                    let list = l.clone();
                    let interval = app.slideshow_dialog_interval.clone();
                    app.show_slideshow_dialog = false;
                    AppTask::Slideshow(
                        crate::gui::handlers::slideshow::update(
                            &mut app.slideshow,
                            SlideshowMessage::StartWithList(list, interval),
                        ),
                    )
                },
                None => AppTask::Slideshow(SlideshowTask::Idle),
            }
        },
        Message::Slideshow(m) => AppTask::Slideshow(crate::gui::handlers::slideshow::update(&mut app.slideshow, m)),
    }
}

} // verus!
