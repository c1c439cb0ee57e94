use simple_wallpaper::error::SwpError;
use simple_wallpaper::gui::handlers::lists::{update as lists_update, ListsTask};
use simple_wallpaper::gui::handlers::slideshow::{first_slide, update as slideshow_update, SlideshowTask};
use simple_wallpaper::gui::handlers::wallpaper::{update as wallpaper_update, WallpaperTask};
use simple_wallpaper::gui::message::{ListsMessage, Message, SlideshowMessage, WallpaperMessage};
use simple_wallpaper::gui::state::{GuiApp, GuiPage, ListsState, SlideshowState, ThumbnailState, WallpaperState};
use simple_wallpaper::gui::update::{update, AppTask};
use simple_wallpaper::wallpaper_core::lists::ListItem;
use simple_wallpaper::wallpaper_core::thumbnail::ThumbnailData;
use simple_wallpaper::gui::view::{card_caption, dialog_text, panel_text, status_text};
use simple_wallpaper::gui::state::WallpaperItem;

use simple_wallpaper::gui::view::{card_press, grid_placeholder, sidebar_presses};

fn strings(v: &[&str]) -> Vec<String> {
    v.iter().map(|s| s.to_string()).collect()
}

#[test]
fn wallpaper_grid_loads_and_makes_thumbnails_in_turn() {
    let mut s = WallpaperState::new();
    assert!(matches!(wallpaper_update(&mut s, WallpaperMessage::LoadWallpapers), WallpaperTask::ListWallpapers));
    assert!(s.is_loading_list && s.is_busy());
    let t = wallpaper_update(&mut s, WallpaperMessage::WallpapersLoaded(Ok(strings(&["/w/a.png", "/w/b.png"]))));
    assert!(matches!(t, WallpaperTask::Done(WallpaperMessage::GenerateNextThumbnail)));
    assert_eq!(s.status_message, "Loaded 2 wallpaper(s).");
    assert_eq!(s.items[1].filename, "b.png");
    assert!(!s.is_loading_list);

    match wallpaper_update(&mut s, WallpaperMessage::GenerateNextThumbnail) {
        WallpaperTask::Done(WallpaperMessage::GenerateThumbnail(p)) => assert_eq!(p, "/w/a.png"),
        other => panic!("unexpected: {other:?}"),
    }
    assert!(matches!(s.items[0].thumb_state, ThumbnailState::Loading));
    match wallpaper_update(&mut s, WallpaperMessage::GenerateThumbnail("/w/a.png".to_string())) {
        WallpaperTask::GenerateThumbnail { path, width, height } => {
            assert_eq!(path, "/w/a.png");
            assert_eq!((width, height), (256, 160));
        }
        other => panic!("unexpected: {other:?}"),
    }
    let data = ThumbnailData { width: 1, height: 1, pixels: vec![0, 0, 0, 255] };
    wallpaper_update(&mut s, WallpaperMessage::ThumbnailLoaded("/w/a.png".to_string(), data));
    assert!(matches!(s.items[0].thumb_state, ThumbnailState::Ready));
    assert!(s.items[0].thumbnail.is_some());

    match wallpaper_update(&mut s, WallpaperMessage::GenerateNextThumbnail) {
        WallpaperTask::Done(WallpaperMessage::GenerateThumbnail(p)) => assert_eq!(p, "/w/b.png"),
        other => panic!("unexpected: {other:?}"),
    }
    wallpaper_update(&mut s, WallpaperMessage::ThumbnailFailed("/w/b.png".to_string(), "bad".to_string()));
    assert!(matches!(&s.items[1].thumb_state, ThumbnailState::Failed(m) if m == "bad"));
    assert!(matches!(wallpaper_update(&mut s, WallpaperMessage::GenerateNextThumbnail), WallpaperTask::Idle));
}

#[test]
fn wallpaper_grid_applies_and_reports() {
    let mut s = WallpaperState::new();
    match wallpaper_update(&mut s, WallpaperMessage::ApplySpecific("/w/sea.jpg".to_string())) {
        WallpaperTask::Apply(p) => assert_eq!(p, "/w/sea.jpg"),
        other => panic!("unexpected: {other:?}"),
    }
    assert_eq!(s.status_message, "Applying sea.jpg...");
    assert_eq!(s.selected, Some("/w/sea.jpg".to_string()));
    wallpaper_update(&mut s, WallpaperMessage::WallpaperApplied(Ok("/w/sea.jpg".to_string())));
    assert_eq!(s.status_message, "Applied: sea.jpg");
    assert!(!s.is_applying);
    assert!(matches!(wallpaper_update(&mut s, WallpaperMessage::ApplyRandom), WallpaperTask::ApplyRandom));
    wallpaper_update(&mut s, WallpaperMessage::WallpaperApplied(Err(SwpError::HomeEnvMissing)));
    assert_eq!(s.status_message, "Failed to apply wallpaper.");
    assert!(s.error_message.is_some());
    s.clear_messages();
    assert_eq!(s.status_message, "");
    assert_eq!(s.error_message, None);
}

#[test]
fn lists_page_flow() {
    let mut s = ListsState::new();
    assert!(matches!(lists_update(&mut s, ListsMessage::LoadLists), ListsTask::LoadLists));
    lists_update(&mut s, ListsMessage::ListsLoaded(Ok(vec![("fav".to_string(), 3)])));
    assert_eq!(s.status_message, "Loaded 1 list(s).");
    lists_update(&mut s, ListsMessage::CreateListPressed);
    assert!(s.is_editing);
    match lists_update(&mut s, ListsMessage::ConfirmCreateList("  sea ".to_string())) {
        ListsTask::CreateList(n) => assert_eq!(n, "sea"),
        other => panic!("unexpected: {other:?}"),
    }
    assert_eq!(s.status_message, "Creating list 'sea'...");
    lists_update(&mut s, ListsMessage::ConfirmCreateList("   ".to_string()));
    assert_eq!(s.error_message, Some("List name cannot be empty.".to_string()));
    match lists_update(&mut s, ListsMessage::ConfirmedAddWallpapers("fav".to_string(), strings(&["/w/a.png"]))) {
        ListsTask::AddToList(n, p) => {
            assert_eq!(n, "fav");
            assert_eq!(p, strings(&["/w/a.png"]));
        }
        other => panic!("unexpected: {other:?}"),
    }
    assert_eq!(s.status_message, "Adding 1 wallpapers to 'fav'...");
    lists_update(&mut s, ListsMessage::DeletedList("fav".to_string(), Ok(())));
    assert_eq!(s.status_message, "List 'fav' deleted.");
    assert_eq!(s.selected_list, None);
}

#[test]
fn slideshow_start_pause_resume_stop() {
    let mut s = SlideshowState::new();
    match slideshow_update(&mut s, SlideshowMessage::StartWithList("fav".to_string(), "2m".to_string())) {
        SlideshowTask::FirstOfList(l) => assert_eq!(l, "fav"),
        other => panic!("unexpected: {other:?}"),
    }
    assert!(s.is_active && !s.is_paused);
    assert_eq!(s.current_interval, 120);
    assert_eq!(s.message, Some("Starting slideshow: fav (120s interval)".to_string()));

    match slideshow_update(&mut s, SlideshowMessage::SlideApplied(Ok("/w/a.png".to_string()))) {
        SlideshowTask::ApplyThenWait { path, seconds } => {
            assert_eq!(path, "/w/a.png");
            assert_eq!(seconds, 120);
        }
        other => panic!("unexpected: {other:?}"),
    }
    assert_eq!(s.cycle_count, 1);
    slideshow_update(&mut s, SlideshowMessage::PausePressed);
    assert!(s.is_paused);
    assert_eq!(s.message, Some("Slideshow paused".to_string()));
    match slideshow_update(&mut s, SlideshowMessage::ResumePressed) {
        SlideshowTask::Done(SlideshowMessage::SlideApplied(Ok(p))) => assert_eq!(p, "/w/a.png"),
        other => panic!("unexpected: {other:?}"),
    }
    slideshow_update(&mut s, SlideshowMessage::IntervalChanged("45".to_string()));
    assert_eq!(s.current_interval, 45);
    assert_eq!(s.message, Some("Interval set to 45s".to_string()));
    slideshow_update(&mut s, SlideshowMessage::IntervalChanged("soon".to_string()));
    assert_eq!(s.message, Some("Invalid interval: Use format: 5s, 1m, or plain number".to_string()));
    slideshow_update(&mut s, SlideshowMessage::StopPressed);
    assert!(!s.is_active);
    assert_eq!(s.current_list, None);
    assert_eq!(s.message, Some("Slideshow stopped".to_string()));
    assert_eq!(s.current_interval, 45);
}

#[test]
fn slideshow_error_and_bad_interval() {
    let mut s = SlideshowState::new();
    slideshow_update(&mut s, SlideshowMessage::StartWithList("fav".to_string(), "xm".to_string()));
    assert!(!s.is_active);
    assert_eq!(s.message, Some("Invalid interval: Invalid minutes value".to_string()));
    slideshow_update(&mut s, SlideshowMessage::StartWithList("fav".to_string(), "5s".to_string()));
    slideshow_update(&mut s, SlideshowMessage::SlideApplied(Err(SwpError::HomeEnvMissing)));
    assert!(!s.is_active);
    assert_eq!(s.message, None);
    assert_eq!(s.cycle_count, 0);
}

#[test]
fn first_slide_of_a_list() {
    let items = vec![
        ListItem { id: 1, relative_path: Some("a.png".to_string()) },
        ListItem { id: 2, relative_path: Some("b.png".to_string()) },
    ];
    assert_eq!(first_slide(&items).unwrap(), "a.png");
    let missing = vec![ListItem { id: 1, relative_path: None }];
    match first_slide(&missing) {
        Err(SwpError::GuiLaunch { message }) => assert_eq!(message, "No valid wallpaper in list"),
        other => panic!("unexpected: {other:?}"),
    }
    assert!(first_slide(&Vec::new()).is_err());
}

#[test]
fn app_dialog_starts_the_slideshow() {
    let mut app = GuiApp::new();
    assert_eq!(app.current_page, GuiPage::Main);
    update(&mut app, Message::Lists(ListsMessage::ListsLoaded(Ok(vec![("fav".to_string(), 2)]))));
    update(&mut app, Message::Slideshow(SlideshowMessage::StartSlideshowPressed));
    assert!(app.show_slideshow_dialog);
    assert_eq!(app.slideshow_dialog_list, Some("fav".to_string()));
    update(&mut app, Message::Slideshow(SlideshowMessage::ChangeIntervalInput("10s".to_string())));
    assert_eq!(app.slideshow_dialog_interval, "10s");
    match update(&mut app, Message::Slideshow(SlideshowMessage::ConfirmStartSlideshow)) {
        AppTask::Slideshow(SlideshowTask::FirstOfList(l)) => assert_eq!(l, "fav"),
        other => panic!("unexpected: {other:?}"),
    }
    assert!(!app.show_slideshow_dialog);
    assert!(app.slideshow.is_active);
    assert_eq!(app.slideshow.current_interval, 10);
}

#[test]
fn app_routes_messages_to_their_part() {
    let mut app = GuiApp::new();
    assert!(matches!(
        update(&mut app, Message::Wallpapers(WallpaperMessage::LoadWallpapers)),
        AppTask::Wallpapers(WallpaperTask::ListWallpapers)
    ));
    assert!(app.wallpapers.is_loading_list);
    update(&mut app, Message::Slideshow(SlideshowMessage::CancelSlideshowDialog));
    assert!(!app.show_slideshow_dialog);
    assert!(matches!(
        update(&mut app, Message::Slideshow(SlideshowMessage::ConfirmStartSlideshow)),
        AppTask::Slideshow(SlideshowTask::Idle)
    ));
    assert!(!app.slideshow.is_active);
}

#[test]
fn window_texts() {
    let mut app = GuiApp::new();
    assert_eq!(status_text(&app.wallpapers), "Ready");
    app.wallpapers.error_message = Some("boom".to_string());
    assert_eq!(status_text(&app.wallpapers), "Error: boom");
    let item = WallpaperItem {
        path: "/w/a.png".to_string(),
        filename: "a.png".to_string(),
        thumbnail: None,
        thumb_state: ThumbnailState::Failed("bad".to_string()),
    };
    assert_eq!(card_caption(&item).as_deref(), Some("Preview unavailable\nbad"));
    let mut item = item;
    item.thumb_state = ThumbnailState::Ready;
    assert_eq!(card_caption(&item).as_deref(), Some("Preview pending..."));
    item.thumb_state = ThumbnailState::Loading;
    assert_eq!(card_caption(&item).as_deref(), Some("Loading thumbnail..."));
    item.thumbnail = Some(ThumbnailData { width: 1, height: 1, pixels: vec![1, 2, 3] });
    assert_eq!(card_caption(&item).as_deref(), Some("Loading thumbnail..."));
    item.thumb_state = ThumbnailState::Ready;
    assert_eq!(card_caption(&item), None);

    assert!(dialog_text(&app).is_none());
    app.show_slideshow_dialog = true;
    let d = dialog_text(&app).unwrap();
    assert_eq!(d.list_line, "List: Select a list...");
    assert_eq!(d.interval_line, "Interval: 5s");
    assert_eq!(d.lists_line, "No lists available");
    app.lists.lists = vec![("a".to_string(), 1), ("b".to_string(), 2)];
    app.slideshow_dialog_list = Some("a".to_string());
    let d = dialog_text(&app).unwrap();
    assert_eq!(d.list_line, "List: a");
    assert_eq!(d.lists_line, "2 list(s) available");

    assert!(panel_text(&app).is_none());
    app.slideshow.is_active = true;
    app.slideshow.cycle_count = 3;
    let p = panel_text(&app).unwrap();
    assert_eq!(p.toggle_label, "Pause");
    assert!(matches!(p.toggle, SlideshowMessage::PausePressed));
    assert_eq!(p.list_line, "List: Unknown");
    assert_eq!(p.count_line, "Wallpaper #3 | Interval: 5s");
    app.slideshow.is_paused = true;
    assert_eq!(panel_text(&app).unwrap().toggle_label, "Resume");
}

#[test]
fn defaults_are_the_fresh_states() {
    let w = WallpaperState::default();
    assert_eq!(w.status_message, "Ready");
    let s = SlideshowState::default();
    assert_eq!(s.current_interval, 5);
    let app = GuiApp::default();
    assert_eq!(app.slideshow_dialog_interval, "5s");
    assert_eq!(app.current_page, GuiPage::Main);
}

#[test]
fn slideshow_flags_stay_consistent() {
    let consistent = |s: &SlideshowState| (!s.is_paused || s.is_active) && (!s.is_active || s.current_list.is_some());
    let mut s = SlideshowState::new();
    assert!(consistent(&s));
    let messages = vec![
        SlideshowMessage::PausePressed,
        SlideshowMessage::ResumePressed,
        SlideshowMessage::SlideApplied(Ok("/w/a.png".to_string())),
        SlideshowMessage::StartWithList("day".to_string(), "3".to_string()),
        SlideshowMessage::PausePressed,
        SlideshowMessage::SlideApplied(Ok("/w/a.png".to_string())),
        SlideshowMessage::ResumePressed,
        SlideshowMessage::IntervalChanged("x".to_string()),
        SlideshowMessage::SlideApplied(Err(SwpError::HomeEnvMissing)),
        SlideshowMessage::StartWithList("day".to_string(), "0".to_string()),
        SlideshowMessage::StopPressed,
        SlideshowMessage::PausePressed,
    ];
    for m in messages {
        slideshow_update(&mut s, m);
        assert!(consistent(&s));
    }
}

#[test]
fn busy_window_disables_actions() {
    let mut app = GuiApp::new();
    let p = sidebar_presses(&app);
    assert!(matches!(p.random, Some(Message::Wallpapers(WallpaperMessage::ApplyRandom))));
    assert!(matches!(p.refresh, Some(Message::Wallpapers(WallpaperMessage::LoadWallpapers))));
    assert!(matches!(p.start_slideshow, Message::Slideshow(SlideshowMessage::StartSlideshowPressed)));
    app.slideshow.is_active = true;
    let p = sidebar_presses(&app);
    assert!(p.random.is_none() && p.refresh.is_none());
    assert!(matches!(p.start_slideshow, Message::Slideshow(SlideshowMessage::StartSlideshowPressed)));

    let mut state = WallpaperState::new();
    state.is_loading_list = true;
    assert_eq!(grid_placeholder(&state).as_deref(), Some("Loading wallpapers..."));
    state.is_loading_list = false;
    assert_eq!(grid_placeholder(&state).as_deref(), Some("No wallpapers found."));
    let item = || WallpaperItem {
        path: "/w/a.png".to_string(),
        filename: "a.png".to_string(),
        thumbnail: None,
        thumb_state: ThumbnailState::Pending,
    };
    state.items.push(item());
    let item = item();
    assert!(grid_placeholder(&state).is_none());
    assert!(matches!(card_press(&item, &state), Some(Message::Wallpapers(WallpaperMessage::ApplySpecific(p))) if p == "/w/a.png"));
    state.is_applying = true;
    assert!(card_press(&item, &state).is_none());
}
