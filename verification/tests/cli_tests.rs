use simple_wallpaper::cli::cmd::{
    entry_names, interactive_pick, list_selection, page_size, pick_from_entries, pick_from_list,
    pick_from_matches, resolve_set_input, to_sorted_entries, SetChoice,
};
use simple_wallpaper::cli::handlers::{handle_set, SetRequest};
use simple_wallpaper::error::{QueryError, SelectionError, SwpError};
use simple_wallpaper::wallpaper_core::lists::ListItem;
use simple_wallpaper::wallpaper_core::query::SetInputResolution;
use simple_wallpaper::cli::handlers::{rmv_request, split_remove_inputs};

use simple_wallpaper::cli::handlers::{rmv_after_confirm, rmv_after_pick, RmvStep};

fn strings(v: &[&str]) -> Vec<String> {
    v.iter().map(|s| s.to_string()).collect()
}

fn pair(a: &str, b: &str) -> (String, String) {
    (a.to_string(), b.to_string())
}

#[test]
fn entries_are_sorted_by_file_name() {
    let entries = to_sorted_entries(strings(&["/w/z/b.png", "/w/a.png", "/", "/w/c/b.png"]));
    assert_eq!(entries, vec![pair("a.png", "/w/a.png"), pair("b.png", "/w/z/b.png"), pair("b.png", "/w/c/b.png")]);
    assert_eq!(entry_names(&entries), strings(&["a.png", "b.png", "b.png"]));
}

#[test]
fn picker_page_size_is_capped() {
    assert_eq!(page_size(3), 3);
    assert_eq!(page_size(14), 14);
    assert_eq!(page_size(200), 14);
}

#[test]
fn picking_an_entry_by_name() {
    let entries = vec![pair("a.png", "/w/a.png"), pair("b.png", "/w/x/b.png"), pair("b.png", "/w/y/b.png")];
    assert_eq!(pick_from_entries(entries.clone(), "b.png").unwrap(), "/w/x/b.png");
    assert!(matches!(
        pick_from_entries(entries, "c.png"),
        Err(SwpError::Selection(SelectionError::InvalidSelection))
    ));
}

#[test]
fn interactive_pick_needs_images() {
    match interactive_pick("/w", Vec::new()) {
        Err(SwpError::Query(QueryError::NoImagesInDir { dir })) => assert_eq!(dir, "/w"),
        other => panic!("unexpected: {other:?}"),
    }
    assert_eq!(interactive_pick("/w", strings(&["/w/b.png", "/w/a.png"])).unwrap().len(), 2);
}

#[test]
fn several_matches_are_offered_with_a_prompt() {
    let (entries, prompt) = pick_from_matches(strings(&["/w/angel-b.jpg", "/w/angel-a.jpg"]), "angel");
    assert_eq!(entries, vec![pair("angel-a.jpg", "/w/angel-a.jpg"), pair("angel-b.jpg", "/w/angel-b.jpg")]);
    assert_eq!(prompt, "2 result(s) for \"angel\" — choose:");
    match resolve_set_input(SetInputResolution::Resolved("/w/a.png".to_string())) {
        SetChoice::Chosen(p) => assert_eq!(p, "/w/a.png"),
        other => panic!("unexpected: {other:?}"),
    }
    match resolve_set_input(SetInputResolution::MultipleMatches {
        query: "sea".to_string(),
        matches: strings(&["/w/sea2.png", "/w/sea1.png"]),
    }) {
        SetChoice::Ask { entries, prompt } => {
            assert_eq!(entries.len(), 2);
            assert_eq!(entries[0].0, "sea1.png");
            assert_eq!(prompt, "2 result(s) for \"sea\" — choose:");
        }
        other => panic!("unexpected: {other:?}"),
    }
}

#[test]
fn set_arguments_are_joined() {
    assert!(matches!(handle_set(&Vec::new()), SetRequest::Interactive));
    assert!(matches!(handle_set(&strings(&["  ", ""])), SetRequest::Interactive));
    match handle_set(&strings(&["angel", "night "])) {
        SetRequest::Query(q) => assert_eq!(q, "angel night"),
        other => panic!("unexpected: {other:?}"),
    }
}

#[test]
fn list_items_offered_for_removal() {
    let items = vec![
        ListItem { id: 1, relative_path: Some("sub/a.png".to_string()) },
        ListItem { id: 2, relative_path: None },
        ListItem { id: 3, relative_path: Some("b.png".to_string()) },
    ];
    assert_eq!(pick_from_list(&items).unwrap(), strings(&["a.png", "b.png"]));
    assert_eq!(list_selection(&items, "b.png").unwrap(), 3);
    assert!(matches!(list_selection(&items, "z.png"), Err(SwpError::Selection(SelectionError::InvalidSelection))));
    match pick_from_list(&Vec::new()) {
        Err(SwpError::Selection(SelectionError::PromptFailure { message })) => assert_eq!(message, "No wallpapers in list."),
        other => panic!("unexpected: {other:?}"),
    }
    match pick_from_list(&vec![ListItem { id: 9, relative_path: None }]) {
        Err(SwpError::Selection(SelectionError::PromptFailure { message })) => {
            assert_eq!(message, "No valid wallpapers in list.")
        }
        other => panic!("unexpected: {other:?}"),
    }
}

#[test]
fn rmv_and_remove_arguments() {
    assert!(matches!(rmv_request(&None), SetRequest::Interactive));
    assert!(matches!(rmv_request(&Some("  ".to_string())), SetRequest::Interactive));
    match rmv_request(&Some(" sea.jpg ".to_string())) {
        SetRequest::Query(q) => assert_eq!(q, "sea.jpg"),
        other => panic!("unexpected: {other:?}"),
    }
    let (ids, queries) = split_remove_inputs(&strings(&[
        "67e55044-10b1-426f-9247-bb680e5fe0c8",
        "sea.jpg",
        "forest",
    ]));
    assert_eq!(ids, vec![0x67e5_5044_10b1_426f_9247_bb68_0e5f_e0c8u128]);
    assert_eq!(queries, strings(&["sea.jpg", "forest"]));
}

#[test]
fn rmv_steps_follow_pick_force_and_confirmation() {
    assert!(matches!(rmv_after_pick(Ok("/w/a.png".to_string()), false), RmvStep::Confirm(p) if p == "/w/a.png"));
    assert!(matches!(rmv_after_pick(Ok("/w/a.png".to_string()), true), RmvStep::Remove(p) if p == "/w/a.png"));
    assert!(matches!(
        rmv_after_pick(Err(SwpError::Selection(SelectionError::Canceled)), false),
        RmvStep::Done(Ok(()))
    ));
    assert!(matches!(
        rmv_after_pick(Err(SwpError::Query(QueryError::NoImagesFound)), true),
        RmvStep::Done(Err(SwpError::Query(QueryError::NoImagesFound)))
    ));
    assert!(matches!(rmv_after_confirm("/w/a.png".to_string(), Ok(true)), RmvStep::Remove(p) if p == "/w/a.png"));
    assert!(matches!(rmv_after_confirm("/w/a.png".to_string(), Ok(false)), RmvStep::Done(Ok(()))));
    assert!(matches!(
        rmv_after_confirm("/w/a.png".to_string(), Err(SwpError::Selection(SelectionError::Canceled))),
        RmvStep::Done(Ok(()))
    ));
    assert!(matches!(
        rmv_after_confirm("/w/a.png".to_string(), Err(SwpError::HomeEnvMissing)),
        RmvStep::Done(Err(SwpError::HomeEnvMissing))
    ));
}
