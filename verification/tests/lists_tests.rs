use simple_wallpaper::error::{ListError, SwpError};
use simple_wallpaper::wallpaper_core::lists::{
    add_wallpapers_by_paths, contains_id, create_list, delete_list, filter_out, fisher_yates_shuffle,
    get_list_items_from_list, get_or_create_uuid_with_index, list_file_name, list_lists,
    normalize_list_name, remove_wallpapers, resolve_uuid_to_path_with_index,
    resolve_uuid_to_relative_path_with_index, to_absolute_wallpaper_path, to_relative_wallpaper_path,
    ListPlayer, ListSummary, StringTable, WallpaperIndex, WallpaperList,
};
use simple_wallpaper::wallpaper_core::lists::shuffle_with;
use simple_wallpaper::wallpaper_core::lists::stored_id;
use simple_wallpaper::wallpaper_core::lists::lists_dir;

use simple_wallpaper::wallpaper_core::list_file::{read_list, to_list_file, ListFile};

fn strings(v: &[&str]) -> Vec<String> {
    v.iter().map(|s| s.to_string()).collect()
}

fn empty_list(name: &str) -> WallpaperList {
    WallpaperList { name: name.to_string(), wallpapers: Vec::new(), created_at: 1, updated_at: 1 }
}

#[test]
fn fisher_yates_preserves_length() {
    let items = vec![
        uuid::Uuid::new_v4().as_u128(),
        uuid::Uuid::new_v4().as_u128(),
        uuid::Uuid::new_v4().as_u128(),
    ];
    let shuffled = fisher_yates_shuffle(&items);
    assert_eq!(items.len(), shuffled.len());
}

#[test]
fn fisher_yates_is_a_permutation() {
    let items: Vec<u128> = vec![5, 1, 5, 9, 2, 7];
    for _ in 0..20 {
        let mut shuffled = fisher_yates_shuffle(&items);
        let mut sorted = items.clone();
        shuffled.sort();
        sorted.sort();
        assert_eq!(shuffled, sorted);
    }
    assert!(fisher_yates_shuffle(&Vec::new()).is_empty());
}

#[test]
fn list_names_are_trimmed_and_checked() {
    assert_eq!(normalize_list_name("  my-favorites_2 ").unwrap(), "my-favorites_2");
    for bad in ["", "   ", "has space", "dots.json", "ção"] {
        match normalize_list_name(bad) {
            Err(SwpError::List(ListError::InvalidName { name })) => assert_eq!(name, bad),
            other => panic!("unexpected for {bad:?}: {other:?}"),
        }
    }
    assert_eq!(list_file_name(" rain ").unwrap(), "rain.json");
}

#[test]
fn relative_and_absolute_paths() {
    assert_eq!(to_relative_wallpaper_path("/w/sub/a.png", "/w").unwrap(), "sub/a.png");
    assert_eq!(to_relative_wallpaper_path("/w//sub/./a.png", "/w/").unwrap(), "sub/a.png");
    match to_relative_wallpaper_path("/other/a.png", "/w") {
        Err(SwpError::List(ListError::WallpaperOutsideBase { path, base })) => {
            assert_eq!(path, "/other/a.png");
            assert_eq!(base, "/w");
        }
        other => panic!("unexpected: {other:?}"),
    }
    assert_eq!(to_absolute_wallpaper_path("/w", "sub/a.png"), "/w/sub/a.png");
}

#[test]
fn relative_then_absolute_gives_the_path_back() {
    for p in ["/w/a.png", "/w/sub/deeper/b.jpg"] {
        let rel = to_relative_wallpaper_path(p, "/w").unwrap();
        assert_eq!(to_absolute_wallpaper_path("/w", &rel), p);
    }
}

#[test]
fn uuid_text_round_trip() {
    let mut index = WallpaperIndex::new();
    let id = get_or_create_uuid_with_index("/w/a.png", "/w", &mut index).unwrap();
    assert_eq!((id >> 76) & 0xf, 4);
    assert_eq!((id >> 62) & 0x3, 2);
    let text = index.by_path.get("a.png").unwrap();
    assert_eq!(text, uuid::Uuid::from_u128(id).to_string());
    assert_eq!(index.by_id.get(&text), Some("a.png".to_string()));
    let mut fixed = WallpaperIndex::new();
    fixed.by_path.insert("b.png".to_string(), "67e55044-10b1-426f-9247-bb680e5fe0c8".to_string());
    assert_eq!(
        get_or_create_uuid_with_index("/w/b.png", "/w", &mut fixed).unwrap(),
        0x67e5_5044_10b1_426f_9247_bb68_0e5f_e0c8
    );
    fixed.by_id.insert("67e55044-10b1-426f-9247-bb680e5fe0c8".to_string(), "b.png".to_string());
    assert_eq!(resolve_uuid_to_relative_path_with_index(0x67e5_5044_10b1_426f_9247_bb68_0e5f_e0c8, &fixed), Some("b.png".to_string()));
}

#[test]
fn string_table_later_entries_win() {
    let mut t = StringTable::new();
    assert_eq!(t.get("a"), None);
    t.insert("a".to_string(), "1".to_string());
    t.insert("b".to_string(), "2".to_string());
    t.insert("a".to_string(), "3".to_string());
    assert_eq!(t.get("a"), Some("3".to_string()));
    assert_eq!(t.get("b"), Some("2".to_string()));
}

#[test]
fn created_id_resolves_to_its_path() {
    let mut index = WallpaperIndex::new();
    let id = get_or_create_uuid_with_index("/w/sub/a.png", "/w", &mut index).unwrap();
    let again = get_or_create_uuid_with_index("/w/sub/a.png", "/w", &mut index).unwrap();
    assert_eq!(id, again);
    assert_eq!(resolve_uuid_to_relative_path_with_index(id, &index), Some("sub/a.png".to_string()));
    assert_eq!(resolve_uuid_to_path_with_index(id, &index, "/w"), Some("/w/sub/a.png".to_string()));
    let other = get_or_create_uuid_with_index("/w/b.png", "/w", &mut index).unwrap();
    assert_ne!(id, other);
    assert_eq!(resolve_uuid_to_path_with_index(12345, &index, "/w"), None);
    assert!(get_or_create_uuid_with_index("/x/a.png", "/w", &mut index).is_err());
}

#[test]
fn corrupt_index_entry_is_an_error() {
    let mut index = WallpaperIndex::new();
    index.by_path.insert("a.png".to_string(), "garbage".to_string());
    match get_or_create_uuid_with_index("/w/a.png", "/w", &mut index) {
        Err(SwpError::List(ListError::Index { message })) => {
            assert!(message.starts_with("invalid UUID in index for path 'a.png': "), "{message}")
        }
        other => panic!("unexpected: {other:?}"),
    }
}

#[test]
fn create_and_delete_lists() {
    let l = create_list(" sea ", false, 42).unwrap();
    assert_eq!(l.name, "sea");
    assert!(l.wallpapers.is_empty());
    assert_eq!((l.created_at, l.updated_at), (42, 42));
    match create_list("sea", true, 42) {
        Err(SwpError::List(ListError::AlreadyExists { name })) => assert_eq!(name, "sea"),
        other => panic!("unexpected: {other:?}"),
    }
    assert!(matches!(create_list("a b", false, 1), Err(SwpError::List(ListError::InvalidName { .. }))));
    assert!(delete_list("sea", true).is_ok());
    match delete_list("sea", false) {
        Err(SwpError::List(ListError::NotFound { name })) => assert_eq!(name, "sea"),
        other => panic!("unexpected: {other:?}"),
    }
}

#[test]
fn lists_are_sorted_by_name() {
    let summaries = vec![
        ListSummary { name: "b".to_string(), count: 1 },
        ListSummary { name: "a".to_string(), count: 2 },
        ListSummary { name: "c".to_string(), count: 0 },
    ];
    let names: Vec<String> = list_lists(summaries).into_iter().map(|s| s.name).collect();
    assert_eq!(names, strings(&["a", "b", "c"]));
}

#[test]
fn add_then_remove_wallpapers() {
    let mut index = WallpaperIndex::new();
    let mut list = empty_list("fav");
    let paths = strings(&["/w/a.png", "/w/b.png", "/w/c.png"]);
    assert_eq!(add_wallpapers_by_paths(&mut list, &mut index, "/w", "fav", &paths, 7).unwrap(), 3);
    assert_eq!(list.wallpapers.len(), 3);
    assert_eq!(list.updated_at, 7);

    match add_wallpapers_by_paths(&mut list, &mut index, "/w", "fav", &strings(&["/w/b.png"]), 8) {
        Err(SwpError::List(ListError::AlreadyInList { name, wallpaper })) => {
            assert_eq!(name, "fav");
            assert_eq!(wallpaper, "/w/b.png");
        }
        other => panic!("unexpected: {other:?}"),
    }

    let items = get_list_items_from_list(&list, &index);
    let rel: Vec<Option<String>> = items.iter().map(|i| i.relative_path.clone()).collect();
    assert_eq!(rel, vec![Some("a.png".to_string()), Some("b.png".to_string()), Some("c.png".to_string())]);

    let first = list.wallpapers[0];
    let removed = remove_wallpapers(&mut list, &index, "/w", &strings(&["/w/b.png"]), &vec![first], 9).unwrap();
    assert_eq!(removed, 2);
    assert_eq!(list.wallpapers.len(), 1);
    assert_eq!(list.updated_at, 9);
    assert_eq!(resolve_uuid_to_relative_path_with_index(list.wallpapers[0], &index), Some("c.png".to_string()));

    let before = list.wallpapers.clone();
    assert!(remove_wallpapers(&mut list, &index, "/w", &strings(&["/elsewhere/x.png"]), &vec![], 10).is_err());
    assert_eq!(list.wallpapers, before);
    assert_eq!(list.updated_at, 9);
}

#[test]
fn list_ids_helpers() {
    let v: Vec<u128> = vec![1, 2, 1, 3];
    assert!(contains_id(&v, 3));
    assert!(!contains_id(&v, 4));
    assert_eq!(filter_out(&v, 1), vec![2, 3]);
}

#[test]
fn list_player_plays_each_id_once_per_cycle() {
    let mut list = empty_list("cycle");
    list.wallpapers = vec![10, 20, 30];
    let mut player = ListPlayer::new(list).unwrap();
    assert_eq!(player.list_name(), "cycle");
    for _ in 0..3 {
        let mut seen: Vec<u128> = (0..3).map(|_| player.next_candidate().unwrap()).collect();
        seen.sort();
        assert_eq!(seen, vec![10, 20, 30]);
    }
}

#[test]
fn list_player_refuses_empty_list_and_forgets_discarded_ids() {
    match ListPlayer::new(empty_list("none")) {
        Err(SwpError::List(ListError::Empty { name })) => assert_eq!(name, "none"),
        other => panic!("unexpected: {other:?}"),
    }
    let mut list = empty_list("two");
    list.wallpapers = vec![1, 2];
    let mut player = ListPlayer::new(list).unwrap();
    player.discard(1);
    assert_eq!(player.current_ids(), vec![2]);
    for _ in 0..4 {
        assert_eq!(player.next_candidate().unwrap(), 2);
    }
    player.discard(2);
    assert!(matches!(player.next_candidate(), Err(SwpError::List(ListError::Empty { .. }))));
    let mut saved = empty_list("two");
    player.persist_current_ids(&mut saved, 99);
    assert!(saved.wallpapers.is_empty());
    assert_eq!(saved.updated_at, 99);
}

#[test]
fn list_player_gives_paths_from_the_index() {
    let mut index = WallpaperIndex::new();
    let mut list = empty_list("p");
    add_wallpapers_by_paths(&mut list, &mut index, "/w", "p", &strings(&["/w/a.png"]), 1).unwrap();
    let id = list.wallpapers[0];
    let mut player = ListPlayer::new(list).unwrap();
    assert_eq!(player.next_wallpaper(&index, "/w").unwrap(), (id, Some("/w/a.png".to_string())));
}

#[test]
fn shuffle_with_given_draws() {
    let ids: Vec<u128> = vec![1, 2, 3, 4];
    assert_eq!(shuffle_with(&ids, &vec![0, 1, 2, 3]), vec![1, 2, 3, 4]);
    assert_eq!(shuffle_with(&ids, &vec![0, 0, 0, 0]), vec![2, 3, 4, 1]);
    assert_eq!(shuffle_with(&ids, &vec![0, 0, 1, 1]), vec![3, 1, 4, 2]);
    assert_eq!(shuffle_with(&vec![7], &vec![0]), vec![7]);
}

#[test]
fn stored_id_reports_unreadable_text() {
    assert_eq!(stored_id("a.png", Ok(5)).unwrap(), 5);
    match stored_id("a.png", Err("bad length".to_string())) {
        Err(SwpError::List(ListError::Index { message })) => {
            assert_eq!(message, "invalid UUID in index for path 'a.png': bad length")
        }
        other => panic!("unexpected: {other:?}"),
    }
}

#[test]
fn lists_directory_under_home() {
    assert_eq!(lists_dir(Some("/home/u".to_string())).unwrap(), "/home/u/.config/swp/lists");
    assert!(matches!(lists_dir(None), Err(SwpError::HomeEnvMissing)));
}

#[test]
fn saved_list_reads_back() {
    let list = WallpaperList {
        name: "day".to_string(),
        wallpapers: vec![0x67e55044_10b1_426f_9247_bb680e5fe0c8, 1],
        created_at: 10,
        updated_at: 20,
    };
    let file = to_list_file(&list);
    assert_eq!(file.name, "day");
    assert_eq!(file.wallpapers, vec!["67e55044-10b1-426f-9247-bb680e5fe0c8", "00000000-0000-0000-0000-000000000001"]);
    assert_eq!((file.created_at, file.updated_at, file.version), (10, 20, 1));
    let back = read_list("day", "/l/day.json", Some(file)).unwrap();
    assert_eq!(back.name, "day");
    assert_eq!(back.wallpapers, list.wallpapers);
    assert_eq!((back.created_at, back.updated_at), (10, 20));

    let created = create_list("  night ", false, 5).unwrap();
    let back = read_list(" night", "/l/night.json", Some(to_list_file(&created))).unwrap();
    assert_eq!(back.name, "night");
    assert!(back.wallpapers.is_empty());
    assert_eq!((back.created_at, back.updated_at), (5, 5));
}

#[test]
fn missing_or_damaged_list_files_are_errors() {
    match read_list(" gone ", "/l/gone.json", None) {
        Err(SwpError::List(ListError::NotFound { name })) => assert_eq!(name, " gone "),
        other => panic!("unexpected {other:?}"),
    }
    let file = ListFile {
        name: "bad".to_string(),
        wallpapers: vec!["00000000-0000-0000-0000-000000000001".to_string(), "nope".to_string()],
        created_at: 1,
        updated_at: 1,
        version: 1,
    };
    match read_list("bad", "/l/bad.json", Some(file)) {
        Err(SwpError::List(ListError::Storage { message })) => {
            assert!(message.starts_with("failed to parse /l/bad.json: UUID parsing failed: invalid"))
        }
        other => panic!("unexpected {other:?}"),
    }
}
