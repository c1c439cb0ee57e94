use simple_wallpaper::error::{QueryError, SwpError};
use simple_wallpaper::wallpaper_core::operations::{list_wallpapers, random_wallpaper};
use simple_wallpaper::wallpaper_core::query::{resolve_set_input_in_dir, SetInputResolution};
use simple_wallpaper::wallpaper_core::thumbnail::{thumbnail_path_for, thumbnails_dir};
use simple_wallpaper::wallpaper_core::wallpaper::{
    check_import_source, check_removal, find_by_words, import_destination, is_image, list_images,
    lower_words, matches_all_words, next_available_path, random_image, wallpaper_dir,
};
use simple_wallpaper::wallpaper_core::wallpaper::reservoir_pick;
use simple_wallpaper::utils::is_image_extension;
use simple_wallpaper::wallpaper_core::wallpaper::contains_all_words;
use simple_wallpaper::wallpaper_core::thumbnail::thumbnail_path_with_digest;
use simple_wallpaper::wallpaper_core::thumbnail::{display_pixels, generate_thumbnail, load_thumbnail, ThumbnailData};

fn strings(v: &[&str]) -> Vec<String> {
    v.iter().map(|s| s.to_string()).collect()
}

#[test]
fn is_image_matches_extensions_case_insensitively() {
    assert!(is_image("a.JPG"));
    assert!(is_image("a.pNg"));
    assert!(!is_image("a.txt"));
}

#[test]
fn is_image_knows_every_supported_format() {
    for name in ["x.jpg", "x.jpeg", "x.png", "x.webp", "x.bmp", "x.avif", "dir/y.AVIF"] {
        assert!(is_image(name), "{name}");
    }
    for name in ["x", ".png", "x.gif", "png", "x.png.txt"] {
        assert!(!is_image(name), "{name}");
    }
}

#[test]
fn list_images_ignores_thumbnail_directory() {
    let dir = "/tmp/swp-walk";
    let walk = strings(&[
        "/tmp/swp-walk",
        "/tmp/swp-walk/kept.jpg",
        "/tmp/swp-walk/thumbnails",
        "/tmp/swp-walk/thumbnails/ignored.jpg",
    ]);
    let listed = list_images(dir, &walk);
    assert_eq!(listed.len(), 1);
    assert!(listed.iter().any(|path| path.ends_with("kept.jpg")));
}

#[test]
fn list_images_keeps_walk_order_and_skips_other_files() {
    let walk = strings(&[
        "/w",
        "/w/b.png",
        "/w/notes.txt",
        "/w/sub",
        "/w/sub/a.webp",
        "/w/sub/thumbnails/c.png",
    ]);
    assert_eq!(list_images("/w", &walk), strings(&["/w/b.png", "/w/sub/a.webp"]));
    assert_eq!(list_images("/w/thumbnails", &strings(&["/w/thumbnails/a.png"])), Vec::<String>::new());
}

#[test]
fn find_by_words_matches_all_query_terms() {
    let images = strings(&["/w/angel-night.png", "/w/angel-day.png"]);
    let found = find_by_words(&images, "angel night");
    assert_eq!(found.len(), 1);
    assert!(found[0].ends_with("angel-night.png"));
}

#[test]
fn find_by_words_ignores_case_and_needs_a_word() {
    let images = strings(&["/w/Angel-Night.PNG", "/w/forest.jpg"]);
    assert_eq!(find_by_words(&images, "ANGEL"), strings(&["/w/Angel-Night.PNG"]));
    assert!(find_by_words(&images, "   ").is_empty());
    assert_eq!(lower_words("  Foo BAR "), strings(&["foo", "bar"]));
    assert!(matches_all_words("angel-night.png", &strings(&["night", "angel"])));
    assert!(!matches_all_words("angel-night.png", &strings(&["day"])));
}

#[test]
fn next_available_path_adds_incrementing_suffix() {
    let taken = strings(&["city.jpg", "city_1.jpg"]);
    let path = next_available_path("/w", "city.jpg", &taken);
    assert!(path.ends_with("city_2.jpg"));
    assert_eq!(path, "/w/city_2.jpg");
}

#[test]
fn next_available_path_keeps_a_free_name() {
    assert_eq!(next_available_path("/w", "sea.png", &strings(&["city.jpg"])), "/w/sea.png");
    assert_eq!(next_available_path("/w/", "noext", &strings(&["noext"])), "/w/noext_1");
}

#[test]
fn import_destination_uses_the_source_file_name() {
    let taken = strings(&["bg1.jpg"]);
    assert_eq!(import_destination("/w", "/home/u/Pictures/bg1.jpg", &taken), "/w/bg1_1.jpg");
    assert_eq!(import_destination("/w", "/home/u/Pictures/bg2.jpg", &taken), "/w/bg2.jpg");
}

#[test]
fn remove_image_fails_for_missing_file() {
    match check_removal("/w/missing.jpg", false, false) {
        Err(SwpError::WallpaperSourceNotFound { path }) => assert_eq!(path, "/w/missing.jpg"),
        other => panic!("unexpected: {other:?}"),
    }
    match check_removal("/w/dir", true, false) {
        Err(SwpError::WallpaperSourceNotFile { path }) => assert_eq!(path, "/w/dir"),
        other => panic!("unexpected: {other:?}"),
    }
    assert!(check_removal("/w/remove-me.jpg", true, true).is_ok());
}

#[test]
fn import_source_checks() {
    assert!(matches!(check_import_source("/a.jpg", false, false), Err(SwpError::WallpaperSourceNotFound { .. })));
    assert!(matches!(check_import_source("/a", true, false), Err(SwpError::WallpaperSourceNotFile { .. })));
    match check_import_source("/a.txt", true, true) {
        Err(SwpError::UnsupportedWallpaperFormat { path }) => assert_eq!(path, "/a.txt"),
        other => panic!("unexpected: {other:?}"),
    }
    assert!(check_import_source("/a.jpg", true, true).is_ok());
}

#[test]
fn wallpaper_dir_under_home() {
    assert_eq!(wallpaper_dir(Some("/home/u".to_string())).unwrap(), "/home/u/.local/share/swp/wallpapers");
    assert!(matches!(wallpaper_dir(None), Err(SwpError::HomeEnvMissing)));
}

#[test]
fn random_picks_one_of_the_images() {
    let images = strings(&["/w/a.png", "/w/b.png", "/w/c.png"]);
    for _ in 0..20 {
        let picked = random_image(&images).unwrap();
        assert!(images.contains(&picked));
        let w = random_wallpaper(&images).unwrap();
        assert!(images.contains(&w));
    }
    assert_eq!(random_image(&Vec::new()), None);
    assert!(matches!(random_wallpaper(&Vec::new()), Err(SwpError::Query(QueryError::NoImagesFound))));
}

#[test]
fn list_wallpapers_gives_directory_and_images() {
    let walk = strings(&["/w", "/w/a.png", "/w/t.txt"]);
    let (dir, images) = list_wallpapers("/w".to_string(), &walk);
    assert_eq!(dir, "/w");
    assert_eq!(images, strings(&["/w/a.png"]));
}

#[test]
fn resolve_uses_literal_path_when_it_exists() {
    let images = strings(&["/w/literal.png"]);
    match resolve_set_input_in_dir(&images, "/w/literal.png", true).expect("literal path should resolve") {
        SetInputResolution::Resolved(path) => assert_eq!(path, "/w/literal.png"),
        SetInputResolution::MultipleMatches { .. } => panic!("expected resolved path, got multiple matches"),
    }
}

#[test]
fn resolve_returns_error_for_no_matches() {
    let err = resolve_set_input_in_dir(&Vec::new(), "does-not-exist", false)
        .expect_err("non-matching query should fail");
    match err {
        SwpError::Query(QueryError::NoMatches { query }) => assert_eq!(query, "does-not-exist"),
        other => panic!("unexpected error variant: {other:?}"),
    }
}

#[test]
fn resolve_returns_single_match() {
    let images = strings(&["/w/hello-world.png"]);
    match resolve_set_input_in_dir(&images, "hello world", false).expect("matching query should resolve") {
        SetInputResolution::Resolved(path) => assert_eq!(path, "/w/hello-world.png"),
        SetInputResolution::MultipleMatches { .. } => panic!("expected single resolved match"),
    }
}

#[test]
fn resolve_returns_sorted_multiple_matches() {
    let images = strings(&["/w/angel-b.jpg", "/w/angel-a.jpg"]);
    match resolve_set_input_in_dir(&images, "angel", false)
        .expect("query with many matches should resolve to disambiguation")
    {
        SetInputResolution::Resolved(_) => panic!("expected multiple matches"),
        SetInputResolution::MultipleMatches { query, matches } => {
            assert_eq!(query, "angel");
            assert_eq!(matches, strings(&["/w/angel-a.jpg", "/w/angel-b.jpg"]));
        }
    }
}

#[test]
fn thumbnail_paths() {
    assert_eq!(thumbnails_dir("/w"), "/w/thumbnails");
    let a = thumbnail_path_for("/w/a.png", 256, 160, "/cache", "png");
    let b = thumbnail_path_for("/w/a.png", 256, 160, "/cache", "png");
    let c = thumbnail_path_for("/w/b.png", 256, 160, "/cache", "png");
    assert_eq!(a, b);
    assert_ne!(a, c);
    assert!(a.starts_with("/cache/"));
    assert!(a.ends_with("_256x160.png"));
}

#[test]
fn reservoir_keeps_the_last_zero_draw() {
    let images = strings(&["/w/a.png", "/w/b.png", "/w/c.png"]);
    assert_eq!(reservoir_pick(&images, &vec![0, 1, 2]), Some("/w/a.png".to_string()));
    assert_eq!(reservoir_pick(&images, &vec![0, 0, 1]), Some("/w/b.png".to_string()));
    assert_eq!(reservoir_pick(&images, &vec![0, 1, 0]), Some("/w/c.png".to_string()));
    assert_eq!(reservoir_pick(&Vec::new(), &Vec::new()), None);
}

#[test]
fn words_and_extensions_after_case_mapping() {
    assert!(contains_all_words("angel-night.png", &strings(&["night", "angel"])));
    assert!(!contains_all_words("angel-night.png", &strings(&["Night"])));
    assert!(contains_all_words("x", &Vec::new()));
    assert!(is_image_extension("avif"));
    assert!(!is_image_extension("JPG"));
}

#[test]
fn thumbnail_name_from_digest() {
    assert_eq!(thumbnail_path_with_digest(0xbeef, 256, 160, "/c", "jpg"), "/c/beef_256x160.jpg");
    assert_eq!(thumbnail_path_with_digest(0, 1, 2, "/c/", "png"), "/c/0_1x2.png");
}

#[test]
fn remove_image_deletes_existing_file() {
    check_removal("/w/remove-me.jpg", true, true).expect("remove should succeed");
}

fn png_bytes(width: u32, height: u32) -> Vec<u8> {
    let img = image::RgbImage::from_fn(width, height, |x, y| image::Rgb([x as u8, y as u8, 7]));
    let mut bytes = Vec::new();
    image::DynamicImage::ImageRgb8(img)
        .write_to(&mut std::io::Cursor::new(&mut bytes), image::ImageFormat::Png)
        .unwrap();
    bytes
}

#[test]
fn thumbnail_fits_within_bounds_keeping_aspect() {
    let bytes = png_bytes(40, 20);
    let t = generate_thumbnail("a.png", &bytes, 10, 10).unwrap();
    assert_eq!((t.width, t.height), (10, 5));
    assert_eq!(t.pixels.len(), 3 * 10 * 5);
    let t = generate_thumbnail("/w/a.png", &bytes, 256, 160).unwrap();
    assert!(t.width <= 256 && t.height <= 160 && t.width > 0 && t.height > 0);
    assert_eq!(t.pixels.len() as u32, 3 * t.width * t.height);
    let t = generate_thumbnail("a.png", &png_bytes(1, 300), 10, 10).unwrap();
    assert_eq!((t.width, t.height), (1, 10));
    let t = generate_thumbnail("a.png", &png_bytes(40, 20), 0, 0).unwrap();
    assert_eq!((t.width, t.height, t.pixels.len()), (1, 1, 3));
    let t = generate_thumbnail("a.png", &png_bytes(2, 2), 2, 2).unwrap();
    assert_eq!(t.pixels, vec![0, 0, 7, 1, 0, 7, 0, 1, 7, 1, 1, 7]);
}

#[test]
fn thumbnails_read_the_format_their_extension_names() {
    let bytes = png_bytes(4, 4);
    assert!(generate_thumbnail("/w/A.PNG", &bytes, 2, 2).is_ok());
    assert!(generate_thumbnail("/w/a.jpg", &bytes, 2, 2).is_err());
    assert!(generate_thumbnail("/w/a.txt", &bytes, 2, 2).is_err());
    assert!(generate_thumbnail("/w/noext", &bytes, 2, 2).is_err());
    assert!(load_thumbnail("/c/t.jpg", &bytes).is_err());
}

#[test]
fn undecodable_images_are_thumbnail_errors() {
    assert!(generate_thumbnail("a.png", b"not an image", 10, 10).is_err());
    match generate_thumbnail("/w/a.png", b"not an image", 10, 10) {
        Err(SwpError::Thumbnail { message }) => assert!(message.starts_with("Failed to open image /w/a.png: ")),
        other => panic!("unexpected {other:?}"),
    }
    match load_thumbnail("/c/t.jpg", b"") {
        Err(SwpError::Thumbnail { message }) => assert!(message.starts_with("Failed to load thumbnail /c/t.jpg: ")),
        other => panic!("unexpected {other:?}"),
    }
}

#[test]
fn cached_thumbnail_loads_as_rgba() {
    let t = load_thumbnail("/c/t.png", &png_bytes(6, 4)).unwrap();
    assert_eq!((t.width, t.height), (6, 4));
    assert_eq!(t.pixels.len(), 4 * 6 * 4);
    assert_eq!(&t.pixels[4..8], &[1, 0, 7, 255]);
}

#[test]
fn display_pixels_add_opaque_alpha_to_rgb() {
    let rgb = ThumbnailData { width: 2, height: 1, pixels: vec![1, 2, 3, 4, 5, 6] };
    assert_eq!(display_pixels(&rgb), vec![1, 2, 3, 255, 4, 5, 6, 255]);
    let rgba = ThumbnailData { width: 1, height: 1, pixels: vec![9, 8, 7, 6] };
    assert_eq!(display_pixels(&rgba), vec![9, 8, 7, 6]);
}
