use std::time::Duration;

use simple_wallpaper::error::{IntervalError, ListError, QueryError, SwpError};
use simple_wallpaper::text::split_whitespace;
use simple_wallpaper::utils::{is_image as utils_is_image, parse_interval, to_sorted_entries};
use simple_wallpaper::wallpaper::{find_by_words, is_image, list_images, random_image, wallpaper_dir};
use simple_wallpaper::backends::{apply_outcome, choose_backend};
use simple_wallpaper::wallpaper_core::backends::{Backend, CommandRun};
use simple_wallpaper::kde::{check_desktop, set_wallpaper_outcome};

fn strings(v: &[&str]) -> Vec<String> {
    v.iter().map(|s| s.to_string()).collect()
}

#[test]
fn portuguese_interval_messages() {
    assert_eq!(parse_interval("2h").unwrap(), Duration::from_secs(7200));
    assert_eq!(
        parse_interval("10d").unwrap_err(),
        "Formato de intervalo inválido: '10d'. Use um número seguido de s, m ou h (ex: 30s, 10m, 2h)."
    );
    assert_eq!(
        parse_interval("xxm").unwrap_err(),
        "Número inválido em 'xxm'. Use um inteiro positivo (ex: 30s, 10m, 2h)."
    );
    assert_eq!(parse_interval("0s").unwrap_err(), "O intervalo deve ser maior que zero.");
}

#[test]
fn portuguese_side_images_use_unicode_lower_case() {
    assert!(utils_is_image("a.JPG"));
    assert!(is_image("/x/b.WebP"));
    assert!(!is_image("/x/b.gif"));
    assert!(is_image("/x/c.AVIF"));
    assert_eq!(find_by_words(&strings(&["/w/Été.png"]), "ÉTÉ"), strings(&["/w/Été.png"]));
}

#[test]
fn unicode_case_directory_and_walk() {
    assert_eq!(
        wallpaper_dir(Some("/home/u".to_string())).unwrap(),
        "/home/u/.local/share/swp/wallpapers"
    );
    let walk = strings(&["/w", "/w/a.png", "/w/thumbnails/t.png", "/w/n.txt"]);
    let images = list_images("/w", &walk);
    assert_eq!(images, strings(&["/w/a.png"]));
    assert_eq!(random_image(&images), Some("/w/a.png".to_string()));
    assert_eq!(find_by_words(&strings(&["/w/Sea-Blue.png", "/w/sky.png"]), "sea BLUE"), strings(&["/w/Sea-Blue.png"]));
    assert_eq!(to_sorted_entries(strings(&["/w/b.png", "/w/a.png"]))[0].0, "a.png");
    assert_eq!(split_whitespace(" a  b\tc "), strings(&["a", "b", "c"]));
}

#[test]
fn error_messages() {
    assert_eq!(SwpError::HomeEnvMissing.message(), "HOME environment variable not set");
    assert_eq!(
        SwpError::List(ListError::NotFound { name: "x".to_string() }).message(),
        "List 'x' not found."
    );
    assert_eq!(
        SwpError::Query(QueryError::NoMatches { query: "q".to_string() }).message(),
        "No wallpaper found for 'q'.\nUse `swp list` to see available ones."
    );
    assert_eq!(SwpError::Interval(IntervalError::ZeroInterval).message(), "The interval must be greater than zero.");
}

#[test]
fn backend_reports_in_portuguese() {
    assert_eq!(choose_backend("GNOME", false, false, "GNOME"), Ok(Backend::Gnome));
    assert_eq!(
        choose_backend("tty", false, false, "tty").unwrap_err(),
        "Ambiente de desktop não reconhecido (XDG_CURRENT_DESKTOP='tty'). Ambientes suportados: KDE, GNOME/Cinnamon, Hyprland (swww), Sway (swaybg), X11 (feh)."
    );
    assert_eq!(
        apply_outcome(&Backend::Feh, CommandRun::Exited { success: false, code: Some(-3) }).unwrap_err(),
        "feh falhou (código Some(-3))"
    );
    assert_eq!(
        apply_outcome(&Backend::Swww, CommandRun::Exited { success: false, code: None }).unwrap_err(),
        "swww falhou (código None). Certifique-se que swww-daemon está rodando."
    );
    assert_eq!(
        apply_outcome(&Backend::Gnome, CommandRun::SpawnFailed { message: "x".to_string() }).unwrap_err(),
        "Falha ao executar gsettings: x"
    );
    assert_eq!(
        apply_outcome(&Backend::WaylandSwww, CommandRun::Exited { success: false, code: Some(1) }).unwrap_err(),
        "Ambiente Wayland detectado, mas nenhum backend compatível encontrado. Instale swww e inicie swww-daemon."
    );
    assert!(apply_outcome(&Backend::Kde, CommandRun::Exited { success: true, code: Some(0) }).is_ok());
}

#[test]
fn kde_only_setter() {
    assert!(check_desktop("KDE").is_ok());
    assert_eq!(check_desktop("KDE:plasma").unwrap_err(), "Não está rodando no KDE Plasma");
    assert_eq!(
        set_wallpaper_outcome("/w/a.png", CommandRun::Exited { success: true, code: Some(0) }).unwrap(),
        "✔ Wallpaper aplicado: /w/a.png"
    );
    assert_eq!(
        set_wallpaper_outcome("/w/a.png", CommandRun::SpawnFailed { message: "e".to_string() }).unwrap_err(),
        "plasma-apply-wallpaperimage não encontrado"
    );
}
