use simple_wallpaper::error::{BackendError, PlaybackError, SwpError};
use simple_wallpaper::wallpaper_core::backends::{apply_outcome, choose_backend, command_args, tool, Backend, CommandRun};
use simple_wallpaper::wallpaper_core::playback_manager::{
    playback_mode, resume_playback, resumed_state, start_playback, stop_existing_if_any, stop_playback,
    KillAction, KillEvent, KillPhase, KillProcess, KillSignal, ResumePlan,
};
use simple_wallpaper::wallpaper_core::playback_state::{
    build_state, check_loaded_state, config_dir, state_path, PlaybackMode, PlaybackState,
};
use simple_wallpaper::wallpaper_core::backends::{after_command, before_command, spawns};
use simple_wallpaper::wallpaper_core::backends::choose_backend_upper;
use simple_wallpaper::wallpaper_core::operations::apply_wallpaper;

use simple_wallpaper::wallpaper_core::playback_manager::worker_args;

fn active_state(pid: u32) -> PlaybackState {
    build_state(pid, PlaybackMode::List { name: "fav".to_string() }, 900, 100)
}

#[test]
fn state_paths_under_home() {
    assert_eq!(config_dir(Some("/home/u".to_string())).unwrap(), "/home/u/.config/swp");
    assert_eq!(state_path(Some("/home/u".to_string())).unwrap(), "/home/u/.config/swp/playback.json");
    assert!(matches!(state_path(None), Err(SwpError::HomeEnvMissing)));
}

#[test]
fn loaded_state_checks() {
    let s = active_state(7);
    assert_eq!(s.version, 1);
    assert!(s.active);
    assert!(matches!(check_loaded_state(s, "/p.json"), Ok(Some(ref x)) if x.pid == 7));
    let mut inactive = active_state(7);
    inactive.active = false;
    assert!(matches!(check_loaded_state(inactive, "/p.json"), Ok(None)));
    let mut old = active_state(7);
    old.version = 9;
    match check_loaded_state(old, "/p.json") {
        Err(SwpError::Playback(PlaybackError::InvalidState { message })) => {
            assert_eq!(message, "unsupported playback state version 9 in /p.json")
        }
        other => panic!("unexpected: {other:?}"),
    }
}

#[test]
fn start_playback_reads_interval_and_mode() {
    match start_playback(Some("fav".to_string()), "15m") {
        Ok((PlaybackMode::List { name }, 900)) => assert_eq!(name, "fav"),
        other => panic!("unexpected: {other:?}"),
    }
    assert!(matches!(start_playback(None, "1h"), Ok((PlaybackMode::Filesystem, 3600))));
    assert!(matches!(start_playback(None, "1x"), Err(SwpError::Interval(_))));
    assert!(matches!(playback_mode(None), PlaybackMode::Filesystem));
}

#[test]
fn stopping_plans() {
    let p = stop_playback(Ok(Some(active_state(42))), true);
    assert_eq!(p.kill, Some(42));
    assert!(p.clear && p.outcome.is_ok());
    let p = stop_playback(Ok(Some(active_state(42))), false);
    assert_eq!(p.kill, None);
    let p = stop_playback(Ok(None), false);
    assert!(p.clear);
    assert!(matches!(p.outcome, Err(SwpError::Playback(PlaybackError::NoActivePlayback))));
    let p = stop_playback(Err(SwpError::Playback(PlaybackError::InvalidState { message: "bad".to_string() })), false);
    assert!(p.clear);
    assert!(matches!(p.outcome, Err(SwpError::Playback(PlaybackError::NoActivePlayback))));
    let p = stop_playback(Err(SwpError::HomeEnvMissing), false);
    assert!(!p.clear);
    assert!(matches!(p.outcome, Err(SwpError::HomeEnvMissing)));

    let p = stop_existing_if_any(Ok(None), false);
    assert!(p.clear && p.outcome.is_ok() && p.kill.is_none());
    let p = stop_existing_if_any(Err(SwpError::Playback(PlaybackError::InvalidState { message: "x".to_string() })), true);
    assert!(p.clear && p.outcome.is_ok());
    let p = stop_existing_if_any(Err(SwpError::HomeEnvMissing), true);
    assert!(!p.clear && p.outcome.is_err());
}

#[test]
fn resume_plans() {
    assert!(matches!(resume_playback(Ok(None), false), ResumePlan::Nothing));
    assert!(matches!(resume_playback(Ok(Some(active_state(3))), true), ResumePlan::Nothing));
    match resume_playback(Ok(Some(active_state(3))), false) {
        ResumePlan::Respawn { mode: PlaybackMode::List { name }, interval, previous } => {
            assert_eq!(name, "fav");
            assert_eq!(interval, "15m");
            assert_eq!(previous.pid, 3);
        }
        other => panic!("unexpected: {other:?}"),
    }
    let bad = Err(SwpError::Playback(PlaybackError::InvalidState { message: "x".to_string() }));
    assert!(matches!(resume_playback(bad, false), ResumePlan::Clear));
    assert!(matches!(resume_playback(Err(SwpError::HomeEnvMissing), false), ResumePlan::Fail(SwpError::HomeEnvMissing)));

    let mut old = active_state(3);
    old.last_rotation = Some(500);
    old.last_wallpaper = Some("/w/a.png".to_string());
    let r = resumed_state(&old, 8, 600);
    assert_eq!((r.pid, r.started_at, r.interval_seconds), (8, 600, 900));
    assert_eq!(r.last_rotation, Some(500));
    assert_eq!(r.last_wallpaper, Some("/w/a.png".to_string()));
}

#[test]
fn kill_forces_only_after_twenty_checks() {
    let (mut k, first) = KillProcess::new(5);
    assert!(matches!(first, KillAction::Send(KillSignal::Term)));
    assert!(matches!(k.step(KillEvent::Sent), KillAction::CheckAlive));
    for i in 0..20 {
        assert!(matches!(k.step(KillEvent::Alive(true)), KillAction::Pause));
        let next = k.step(KillEvent::Paused);
        if i < 19 {
            assert!(matches!(next, KillAction::CheckAlive), "check {i}");
        } else {
            assert!(matches!(next, KillAction::Send(KillSignal::Kill)));
        }
    }
    assert_eq!(k.phase, KillPhase::Forcing);
    assert!(matches!(k.step(KillEvent::Sent), KillAction::Finish(Ok(()))));
    assert_eq!(k.phase, KillPhase::Finished);
}

#[test]
fn kill_ends_early_and_reports_failures() {
    let (mut k, _) = KillProcess::new(5);
    k.step(KillEvent::Sent);
    assert!(matches!(k.step(KillEvent::Alive(false)), KillAction::Finish(Ok(()))));

    let (mut k, _) = KillProcess::new(6);
    let gone = k.step(KillEvent::SendFailed { not_found: true, message: "ESRCH".to_string() });
    assert!(matches!(gone, KillAction::Finish(Ok(()))));

    let (mut k, _) = KillProcess::new(6);
    match k.step(KillEvent::SendFailed { not_found: false, message: "EPERM".to_string() }) {
        KillAction::Finish(Err(SwpError::Playback(PlaybackError::KillError { pid, message }))) => {
            assert_eq!(pid, 6);
            assert_eq!(message, "EPERM");
        }
        other => panic!("unexpected: {other:?}"),
    }
}

#[test]
fn backend_choice_by_desktop() {
    assert_eq!(choose_backend("KDE", false, false, "KDE").unwrap(), Backend::Kde);
    assert_eq!(choose_backend("ubuntu:GNOME", true, false, "").unwrap(), Backend::Gnome);
    assert_eq!(choose_backend("X-Cinnamon", false, true, "").unwrap(), Backend::Gnome);
    assert_eq!(choose_backend("hyprland", true, false, "").unwrap(), Backend::Swww);
    assert_eq!(choose_backend("sway", true, false, "").unwrap(), Backend::Sway);
    assert_eq!(choose_backend("river", true, false, "").unwrap(), Backend::WaylandSwww);
    assert_eq!(choose_backend("i3", false, true, "").unwrap(), Backend::Feh);
    match choose_backend("tty", false, false, "tty") {
        Err(SwpError::Backend(BackendError::UnknownDesktop { desktop })) => assert_eq!(desktop, "tty"),
        other => panic!("unexpected: {other:?}"),
    }
    assert_eq!(choose_backend("plasma:kde", false, false, "").unwrap(), Backend::Kde);
    assert_eq!(choose_backend("hyprland-straße", false, false, "").unwrap(), Backend::Swww);
}

#[test]
fn backend_commands() {
    assert_eq!(tool(&Backend::Kde), "plasma-apply-wallpaperimage");
    assert_eq!(command_args(&Backend::Feh, "/w/a.png"), vec!["--bg-fill", "/w/a.png"]);
    assert_eq!(
        command_args(&Backend::Gnome, "/w/a.png"),
        vec!["set", "org.gnome.desktop.background", "picture-uri", "file:///w/a.png"]
    );
    assert_eq!(command_args(&Backend::Sway, "/a"), vec!["-i", "/a", "-m", "fill"]);
    assert_eq!(command_args(&Backend::Swww, "/a"), vec!["img", "/a"]);
}

#[test]
fn backend_outcomes() {
    assert!(apply_outcome(&Backend::Feh, CommandRun::Exited { success: true, code: Some(0) }).is_ok());
    assert!(apply_outcome(&Backend::Sway, CommandRun::Spawned).is_ok());
    match apply_outcome(&Backend::Feh, CommandRun::Exited { success: false, code: Some(2) }) {
        Err(SwpError::Backend(BackendError::CommandFailed { tool, code })) => {
            assert_eq!(tool, "feh");
            assert_eq!(code, Some(2));
        }
        other => panic!("unexpected: {other:?}"),
    }
    assert!(matches!(
        apply_outcome(&Backend::Swww, CommandRun::Exited { success: false, code: None }),
        Err(SwpError::Backend(BackendError::SwwwFailed { code: None }))
    ));
    assert!(matches!(
        apply_outcome(&Backend::WaylandSwww, CommandRun::SpawnFailed { message: "no".to_string() }),
        Err(SwpError::Backend(BackendError::WaylandNoCompatibleBackend))
    ));
    match apply_outcome(&Backend::Kde, CommandRun::SpawnFailed { message: "not found".to_string() }) {
        Err(SwpError::Backend(BackendError::CommandSpawn { tool, source, help })) => {
            assert_eq!(tool, "plasma-apply-wallpaperimage");
            assert_eq!(source, "not found");
            assert_eq!(help, "Check if plasma-workspace is installed.");
        }
        other => panic!("unexpected: {other:?}"),
    }
}

#[test]
fn backend_side_commands() {
    assert!(spawns(&Backend::Sway));
    assert!(!spawns(&Backend::Feh));
    let (t, a) = before_command(&Backend::Sway).unwrap();
    assert_eq!(t, "pkill");
    assert_eq!(a, vec!["-x", "swaybg"]);
    assert!(before_command(&Backend::Kde).is_none());
    let (t, a) = after_command(&Backend::Gnome, "/w/a.png").unwrap();
    assert_eq!(t, "gsettings");
    assert_eq!(a, vec!["set", "org.gnome.desktop.background", "picture-uri-dark", "file:///w/a.png"]);
    assert!(after_command(&Backend::Feh, "/w/a.png").is_none());
}

#[test]
fn backend_choice_by_upper_case_name() {
    assert_eq!(choose_backend_upper("X-CINNAMON", false, false, "").unwrap(), Backend::Gnome);
    assert_eq!(choose_backend_upper("kde", false, true, "").unwrap(), Backend::Feh);
}

#[test]
fn applied_wallpaper_is_the_path_on_success() {
    assert_eq!(apply_wallpaper("/w/a.png".to_string(), &Backend::Feh, CommandRun::Exited { success: true, code: Some(0) }).unwrap(), "/w/a.png");
    assert_eq!(apply_wallpaper("/w/a.png".to_string(), &Backend::Sway, CommandRun::Spawned).unwrap(), "/w/a.png");
    assert!(matches!(
        apply_wallpaper("/w/a.png".to_string(), &Backend::Feh, CommandRun::Exited { success: false, code: Some(1) }),
        Err(SwpError::Backend(BackendError::CommandFailed { .. }))
    ));
}

#[test]
fn worker_is_started_with_play_arguments() {
    assert_eq!(
        worker_args(&PlaybackMode::List { name: "day".to_string() }, "30s"),
        vec!["lists", "play", "--foreground", "--interval", "30s", "day"]
    );
    assert_eq!(worker_args(&PlaybackMode::Filesystem, "15m"), vec!["lists", "play", "--foreground", "--interval", "15m"]);
}
