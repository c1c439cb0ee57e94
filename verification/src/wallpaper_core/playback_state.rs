//! The persisted state of background playback.

use vstd::prelude::*;
use crate::error::{PlaybackError, SwpError};
use crate::paths::{join, join_spec};
use crate::text::{chars_of, decimal, push_decimal, string_of};

verus! {

/// The schema version of the playback state file.
pub const PLAYBACK_SCHEMA_VERSION: u32 = 1;

/// What is played: the whole wallpaper directory, or one list.
#[derive(Debug, Clone)]
pub enum PlaybackMode {
    Filesystem,
    List { name: String },
}

/// The state of background playback, as saved to `playback.json`.
#[derive(Debug, Clone)]
pub struct PlaybackState {
    pub version: u32,
    pub pid: u32,
    pub active: bool,
    pub mode: PlaybackMode,
    pub interval_seconds: u64,
    pub started_at: u64,
    pub last_rotation: Option<u64>,
    pub last_wallpaper: Option<String>,
}

/// A copy of a playback mode.
pub fn copy_mode(mode: &PlaybackMode) -> (r: PlaybackMode)
    ensures
        r == *mode,
{
    match mode {
        PlaybackMode::Filesystem => PlaybackMode::Filesystem,
        PlaybackMode::List { name } => PlaybackMode::List { name: name.clone() },
    }
}

/// The configuration directory under the home directory `home`.
pub fn config_dir(home: Option<String>) -> (r: Result<String, SwpError>)
    ensures
        match home {
            Some(h) => r matches Ok(d) && d@ == join_spec(h@, ".config/swp"@),
            None => r matches Err(SwpError::HomeEnvMissing),
        },
{
    match home {
        Some(h) => Ok(join(h.as_str(), ".config/swp")),
        None => Err(SwpError::HomeEnvMissing),
    }
}

/// The path of the playback state file under the home directory `home`.
pub fn state_path(home: Option<String>) -> (r: Result<String, SwpError>)
    ensures
        match home {
            Some(h) => r matches Ok(p) && p@ == join_spec(join_spec(h@, ".config/swp"@), "playback.json"@),
            None => r matches Err(SwpError::HomeEnvMissing),
        },
{
    let dir = config_dir(home)?;
    Ok(join(dir.as_str(), "playback.json"))
}

/// A fresh, active state for the worker `pid` playing `mode` every
/// `interval_seconds`, started at `now`.
pub fn build_state(pid: u32, mode: PlaybackMode, interval_seconds: u64, now: u64) -> (r: PlaybackState)
    ensures
        r.version == PLAYBACK_SCHEMA_VERSION,
        r.pid == pid,
        r.active,
        r.mode == mode,
        r.interval_seconds == interval_seconds,
        r.started_at == now,
        r.last_rotation is None,
        r.last_wallpaper is None,
{
    PlaybackState {
        version: PLAYBACK_SCHEMA_VERSION,
        pid,
        active: true,
        mode,
        interval_seconds,
        started_at: now,
        last_rotation: None,
        last_wallpaper: None,
    }
}

/// The text of the error for a state file at `path` with the unsupported
/// version `v`.
pub open spec fn unsupported_version_message(v: u32, path: Seq<char>) -> Seq<char> {
    "unsupported playback state version "@ + decimal(v as nat) + " in "@ + path
}

/// What a state file read from `path` stands for: a state of another
/// version is invalid; an inactive state is no playback; an active one is
/// the playback.
pub fn check_loaded_state(state: PlaybackState, path: &str) -> (r: Result<Option<PlaybackState>, SwpError>)
    ensures
        state.version != PLAYBACK_SCHEMA_VERSION ==> (r matches Err(
            SwpError::Playback(PlaybackError::InvalidState { message }),
        ) && message@ == unsupported_version_message(state.version, path@)),
        state.version == PLAYBACK_SCHEMA_VERSION && !state.active ==> r matches Ok(None),
        state.version == PLAYBACK_SCHEMA_VERSION && state.active ==> (r matches Ok(Some(s)) && s == state),
{
    if state.version != PLAYBACK_SCHEMA_VERSION {
        let mut v = chars_of("unsupported playback state version ");
        push_decimal(&mut v, state.version as u64);
        let mut message = string_of(&v);
        message.append(" in ");
        message.append(path);
        return Err(SwpError::Playback(PlaybackError::InvalidState { message }));
    }
    if !state.active {
        return Ok(None);
    }
    Ok(Some(state))
}

} // verus!
