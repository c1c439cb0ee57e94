//! Error types of the library. Outside error values (I/O errors) are held
//! as the text they display.

use vstd::prelude::*;
use crate::text::{concat2, concat3, decimal, push_chars, push_decimal};

verus! {

/// Every failure that the library reports.
#[derive(Debug, Clone)]
pub enum SwpError {
    HomeEnvMissing,
    CreateWallpapersDir { source: String },
    WallpaperSourceNotFound { path: String },
    WallpaperSourceNotFile { path: String },
    UnsupportedWallpaperFormat { path: String },
    CopyWallpaper { from: String, to: String, source: String },
    RemoveWallpaper { path: String, source: String },
    Thumbnail { message: String },
    GuiLaunch { message: String },
    Query(QueryError),
    Backend(BackendError),
    Interval(IntervalError),
    Selection(SelectionError),
    List(ListError),
    Playback(PlaybackError),
}

/// Failures to find a wallpaper.
#[derive(Debug, Clone)]
pub enum QueryError {
    NoMatches { query: String },
    NoImagesFound,
    NoImagesInDir { dir: String },
}

/// Failures of the desktop backends that apply a wallpaper.
#[derive(Debug, Clone)]
pub enum BackendError {
    UnknownDesktop { desktop: String },
    WaylandNoCompatibleBackend,
    CommandSpawn { tool: String, source: String, help: String },
    CommandFailed { tool: String, code: Option<i32> },
    SwwwFailed { code: Option<i32> },
}

/// Failures to read a rotation interval such as `30s`, `10m` or `2h`.
#[derive(Debug, Clone)]
pub enum IntervalError {
    InvalidFormat { input: String },
    InvalidNumber { input: String },
    ZeroInterval,
}

/// Failures of an interactive choice.
#[derive(Debug, Clone)]
pub enum SelectionError {
    Canceled,
    InvalidSelection,
    PromptFailure { message: String },
}

/// Failures on wallpaper lists and on the wallpaper index.
#[derive(Debug, Clone)]
pub enum ListError {
    InvalidName { name: String },
    NotFound { name: String },
    AlreadyExists { name: String },
    AlreadyInList { name: String, wallpaper: String },
    Empty { name: String },
    WallpaperOutsideBase { path: String, base: String },
    Storage { message: String },
    Index { message: String },
}

/// Failures of background playback.
#[derive(Debug, Clone)]
pub enum PlaybackError {
    InvalidState { message: String },
    SpawnError { message: String },
    KillError { pid: u32, message: String },
    NoActivePlayback,
}

impl IntervalError {
    /// The text that describes the error.
    pub open spec fn message_spec(&self) -> Seq<char> {
        match self {
            IntervalError::InvalidFormat { input } => "Invalid interval format: '"@ + input@
                + "'. Use a number followed by s, m, or h (e.g., 30s, 10m, 2h)."@,
            IntervalError::InvalidNumber { input } => "Invalid number in '"@ + input@
                + "'. Use a positive integer (e.g., 30s, 10m, 2h)."@,
            IntervalError::ZeroInterval => "The interval must be greater than zero."@,
        }
    }

    /// The text that describes the error.
    pub fn message(&self) -> (r: String)
        ensures
            r@ == self.message_spec(),
    {
        match self {
            IntervalError::InvalidFormat { input } => concat3(
                "Invalid interval format: '",
                input.as_str(),
                "'. Use a number followed by s, m, or h (e.g., 30s, 10m, 2h).",
            ),
            IntervalError::InvalidNumber { input } => concat3(
                "Invalid number in '",
                input.as_str(),
                "'. Use a positive integer (e.g., 30s, 10m, 2h).",
            ),
            IntervalError::ZeroInterval => String::from_str("The interval must be greater than zero."),
        }
    }
}

} // verus!

verus! {

/// Decimal notation of an integer, with a leading `-` when negative.
pub open spec fn signed_decimal(i: int) -> Seq<char> {
    if i < 0 {
        seq!['-'] + decimal((-i) as nat)
    } else {
        decimal(i as nat)
    }
}

/// `{:?}` of an optional exit code: `Some(<code>)` or `None`.
pub open spec fn code_debug(code: Option<i32>) -> Seq<char> {
    match code {
        Some(c) => "Some("@ + signed_decimal(c as int) + ")"@,
        None => "None"@,
    }
}

pub(crate) fn push_code_debug(out: &mut String, code: Option<i32>)
    ensures
        final(out)@ == old(out)@ + code_debug(code),
{
    match code {
        Some(c) => {
            let mut v: Vec<char> = Vec::new();
            if c < 0 {
                v.push('-');
                let m: i64 = -(c as i64);
                push_decimal(&mut v, m as u64);
            } else {
                push_decimal(&mut v, c as u64);
            }
            out.append("Some(");
            push_chars(out, &v);
            out.append(")");
        },
        None => {
            out.append("None");
        },
    }
}

impl QueryError {
    /// The text that describes the error.
    pub open spec fn message_spec(&self) -> Seq<char> {
        match self {
            QueryError::NoMatches { query } => "No wallpaper found for '"@ + query@
                + "'.\nUse `swp list` to see available ones."@,
            QueryError::NoImagesFound => "No wallpaper found. Add images to `swp path` first."@,
            QueryError::NoImagesInDir { dir } => "No wallpaper found in "@ + dir@
                + ".\nAdd images and try again (`swp list` to check)."@,
        }
    }

    /// The text that describes the error.
    pub fn message(&self) -> (r: String)
        ensures
            r@ == self.message_spec(),
    {
        match self {
            QueryError::NoMatches { query } => concat3(
                "No wallpaper found for '",
                query.as_str(),
                "'.\nUse `swp list` to see available ones.",
            ),
            QueryError::NoImagesFound => String::from_str("No wallpaper found. Add images to `swp path` first."),
            QueryError::NoImagesInDir { dir } => concat3(
                "No wallpaper found in ",
                dir.as_str(),
                ".\nAdd images and try again (`swp list` to check).",
            ),
        }
    }
}

impl BackendError {
    /// The text that describes the error.
    pub open spec fn message_spec(&self) -> Seq<char> {
        match self {
            BackendError::UnknownDesktop { desktop } => "Unrecognized desktop environment (XDG_CURRENT_DESKTOP='"@
                + desktop@
                + "'). Supported environments: KDE, GNOME/Cinnamon, Hyprland (swww), Sway (swaybg), X11 (feh)."@,
            BackendError::WaylandNoCompatibleBackend => "Wayland environment detected, but no compatible backend found. Install swww and start swww-daemon."@,
            BackendError::CommandSpawn { tool, source, help } => "Failed to execute "@ + tool@ + ": "@ + source@
                + "\n"@ + help@,
            BackendError::CommandFailed { tool, code } => tool@ + " failed (code "@ + code_debug(*code) + ")"@,
            BackendError::SwwwFailed { code } => "swww failed (code "@ + code_debug(*code)
                + "). Make sure swww-daemon is running."@,
        }
    }

    /// The text that describes the error.
    pub fn message(&self) -> (r: String)
        ensures
            r@ == self.message_spec(),
    {
        match self {
            BackendError::UnknownDesktop { desktop } => concat3(
                "Unrecognized desktop environment (XDG_CURRENT_DESKTOP='",
                desktop.as_str(),
                "'). Supported environments: KDE, GNOME/Cinnamon, Hyprland (swww), Sway (swaybg), X11 (feh).",
            ),
            BackendError::WaylandNoCompatibleBackend => String::from_str(
                "Wayland environment detected, but no compatible backend found. Install swww and start swww-daemon.",
            ),
            BackendError::CommandSpawn { tool, source, help } => {
                let mut r = concat3("Failed to execute ", tool.as_str(), ": ");
                r.append(source.as_str());
                r.append("\n");
                r.append(help.as_str());
                r
            },
            BackendError::CommandFailed { tool, code } => {
                let mut r = concat2(tool.as_str(), " failed (code ");
                push_code_debug(&mut r, *code);
                r.append(")");
                r
            },
            BackendError::SwwwFailed { code } => {
                let mut r = String::from_str("swww failed (code ");
                push_code_debug(&mut r, *code);
                r.append("). Make sure swww-daemon is running.");
                r
            },
        }
    }
}

impl SelectionError {
    /// The text that describes the error.
    pub open spec fn message_spec(&self) -> Seq<char> {
        match self {
            SelectionError::Canceled => "Canceled."@,
            SelectionError::InvalidSelection => "Invalid selection."@,
            SelectionError::PromptFailure { message } => message@,
        }
    }

    /// The text that describes the error.
    pub fn message(&self) -> (r: String)
        ensures
            r@ == self.message_spec(),
    {
        match self {
            SelectionError::Canceled => String::from_str("Canceled."),
            SelectionError::InvalidSelection => String::from_str("Invalid selection."),
            SelectionError::PromptFailure { message } => message.clone(),
        }
    }
}

impl ListError {
    /// The text that describes the error.
    pub open spec fn message_spec(&self) -> Seq<char> {
        match self {
            ListError::InvalidName { name } => "Invalid list name: '"@ + name@
                + "'. Use letters, digits, '-' or '_'."@,
            ListError::NotFound { name } => "List '"@ + name@ + "' not found."@,
            ListError::AlreadyExists { name } => "List '"@ + name@ + "' already exists."@,
            ListError::AlreadyInList { name, wallpaper } => "Wallpaper '"@ + wallpaper@ + "' is already in list '"@
                + name@ + "'."@,
            ListError::Empty { name } => "List '"@ + name@ + "' is empty."@,
            ListError::WallpaperOutsideBase { path, base } => "Wallpaper "@ + path@ + " is outside "@ + base@ + "."@,
            ListError::Storage { message } => message@,
            ListError::Index { message } => message@,
        }
    }

    /// The text that describes the error.
    pub fn message(&self) -> (r: String)
        ensures
            r@ == self.message_spec(),
    {
        match self {
            ListError::InvalidName { name } => concat3(
                "Invalid list name: '",
                name.as_str(),
                "'. Use letters, digits, '-' or '_'.",
            ),
            ListError::NotFound { name } => concat3("List '", name.as_str(), "' not found."),
            ListError::AlreadyExists { name } => concat3("List '", name.as_str(), "' already exists."),
            ListError::AlreadyInList { name, wallpaper } => {
                let mut r = concat3("Wallpaper '", wallpaper.as_str(), "' is already in list '");
                r.append(name.as_str());
                r.append("'.");
                r
            },
            ListError::Empty { name } => concat3("List '", name.as_str(), "' is empty."),
            ListError::WallpaperOutsideBase { path, base } => {
                let mut r = concat3("Wallpaper ", path.as_str(), " is outside ");
                r.append(base.as_str());
                r.append(".");
                r
            },
            ListError::Storage { message } => message.clone(),
            ListError::Index { message } => message.clone(),
        }
    }
}

impl PlaybackError {
    /// The text that describes the error.
    pub open spec fn message_spec(&self) -> Seq<char> {
        match self {
            PlaybackError::InvalidState { message } => message@,
            PlaybackError::SpawnError { message } => message@,
            PlaybackError::KillError { pid, message } => "Failed to stop process "@ + decimal(*pid as nat) + ": "@
                + message@,
            PlaybackError::NoActivePlayback => "No active playback."@,
        }
    }

    /// The text that describes the error.
    pub fn message(&self) -> (r: String)
        ensures
            r@ == self.message_spec(),
    {
        match self {
            PlaybackError::InvalidState { message } => message.clone(),
            PlaybackError::SpawnError { message } => message.clone(),
            PlaybackError::KillError { pid, message } => {
                let mut v: Vec<char> = Vec::new();
                push_decimal(&mut v, *pid as u64);
                let mut r = String::from_str("Failed to stop process ");
                push_chars(&mut r, &v);
                r.append(": ");
                r.append(message.as_str());
                r
            },
            PlaybackError::NoActivePlayback => String::from_str("No active playback."),
        }
    }
}

impl SwpError {
    /// The text that describes the error.
    pub open spec fn message_spec(&self) -> Seq<char> {
        match self {
            SwpError::HomeEnvMissing => "HOME environment variable not set"@,
            SwpError::CreateWallpapersDir { source } => "Error creating wallpapers directory: "@ + source@,
            SwpError::WallpaperSourceNotFound { path } => "Wallpaper source not found: "@ + path@,
            SwpError::WallpaperSourceNotFile { path } => "Wallpaper source is not a file: "@ + path@,
            SwpError::UnsupportedWallpaperFormat { path } => "Unsupported wallpaper format: "@ + path@,
            SwpError::CopyWallpaper { from, to, source } => "Failed to copy "@ + from@ + " to "@ + to@ + ": "@
                + source@,
            SwpError::RemoveWallpaper { path, source } => "Failed to remove "@ + path@ + ": "@ + source@,
            SwpError::Thumbnail { message } => message@,
            SwpError::GuiLaunch { message } => message@,
            SwpError::Query(e) => e.message_spec(),
            SwpError::Backend(e) => e.message_spec(),
            SwpError::Interval(e) => e.message_spec(),
            SwpError::Selection(e) => e.message_spec(),
            SwpError::List(e) => e.message_spec(),
            SwpError::Playback(e) => e.message_spec(),
        }
    }

    /// The text that describes the error (what `swp` prints after `Error:`).
    pub fn message(&self) -> (r: String)
        ensures
            r@ == self.message_spec(),
    {
        match self {
            SwpError::HomeEnvMissing => String::from_str("HOME environment variable not set"),
            SwpError::CreateWallpapersDir { source } => concat2("Error creating wallpapers directory: ", source.as_str()),
            SwpError::WallpaperSourceNotFound { path } => concat2("Wallpaper source not found: ", path.as_str()),
            SwpError::WallpaperSourceNotFile { path } => concat2("Wallpaper source is not a file: ", path.as_str()),
            SwpError::UnsupportedWallpaperFormat { path } => concat2("Unsupported wallpaper format: ", path.as_str()),
            SwpError::CopyWallpaper { from, to, source } => {
                let mut r = concat3("Failed to copy ", from.as_str(), " to ");
                r.append(to.as_str());
                r.append(": ");
                r.append(source.as_str());
                r
            },
            SwpError::RemoveWallpaper { path, source } => {
                let mut r = concat3("Failed to remove ", path.as_str(), ": ");
                r.append(source.as_str());
                r
            },
            SwpError::Thumbnail { message } => message.clone(),
            SwpError::GuiLaunch { message } => message.clone(),
            SwpError::Query(e) => e.message(),
            SwpError::Backend(e) => e.message(),
            SwpError::Interval(e) => e.message(),
            SwpError::Selection(e) => e.message(),
            SwpError::List(e) => e.message(),
            SwpError::Playback(e) => e.message(),
        }
    }
}

} // verus!
