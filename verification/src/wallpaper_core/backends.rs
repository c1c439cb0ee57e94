//! Desktop backends: which tool applies a wallpaper on which desktop, how
//! it is called, and what its exit means. The tools are run by the caller.

use vstd::prelude::*;
use crate::error::{BackendError, SwpError};
use crate::text::{all_ascii, ascii_upper, chars_of, contains_chars, contains_sub};

verus! {

/// The tools that apply a wallpaper.
#[derive(Debug, PartialEq, Eq, Structural)]
pub enum Backend {
    /// KDE Plasma: `plasma-apply-wallpaperimage`.
    Kde,
    /// GNOME and its kin: `gsettings`.
    Gnome,
    /// Hyprland: `swww`.
    Swww,
    /// Sway: `swaybg`.
    Sway,
    /// Another Wayland compositor: `swww`, reported as no compatible backend on failure.
    WaylandSwww,
    /// X11: `feh`.
    Feh,
}

/// The upper-case form of `s` under Unicode's full case mapping, as
/// `str::to_uppercase` computes it.
pub uninterp spec fn uppercase(s: Seq<char>) -> Seq<char>;

/// `str::to_uppercase`: the result is named `uppercase` of the input; on
/// ASCII text it is the input with `a`-`z` mapped to `A`-`Z` (Unicode's
/// upper-case mapping agrees with `to_ascii_uppercase` there).
#[verifier::external_body]
pub(crate) fn to_uppercase(s: &str) -> (r: String)
    ensures
        r@ == uppercase(s@),
        all_ascii(s@) ==> r@ == s@.map_values(|c: char| ascii_upper(c)),
{
    s.to_uppercase()
}

/// The backend for a desktop whose name, in upper case, is `d`, compared
/// by substring; failing those, `swww` under Wayland, `feh` under X11.
pub open spec fn backend_for_upper(d: Seq<char>, wayland: bool, x11: bool) -> Option<Backend> {
    if contains_sub(d, "KDE"@) {
        Some(Backend::Kde)
    } else if contains_sub(d, "GNOME"@) || contains_sub(d, "UNITY"@) || contains_sub(d, "PANTHEON"@)
        || contains_sub(d, "BUDGIE"@) || contains_sub(d, "CINNAMON"@) {
        Some(Backend::Gnome)
    } else if contains_sub(d, "HYPRLAND"@) {
        Some(Backend::Swww)
    } else if contains_sub(d, "SWAY"@) {
        Some(Backend::Sway)
    } else if wayland {
        Some(Backend::WaylandSwww)
    } else if x11 {
        Some(Backend::Feh)
    } else {
        None
    }
}

/// The desktop table: a desktop whose upper-case name holds `KDE` is set
/// with `plasma-apply-wallpaperimage`; else one that names GNOME, Cinnamon,
/// Budgie, Unity or Pantheon with `gsettings`; else Hyprland with `swww`;
/// else Sway with `swaybg`; an unknown desktop falls back to `swww` under
/// Wayland and to `feh` under X11, and with neither there is no backend.
pub proof fn lemma_desktop_table(d: Seq<char>, wayland: bool, x11: bool)
    ensures
        contains_sub(d, "KDE"@) ==> backend_for_upper(d, wayland, x11) == Some(Backend::Kde),
        !contains_sub(d, "KDE"@) && contains_sub(d, "GNOME"@) ==> backend_for_upper(d, wayland, x11) == Some(
            Backend::Gnome,
        ),
        !contains_sub(d, "KDE"@) && contains_sub(d, "CINNAMON"@) ==> backend_for_upper(d, wayland, x11) == Some(
            Backend::Gnome,
        ),
        !contains_sub(d, "KDE"@) && contains_sub(d, "BUDGIE"@) ==> backend_for_upper(d, wayland, x11) == Some(
            Backend::Gnome,
        ),
        !contains_sub(d, "KDE"@) && contains_sub(d, "UNITY"@) ==> backend_for_upper(d, wayland, x11) == Some(
            Backend::Gnome,
        ),
        !contains_sub(d, "KDE"@) && contains_sub(d, "PANTHEON"@) ==> backend_for_upper(d, wayland, x11) == Some(
            Backend::Gnome,
        ),
        backend_for_upper(d, wayland, x11) == Some(Backend::Gnome) ==> contains_sub(d, "GNOME"@) || contains_sub(
            d,
            "CINNAMON"@,
        ) || contains_sub(d, "BUDGIE"@) || contains_sub(d, "UNITY"@) || contains_sub(d, "PANTHEON"@),
        !contains_sub(d, "KDE"@) && !contains_sub(d, "GNOME"@) && !contains_sub(d, "CINNAMON"@) && !contains_sub(
            d,
            "BUDGIE"@,
        ) && !contains_sub(d, "UNITY"@) && !contains_sub(d, "PANTHEON"@) ==> {
            &&& contains_sub(d, "HYPRLAND"@) ==> backend_for_upper(d, wayland, x11) == Some(Backend::Swww)
            &&& !contains_sub(d, "HYPRLAND"@) && contains_sub(d, "SWAY"@) ==> backend_for_upper(d, wayland, x11)
                == Some(Backend::Sway)
            &&& !contains_sub(d, "HYPRLAND"@) && !contains_sub(d, "SWAY"@) ==> backend_for_upper(d, wayland, x11)
                == if wayland {
                Some(Backend::WaylandSwww)
            } else if x11 {
                Some(Backend::Feh)
            } else {
                None
            }
        },
{
}

/// Which program sets the wallpaper on a desktop whose upper-case name
/// holds `PANTHEON` (and not `KDE`): `gsettings`, whatever the display.
pub proof fn lemma_pantheon_uses_gsettings(d: Seq<char>, wayland: bool, x11: bool)
    requires
        contains_sub(d, "PANTHEON"@),
        !contains_sub(d, "KDE"@),
    ensures
        backend_for_upper(d, wayland, x11) matches Some(b) && backend_tool(b) == "gsettings"@,
{
}

/// The backend for the desktop named `desktop` (from `XDG_CURRENT_DESKTOP`,
/// else `DESKTOP_SESSION`), compared in upper case.
pub open spec fn backend_for(desktop: Seq<char>, wayland: bool, x11: bool) -> Option<Backend> {
    backend_for_upper(uppercase(desktop), wayland, x11)
}

fn has(d: &Vec<char>, w: &str) -> (r: bool)
    ensures
        r == contains_sub(d@, w@),
{
    contains_chars(d, &chars_of(w))
}

/// Chooses the backend for a desktop whose name, in upper case, is
/// `upper`; `wayland` and `x11` are whether `WAYLAND_DISPLAY` and `DISPLAY`
/// are set, and `xdg` the value of `XDG_CURRENT_DESKTOP` (empty where
/// unset) reported for an unknown desktop.
pub fn choose_backend_upper(upper: &str, wayland: bool, x11: bool, xdg: &str) -> (r: Result<Backend, SwpError>)
    ensures
        match backend_for_upper(upper@, wayland, x11) {
            Some(b) => r == Ok::<Backend, SwpError>(b),
            None => r matches Err(SwpError::Backend(BackendError::UnknownDesktop { desktop: d })) && d@ == xdg@,
        },
{
    let d = chars_of(upper);
    if has(&d, "KDE") {
        Ok(Backend::Kde)
    } else if has(&d, "GNOME") || has(&d, "UNITY") || has(&d, "PANTHEON") || has(&d, "BUDGIE") || has(&d, "CINNAMON") {
        Ok(Backend::Gnome)
    } else if has(&d, "HYPRLAND") {
        Ok(Backend::Swww)
    } else if has(&d, "SWAY") {
        Ok(Backend::Sway)
    } else if wayland {
        Ok(Backend::WaylandSwww)
    } else if x11 {
        Ok(Backend::Feh)
    } else {
        Err(SwpError::Backend(BackendError::UnknownDesktop { desktop: String::from_str(xdg) }))
    }
}

/// Chooses the backend for the desktop named `desktop`, which is compared
/// in upper case (see `choose_backend_upper`).
pub fn choose_backend(desktop: &str, wayland: bool, x11: bool, xdg: &str) -> (r: Result<Backend, SwpError>)
    ensures
        match backend_for(desktop@, wayland, x11) {
            Some(b) => r == Ok::<Backend, SwpError>(b),
            None => r matches Err(SwpError::Backend(BackendError::UnknownDesktop { desktop: d })) && d@ == xdg@,
        },
{
    let up = to_uppercase(desktop);
    choose_backend_upper(up.as_str(), wayland, x11, xdg)
}

/// The program that a backend runs.
pub open spec fn backend_tool(b: Backend) -> Seq<char> {
    match b {
        Backend::Kde => "plasma-apply-wallpaperimage"@,
        Backend::Gnome => "gsettings"@,
        Backend::Swww => "swww"@,
        Backend::Sway => "swaybg"@,
        Backend::WaylandSwww => "swww"@,
        Backend::Feh => "feh"@,
    }
}

/// The advice given when a backend's program cannot be started.
pub open spec fn backend_help(b: Backend) -> Seq<char> {
    match b {
        Backend::Kde => "Check if plasma-workspace is installed."@,
        Backend::Gnome => "Check if gsettings is installed and available."@,
        Backend::Swww => "Install with `sudo pacman -S swww` and start `swww-daemon`."@,
        Backend::Sway => "Install with `sudo pacman -S swaybg`."@,
        Backend::WaylandSwww => "Install with `sudo pacman -S swww` and start `swww-daemon`."@,
        Backend::Feh => "Install with `sudo pacman -S feh`."@,
    }
}

/// The program that `b` runs.
pub fn tool(b: &Backend) -> (r: String)
    ensures
        r@ == backend_tool(*b),
{
    match b {
        Backend::Kde => String::from_str("plasma-apply-wallpaperimage"),
        Backend::Gnome => String::from_str("gsettings"),
        Backend::Swww => String::from_str("swww"),
        Backend::Sway => String::from_str("swaybg"),
        Backend::WaylandSwww => String::from_str("swww"),
        Backend::Feh => String::from_str("feh"),
    }
}

/// The arguments with which `b` applies the wallpaper at `path`.
pub open spec fn backend_args(b: Backend, path: Seq<char>) -> Seq<Seq<char>> {
    match b {
        Backend::Kde => seq![path],
        Backend::Gnome => seq!["set"@, "org.gnome.desktop.background"@, "picture-uri"@, "file://"@ + path],
        Backend::Swww => seq!["img"@, path],
        Backend::Sway => seq!["-i"@, path, "-m"@, "fill"@],
        Backend::WaylandSwww => seq!["img"@, path],
        Backend::Feh => seq!["--bg-fill"@, path],
    }
}

/// The arguments with which `b` applies the wallpaper at `path`.
pub fn command_args(b: &Backend, path: &str) -> (r: Vec<String>)
    ensures
        crate::text::string_views(r@) == backend_args(*b, path@),
{
    let mut r: Vec<String> = Vec::new();
    match b {
        Backend::Kde => {
            r.push(String::from_str(path));
        },
        Backend::Gnome => {
            r.push(String::from_str("set"));
            r.push(String::from_str("org.gnome.desktop.background"));
            r.push(String::from_str("picture-uri"));
            r.push(crate::text::concat2("file://", path));
        },
        Backend::Swww | Backend::WaylandSwww => {
            r.push(String::from_str("img"));
            r.push(String::from_str(path));
        },
        Backend::Sway => {
            r.push(String::from_str("-i"));
            r.push(String::from_str(path));
            r.push(String::from_str("-m"));
            r.push(String::from_str("fill"));
        },
        Backend::Feh => {
            r.push(String::from_str("--bg-fill"));
            r.push(String::from_str(path));
        },
    }
    assert(crate::text::string_views(r@) =~= backend_args(*b, path@));
    r
}

/// Whether `b` leaves its program running in the background (started,
/// not waited for) rather than waiting for it to exit.
pub open spec fn backend_spawns(b: Backend) -> bool {
    b == Backend::Sway
}

/// Whether `b`'s program is started and left running (Sway's `swaybg`)
/// rather than waited for.
pub fn spawns(b: &Backend) -> (r: bool)
    ensures
        r == backend_spawns(*b),
{
    match b {
        Backend::Sway => true,
        _ => false,
    }
}

/// A command run before applying with `b`, whose outcome does not matter:
/// Sway stops any running `swaybg` with `pkill -x swaybg`.
pub open spec fn backend_before(b: Backend) -> Option<(Seq<char>, Seq<Seq<char>>)> {
    if b == Backend::Sway {
        Some(("pkill"@, seq!["-x"@, "swaybg"@]))
    } else {
        None
    }
}

/// The command (program and arguments) run before applying with `b`, if any.
pub fn before_command(b: &Backend) -> (r: Option<(String, Vec<String>)>)
    ensures
        match backend_before(*b) {
            Some((t, a)) => r matches Some((rt, ra)) && rt@ == t && crate::text::string_views(ra@) == a,
            None => r is None,
        },
{
    match b {
        Backend::Sway => {
            let mut args: Vec<String> = Vec::new();
            args.push(String::from_str("-x"));
            args.push(String::from_str("swaybg"));
            assert(crate::text::string_views(args@) =~= seq!["-x"@, "swaybg"@]);
            Some((String::from_str("pkill"), args))
        },
        _ => None,
    }
}

/// A command run once `b` applied the wallpaper at `path`, whose outcome
/// does not matter: GNOME also sets the dark-style picture.
pub open spec fn backend_after(b: Backend, path: Seq<char>) -> Option<(Seq<char>, Seq<Seq<char>>)> {
    if b == Backend::Gnome {
        Some(("gsettings"@, seq!["set"@, "org.gnome.desktop.background"@, "picture-uri-dark"@, "file://"@ + path]))
    } else {
        None
    }
}

/// The command (program and arguments) run after `b` applied `path`, if any.
pub fn after_command(b: &Backend, path: &str) -> (r: Option<(String, Vec<String>)>)
    ensures
        match backend_after(*b, path@) {
            Some((t, a)) => r matches Some((rt, ra)) && rt@ == t && crate::text::string_views(ra@) == a,
            None => r is None,
        },
{
    match b {
        Backend::Gnome => {
            let mut args: Vec<String> = Vec::new();
            args.push(String::from_str("set"));
            args.push(String::from_str("org.gnome.desktop.background"));
            args.push(String::from_str("picture-uri-dark"));
            args.push(crate::text::concat2("file://", path));
            assert(crate::text::string_views(args@) =~= seq![
                "set"@,
                "org.gnome.desktop.background"@,
                "picture-uri-dark"@,
                "file://"@ + path@,
            ]);
            Some((String::from_str("gsettings"), args))
        },
        _ => None,
    }
}

/// How running a backend's program went.
#[derive(Debug)]
pub enum CommandRun {
    /// Started and left running (Sway's `swaybg`).
    Spawned,
    /// Ran to the end.
    Exited { success: bool, code: Option<i32> },
    /// Could not be started; `message` is the I/O error's text.
    SpawnFailed { message: String },
}

/// Whether the program of a backend did its work: it was left running, or
/// it exited with success.
pub open spec fn run_succeeded(run: CommandRun) -> bool {
    run is Spawned || run matches CommandRun::Exited { success: true, .. }
}

/// What applying with `b` gives, by how its program ran (`r`): success
/// where the program did its work; otherwise an error that names the tool,
/// with advice where it could not be started. Under a generic Wayland
/// compositor every failure is reported as the lack of a compatible
/// backend.
pub open spec fn apply_outcome_is(b: Backend, run: CommandRun, r: Result<(), SwpError>) -> bool {
    if run_succeeded(run) {
        r is Ok
    } else if b == Backend::WaylandSwww {
        r matches Err(SwpError::Backend(BackendError::WaylandNoCompatibleBackend))
    } else {
        match run {
            CommandRun::Exited { code, .. } => if b == Backend::Swww {
                r matches Err(SwpError::Backend(BackendError::SwwwFailed { code: c })) && c == code
            } else {
                r matches Err(SwpError::Backend(BackendError::CommandFailed { tool: t, code: c })) && t@ == backend_tool(b)
                    && c == code
            },
            CommandRun::SpawnFailed { message } => r matches Err(
                SwpError::Backend(BackendError::CommandSpawn { tool: t, source, help }),
            ) && t@ == backend_tool(b) && source@ == message@ && help@ == backend_help(b),
            _ => r is Ok,
        }
    }
}

/// Whether applying with `b` succeeded, given how its program ran (see
/// `apply_outcome_is`).
pub fn apply_outcome(b: &Backend, run: CommandRun) -> (r: Result<(), SwpError>)
    ensures
        apply_outcome_is(*b, run, r),
{
    let failed: Result<(), SwpError> = match run {
        CommandRun::Spawned => Ok(()),
        CommandRun::Exited { success, code } => {
            if success {
                Ok(())
            } else {
                match b {
                    Backend::Swww | Backend::WaylandSwww => Err(SwpError::Backend(BackendError::SwwwFailed { code })),
                    _ => Err(SwpError::Backend(BackendError::CommandFailed { tool: tool(b), code })),
                }
            }
        },
        CommandRun::SpawnFailed { message } => {
            let help = match b {
                Backend::Kde => String::from_str("Check if plasma-workspace is installed."),
                Backend::Gnome => String::from_str("Check if gsettings is installed and available."),
                Backend::Swww | Backend::WaylandSwww => String::from_str(
                    "Install with `sudo pacman -S swww` and start `swww-daemon`.",
                ),
                Backend::Sway => String::from_str("Install with `sudo pacman -S swaybg`."),
                Backend::Feh => String::from_str("Install with `sudo pacman -S feh`."),
            };
            Err(SwpError::Backend(BackendError::CommandSpawn { tool: tool(b), source: message, help }))
        },
    };
    match b {
        Backend::WaylandSwww => match failed {
            Ok(()) => Ok(()),
            Err(_) => Err(SwpError::Backend(BackendError::WaylandNoCompatibleBackend)),
        },
        _ => failed,
    }
}

} // verus!
