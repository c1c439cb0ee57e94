//! The desktop backends with failures reported as Portuguese text. The
//! tool chosen for each desktop, and how it is called, are those of
//! `wallpaper_core::backends`.

use vstd::prelude::*;
use crate::error::{code_debug, push_code_debug};
use crate::text::{concat2, concat3};
use crate::wallpaper_core::backends::{backend_for, backend_tool, Backend, CommandRun};

verus! {

/// The text reported when no backend suits the desktop; `xdg` is the value
/// of `XDG_CURRENT_DESKTOP`.
pub open spec fn unknown_desktop_pt(xdg: Seq<char>) -> Seq<char> {
    "Ambiente de desktop não reconhecido (XDG_CURRENT_DESKTOP='"@ + xdg
        + "'). Ambientes suportados: KDE, GNOME/Cinnamon, Hyprland (swww), Sway (swaybg), X11 (feh)."@
}

/// The text reported when `swww` fails under a generic Wayland compositor.
pub open spec fn wayland_failure_pt() -> Seq<char> {
    "Ambiente Wayland detectado, mas nenhum backend compatível encontrado. Instale swww e inicie swww-daemon."@
}

/// The text reported when the program of `b` cannot be started, given the
/// text of the I/O error.
pub open spec fn spawn_failure_pt(b: Backend, e: Seq<char>) -> Seq<char> {
    match b {
        Backend::Kde => "Falha ao executar plasma-apply-wallpaperimage: "@ + e
            + "\nVerifique se plasma-workspace está instalado."@,
        Backend::Gnome => "Falha ao executar gsettings: "@ + e,
        Backend::Sway => "Falha ao executar swaybg: "@ + e + "\nInstale com `sudo pacman -S swaybg`."@,
        Backend::Feh => "Falha ao executar feh: "@ + e + "\nInstale com `sudo pacman -S feh`."@,
        _ => "Falha ao executar swww: "@ + e + "\nInstale com `sudo pacman -S swww` e inicie `swww-daemon`."@,
    }
}

/// The text reported when the program of `b` exits with failure.
pub open spec fn exit_failure_pt(b: Backend, code: Option<i32>) -> Seq<char> {
    if b == Backend::Swww || b == Backend::WaylandSwww {
        "swww falhou (código "@ + code_debug(code) + "). Certifique-se que swww-daemon está rodando."@
    } else {
        backend_tool(b) + " falhou (código "@ + code_debug(code) + ")"@
    }
}

/// What applying with `b` gives, by how its program ran.
pub open spec fn outcome_pt(b: Backend, run: CommandRun) -> Result<(), Seq<char>> {
    match run {
        CommandRun::Spawned => Ok(()),
        CommandRun::Exited { success: true, .. } => Ok(()),
        _ => if b == Backend::WaylandSwww {
            Err(wayland_failure_pt())
        } else {
            match run {
                CommandRun::Exited { code, .. } => Err(exit_failure_pt(b, code)),
                CommandRun::SpawnFailed { message } => Err(spawn_failure_pt(b, message@)),
                _ => Ok(()),
            }
        },
    }
}

/// The backend for the desktop named `desktop`, as
/// `wallpaper_core::backends::choose_backend` picks it; `xdg` is the value
/// of `XDG_CURRENT_DESKTOP` (empty where unset), named when none suits.
pub fn choose_backend(desktop: &str, wayland: bool, x11: bool, xdg: &str) -> (r: Result<Backend, String>)
    ensures
        match backend_for(desktop@, wayland, x11) {
            Some(b) => r == Ok::<Backend, String>(b),
            None => r matches Err(m) && m@ == unknown_desktop_pt(xdg@),
        },
{
    match crate::wallpaper_core::backends::choose_backend(desktop, wayland, x11, xdg) {
        Ok(b) => Ok(b),
        Err(_) => Err(concat3(
            "Ambiente de desktop não reconhecido (XDG_CURRENT_DESKTOP='",
            xdg,
            "'). Ambientes suportados: KDE, GNOME/Cinnamon, Hyprland (swww), Sway (swaybg), X11 (feh).",
        )),
    }
}

/// Whether applying with `b` succeeded, given how its program ran, with
/// the failure as Portuguese text.
pub fn apply_outcome(b: &Backend, run: CommandRun) -> (r: Result<(), String>)
    ensures
        match outcome_pt(*b, run) {
            Ok(()) => r is Ok,
            Err(m) => r matches Err(x) && x@ == m,
        },
{
    match run {
        CommandRun::Spawned => Ok(()),
        CommandRun::Exited { success: true, .. } => Ok(()),
        CommandRun::Exited { success: false, code } => {
            match b {
                Backend::WaylandSwww => Err(String::from_str(
                    "Ambiente Wayland detectado, mas nenhum backend compatível encontrado. Instale swww e inicie swww-daemon.",
                )),
                Backend::Swww => {
                    let mut m = String::from_str("swww falhou (código ");
                    push_code_debug(&mut m, code);
                    m.append("). Certifique-se que swww-daemon está rodando.");
                    Err(m)
                },
                _ => {
                    let t = crate::wallpaper_core::backends::tool(b);
                    let mut m = concat2(t.as_str(), " falhou (código ");
                    push_code_debug(&mut m, code);
                    m.append(")");
                    Err(m)
                },
            }
        },
        CommandRun::SpawnFailed { message } => {
            match b {
                Backend::WaylandSwww => Err(String::from_str(
                    "Ambiente Wayland detectado, mas nenhum backend compatível encontrado. Instale swww e inicie swww-daemon.",
                )),
                Backend::Kde => Err(concat3(
                    "Falha ao executar plasma-apply-wallpaperimage: ",
                    message.as_str(),
                    "\nVerifique se plasma-workspace está instalado.",
                )),
                Backend::Gnome => Err(concat2("Falha ao executar gsettings: ", message.as_str())),
                Backend::Sway => Err(concat3(
                    "Falha ao executar swaybg: ",
                    message.as_str(),
                    "\nInstale com `sudo pacman -S swaybg`.",
                )),
                Backend::Feh => Err(concat3(
                    "Falha ao executar feh: ",
                    message.as_str(),
                    "\nInstale com `sudo pacman -S feh`.",
                )),
                Backend::Swww => Err(concat3(
                    "Falha ao executar swww: ",
                    message.as_str(),
                    "\nInstale com `sudo pacman -S swww` e inicie `swww-daemon`.",
                )),
            }
        },
    }
}

} // verus!
