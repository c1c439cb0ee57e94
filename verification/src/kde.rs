//! Applying a wallpaper on KDE Plasma only, with Portuguese messages.

use vstd::prelude::*;
use crate::text::concat2;
use crate::wallpaper_core::backends::CommandRun;

verus! {

/// Whether the desktop allows applying: `XDG_CURRENT_DESKTOP` (`desktop`,
/// empty where unset) must be exactly `KDE`.
pub fn check_desktop(desktop: &str) -> (r: Result<(), String>)
    ensures
        desktop@ == "KDE"@ ==> r is Ok,
        desktop@ != "KDE"@ ==> (r matches Err(m) && m@ == "Não está rodando no KDE Plasma"@),
{
    let d = crate::text::chars_of(desktop);
    let k = crate::text::chars_of("KDE");
    if crate::text::chars_eq(&d, &k) {
        Ok(())
    } else {
        Err(String::from_str("Não está rodando no KDE Plasma"))
    }
}

/// What running `plasma-apply-wallpaperimage` on `path` gives: on success
/// the line to print, otherwise the error text.
pub fn set_wallpaper_outcome(path: &str, run: CommandRun) -> (r: Result<String, String>)
    ensures
        match run {
            CommandRun::Exited { success: true, .. } => r matches Ok(line) && line@ == "✔ Wallpaper aplicado: "@
                + path@,
            CommandRun::Spawned => r matches Ok(line) && line@ == "✔ Wallpaper aplicado: "@ + path@,
            CommandRun::Exited { success: false, .. } => r matches Err(m) && m@ == "Falha ao aplicar wallpaper"@,
            CommandRun::SpawnFailed { .. } => r matches Err(m) && m@
                == "plasma-apply-wallpaperimage não encontrado"@,
        },
{
    match run {
        CommandRun::Exited { success: false, .. } => Err(String::from_str("Falha ao aplicar wallpaper")),
        CommandRun::SpawnFailed { .. } => Err(String::from_str("plasma-apply-wallpaperimage não encontrado")),
        _ => Ok(concat2("✔ Wallpaper aplicado: ", path)),
    }
}

} // verus!
