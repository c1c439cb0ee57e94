//! Helpers: the image test (Unicode lower case), interval parsing with
//! Portuguese messages, and sorted picker entries.

use vstd::prelude::*;
use crate::error::IntervalError;
use crate::cli::cmd::{entries_of, entry_order, named_paths};
use crate::paths::{extension_spec, views};
use crate::sort::stable_sort_of;
use crate::text::{chars_of, concat3, lowercase, to_lowercase};
use crate::wallpaper_core::wallpaper::{image_extension_list, image_extensions};
use crate::wallpaper_core::lists_play::{
    duration_from_secs, duration_of, has_interval_unit, interval_seconds, interval_count, interval_fits, interval_ok,
};

verus! {

/// The Portuguese text of the error that reading the malformed interval `s` reports.
pub open spec fn interval_message_pt(s: Seq<char>) -> Seq<char> {
    if !has_interval_unit(s) {
        "Formato de intervalo inválido: '"@ + s + "'. Use um número seguido de s, m ou h (ex: 30s, 10m, 2h)."@
    } else if interval_count(s) is None {
        "Número inválido em '"@ + s + "'. Use um inteiro positivo (ex: 30s, 10m, 2h)."@
    } else {
        "O intervalo deve ser maior que zero."@
    }
}

/// Reads an interval such as `30s`, `10m` or `2h`; a malformed or zero
/// interval gives a Portuguese description of the error.
pub fn parse_interval(interval: &str) -> (r: Result<std::time::Duration, String>)
    requires
        interval_fits(interval@),
    ensures
        r is Ok <==> interval_ok(interval@),
        r matches Ok(d) ==> d == duration_of(interval_seconds(interval@) as u64),
        r matches Err(m) ==> m@ == interval_message_pt(interval@),
{
    match crate::wallpaper_core::lists_play::parse_interval(interval) {
        Ok(secs) => Ok(duration_from_secs(secs)),
        Err(IntervalError::InvalidFormat { input }) => Err(concat3(
            "Formato de intervalo inválido: '",
            input.as_str(),
            "'. Use um número seguido de s, m ou h (ex: 30s, 10m, 2h).",
        )),
        Err(IntervalError::InvalidNumber { input }) => Err(concat3(
            "Número inválido em '",
            input.as_str(),
            "'. Use um inteiro positivo (ex: 30s, 10m, 2h).",
        )),
        Err(IntervalError::ZeroInterval) => Err(String::from_str("O intervalo deve ser maior que zero.")),
    }
}

} // verus!

verus! {

/// Whether `p` has an image extension once lower-cased (Unicode lower case).
pub open spec fn is_image_lower_spec(p: Seq<char>) -> bool {
    extension_spec(p) matches Some(e) && image_extensions().contains(lowercase(e))
}

/// Whether `lower`, an extension in lower case, is one of the image
/// extensions.
pub fn is_image_extension(lower: &str) -> (r: bool)
    ensures
        r == image_extensions().contains(lower@),
{
    let lv = chars_of(lower);
    let exts = image_extension_list();
    let mut k: usize = 0;
    while k < exts.len()
        invariant
            views(exts@) == image_extensions(),
            lv@ == lower@,
            k <= exts.len(),
            forall|j: int| 0 <= j < k ==> image_extensions()[j] != lower@,
        decreases exts.len() - k,
    {
        assert(exts@[k as int]@ == image_extensions()[k as int]);
        if crate::text::chars_eq(&lv, &exts[k]) {
            assert(image_extensions()[k as int] == lower@);
            return true;
        }
        k = k + 1;
    }
    false
}

/// Whether `path` names an image: its extension, in lower case, is `jpg`,
/// `jpeg`, `png`, `webp`, `bmp` or `avif`.
pub fn is_image(path: &str) -> (r: bool)
    ensures
        r == is_image_lower_spec(path@),
{
    let e = match crate::paths::extension(path) {
        Some(e) => e,
        None => return false,
    };
    let lower = to_lowercase(e.as_str());
    is_image_extension(lower.as_str())
}

/// The picker entries for `images`: each path that has a file name, paired
/// with that name, sorted by name.
pub fn to_sorted_entries(images: Vec<String>) -> (r: Vec<(String, String)>)
    ensures
        exists|u: Seq<(String, String)>| #[trigger] entries_of(u, named_paths(images@)) && stable_sort_of(r@, u, entry_order()),
{
    crate::cli::cmd::to_sorted_entries(images)
}

} // verus!
