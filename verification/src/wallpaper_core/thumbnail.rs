//! Thumbnails: decoding an image and fitting it within bounds (with the
//! `image` crate), the pixels shown for one, and where the cached thumbnail
//! of a wallpaper lives. Reading and writing the files is left to the caller.

use vstd::prelude::*;
use crate::error::SwpError;
use crate::paths::{join, join_spec};
use crate::text::{chars_of, concat3, decimal, hex, push_chars_vec, push_decimal, push_hex, string_of};

verus! {

/// Pixels of a thumbnail: `width` by `height`, row by row.
#[derive(Debug, Clone)]
pub struct ThumbnailData {
    pub width: u32,
    pub height: u32,
    pub pixels: Vec<u8>,
}

/// What `std`'s `DefaultHasher` gives for the text `s` followed by `w` and
/// `h` (hashed in that order).
pub uninterp spec fn path_digest(s: Seq<char>, w: u32, h: u32) -> u64;

/// `BuildHasher::hash_one` with `BuildHasherDefault<DefaultHasher>` over the
/// tuple `(s, w, h)`, which hashes `s`, `w` and `h` in turn into a
/// `DefaultHasher::new()`; the digest is named `path_digest`.
#[verifier::external_body]
fn digest_of(s: &str, w: u32, h: u32) -> (r: u64)
    ensures
        r == path_digest(s@, w, h),
{
    std::hash::BuildHasher::hash_one(
        &std::hash::BuildHasherDefault::<std::collections::hash_map::DefaultHasher>::default(),
        (s, w, h),
    )
}

/// The file name of a thumbnail whose digest is `digest`, for the bounds
/// `max_width` by `max_height`.
pub open spec fn thumbnail_file_name(digest: u64, max_width: u32, max_height: u32, extension: Seq<char>) -> Seq<char> {
    hex(digest as nat) + seq!['_'] + decimal(max_width as nat) + seq!['x'] + decimal(max_height as nat) + seq!['.']
        + extension
}

/// The file name of the thumbnail of `canonical` (the wallpaper's canonical
/// path) for the bounds `max_width` by `max_height`.
pub open spec fn thumbnail_name(canonical: Seq<char>, max_width: u32, max_height: u32, extension: Seq<char>) -> Seq<char> {
    thumbnail_file_name(path_digest(canonical, max_width, max_height), max_width, max_height, extension)
}

/// Where the thumbnail whose digest is `digest`, for the bounds
/// `max_width` by `max_height`, is cached under `cache_dir`:
/// `<digest in hex>_<width>x<height>.<extension>`.
pub fn thumbnail_path_with_digest(
    digest: u64,
    max_width: u32,
    max_height: u32,
    cache_dir: &str,
    extension: &str,
) -> (r: String)
    ensures
        r@ == join_spec(cache_dir@, thumbnail_file_name(digest, max_width, max_height, extension@)),
{
    let mut name: Vec<char> = Vec::new();
    push_hex(&mut name, digest);
    name.push('_');
    push_decimal(&mut name, max_width as u64);
    name.push('x');
    push_decimal(&mut name, max_height as u64);
    name.push('.');
    push_chars_vec(&mut name, &chars_of(extension));
    assert(name@ =~= thumbnail_file_name(digest, max_width, max_height, extension@));
    let n = string_of(&name);
    join(cache_dir, n.as_str())
}

/// Where the thumbnail of the wallpaper with canonical path `canonical`,
/// for the bounds `max_width` by `max_height`, is cached under `cache_dir`.
pub fn thumbnail_path_for(
    canonical: &str,
    max_width: u32,
    max_height: u32,
    cache_dir: &str,
    extension: &str,
) -> (r: String)
    ensures
        r@ == join_spec(cache_dir@, thumbnail_name(canonical@, max_width, max_height, extension@)),
{
    let digest = digest_of(canonical, max_width, max_height);
    thumbnail_path_with_digest(digest, max_width, max_height, cache_dir, extension)
}

/// The thumbnails directory under the wallpaper directory `dir`.
pub fn thumbnails_dir(dir: &str) -> (r: String)
    ensures
        r@ == join_spec(dir@, "thumbnails"@),
{
    join(dir, "thumbnails")
}

/// What reading a file at `path` that holds `encoded` gives, as
/// `image::open` reads it (in the format that the path's extension names)
/// and `to_rgba8` converts it: the width, height and RGBA bytes of the
/// image, or the text of the error.
pub uninterp spec fn opened_rgba(path: Seq<char>, encoded: Seq<u8>) -> Result<(u32, u32, Seq<u8>), Seq<char>>;

/// What the image of a file at `path` that holds `encoded` becomes when
/// resized with the triangle filter to fit within `max_width` by
/// `max_height` and converted by `to_rgb8`: its width, height and RGB bytes.
pub uninterp spec fn fitted_rgb(path: Seq<char>, encoded: Seq<u8>, max_width: u32, max_height: u32) -> (
    u32,
    u32,
    Seq<u8>,
);

/// Whether `t` holds exactly the width, height and bytes `img`.
pub open spec fn holds_image(t: ThumbnailData, img: (u32, u32, Seq<u8>)) -> bool {
    t.width == img.0 && t.height == img.1 && t.pixels@ == img.2
}

/// `ImageFormat::from_path`, `ImageReader::with_format(..).decode()` (what
/// `image::open` does after reading the file) and `to_rgba8`: the image in
/// `encoded`, read in the format that the extension of `path` names, as
/// RGBA bytes row by row. The outcome is named `opened_rgba` of the path and
/// the bytes.
#[verifier::external_body]
fn open_rgba(path: &str, encoded: &[u8]) -> (r: Result<ThumbnailData, String>)
    ensures
        match opened_rgba(path@, encoded@) {
            Ok(img) => r matches Ok(t) && holds_image(t, img),
            Err(m) => r matches Err(e) && e@ == m,
        },
        r matches Ok(t) ==> t.pixels@.len() == 4 * t.width * t.height,
{
    let format = image::ImageFormat::from_path(path).map_err(|e| e.to_string())?;
    let img = image::ImageReader::with_format(std::io::Cursor::new(encoded), format).decode().map_err(|e| e.to_string())?;
    let rgba = img.to_rgba8();
    let (width, height) = rgba.dimensions();
    Ok(ThumbnailData { width, height, pixels: rgba.into_raw() })
}

/// A bound as the resize reads it: zero counts as one.
pub open spec fn effective_bound(max: u32) -> u32 {
    if max == 0 {
        1
    } else {
        max
    }
}

/// Whether `t` is RGB pixels within `max_width` by `max_height` (a zero
/// bound counting as one), with both sides positive where both bounds are.
pub open spec fn fits_within(t: ThumbnailData, max_width: u32, max_height: u32) -> bool {
    &&& t.width <= effective_bound(max_width)
    &&& t.height <= effective_bound(max_height)
    &&& max_width > 0 && max_height > 0 ==> 0 < t.width && 0 < t.height
    &&& t.pixels@.len() == 3 * t.width * t.height
}

/// The file read as `open_rgba` reads it (so it opens exactly when that
/// does, with the same error), then `DynamicImage::resize` with the
/// triangle filter and `to_rgb8`: the image scaled, aspect ratio kept, to
/// the largest size within `max_width` by `max_height`, as RGB bytes row by
/// row; the result is named `fitted_rgb`. Each side is rounded up to at
/// least 1, so a zero bound counts as 1; an image already of the bounds'
/// size is kept as it is.
#[verifier::external_body]
fn fit_thumbnail(path: &str, encoded: &[u8], max_width: u32, max_height: u32) -> (r: Result<ThumbnailData, String>)
    ensures
        match opened_rgba(path@, encoded@) {
            Ok(_) => r matches Ok(t) && holds_image(t, fitted_rgb(path@, encoded@, max_width, max_height)),
            Err(m) => r matches Err(e) && e@ == m,
        },
        r matches Ok(t) ==> fits_within(t, max_width, max_height),
{
    let format = image::ImageFormat::from_path(path).map_err(|e| e.to_string())?;
    let img = image::ImageReader::with_format(std::io::Cursor::new(encoded), format).decode().map_err(|e| e.to_string())?;
    let rgb = img.resize(max_width, max_height, image::imageops::FilterType::Triangle).to_rgb8();
    let (width, height) = rgb.dimensions();
    Ok(ThumbnailData { width, height, pixels: rgb.into_raw() })
}

/// The error for a failed `what` on `path`: `<what><path>: <e>`.
pub fn failure(what: &str, path: &str, e: &str) -> (r: SwpError)
    ensures
        r matches SwpError::Thumbnail { message } && message@ == what@ + path@ + ": "@ + e@,
{
    let mut message = concat3(what, path, ": ");
    message.append(e);
    SwpError::Thumbnail { message }
}

/// Whether `err` is the thumbnail error for a failed `what` on `path`, for
/// the reason `reason`.
pub open spec fn is_failure(err: SwpError, what: Seq<char>, path: Seq<char>, reason: Seq<char>) -> bool {
    err matches SwpError::Thumbnail { message } && message@ == what + path + ": "@ + reason
}

/// A new thumbnail of the wallpaper at `path`, whose file holds `encoded`:
/// the image, read in the format its extension names, fitted within
/// `max_width` by `max_height` (a zero bound counting as one), as RGB bytes;
/// an image that does not open is an error naming `path` and the reason.
pub fn generate_thumbnail(path: &str, encoded: &[u8], max_width: u32, max_height: u32) -> (r: Result<
    ThumbnailData,
    SwpError,
>)
    ensures
        match opened_rgba(path@, encoded@) {
            Ok(_) => r matches Ok(t) && holds_image(t, fitted_rgb(path@, encoded@, max_width, max_height))
                && fits_within(t, max_width, max_height),
            Err(m) => r matches Err(e) && is_failure(e, "Failed to open image "@, path@, m),
        },
{
    match fit_thumbnail(path, encoded, max_width, max_height) {
        Ok(t) => Ok(t),
        Err(e) => Err(failure("Failed to open image ", path, e.as_str())),
    }
}

/// A cached thumbnail read back: the image that the cache file at `path`
/// (holding `encoded`) opens to, as RGBA bytes; one that does not open is
/// an error naming `path` and the reason.
pub fn load_thumbnail(path: &str, encoded: &[u8]) -> (r: Result<ThumbnailData, SwpError>)
    ensures
        match opened_rgba(path@, encoded@) {
            Ok(img) => r matches Ok(t) && holds_image(t, img) && t.pixels@.len() == 4 * t.width * t.height,
            Err(m) => r matches Err(e) && is_failure(e, "Failed to load thumbnail "@, path@, m),
        },
{
    match open_rgba(path, encoded) {
        Ok(t) => Ok(t),
        Err(e) => Err(failure("Failed to load thumbnail ", path, e.as_str())),
    }
}

/// The RGBA bytes shown for pixels `p` of RGB bytes: each pixel's three
/// bytes followed by an opaque alpha.
pub open spec fn rgb_to_rgba(p: Seq<u8>) -> Seq<u8> {
    Seq::new(((p.len() / 3) * 4) as nat, |i: int| if i % 4 == 3 { 255u8 } else { p[(i / 4) * 3 + i % 4] })
}

/// The RGBA bytes with which a thumbnail is drawn: RGB thumbnails (three
/// bytes a pixel) get an opaque alpha; RGBA ones are shown as they are.
pub fn display_pixels(t: &ThumbnailData) -> (r: Vec<u8>)
    ensures
        t.pixels@.len() == 3 * t.width * t.height ==> r@ == rgb_to_rgba(t.pixels@),
        t.pixels@.len() != 3 * t.width * t.height ==> r@ == t.pixels@,
{
    let n = t.pixels.len();
    let w = t.width as u64;
    let h = t.height as u64;
    let mut is_rgb = false;
    match w.checked_mul(h) {
        Some(px) => match px.checked_mul(3) {
            Some(bytes) => {
                assert(bytes == 3 * w * h) by (nonlinear_arith)
                    requires
                        px == w * h,
                        bytes == px * 3,
                ;
                is_rgb = bytes == n as u64;
            },
            None => {
                assert(3 * w * h > u64::MAX) by (nonlinear_arith)
                    requires
                        px == w * h,
                        px * 3 > u64::MAX,
                ;
            },
        },
        None => {
            assert(3 * w * h > u64::MAX) by (nonlinear_arith)
                requires
                    w * h > u64::MAX,
            ;
        },
    }
    assert(n <= u64::MAX);
    assert(is_rgb == (n == 3 * t.width * t.height));
    if !is_rgb {
        return t.pixels.clone();
    }
    assert(n % 3 == 0);
    let mut r: Vec<u8> = Vec::new();
    let mut k: usize = 0;
    while k < n
        invariant
            n == t.pixels@.len(),
            n % 3 == 0,
            k % 3 == 0,
            k <= n,
            r@.len() == (k / 3) * 4,
            forall|j: int| 0 <= j < r@.len() ==> #[trigger] r@[j] == (if j % 4 == 3 {
                255u8
            } else {
                t.pixels@[(j / 4) * 3 + j % 4]
            }),
        decreases n - k,
    {
        let ghost len0 = r@.len();
        r.push(t.pixels[k]);
        r.push(t.pixels[k + 1]);
        r.push(t.pixels[k + 2]);
        r.push(255u8);
        proof {
            assert(len0 == (k / 3) * 4);
            assert forall|j: int| len0 <= j < len0 + 4 implies #[trigger] r@[j] == (if j % 4 == 3 {
                255u8
            } else {
                t.pixels@[(j / 4) * 3 + j % 4]
            }) by {
                assert(j / 4 == k / 3 && j % 4 == j - len0) by (nonlinear_arith)
                    requires
                        len0 == (k / 3) * 4,
                        k % 3 == 0,
                        len0 <= j < len0 + 4,
                ;
                assert((k / 3) * 3 == k) by (nonlinear_arith)
                    requires
                        k % 3 == 0,
                ;
            }
        }
        k = k + 3;
    }
    assert(r@ =~= rgb_to_rgba(t.pixels@));
    r
}

} // verus!
