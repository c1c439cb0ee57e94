//! The wallpaper directory as seen with Unicode case mapping: extensions
//! are compared in Unicode lower case and words are lower-cased one by one.

use vstd::prelude::*;
use crate::error::SwpError;
use crate::paths::{file_name, file_name_spec, join, join_spec, strip_prefix_components, strip_prefix_spec, views};
use crate::text::{
    chars_of, contains_chars, contains_sub, lowercase, split_whitespace, split_whitespace_spec,
    string_views, to_lowercase,
};
use crate::utils::is_image_lower_spec;
use crate::wallpaper_core::wallpaper::{thumbnails_name, walk_name};

verus! {

/// The directory of managed wallpapers under the home directory `home`.
pub fn wallpaper_dir(home: Option<String>) -> (r: Result<String, SwpError>)
    ensures
        match home {
            Some(h) => r matches Ok(d) && d@ == join_spec(h@, ".local/share/swp/wallpapers"@),
            None => r matches Err(SwpError::HomeEnvMissing),
        },
{
    match home {
        Some(h) => Ok(join(h.as_str(), ".local/share/swp/wallpapers")),
        None => Err(SwpError::HomeEnvMissing),
    }
}

/// Whether `path` names an image: its extension, in lower case, is one of
/// the image extensions.
pub fn is_image(path: &str) -> (r: bool)
    ensures
        r == is_image_lower_spec(path@),
{
    crate::utils::is_image(path)
}

/// Whether the walk of `dir` lists the entry `e` as a wallpaper.
pub open spec fn listed_image_lower(dir: Seq<char>, e: Seq<char>) -> bool {
    &&& walk_name(dir) != thumbnails_name()
    &&& strip_prefix_spec(e, dir) matches Some(rest) && !rest.contains(thumbnails_name())
    &&& is_image_lower_spec(e)
}

fn hidden_by_thumbnails(rest: &Vec<Vec<char>>) -> (r: bool)
    ensures
        r == views(rest@).contains(thumbnails_name()),
{
    let t = vec!['t', 'h', 'u', 'm', 'b', 'n', 'a', 'i', 'l', 's'];
    assert(t@ =~= thumbnails_name());
    let mut k: usize = 0;
    while k < rest.len()
        invariant
            t@ == thumbnails_name(),
            k <= rest.len(),
            forall|j: int| 0 <= j < k ==> #[trigger] views(rest@)[j] != thumbnails_name(),
        decreases rest.len() - k,
    {
        assert(views(rest@)[k as int] == rest@[k as int]@);
        if crate::text::chars_eq(&rest[k], &t) {
            return true;
        }
        k = k + 1;
    }
    false
}

/// The wallpapers among the entries of a full walk of `dir` (in walk
/// order), except those at or under a directory named `thumbnails`.
pub fn list_images(dir: &str, entries: &Vec<String>) -> (r: Vec<String>)
    ensures
        r@ == entries@.filter(|e: String| listed_image_lower(dir@, e@)),
{
    broadcast use Seq::lemma_filter_push;

    let ghost pred = |e: String| listed_image_lower(dir@, e@);
    let mut r: Vec<String> = Vec::new();
    let dv = chars_of(dir);
    let root_name = match file_name(dir) {
        Some(n) => n,
        None => String::from_str(dir),
    };
    let t = vec!['t', 'h', 'u', 'm', 'b', 'n', 'a', 'i', 'l', 's'];
    assert(t@ =~= thumbnails_name());
    let root_hidden = crate::text::chars_eq(&chars_of(root_name.as_str()), &t);
    assert(entries@.subrange(0, 0) =~= Seq::<String>::empty());
    assert(r@ =~= entries@.subrange(0, 0).filter(pred)) by {
        reveal(Seq::filter);
    }
    let mut i: usize = 0;
    while i < entries.len()
        invariant
            i <= entries.len(),
            dv@ == dir@,
            root_hidden == (walk_name(dir@) == thumbnails_name()),
            pred == (|e: String| listed_image_lower(dir@, e@)),
            r@ == entries@.subrange(0, i as int).filter(pred),
        decreases entries.len() - i,
    {
        let e = &entries[i];
        let ev = chars_of(e.as_str());
        let mut keep = false;
        if !root_hidden {
            match strip_prefix_components(&ev, &dv) {
                Some(rest) => {
                    if !hidden_by_thumbnails(&rest) {
                        keep = is_image(e.as_str());
                    }
                },
                None => {},
            }
        }
        assert(keep == pred(*e));
        assert(entries@.subrange(0, i + 1) =~= entries@.subrange(0, i as int).push(*e));
        proof {
            entries@.subrange(0, i as int).lemma_filter_push(*e, pred);
        }
        if keep {
            let c = e.clone();
            r.push(c);
        }
        i = i + 1;
    }
    assert(entries@.subrange(0, entries@.len() as int) =~= entries@);
    r
}

/// A wallpaper chosen at random from `images`, or `None` when there is none.
pub fn random_image(images: &Vec<String>) -> (r: Option<String>)
    ensures
        r is None <==> images@.len() == 0,
        r matches Some(p) ==> images@.contains(p),
{
    crate::rng::choose_one(images)
}

/// Whether `filename`, in lower case, holds every one of `words` in lower case.
pub open spec fn matches_all_words_lower(filename: Seq<char>, words: Seq<Seq<char>>) -> bool {
    forall|i: int| 0 <= i < words.len() ==> contains_sub(lowercase(filename), lowercase(#[trigger] words[i]))
}

/// Whether `filename` holds every one of `words`, ignoring case.
pub fn matches_all_words(filename: &str, words: &Vec<String>) -> (r: bool)
    ensures
        r == matches_all_words_lower(filename@, string_views(words@)),
{
    let lower = to_lowercase(filename);
    let lv = chars_of(lower.as_str());
    let mut i: usize = 0;
    while i < words.len()
        invariant
            lv@ == lowercase(filename@),
            i <= words.len(),
            forall|j: int| 0 <= j < i ==> contains_sub(lowercase(filename@), lowercase(#[trigger] string_views(words@)[j])),
        decreases words.len() - i,
    {
        let w = to_lowercase(words[i].as_str());
        let wv = chars_of(w.as_str());
        assert(string_views(words@)[i as int] == words@[i as int]@);
        if !contains_chars(&lv, &wv) {
            return false;
        }
        i = i + 1;
    }
    true
}

/// The wallpapers among `images` whose file name holds every word of
/// `query`, ignoring case; none when `query` has no words.
pub fn find_by_words(images: &Vec<String>, query: &str) -> (r: Vec<String>)
    ensures
        split_whitespace_spec(query@).len() == 0 ==> r@.len() == 0,
        split_whitespace_spec(query@).len() > 0 ==> r@ == images@.filter(
            |p: String| file_name_spec(p@) matches Some(n) && matches_all_words_lower(n, split_whitespace_spec(query@)),
        ),
{
    broadcast use Seq::lemma_filter_push;

    let words = split_whitespace(query);
    if words.len() == 0 {
        return Vec::new();
    }
    let ghost pred = |p: String| file_name_spec(p@) matches Some(n) && matches_all_words_lower(n, split_whitespace_spec(query@));
    let mut r: Vec<String> = Vec::new();
    assert(images@.subrange(0, 0) =~= Seq::<String>::empty());
    assert(r@ =~= images@.subrange(0, 0).filter(pred)) by {
        reveal(Seq::filter);
    }
    let mut i: usize = 0;
    while i < images.len()
        invariant
            i <= images.len(),
            string_views(words@) == split_whitespace_spec(query@),
            pred == (|p: String| file_name_spec(p@) matches Some(n) && matches_all_words_lower(n, split_whitespace_spec(query@))),
            r@ == images@.subrange(0, i as int).filter(pred),
        decreases images.len() - i,
    {
        let p = &images[i];
        let keep = match file_name(p.as_str()) {
            Some(n) => matches_all_words(n.as_str(), &words),
            None => false,
        };
        assert(keep == pred(*p));
        assert(images@.subrange(0, i + 1) =~= images@.subrange(0, i as int).push(*p));
        proof {
            images@.subrange(0, i as int).lemma_filter_push(*p, pred);
        }
        if keep {
            let c = p.clone();
            r.push(c);
        }
        i = i + 1;
    }
    assert(images@.subrange(0, images@.len() as int) =~= images@);
    r
}

/// What a word search finds, ignoring case: every path found is one of
/// `images` whose lower-case file name holds every word, in lower case; and
/// every such path of `images` is found.
pub proof fn lemma_found_names_hold_every_word(images: Seq<String>, words: Seq<Seq<char>>, r: Seq<String>)
    requires
        r == images.filter(
            |p: String| file_name_spec(p@) matches Some(n) && matches_all_words_lower(n, words),
        ),
    ensures
        forall|j: int| 0 <= j < r.len() ==> images.contains(#[trigger] r[j]) && (file_name_spec(r[j]@) matches Some(
            n,
        ) && forall|i: int| 0 <= i < words.len() ==> contains_sub(lowercase(n), lowercase(#[trigger] words[i]))),
        forall|k: int|
            0 <= k < images.len() && (file_name_spec(images[k]@) matches Some(n) && forall|i: int|
                0 <= i < words.len() ==> contains_sub(lowercase(n), lowercase(#[trigger] words[i]))) ==> r.contains(
                #[trigger] images[k],
            ),
{
    broadcast use vstd::seq_lib::group_filter_ensures;

    let pred = |p: String| file_name_spec(p@) matches Some(n) && matches_all_words_lower(n, words);
    assert forall|j: int| 0 <= j < r.len() implies images.contains(#[trigger] r[j]) && (file_name_spec(
        r[j]@,
    ) matches Some(n) && forall|i: int| 0 <= i < words.len() ==> contains_sub(lowercase(n), lowercase(#[trigger] words[i]))) by {
        images.lemma_filter_pred(pred, j);
        images.lemma_filter_contains_rev(pred, r[j]);
    }
    assert forall|k: int|
        0 <= k < images.len() && (file_name_spec(images[k]@) matches Some(n) && forall|i: int|
            0 <= i < words.len() ==> contains_sub(lowercase(n), lowercase(#[trigger] words[i]))) implies r.contains(
        #[trigger] images[k],
    ) by {
        assert(pred(images[k]));
        images.lemma_filter_contains(pred, k);
    }
}

} // verus!
