//! Resolving what the user typed into one wallpaper, or into the
//! candidates to choose from.

use vstd::prelude::*;
use crate::error::{QueryError, SwpError};
use crate::sort::{path_order, sort_paths, stable_sort_of};
use crate::wallpaper_core::wallpaper::{find_by_words, found_by_words, query_words};

verus! {

/// How an input was resolved: to one path, or to several candidates.
#[derive(Debug)]
pub enum SetInputResolution {
    Resolved(String),
    MultipleMatches { query: String, matches: Vec<String> },
}

/// The wallpapers among `images` whose names hold every word of `input`.
pub open spec fn word_matches(images: Seq<String>, input: Seq<char>) -> Seq<String> {
    if query_words(input).len() == 0 {
        Seq::empty()
    } else {
        images.filter(|p: String| found_by_words(p@, query_words(input)))
    }
}

/// Resolves `input` against the wallpapers `images` (a walk of the
/// wallpaper directory): an existing path is taken as it is; otherwise the
/// wallpapers whose names hold every word of `input` are the candidates.
/// One candidate is the answer; several come back sorted by path; none is
/// an error. `literal_exists` is whether `input` names an existing path.
pub fn resolve_set_input_in_dir(images: &Vec<String>, input: &str, literal_exists: bool) -> (r: Result<
    SetInputResolution,
    SwpError,
>)
    ensures
        literal_exists ==> (r matches Ok(SetInputResolution::Resolved(p)) && p@ == input@),
        !literal_exists && word_matches(images@, input@).len() == 0 ==> (r matches Err(
            SwpError::Query(QueryError::NoMatches { query }),
        ) && query@ == input@),
        !literal_exists && word_matches(images@, input@).len() == 1 ==> (r matches Ok(
            SetInputResolution::Resolved(p),
        ) && p == word_matches(images@, input@)[0]),
        !literal_exists && word_matches(images@, input@).len() > 1 ==> (r matches Ok(
            SetInputResolution::MultipleMatches { query, matches },
        ) && query@ == input@ && stable_sort_of(matches@, word_matches(images@, input@), path_order())),
{
    if literal_exists {
        return Ok(SetInputResolution::Resolved(String::from_str(input)));
    }
    let mut matches = find_by_words(images, input);
    assert(matches@ == word_matches(images@, input@));
    if matches.len() == 0 {
        Err(SwpError::Query(QueryError::NoMatches { query: String::from_str(input) }))
    } else if matches.len() == 1 {
        Ok(SetInputResolution::Resolved(matches.remove(0)))
    } else {
        let sorted = sort_paths(matches);
        Ok(SetInputResolution::MultipleMatches { query: String::from_str(input), matches: sorted })
    }
}

} // verus!
