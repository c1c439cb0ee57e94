//! Interactive choices of the command line: the entries offered and what
//! a choice stands for. The prompts themselves are shown by the caller.

use vstd::prelude::*;
use crate::error::{QueryError, SelectionError, SwpError};
use crate::paths::{file_name, file_name_spec};
use crate::sort::{chars_le, stable_sort, stable_sort_of, string_le, string_le_exec};
use crate::text::{chars_of, decimal, push_decimal, string_of};
use crate::wallpaper_core::lists::ListItem;
use crate::wallpaper_core::query::SetInputResolution;

verus! {

/// The paths among `images` that have a file name.
pub open spec fn named_paths(images: Seq<String>) -> Seq<String> {
    images.filter(|p: String| file_name_spec(p@) is Some)
}

/// Entries ordered by their names.
pub open spec fn entry_order() -> spec_fn((String, String), (String, String)) -> bool {
    |a: (String, String), b: (String, String)| chars_le(a.0@, b.0@)
}

/// Whether `u` pairs each of `paths` with its file name, in order.
pub open spec fn entries_of(u: Seq<(String, String)>, paths: Seq<String>) -> bool {
    &&& u.len() == paths.len()
    &&& forall|i: int| 0 <= i < u.len() ==> (#[trigger] u[i]).1 == paths[i] && file_name_spec(paths[i]@) == Some(
        u[i].0@,
    )
}

fn entry_le(a: &(String, String), b: &(String, String)) -> (r: bool)
    ensures
        r == entry_order()(*a, *b),
{
    string_le_exec(&a.0, &b.0)
}

/// The picker entries for `images`: each path that has a file name, paired
/// with that name, sorted by name (paths of equal name keep their order).
pub fn to_sorted_entries(images: Vec<String>) -> (r: Vec<(String, String)>)
    ensures
        exists|u: Seq<(String, String)>| #[trigger] entries_of(u, named_paths(images@)) && stable_sort_of(r@, u, entry_order()),
{
    broadcast use Seq::lemma_filter_push;

    let ghost pred = |p: String| file_name_spec(p@) is Some;
    let mut entries: Vec<(String, String)> = Vec::new();
    let ghost mut kept: Seq<String> = Seq::empty();
    let mut i: usize = 0;
    assert(images@.subrange(0, 0) =~= Seq::<String>::empty());
    assert(kept =~= images@.subrange(0, 0).filter(pred)) by {
        reveal(Seq::filter);
    }
    while i < images.len()
        invariant
            i <= images.len(),
            pred == (|p: String| file_name_spec(p@) is Some),
            kept == images@.subrange(0, i as int).filter(pred),
            entries_of(entries@, kept),
        decreases images.len() - i,
    {
        let p = &images[i];
        assert(images@.subrange(0, i + 1) =~= images@.subrange(0, i as int).push(*p));
        proof {
            images@.subrange(0, i as int).lemma_filter_push(*p, pred);
        }
        match file_name(p.as_str()) {
            Some(n) => {
                let c = p.clone();
                entries.push((n, c));
                proof {
                    kept = kept.push(*p);
                }
            },
            None => {},
        }
        i = i + 1;
    }
    assert(images@.subrange(0, images@.len() as int) =~= images@);
    proof {
        crate::sort::lemma_string_le_total_preorder();
        assert forall|a: (String, String), b: (String, String)| #[trigger] entry_order()(a, b) || entry_order()(b, a) by {
            assert(string_le()(a.0, b.0) || string_le()(b.0, a.0));
        }
        assert forall|a: (String, String), b: (String, String), c: (String, String)|
            #[trigger] entry_order()(a, b) && #[trigger] entry_order()(b, c) implies entry_order()(a, c) by {
            assert(string_le()(a.0, b.0) && string_le()(b.0, c.0) ==> string_le()(a.0, c.0));
        }
    }
    let ghost u = entries@;
    let r = stable_sort(entries, entry_le, Ghost(entry_order()));
    assert(entries_of(u, named_paths(images@)));
    r
}

/// The names offered by a picker over `entries`, in order.
pub fn entry_names(entries: &Vec<(String, String)>) -> (r: Vec<String>)
    ensures
        r@.len() == entries@.len(),
        forall|i: int| 0 <= i < r@.len() ==> (#[trigger] r@[i]) == entries@[i].0,
{
    let mut r: Vec<String> = Vec::new();
    let mut i: usize = 0;
    while i < entries.len()
        invariant
            i <= entries.len(),
            r@.len() == i,
            forall|j: int| 0 <= j < i ==> (#[trigger] r@[j]) == entries@[j].0,
        decreases entries.len() - i,
    {
        r.push(entries[i].0.clone());
        i = i + 1;
    }
    r
}

/// How many rows a picker over `count` items shows: at most 14.
pub fn page_size(count: usize) -> (r: usize)
    ensures
        r == (if count < 14 { count } else { 14 }),
{
    if count < 14 {
        count
    } else {
        14
    }
}

/// The path of the first entry named `selected`; a name that no entry
/// has is an invalid selection.
pub fn pick_from_entries(entries: Vec<(String, String)>, selected: &str) -> (r: Result<String, SwpError>)
    ensures
        match r {
            Ok(p) => exists|i: int| 0 <= i < entries@.len() && entries@[i].0@ == selected@ && p == entries@[i].1
                && forall|j: int| 0 <= j < i ==> (#[trigger] entries@[j]).0@ != selected@,
            Err(e) => (e matches SwpError::Selection(SelectionError::InvalidSelection)) && forall|j: int|
                0 <= j < entries@.len() ==> (#[trigger] entries@[j]).0@ != selected@,
        },
{
    let s = chars_of(selected);
    let mut i: usize = 0;
    while i < entries.len()
        invariant
            i <= entries.len(),
            s@ == selected@,
            forall|j: int| 0 <= j < i ==> (#[trigger] entries@[j]).0@ != selected@,
        decreases entries.len() - i,
    {
        let n = chars_of(entries[i].0.as_str());
        if crate::text::chars_eq(&n, &s) {
            return Ok(entries[i].1.clone());
        }
        i = i + 1;
    }
    Err(SwpError::Selection(SelectionError::InvalidSelection))
}

/// The entries of the interactive wallpaper picker over the wallpapers
/// `images` of the directory `dir`; with none there is nothing to pick.
pub fn interactive_pick(dir: &str, images: Vec<String>) -> (r: Result<Vec<(String, String)>, SwpError>)
    ensures
        images@.len() == 0 ==> (r matches Err(SwpError::Query(QueryError::NoImagesInDir { dir: d })) && d@ == dir@),
        images@.len() > 0 ==> (r matches Ok(v) && exists|u: Seq<(String, String)>| #[trigger] entries_of(u, named_paths(images@))
            && stable_sort_of(v@, u, entry_order())),
{
    if images.len() == 0 {
        return Err(SwpError::Query(QueryError::NoImagesInDir { dir: String::from_str(dir) }));
    }
    Ok(to_sorted_entries(images))
}

/// The prompt of the picker over `count` candidates for `query`.
pub open spec fn matches_prompt(count: nat, query: Seq<char>) -> Seq<char> {
    decimal(count) + " result(s) for \""@ + query + "\" — choose:"@
}

/// The entries and the prompt of the picker over the candidates `matches`
/// for `query`.
pub fn pick_from_matches(matches: Vec<String>, query: &str) -> (r: (Vec<(String, String)>, String))
    ensures
        exists|u: Seq<(String, String)>| #[trigger] entries_of(u, named_paths(matches@)) && stable_sort_of(r.0@, u, entry_order()),
        r.1@ == matches_prompt(r.0@.len(), query@),
{
    let entries = to_sorted_entries(matches);
    let count = entries.len();
    let mut v: Vec<char> = Vec::new();
    push_decimal(&mut v, count as u64);
    let mut prompt = string_of(&v);
    prompt.append(" result(s) for \"");
    prompt.append(query);
    prompt.append("\" — choose:");
    (entries, prompt)
}

/// What resolving the input of `swp set` leaves to do.
#[derive(Debug)]
pub enum SetChoice {
    /// The wallpaper is known.
    Chosen(String),
    /// The user picks among `entries`, asked with `prompt`.
    Ask { entries: Vec<(String, String)>, prompt: String },
}

/// What a resolution of the input leaves to do: one path is the answer;
/// several candidates are offered in a picker.
pub fn resolve_set_input(resolution: SetInputResolution) -> (r: SetChoice)
    ensures
        match resolution {
            SetInputResolution::Resolved(p) => r == SetChoice::Chosen(p),
            SetInputResolution::MultipleMatches { query, matches } => (r matches SetChoice::Ask {
                entries,
                prompt,
            } && (exists|u: Seq<(String, String)>| #[trigger] entries_of(u, named_paths(matches@))
                && stable_sort_of(entries@, u, entry_order())) && prompt@ == matches_prompt(entries@.len(), query@)),
        },
{
    match resolution {
        SetInputResolution::Resolved(p) => SetChoice::Chosen(p),
        SetInputResolution::MultipleMatches { query, matches } => {
            let (entries, prompt) = pick_from_matches(matches, query.as_str());
            SetChoice::Ask { entries, prompt }
        },
    }
}

/// The file name of the relative path of a list item, if it has one.
pub open spec fn item_name(item: ListItem) -> Option<Seq<char>> {
    match item.relative_path {
        Some(p) => file_name_spec(p@),
        None => None,
    }
}

fn item_name_exec(item: &ListItem) -> (r: Option<String>)
    ensures
        crate::paths::opt_view(r) == item_name(*item),
{
    match &item.relative_path {
        Some(p) => file_name(p.as_str()),
        None => None,
    }
}

/// The names offered when picking a wallpaper of a list to remove: the
/// file names of its items that have one, in order. An empty list, or one
/// with no named item, is an error.
pub fn pick_from_list(items: &Vec<ListItem>) -> (r: Result<Vec<String>, SwpError>)
    ensures
        items@.len() == 0 ==> (r matches Err(SwpError::Selection(SelectionError::PromptFailure { message })) && message@
            == "No wallpapers in list."@),
        items@.len() > 0 && (forall|i: int| 0 <= i < items@.len() ==> item_name(#[trigger] items@[i]) is None) ==> (r matches Err(
            SwpError::Selection(SelectionError::PromptFailure { message }),
        ) && message@ == "No valid wallpapers in list."@),
        (exists|i: int| 0 <= i < items@.len() && item_name(#[trigger] items@[i]) is Some) ==> r is Ok,
        r matches Ok(names) ==> crate::text::string_views(names@) == items@.filter_map(|it: ListItem| item_name(it))
            && names@.len() > 0,
{
    if items.len() == 0 {
        return Err(SwpError::Selection(SelectionError::PromptFailure { message: String::from_str("No wallpapers in list.") }));
    }
    let mut names: Vec<String> = Vec::new();
    let ghost f = |it: ListItem| item_name(it);
    let mut i: usize = 0;
    assert(items@.subrange(0, 0).filter_map(f) =~= Seq::<Seq<char>>::empty()) by {
        reveal(Seq::filter_map);
    }
    while i < items.len()
        invariant
            i <= items.len(),
            f == (|it: ListItem| item_name(it)),
            crate::text::string_views(names@) == items@.subrange(0, i as int).filter_map(f),
            names@.len() == 0 ==> forall|j: int| 0 <= j < i ==> item_name(#[trigger] items@[j]) is None,
            names@.len() > 0 ==> exists|j: int| 0 <= j < i && item_name(#[trigger] items@[j]) is Some,
        decreases items.len() - i,
    {
        let ghost pre = items@.subrange(0, i as int);
        assert(items@.subrange(0, i + 1) =~= pre.push(items@[i as int]));
        assert(items@.subrange(0, i + 1).filter_map(f) == pre.filter_map(f) + (match f(items@[i as int]) {
            Some(b) => seq![b],
            None => Seq::<Seq<char>>::empty(),
        })) by {
            reveal(Seq::filter_map);
            assert(items@.subrange(0, i + 1).drop_last() =~= pre);
        }
        match item_name_exec(&items[i]) {
            Some(n) => {
                let ghost old_names = crate::text::string_views(names@);
                names.push(n);
                assert(crate::text::string_views(names@) =~= old_names + seq![names@[names@.len() - 1]@]);
            },
            None => {
                assert(pre.filter_map(f) + Seq::<Seq<char>>::empty() =~= pre.filter_map(f));
            },
        }
        i = i + 1;
    }
    assert(items@.subrange(0, items@.len() as int) =~= items@);
    if names.len() == 0 {
        return Err(
            SwpError::Selection(SelectionError::PromptFailure { message: String::from_str("No valid wallpapers in list.") }),
        );
    }
    Ok(names)
}

/// The id of the first item of the list whose file name is `selected`; a
/// name that no item has is an invalid selection.
pub fn list_selection(items: &Vec<ListItem>, selected: &str) -> (r: Result<u128, SwpError>)
    ensures
        match r {
            Ok(id) => exists|i: int| 0 <= i < items@.len() && item_name(items@[i]) == Some(selected@) && id == items@[i].id
                && forall|j: int| 0 <= j < i ==> item_name(#[trigger] items@[j]) != Some(selected@),
            Err(e) => (e matches SwpError::Selection(SelectionError::InvalidSelection)) && forall|j: int|
                0 <= j < items@.len() ==> item_name(#[trigger] items@[j]) != Some(selected@),
        },
{
    let s = chars_of(selected);
    let mut i: usize = 0;
    while i < items.len()
        invariant
            i <= items.len(),
            s@ == selected@,
            forall|j: int| 0 <= j < i ==> item_name(#[trigger] items@[j]) != Some(selected@),
        decreases items.len() - i,
    {
        match item_name_exec(&items[i]) {
            Some(n) => {
                let nv = chars_of(n.as_str());
                if crate::text::chars_eq(&nv, &s) {
                    return Ok(items[i].id);
                }
            },
            None => {},
        }
        i = i + 1;
    }
    Err(SwpError::Selection(SelectionError::InvalidSelection))
}

} // verus!
