//! The managed wallpaper directory: which files are wallpapers, finding
//! them by words, choosing one at random, and naming imported files.

use vstd::prelude::*;
use crate::error::SwpError;
use crate::paths::{
    extension_spec, file_name, file_name_spec, file_stem_spec, join, join_spec,
    strip_prefix_components, strip_prefix_spec, views,
};
use crate::text::{
    chars_of, contains_chars, contains_sub, decimal, eq_ignore_ascii_case,
    eq_ignore_ascii_case_spec, lemma_decimal_digits, lowercase, split_whitespace, split_whitespace_spec, string_views, to_lowercase,
};

verus! {

/// The extensions of the supported image formats.
pub open spec fn image_extensions() -> Seq<Seq<char>> {
    seq![
        seq!['j', 'p', 'g'],
        seq!['j', 'p', 'e', 'g'],
        seq!['p', 'n', 'g'],
        seq!['w', 'e', 'b', 'p'],
        seq!['b', 'm', 'p'],
        seq!['a', 'v', 'i', 'f'],
    ]
}

/// Whether `p` has one of the image extensions, in any ASCII case.
pub open spec fn is_image_spec(p: Seq<char>) -> bool {
    extension_spec(p) matches Some(e) && exists|k: int|
        0 <= k < image_extensions().len() && eq_ignore_ascii_case_spec(e, #[trigger] image_extensions()[k])
}

/// The extensions of the supported image formats, as character vectors.
pub fn image_extension_list() -> (r: Vec<Vec<char>>)
    ensures
        views(r@) == image_extensions(),
{
    let mut r: Vec<Vec<char>> = Vec::new();
    r.push(vec!['j', 'p', 'g']);
    r.push(vec!['j', 'p', 'e', 'g']);
    r.push(vec!['p', 'n', 'g']);
    r.push(vec!['w', 'e', 'b', 'p']);
    r.push(vec!['b', 'm', 'p']);
    r.push(vec!['a', 'v', 'i', 'f']);
    assert(views(r@) =~= image_extensions());
    r
}

/// Whether `path` names an image: its extension is `jpg`, `jpeg`, `png`,
/// `webp`, `bmp` or `avif`, in any ASCII case.
pub fn is_image(path: &str) -> (r: bool)
    ensures
        r == is_image_spec(path@),
{
    let e = match crate::paths::extension(path) {
        Some(e) => e,
        None => return false,
    };
    let ev = chars_of(e.as_str());
    let exts = image_extension_list();
    let mut k: usize = 0;
    while k < exts.len()
        invariant
            views(exts@) == image_extensions(),
            ev@ == e@,
            extension_spec(path@) == Some(e@),
            k <= exts.len(),
            forall|j: int| 0 <= j < k ==> !eq_ignore_ascii_case_spec(e@, #[trigger] image_extensions()[j]),
        decreases exts.len() - k,
    {
        assert(exts@[k as int]@ == image_extensions()[k as int]);
        if eq_ignore_ascii_case(&ev, &exts[k]) {
            return true;
        }
        k = k + 1;
    }
    false
}

/// The component name `thumbnails`, under which generated thumbnails live.
pub open spec fn thumbnails_name() -> Seq<char> {
    seq!['t', 'h', 'u', 'm', 'b', 'n', 'a', 'i', 'l', 's']
}

/// The name that a directory walk gives the entry `p`: its file name, or
/// the whole path where it has none.
pub open spec fn walk_name(p: Seq<char>) -> Seq<char> {
    match file_name_spec(p) {
        Some(n) => n,
        None => p,
    }
}

/// Whether the walk of `dir` lists the entry `e` as a wallpaper: `e` lies
/// under `dir`, neither `dir` nor any component of `e` below it is named
/// `thumbnails`, and `e` names an image.
pub open spec fn listed_image(dir: Seq<char>, e: Seq<char>) -> bool {
    &&& walk_name(dir) != thumbnails_name()
    &&& strip_prefix_spec(e, dir) matches Some(rest) && !rest.contains(thumbnails_name())
    &&& is_image_spec(e)
}

fn is_thumbnails(c: &Vec<char>) -> (r: bool)
    ensures
        r == (c@ == thumbnails_name()),
{
    let t = vec!['t', 'h', 'u', 'm', 'b', 'n', 'a', 'i', 'l', 's'];
    assert(t@ =~= thumbnails_name());
    crate::text::chars_eq(c, &t)
}

/// The wallpapers among the entries of a walk of `dir`: `entries` are the
/// paths that a full walk of `dir` yields (`dir` itself included), in walk
/// order; the images among them are kept, in that order, except those at
/// or under a directory named `thumbnails`.
pub fn list_images(dir: &str, entries: &Vec<String>) -> (r: Vec<String>)
    ensures
        r@ == entries@.filter(|e: String| listed_image(dir@, e@)),
{
    broadcast use Seq::lemma_filter_push;

    let ghost pred = |e: String| listed_image(dir@, e@);
    let mut r: Vec<String> = Vec::new();
    let dv = chars_of(dir);
    let root_name = match file_name(dir) {
        Some(n) => n,
        None => String::from_str(dir),
    };
    let root_hidden = is_thumbnails(&chars_of(root_name.as_str()));
    assert(root_hidden == (walk_name(dir@) == thumbnails_name()));
    assert(entries@.subrange(0, 0) =~= Seq::<String>::empty());
    assert(r@ =~= entries@.subrange(0, 0).filter(pred)) by {
        reveal(Seq::filter);
    }
    let mut i: usize = 0;
    while i < entries.len()
        invariant
            i <= entries.len(),
            dv@ == dir@,
            root_hidden == (walk_name(dir@) == thumbnails_name()),
            pred == (|e: String| listed_image(dir@, e@)),
            r@ == entries@.subrange(0, i as int).filter(pred),
        decreases entries.len() - i,
    {
        let e = &entries[i];
        let ev = chars_of(e.as_str());
        let mut keep = false;
        if !root_hidden {
            match strip_prefix_components(&ev, &dv) {
                Some(rest) => {
                    let mut hidden = false;
                    let mut k: usize = 0;
                    while k < rest.len()
                        invariant
                            k <= rest.len(),
                            hidden == exists|j: int| 0 <= j < k && #[trigger] views(rest@)[j] == thumbnails_name(),
                        decreases rest.len() - k,
                    {
                        assert(views(rest@)[k as int] == rest@[k as int]@);
                        if is_thumbnails(&rest[k]) {
                            hidden = true;
                        }
                        k = k + 1;
                    }
                    assert(hidden == views(rest@).contains(thumbnails_name()));
                    if !hidden {
                        keep = is_image(e.as_str());
                    }
                },
                None => {},
            }
        }
        assert(keep == pred(*e));
        assert(entries@.subrange(0, i + 1) =~= entries@.subrange(0, i as int).push(*e));
        proof {
            entries@.subrange(0, i as int).lemma_filter_push(*e, pred);
        }
        if keep {
            let c = e.clone();
            r.push(c);
        }
        i = i + 1;
    }
    assert(entries@.subrange(0, entries@.len() as int) =~= entries@);
    r
}

/// What reservoir sampling over `images` keeps, given the draws: each
/// image whose draw is 0 replaces the one kept so far.
pub open spec fn reservoir_spec(images: Seq<String>, draws: Seq<u64>) -> Option<String>
    decreases images.len(),
{
    if images.len() == 0 {
        None
    } else if draws.last() == 0 {
        Some(images.last())
    } else {
        reservoir_spec(images.drop_last(), draws.drop_last())
    }
}

/// Whether `draws` are draws for reservoir sampling over `n` items: the
/// `i`-th lies in `0..=i`.
pub open spec fn reservoir_draws(draws: Seq<u64>, n: nat) -> bool {
    draws.len() == n && forall|i: int| 0 <= i < n ==> #[trigger] draws[i] <= i
}

proof fn lemma_reservoir_some(images: Seq<String>, draws: Seq<u64>)
    requires
        reservoir_draws(draws, images.len()),
    ensures
        reservoir_spec(images, draws) is None <==> images.len() == 0,
        reservoir_spec(images, draws) matches Some(p) ==> images.contains(p),
    decreases images.len(),
{
    if images.len() > 0 {
        if draws.last() == 0 {
            assert(images[images.len() - 1] == images.last());
        } else {
            assert(draws.drop_last()[0] == draws[0]);
            lemma_reservoir_some(images.drop_last(), draws.drop_last());
            if let Some(p) = reservoir_spec(images.drop_last(), draws.drop_last()) {
                let k = choose|k: int| 0 <= k < images.len() - 1 && images.drop_last()[k] == p;
                assert(images[k] == p);
            }
        }
    }
}

/// The image that reservoir sampling over `images` keeps, given the draws
/// (the `i`-th in `0..=i`): the last one whose draw is 0.
pub fn reservoir_pick(images: &Vec<String>, draws: &Vec<u64>) -> (r: Option<String>)
    requires
        reservoir_draws(draws@, images@.len()),
    ensures
        r == reservoir_spec(images@, draws@),
        r is None <==> images@.len() == 0,
        r matches Some(p) ==> images@.contains(p),
{
    proof {
        lemma_reservoir_some(images@, draws@);
    }
    let mut selected: Option<String> = None;
    let mut i: usize = 0;
    while i < images.len()
        invariant
            i <= images.len(),
            draws@.len() == images@.len(),
            selected == reservoir_spec(images@.subrange(0, i as int), draws@.subrange(0, i as int)),
        decreases images.len() - i,
    {
        let ghost im = images@.subrange(0, i + 1);
        let ghost dr = draws@.subrange(0, i + 1);
        assert(im.drop_last() =~= images@.subrange(0, i as int));
        assert(dr.drop_last() =~= draws@.subrange(0, i as int));
        if draws[i] == 0 {
            selected = Some(images[i].clone());
        }
        i = i + 1;
    }
    assert(images@.subrange(0, i as int) =~= images@);
    assert(draws@.subrange(0, i as int) =~= draws@);
    selected
}

/// Draws that keep the image at `k`: 0 up to and at `k`, 1 after it.
pub open spec fn draws_keeping(n: nat, k: int) -> Seq<u64> {
    Seq::new(n, |i: int| if i > k { 1u64 } else { 0u64 })
}

proof fn lemma_draws_keeping_pick(images: Seq<String>, k: int)
    requires
        0 <= k < images.len(),
    ensures
        reservoir_spec(images, draws_keeping(images.len(), k)) == Some(images[k]),
    decreases images.len(),
{
    let n = images.len();
    let d = draws_keeping(n, k);
    if n - 1 == k {
        assert(d.last() == 0);
    } else {
        assert(d.last() == 1);
        assert(d.drop_last() =~= draws_keeping((n - 1) as nat, k));
        lemma_draws_keeping_pick(images.drop_last(), k);
    }
}

/// Every image can come out of reservoir sampling: for each position `k`
/// of a non-empty `images` there are draws, each within the range that
/// its step draws from, with which the image at `k` is the one kept.
pub proof fn lemma_every_image_can_be_picked(images: Seq<String>, k: int)
    requires
        0 <= k < images.len(),
    ensures
        exists|draws: Seq<u64>| reservoir_draws(draws, images.len()) && reservoir_spec(images, draws) == Some(
            images[k],
        ),
{
    let d = draws_keeping(images.len(), k);
    lemma_draws_keeping_pick(images, k);
    assert(reservoir_draws(d, images.len()));
}

/// A wallpaper chosen at random from `images` by reservoir sampling, or
/// `None` when there is none.
pub fn random_image(images: &Vec<String>) -> (r: Option<String>)
    requires
        images.len() < u64::MAX,
    ensures
        r is None <==> images@.len() == 0,
        r matches Some(p) ==> images@.contains(p),
        exists|draws: Seq<u64>| reservoir_draws(draws, images@.len()) && r == reservoir_spec(images@, draws),
{
    let mut draws: Vec<u64> = Vec::new();
    let mut count: u64 = 0;
    while draws.len() < images.len()
        invariant
            images.len() < u64::MAX,
            draws.len() <= images.len(),
            count == draws.len(),
            forall|i: int| 0 <= i < draws@.len() ==> #[trigger] draws@[i] <= i,
        decreases images.len() - draws.len(),
    {
        count = count + 1;
        let d = crate::rng::random_below(0, count);
        draws.push(d);
    }
    let r = reservoir_pick(images, &draws);
    assert(reservoir_draws(draws@, images@.len()));
    r
}

/// Whether the file name `filename`, in lower case, holds every one of `words`.
pub open spec fn matches_all_words_spec(filename: Seq<char>, words: Seq<Seq<char>>) -> bool {
    forall|i: int| 0 <= i < words.len() ==> contains_sub(lowercase(filename), #[trigger] words[i])
}

/// Whether `lower` holds every one of `words`.
pub fn contains_all_words(lower: &str, words: &Vec<String>) -> (r: bool)
    ensures
        r == forall|i: int| 0 <= i < words@.len() ==> contains_sub(lower@, #[trigger] string_views(words@)[i]),
{
    let lv = chars_of(lower);
    let mut i: usize = 0;
    while i < words.len()
        invariant
            lv@ == lower@,
            i <= words.len(),
            forall|j: int| 0 <= j < i ==> contains_sub(lower@, #[trigger] string_views(words@)[j]),
        decreases words.len() - i,
    {
        let wv = chars_of(words[i].as_str());
        assert(string_views(words@)[i as int] == wv@);
        if !contains_chars(&lv, &wv) {
            return false;
        }
        i = i + 1;
    }
    true
}

/// Whether `filename`, in lower case, holds every one of `words` (which
/// are expected in lower case).
pub fn matches_all_words(filename: &str, words: &Vec<String>) -> (r: bool)
    ensures
        r == matches_all_words_spec(filename@, string_views(words@)),
{
    let lower = to_lowercase(filename);
    contains_all_words(lower.as_str(), words)
}

/// The query's words in lower case.
pub open spec fn query_words(query: Seq<char>) -> Seq<Seq<char>> {
    split_whitespace_spec(query).map_values(|w: Seq<char>| lowercase(w))
}

/// Whether the path `p` is found by the lower-case `words`: its file name
/// holds every one of them, ignoring case.
pub open spec fn found_by_words(p: Seq<char>, words: Seq<Seq<char>>) -> bool {
    file_name_spec(p) matches Some(n) && matches_all_words_spec(n, words)
}

/// The words of `query` in lower case.
pub fn lower_words(query: &str) -> (r: Vec<String>)
    ensures
        string_views(r@) == query_words(query@),
{
    let raw = split_whitespace(query);
    let mut r: Vec<String> = Vec::new();
    let mut i: usize = 0;
    while i < raw.len()
        invariant
            i <= raw.len(),
            string_views(raw@) == split_whitespace_spec(query@),
            string_views(r@) == query_words(query@).subrange(0, i as int),
        decreases raw.len() - i,
    {
        let w = to_lowercase(raw[i].as_str());
        let ghost old_r = string_views(r@);
        assert(string_views(raw@)[i as int] == raw@[i as int]@);
        r.push(w);
        assert(string_views(r@) =~= old_r.push(lowercase(raw@[i as int]@)));
        assert(string_views(r@) =~= query_words(query@).subrange(0, i + 1));
        i = i + 1;
    }
    assert(query_words(query@).subrange(0, i as int) =~= query_words(query@));
    r
}

/// The wallpapers among `images` (in their order) whose file name holds
/// every word of `query`, ignoring case; none when `query` has no words.
pub fn find_by_words(images: &Vec<String>, query: &str) -> (r: Vec<String>)
    ensures
        query_words(query@).len() == 0 ==> r@.len() == 0,
        query_words(query@).len() > 0 ==> r@ == images@.filter(
            |p: String| found_by_words(p@, query_words(query@)),
        ),
{
    broadcast use Seq::lemma_filter_push;

    let words = lower_words(query);
    if words.len() == 0 {
        return Vec::new();
    }
    let ghost pred = |p: String| found_by_words(p@, query_words(query@));
    let mut r: Vec<String> = Vec::new();
    assert(images@.subrange(0, 0) =~= Seq::<String>::empty());
    assert(r@ =~= images@.subrange(0, 0).filter(pred)) by {
        reveal(Seq::filter);
    }
    let mut i: usize = 0;
    while i < images.len()
        invariant
            i <= images.len(),
            string_views(words@) == query_words(query@),
            pred == (|p: String| found_by_words(p@, query_words(query@))),
            r@ == images@.subrange(0, i as int).filter(pred),
        decreases images.len() - i,
    {
        let p = &images[i];
        let keep = match file_name(p.as_str()) {
            Some(n) => matches_all_words(n.as_str(), &words),
            None => false,
        };
        assert(keep == pred(*p));
        assert(images@.subrange(0, i + 1) =~= images@.subrange(0, i as int).push(*p));
        proof {
            images@.subrange(0, i as int).lemma_filter_push(*p, pred);
        }
        if keep {
            let c = p.clone();
            r.push(c);
        }
        i = i + 1;
    }
    assert(images@.subrange(0, images@.len() as int) =~= images@);
    r
}


/// What a word search finds: every path found is one of `images` whose
/// file name, in lower case, holds every one of `words`; and every such
/// path of `images` is found.
pub proof fn lemma_found_names_hold_every_word(images: Seq<String>, words: Seq<Seq<char>>, r: Seq<String>)
    requires
        r == images.filter(|p: String| found_by_words(p@, words)),
    ensures
        forall|j: int| 0 <= j < r.len() ==> images.contains(#[trigger] r[j]) && (file_name_spec(r[j]@) matches Some(
            n,
        ) && forall|i: int| 0 <= i < words.len() ==> contains_sub(lowercase(n), #[trigger] words[i])),
        forall|k: int|
            0 <= k < images.len() && (file_name_spec(images[k]@) matches Some(n) && forall|i: int|
                0 <= i < words.len() ==> contains_sub(lowercase(n), #[trigger] words[i])) ==> r.contains(
                #[trigger] images[k],
            ),
{
    broadcast use vstd::seq_lib::group_filter_ensures;

    let pred = |p: String| found_by_words(p@, words);
    assert forall|j: int| 0 <= j < r.len() implies images.contains(#[trigger] r[j]) && (file_name_spec(
        r[j]@,
    ) matches Some(n) && forall|i: int| 0 <= i < words.len() ==> contains_sub(lowercase(n), #[trigger] words[i])) by {
        images.lemma_filter_pred(pred, j);
        images.lemma_filter_contains_rev(pred, r[j]);
    }
    assert forall|k: int|
        0 <= k < images.len() && (file_name_spec(images[k]@) matches Some(n) && forall|i: int|
            0 <= i < words.len() ==> contains_sub(lowercase(n), #[trigger] words[i])) implies r.contains(
        #[trigger] images[k],
    ) by {
        assert(pred(images[k]));
        images.lemma_filter_contains(pred, k);
    }
}

} // verus!

verus! {

/// The directory of managed wallpapers under the home directory `home`;
/// without a home directory there is none.
pub fn wallpaper_dir(home: Option<String>) -> (r: Result<String, SwpError>)
    ensures
        match home {
            Some(h) => r matches Ok(d) && d@ == join_spec(h@, ".local/share/swp/wallpapers"@),
            None => r matches Err(SwpError::HomeEnvMissing),
        },
{
    match home {
        Some(h) => Ok(join(h.as_str(), ".local/share/swp/wallpapers")),
        None => Err(SwpError::HomeEnvMissing),
    }
}

/// The stem that imported files fall back to.
pub open spec fn fallback_stem() -> Seq<char> {
    seq!['w', 'a', 'l', 'l', 'p', 'a', 'p', 'e', 'r']
}

/// The stem of the imported file name `f`, or `wallpaper` where it has none.
pub open spec fn import_stem(f: Seq<char>) -> Seq<char> {
    match file_stem_spec(f) {
        Some(s) => if s.len() > 0 {
            s
        } else {
            fallback_stem()
        },
        None => fallback_stem(),
    }
}

/// The suffix of numbered candidates: `.` and the extension of `f`, if any.
pub open spec fn import_suffix(f: Seq<char>) -> Seq<char> {
    match extension_spec(f) {
        Some(e) => seq!['.'] + e,
        None => Seq::empty(),
    }
}

/// The `k`-th name tried for the file name `f`: `f` itself, then
/// `<stem>_<k>.<ext>` for `k = 1, 2, ...`.
pub open spec fn candidate_name(f: Seq<char>, k: nat) -> Seq<char> {
    if k == 0 {
        f
    } else {
        import_stem(f) + seq!['_'] + decimal(k) + import_suffix(f)
    }
}

/// Whether the `k`-th candidate for `f` is the first one not in `taken`.
pub open spec fn first_free(taken: Seq<Seq<char>>, f: Seq<char>, k: nat) -> bool {
    &&& !taken.contains(candidate_name(f, k))
    &&& forall|j: nat| j < k ==> taken.contains(#[trigger] candidate_name(f, j))
}

proof fn lemma_candidate_injective(f: Seq<char>, a: nat, b: nat)
    requires
        a >= 1,
        b >= 1,
        candidate_name(f, a) == candidate_name(f, b),
    ensures
        a == b,
{
    let p = import_stem(f) + seq!['_'];
    let x = candidate_name(f, a);
    let da = decimal(a);
    let db = decimal(b);
    assert(x.len() == p.len() + da.len() + import_suffix(f).len());
    assert(x.len() == p.len() + db.len() + import_suffix(f).len());
    assert(x.subrange(p.len() as int, (p.len() + da.len()) as int) =~= da);
    assert(x.subrange(p.len() as int, (p.len() + db.len()) as int) =~= db);
    lemma_decimal_digits(a);
    lemma_decimal_digits(b);
}

/// Whether `name` is one of `taken`.
pub fn name_taken(taken: &Vec<String>, name: &Vec<char>) -> (r: bool)
    ensures
        r == string_views(taken@).contains(name@),
{
    let mut i: usize = 0;
    while i < taken.len()
        invariant
            i <= taken.len(),
            forall|j: int| 0 <= j < i ==> #[trigger] string_views(taken@)[j] != name@,
        decreases taken.len() - i,
    {
        let t = chars_of(taken[i].as_str());
        assert(string_views(taken@)[i as int] == taken@[i as int]@);
        if crate::text::chars_eq(&t, name) {
            return true;
        }
        i = i + 1;
    }
    false
}

/// The path under `dir` that an imported file named `file_name` is copied
/// to: `file_name` itself if no entry of `dir` has that name, else the
/// first of `<stem>_1.<ext>`, `<stem>_2.<ext>`, ... that is free. `taken`
/// holds the names of the entries of `dir`.
pub fn next_available_path(dir: &str, file_name: &str, taken: &Vec<String>) -> (r: String)
    requires
        taken.len() < u32::MAX,
    ensures
        exists|k: nat| #![auto]
            first_free(string_views(taken@), file_name@, k) && r@ == join_spec(dir@, candidate_name(file_name@, k)),
{
    let ghost tv = string_views(taken@);
    let fv = chars_of(file_name);
    if !name_taken(taken, &fv) {
        assert(first_free(tv, file_name@, 0));
        return join(dir, file_name);
    }
    let stem = match crate::paths::file_stem(file_name) {
        Some(s) => if s.unicode_len() > 0 {
            s
        } else {
            String::from_str("wallpaper")
        },
        None => String::from_str("wallpaper"),
    };
    proof {
        reveal_strlit("wallpaper");
        assert("wallpaper"@ =~= fallback_stem());
    }
    assert(stem@ == import_stem(file_name@));
    let ext = crate::paths::extension(file_name);
    let mut prefix = chars_of(stem.as_str());
    prefix.push('_');
    let mut suffix: Vec<char> = Vec::new();
    match &ext {
        Some(e) => {
            suffix.push('.');
            let ev = chars_of(e.as_str());
            crate::text::push_chars_vec(&mut suffix, &ev);
        },
        None => {},
    }
    assert(suffix@ =~= import_suffix(file_name@));
    let mut counter: u32 = 1;
    let ghost mut tried: Set<Seq<char>> = Set::empty();
    proof {
        tv.lemma_cardinality_of_set();
    }
    loop
        invariant
            tv == string_views(taken@),
            fv@ == file_name@,
            prefix@ == import_stem(file_name@) + seq!['_'],
            suffix@ == import_suffix(file_name@),
            taken.len() < u32::MAX,
            1 <= counter,
            tv.to_set().len() <= tv.len(),
            tried.finite(),
            tried.len() == counter - 1,
            tried.subset_of(tv.to_set()),
            forall|j: nat| 1 <= j < counter ==> tried.contains(#[trigger] candidate_name(file_name@, j)),
            forall|x: Seq<char>| tried.contains(x) ==> exists|j: nat| 1 <= j < counter && x == #[trigger] candidate_name(file_name@, j),
            forall|j: nat| j < counter ==> tv.contains(#[trigger] candidate_name(file_name@, j)),
        decreases taken.len() + 2 - counter,
    {
        proof {
            vstd::set_lib::lemma_len_subset(tried, tv.to_set());
        }
        let mut name = crate::paths::copy_chars(&prefix);
        crate::text::push_decimal(&mut name, counter as u64);
        crate::text::push_chars_vec(&mut name, &suffix);
        assert(name@ =~= candidate_name(file_name@, counter as nat));
        if !name_taken(taken, &name) {
            let s = crate::text::string_of(&name);
            assert(first_free(tv, file_name@, counter as nat));
            return join(dir, s.as_str());
        }
        proof {
            let c = candidate_name(file_name@, counter as nat);
            if tried.contains(c) {
                let j = choose|j: nat| 1 <= j < counter && c == #[trigger] candidate_name(file_name@, j);
                lemma_candidate_injective(file_name@, j, counter as nat);
            }
            assert(tv.to_set().contains(c));
            tried = tried.insert(c);
            vstd::set_lib::lemma_len_subset(tried, tv.to_set());
            assert forall|x: Seq<char>| tried.contains(x) implies exists|j: nat| 1 <= j < counter + 1 && x == #[trigger] candidate_name(file_name@, j) by {
                if x != c {
                    let j = choose|j: nat| 1 <= j < counter && x == #[trigger] candidate_name(file_name@, j);
                    assert(1 <= j < counter + 1);
                } else {
                    assert(x == candidate_name(file_name@, counter as nat));
                }
            }
        }
        counter = counter + 1;
    }
}

} // verus!

verus! {

/// Whether an import of `source` is refused, and why: it must exist, be a
/// regular file and name an image. `exists` and `is_file` are what the file
/// system says of `source`.
pub fn check_import_source(source: &str, exists: bool, is_file: bool) -> (r: Result<(), SwpError>)
    ensures
        !exists ==> (r matches Err(SwpError::WallpaperSourceNotFound { path }) && path@ == source@),
        exists && !is_file ==> (r matches Err(SwpError::WallpaperSourceNotFile { path }) && path@ == source@),
        exists && is_file && !is_image_spec(source@) ==> (r matches Err(
            SwpError::UnsupportedWallpaperFormat { path },
        ) && path@ == source@),
        exists && is_file && is_image_spec(source@) ==> r is Ok,
{
    if !exists {
        return Err(SwpError::WallpaperSourceNotFound { path: String::from_str(source) });
    }
    if !is_file {
        return Err(SwpError::WallpaperSourceNotFile { path: String::from_str(source) });
    }
    if !is_image(source) {
        return Err(SwpError::UnsupportedWallpaperFormat { path: String::from_str(source) });
    }
    Ok(())
}

/// The file name that an imported `source` keeps: its own, or `wallpaper`
/// where it has none.
pub open spec fn import_name(source: Seq<char>) -> Seq<char> {
    match file_name_spec(source) {
        Some(n) => n,
        None => fallback_stem(),
    }
}

/// Where `source` is copied to in the wallpaper directory `dir`, whose
/// entries have the names `taken`: its file name, numbered if need be so
/// that no entry is overwritten.
pub fn import_destination(dir: &str, source: &str, taken: &Vec<String>) -> (r: String)
    requires
        taken.len() < u32::MAX,
    ensures
        exists|k: nat| #![auto]
            first_free(string_views(taken@), import_name(source@), k) && r@ == join_spec(
                dir@,
                candidate_name(import_name(source@), k),
            ),
{
    let name = match file_name(source) {
        Some(n) => n,
        None => String::from_str("wallpaper"),
    };
    proof {
        reveal_strlit("wallpaper");
        assert("wallpaper"@ =~= fallback_stem());
    }
    assert(name@ == import_name(source@));
    next_available_path(dir, name.as_str(), taken)
}

/// Whether the removal of `path` is refused, and why: it must exist and be
/// a regular file.
pub fn check_removal(path: &str, exists: bool, is_file: bool) -> (r: Result<(), SwpError>)
    ensures
        !exists ==> (r matches Err(SwpError::WallpaperSourceNotFound { path: p }) && p@ == path@),
        exists && !is_file ==> (r matches Err(SwpError::WallpaperSourceNotFile { path: p }) && p@ == path@),
        exists && is_file ==> r is Ok,
{
    if !exists {
        return Err(SwpError::WallpaperSourceNotFound { path: String::from_str(path) });
    }
    if !is_file {
        return Err(SwpError::WallpaperSourceNotFile { path: String::from_str(path) });
    }
    Ok(())
}

} // verus!
