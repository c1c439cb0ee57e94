//! Wallpaper lists: named collections of wallpaper ids, and the index that
//! gives each wallpaper (by its path relative to the wallpaper directory)
//! a stable UUID. Ids are UUIDs held as `u128` (`Uuid::as_u128`).

use vstd::prelude::*;
use crate::error::{ListError, SwpError};
use crate::paths::{join, join_components, join_components_exec, join_spec, strip_prefix_components, strip_prefix_spec};
use crate::text::{chars_of, concat2, string_of, trim_chars, trim_end_spec, trim_spec, trim_start_spec};

verus! {

/// A lookup table from strings to strings, held as the pairs in the order
/// they were written; a later pair for a key overrides an earlier one.
#[derive(Debug)]
pub struct StringTable {
    pub entries: Vec<(String, String)>,
}

/// The map that a sequence of pairs defines, later pairs winning.
pub open spec fn table_map(e: Seq<(String, String)>) -> Map<Seq<char>, Seq<char>>
    decreases e.len(),
{
    if e.len() == 0 {
        Map::empty()
    } else {
        table_map(e.drop_last()).insert(e.last().0@, e.last().1@)
    }
}

impl View for StringTable {
    type V = Map<Seq<char>, Seq<char>>;

    open spec fn view(&self) -> Map<Seq<char>, Seq<char>> {
        table_map(self.entries@)
    }
}

impl StringTable {
    /// An empty table.
    pub fn new() -> (r: StringTable)
        ensures
            r@ == Map::<Seq<char>, Seq<char>>::empty(),
    {
        StringTable { entries: Vec::new() }
    }

    /// The value stored for `key`.
    pub fn get(&self, key: &str) -> (r: Option<String>)
        ensures
            match r {
                Some(v) => self@.contains_key(key@) && v@ == self@[key@],
                None => !self@.contains_key(key@),
            },
    {
        let kv = chars_of(key);
        let mut j: usize = self.entries.len();
        assert(self.entries@.subrange(0, j as int) =~= self.entries@);
        while j > 0
            invariant
                j <= self.entries.len(),
                kv@ == key@,
                (self@.contains_key(key@) == table_map(self.entries@.subrange(0, j as int)).contains_key(key@)),
                self@.contains_key(key@) ==> self@[key@] == table_map(self.entries@.subrange(0, j as int))[key@],
            decreases j,
        {
            let ghost pre = self.entries@.subrange(0, j as int);
            assert(pre.drop_last() =~= self.entries@.subrange(0, j - 1));
            assert(pre.last() == self.entries@[j - 1]);
            let k = chars_of(self.entries[j - 1].0.as_str());
            if crate::text::chars_eq(&k, &kv) {
                return Some(self.entries[j - 1].1.clone());
            }
            j = j - 1;
        }
        None
    }

    /// Stores `value` for `key`, replacing what was stored for it.
    pub fn insert(&mut self, key: String, value: String)
        ensures
            final(self)@ == old(self)@.insert(key@, value@),
    {
        self.entries.push((key, value));
        assert(self.entries@.drop_last() =~= old(self).entries@);
    }
}

/// The wallpaper index: ids by relative path and relative paths by id,
/// both as text.
#[derive(Debug)]
pub struct WallpaperIndex {
    pub version: u32,
    pub by_id: StringTable,
    pub by_path: StringTable,
}

/// The schema version of the index and of list files.
pub open spec fn schema_version() -> u32 {
    1
}

/// The index as it is used after loading: a missing (zero) version is the
/// current schema version.
pub fn finish_loaded_index(index: WallpaperIndex) -> (r: WallpaperIndex)
    ensures
        r.version == (if index.version == 0 { schema_version() } else { index.version }),
        r.by_id@ == index.by_id@,
        r.by_path@ == index.by_path@,
{
    let mut index = index;
    if index.version == 0 {
        index.version = 1;
    }
    index
}

/// A hexadecimal digit in lower case.
pub open spec fn hex_digit(d: int) -> char {
    if d < 10 {
        (d + 48) as char
    } else {
        (d + 87) as char
    }
}

/// The hyphenated lower-case text of a UUID (`8-4-4-4-12` hex digits,
/// most significant first), as `Uuid`'s `Display` writes it.
pub open spec fn uuid_text(id: u128) -> Seq<char> {
    Seq::new(
        36,
        |i: int|
            if i == 8 || i == 13 || i == 18 || i == 23 {
                '-'
            } else {
                let j = if i < 8 {
                    i
                } else if i < 13 {
                    i - 1
                } else if i < 18 {
                    i - 2
                } else if i < 23 {
                    i - 3
                } else {
                    i - 4
                };
                hex_digit(((id >> ((124 - 4 * j) as u128)) & 15u128) as int)
            },
    )
}

/// What `uuid::Uuid::parse_str` gives for a text: the id, or the text of
/// the error.
pub uninterp spec fn uuid_parse(s: Seq<char>) -> Result<u128, Seq<char>>;

/// Whether `uuid::Uuid::parse_str` reads `s` as the id `id`.
pub open spec fn reads_back_as(s: Seq<char>, id: u128) -> bool {
    uuid_parse(s) == Ok::<u128, Seq<char>>(id)
}

/// `uuid::Uuid::parse_str`, with the id as `u128` and the error as its
/// displayed text; the outcome is named `uuid_parse` of the input.
#[verifier::external_body]
pub(crate) fn parse_uuid(s: &str) -> (r: Result<u128, String>)
    ensures
        match uuid_parse(s@) {
            Ok(v) => r matches Ok(x) && x == v,
            Err(m) => r matches Err(e) && e@ == m,
        },
{
    match uuid::Uuid::parse_str(s) {
        Ok(u) => Ok(u.as_u128()),
        Err(e) => Err(e.to_string()),
    }
}

/// `Uuid::to_string` (hyphenated, lower case) of the UUID `id`. The text is
/// `uuid_text(id)`, and `Uuid::parse_str` reads it back as `id`.
#[verifier::external_body]
pub(crate) fn uuid_string(id: u128) -> (r: String)
    ensures
        r@ == uuid_text(id),
        reads_back_as(r@, id),
{
    uuid::Uuid::from_u128(id).to_string()
}

/// `uuid::Uuid::new_v4`, as `u128`. The id is random; what holds of every
/// outcome is that its version nibble is 4 and its variant bits are `10`.
#[verifier::external_body]
pub(crate) fn new_wallpaper_id() -> (r: u128)
    ensures
        (r >> 76u128) & 15u128 == 4u128,
        (r >> 62u128) & 3u128 == 2u128,
{
    uuid::Uuid::new_v4().as_u128()
}

/// Whether `c` may appear in a list name: ASCII letters and digits, `-`
/// and `_`.
pub open spec fn is_list_name_char(c: char) -> bool {
    ('a' <= c && c <= 'z') || ('A' <= c && c <= 'Z') || ('0' <= c && c <= '9') || c == '-' || c == '_'
}

/// Whether the trimmed name `t` is a valid list name.
pub open spec fn valid_list_name(t: Seq<char>) -> bool {
    t.len() > 0 && forall|i: int| 0 <= i < t.len() ==> is_list_name_char(#[trigger] t[i])
}

/// The list name that `name` stands for: `name` trimmed, where that is not
/// empty and holds only ASCII letters, digits, `-` and `_`.
pub fn normalize_list_name(name: &str) -> (r: Result<String, SwpError>)
    ensures
        valid_list_name(trim_spec(name@)) ==> (r matches Ok(t) && t@ == trim_spec(name@)),
        !valid_list_name(trim_spec(name@)) ==> (r matches Err(
            SwpError::List(ListError::InvalidName { name: n }),
        ) && n@ == name@),
{
    let t = trim_chars(&chars_of(name));
    if t.len() == 0 {
        return Err(SwpError::List(ListError::InvalidName { name: String::from_str(name) }));
    }
    let mut i: usize = 0;
    while i < t.len()
        invariant
            i <= t.len(),
            t@ == trim_spec(name@),
            forall|j: int| 0 <= j < i ==> is_list_name_char(#[trigger] t@[j]),
        decreases t.len() - i,
    {
        let c = t[i];
        if !(('a' <= c && c <= 'z') || ('A' <= c && c <= 'Z') || ('0' <= c && c <= '9') || c == '-'
            || c == '_') {
            assert(!is_list_name_char(t@[i as int]));
            return Err(SwpError::List(ListError::InvalidName { name: String::from_str(name) }));
        }
        i = i + 1;
    }
    Ok(string_of(&t))
}

/// The directory of the list files under the home directory `home`.
pub fn lists_dir(home: Option<String>) -> (r: Result<String, SwpError>)
    ensures
        match home {
            Some(h) => r matches Ok(d) && d@ == join_spec(h@, ".config/swp/lists"@),
            None => r matches Err(SwpError::HomeEnvMissing),
        },
{
    match home {
        Some(h) => Ok(join(h.as_str(), ".config/swp/lists")),
        None => Err(SwpError::HomeEnvMissing),
    }
}

/// A normalized list name is its own normal form: normalizing it again
/// gives it back unchanged, so a list is found again (loaded, shown,
/// deleted) under the name it was created with.
pub proof fn lemma_normalized_name_is_fixed(name: Seq<char>)
    requires
        valid_list_name(trim_spec(name)),
    ensures
        trim_spec(trim_spec(name)) == trim_spec(name),
        valid_list_name(trim_spec(trim_spec(name))),
{
    let t = trim_spec(name);
    assert(is_list_name_char(t[0]));
    assert(is_list_name_char(t[t.len() - 1]));
    assert(trim_start_spec(t) == t);
    assert(trim_end_spec(t) == t);
}

/// The file name of the list named `name`: its normalized name and `.json`.
pub fn list_file_name(name: &str) -> (r: Result<String, SwpError>)
    ensures
        valid_list_name(trim_spec(name@)) ==> (r matches Ok(f) && f@ == trim_spec(name@) + ".json"@),
        !valid_list_name(trim_spec(name@)) ==> (r matches Err(
            SwpError::List(ListError::InvalidName { name: n }),
        ) && n@ == name@),
{
    let n = normalize_list_name(name)?;
    Ok(concat2(n.as_str(), ".json"))
}

/// The index key of `path`: its components below the wallpaper directory
/// `base`, joined by `/`.
pub open spec fn relative_key(path: Seq<char>, base: Seq<char>) -> Option<Seq<char>> {
    match strip_prefix_spec(path, base) {
        Some(rest) => Some(join_components(rest)),
        None => None,
    }
}

/// The index key of `abs_path`, a wallpaper under the directory `base`; a
/// path outside `base` is an error.
pub fn to_relative_wallpaper_path(abs_path: &str, base: &str) -> (r: Result<String, SwpError>)
    ensures
        match relative_key(abs_path@, base@) {
            Some(k) => r matches Ok(s) && s@ == k,
            None => r matches Err(SwpError::List(ListError::WallpaperOutsideBase { path, base: b }))
                && path@ == abs_path@ && b@ == base@,
        },
{
    match strip_prefix_components(&chars_of(abs_path), &chars_of(base)) {
        Some(rest) => Ok(string_of(&join_components_exec(&rest))),
        None => Err(
            SwpError::List(
                ListError::WallpaperOutsideBase {
                    path: String::from_str(abs_path),
                    base: String::from_str(base),
                },
            ),
        ),
    }
}

/// An index key leads back to its wallpaper: the absolute path that
/// `to_absolute_wallpaper_path` makes, under `base`, of the key that
/// `to_relative_wallpaper_path` gives for `abs` is the same path as `abs`
/// (component for component, as `Path`'s `==` compares paths).
pub proof fn lemma_relative_key_roundtrip(abs: Seq<char>, base: Seq<char>)
    requires
        relative_key(abs, base) is Some,
    ensures
        crate::paths::same_path(join_spec(base, relative_key(abs, base)->0), abs),
{
    crate::paths::lemma_strip_then_join(abs, base);
}

/// The absolute path of the wallpaper with index key `relative_path`.
pub fn to_absolute_wallpaper_path(base: &str, relative_path: &str) -> (r: String)
    ensures
        r@ == join_spec(base@, relative_path@),
{
    join(base, relative_path)
}

} // verus!

verus! {

/// What an index holds: its version and its two tables.
pub struct IndexModel {
    pub version: u32,
    pub by_id: Map<Seq<char>, Seq<char>>,
    pub by_path: Map<Seq<char>, Seq<char>>,
}

impl WallpaperIndex {
    /// What the index holds.
    pub open spec fn model(&self) -> IndexModel {
        IndexModel { version: self.version, by_id: self.by_id@, by_path: self.by_path@ }
    }

    /// An empty index of the current schema version.
    pub fn new() -> (r: WallpaperIndex)
        ensures
            r.model() == (IndexModel {
                version: schema_version(),
                by_id: Map::empty(),
                by_path: Map::empty(),
            }),
    {
        WallpaperIndex { version: 1, by_id: StringTable::new(), by_path: StringTable::new() }
    }
}

/// The text of the error for a stored id `m`-failing to parse under key `k`.
pub open spec fn invalid_uuid_message(k: Seq<char>, m: Seq<char>) -> Seq<char> {
    "invalid UUID in index for path '"@ + k + "': "@ + m
}

/// What looking up (and, where missing, creating) the id of `abs` under
/// the wallpaper directory `base` does: `old` is the index before, `new`
/// after, `r` the outcome. A path outside `base` is an error; a known path
/// gives its stored id (an unreadable one is an error); an unknown path
/// gets a fresh id, recorded in both tables under the current version (the
/// text it is recorded as reads back as the id).
pub open spec fn get_or_create_post(
    old: IndexModel,
    new: IndexModel,
    abs: Seq<char>,
    base: Seq<char>,
    r: Result<u128, SwpError>,
) -> bool {
    match relative_key(abs, base) {
        None => new == old && (r matches Err(SwpError::List(ListError::WallpaperOutsideBase { path, base: b }))
            && path@ == abs && b@ == base),
        Some(k) => if old.by_path.contains_key(k) {
            new == old && match uuid_parse(old.by_path[k]) {
                Ok(id) => r matches Ok(x) && x == id,
                Err(m) => r matches Err(SwpError::List(ListError::Index { message })) && message@
                    == invalid_uuid_message(k, m),
            }
        } else {
            r matches Ok(id) && reads_back_as(uuid_text(id), id) && new == (IndexModel {
                version: schema_version(),
                by_path: old.by_path.insert(k, uuid_text(id)),
                by_id: old.by_id.insert(uuid_text(id), k),
            })
        },
    }
}

/// The id stored in the index under `key`, given what reading its text as
/// a UUID gave: the id, or the index error naming the key and the reason.
pub fn stored_id(key: &str, parsed: Result<u128, String>) -> (r: Result<u128, SwpError>)
    ensures
        match parsed {
            Ok(id) => r matches Ok(x) && x == id,
            Err(m) => r matches Err(SwpError::List(ListError::Index { message })) && message@ == invalid_uuid_message(
                key@,
                m@,
            ),
        },
{
    match parsed {
        Ok(id) => Ok(id),
        Err(e) => {
            let mut message = concat2("invalid UUID in index for path '", key);
            message.append("': ");
            message.append(e.as_str());
            Err(SwpError::List(ListError::Index { message }))
        },
    }
}

/// The id of the wallpaper `abs_path` (under `base`) in `index`, given a
/// fresh random id and recorded where it has none yet.
pub fn get_or_create_uuid_with_index(abs_path: &str, base: &str, index: &mut WallpaperIndex) -> (r: Result<
    u128,
    SwpError,
>)
    ensures
        get_or_create_post(old(index).model(), final(index).model(), abs_path@, base@, r),
{
    let key = to_relative_wallpaper_path(abs_path, base)?;
    match index.by_path.get(key.as_str()) {
        Some(id_str) => stored_id(key.as_str(), parse_uuid(id_str.as_str())),
        None => {
            let id = new_wallpaper_id();
            let id_str = uuid_string(id);
            let id_str2 = uuid_string(id);
            let key2 = String::from_str(key.as_str());
            index.by_path.insert(key, id_str);
            index.by_id.insert(id_str2, key2);
            index.version = 1;
            Ok(id)
        },
    }
}

/// The index key recorded for the id `id`.
pub open spec fn resolved_key(index: IndexModel, id: u128) -> Option<Seq<char>> {
    if index.by_id.contains_key(uuid_text(id)) {
        Some(index.by_id[uuid_text(id)])
    } else {
        None
    }
}

/// The index key (path relative to the wallpaper directory) of the id `id`.
pub fn resolve_uuid_to_relative_path_with_index(id: u128, index: &WallpaperIndex) -> (r: Option<String>)
    ensures
        crate::paths::opt_view(r) == resolved_key(index.model(), id),
{
    let key = uuid_string(id);
    index.by_id.get(key.as_str())
}

/// The absolute path of the wallpaper with id `id`, under the wallpaper
/// directory `base`.
pub fn resolve_uuid_to_path_with_index(id: u128, index: &WallpaperIndex, base: &str) -> (r: Option<String>)
    ensures
        match resolved_key(index.model(), id) {
            Some(k) => r matches Some(p) && p@ == join_spec(base@, k),
            None => r is None,
        },
{
    match resolve_uuid_to_relative_path_with_index(id, index) {
        Some(rel) => Some(to_absolute_wallpaper_path(base, rel.as_str())),
        None => None,
    }
}

/// Whether the index is consistent: every path's stored id is the text of
/// an id, and the id table leads back from that text to the path.
pub open spec fn index_consistent(index: IndexModel) -> bool {
    forall|k: Seq<char>| #[trigger] index.by_path.contains_key(k) ==> {
        &&& uuid_parse(index.by_path[k]) matches Ok(x) && index.by_path[k] == uuid_text(x)
        &&& index.by_id.contains_key(index.by_path[k])
        &&& index.by_id[index.by_path[k]] == k
    }
}

/// A wallpaper's id, once looked up or created, resolves back to the
/// wallpaper: after `get_or_create_uuid_with_index` gives `id` for `abs`,
/// the id table leads from `id` to the key of `abs`, and a consistent
/// index stays consistent. A fresh id whose text the id table already
/// holds is the one case left out.
pub proof fn lemma_created_id_resolves(
    old: IndexModel,
    new: IndexModel,
    abs: Seq<char>,
    base: Seq<char>,
    id: u128,
)
    requires
        index_consistent(old),
        get_or_create_post(old, new, abs, base, Ok(id)),
        !old.by_path.contains_key(relative_key(abs, base)->0) ==> !old.by_id.contains_key(uuid_text(id)),
    ensures
        relative_key(abs, base) is Some,
        resolved_key(new, id) == relative_key(abs, base),
        index_consistent(new),
{
    let k = relative_key(abs, base)->0;
    if old.by_path.contains_key(k) {
        assert(uuid_parse(old.by_path[k]) matches Ok(x) && x == id);
    } else {
        assert forall|k2: Seq<char>| #[trigger] new.by_path.contains_key(k2) implies {
            &&& uuid_parse(new.by_path[k2]) matches Ok(x) && new.by_path[k2] == uuid_text(x)
            &&& new.by_id.contains_key(new.by_path[k2])
            &&& new.by_id[new.by_path[k2]] == k2
        } by {
            if k2 == k {
                assert(new.by_path[k2] == uuid_text(id));
            } else {
                assert(old.by_path.contains_key(k2));
                let s = old.by_path[k2];
                assert(old.by_id.contains_key(s));
                assert(s != uuid_text(id));
            }
        }
    }
}

/// What a lookup writes, a resolution reads back: after
/// `get_or_create_uuid_with_index` gives `id` for the wallpaper `abs`
/// under `base`, `resolve_uuid_to_path_with_index` finds a path for `id`,
/// and it is the same path as `abs`. A fresh id whose text the id table
/// already holds is the one case left out.
pub proof fn lemma_created_id_resolves_to_path(
    old: IndexModel,
    new: IndexModel,
    abs: Seq<char>,
    base: Seq<char>,
    id: u128,
)
    requires
        index_consistent(old),
        get_or_create_post(old, new, abs, base, Ok(id)),
        !old.by_path.contains_key(relative_key(abs, base)->0) ==> !old.by_id.contains_key(uuid_text(id)),
    ensures
        resolved_key(new, id) matches Some(k) && crate::paths::same_path(join_spec(base, k), abs),
{
    lemma_created_id_resolves(old, new, abs, base, id);
    lemma_relative_key_roundtrip(abs, base);
}

} // verus!

verus! {

/// A named list of wallpapers, by id, with its creation and last update
/// times (seconds since the Unix epoch).
#[derive(Debug, Clone)]
pub struct WallpaperList {
    pub name: String,
    pub wallpapers: Vec<u128>,
    pub created_at: u64,
    pub updated_at: u64,
}

/// A list's name and how many wallpapers it holds.
#[derive(Debug, Clone)]
pub struct ListSummary {
    pub name: String,
    pub count: usize,
}

/// A wallpaper of a list: its id and, where the index knows it, its path
/// relative to the wallpaper directory.
#[derive(Debug, Clone)]
pub struct ListItem {
    pub id: u128,
    pub relative_path: Option<String>,
}

/// A new, empty list named `name` (normalized), created at `now`; an
/// invalid name, or a list of that name that already loads (`exists`), is
/// an error.
pub fn create_list(name: &str, exists: bool, now: u64) -> (r: Result<WallpaperList, SwpError>)
    ensures
        !valid_list_name(trim_spec(name@)) ==> (r matches Err(
            SwpError::List(ListError::InvalidName { name: n }),
        ) && n@ == name@),
        valid_list_name(trim_spec(name@)) && exists ==> (r matches Err(
            SwpError::List(ListError::AlreadyExists { name: n }),
        ) && n@ == trim_spec(name@)),
        valid_list_name(trim_spec(name@)) && !exists ==> (r matches Ok(l) && l.name@ == trim_spec(name@)
            && l.wallpapers@.len() == 0 && l.created_at == now && l.updated_at == now),
{
    let normalized = normalize_list_name(name)?;
    if exists {
        return Err(SwpError::List(ListError::AlreadyExists { name: normalized }));
    }
    Ok(WallpaperList { name: normalized, wallpapers: Vec::new(), created_at: now, updated_at: now })
}

/// Whether the list named `name` may be deleted: the name must be valid
/// and the list file must exist (`exists`).
pub fn delete_list(name: &str, exists: bool) -> (r: Result<(), SwpError>)
    ensures
        !valid_list_name(trim_spec(name@)) ==> (r matches Err(
            SwpError::List(ListError::InvalidName { name: n }),
        ) && n@ == name@),
        valid_list_name(trim_spec(name@)) && !exists ==> (r matches Err(
            SwpError::List(ListError::NotFound { name: n }),
        ) && n@ == trim_spec(name@)),
        valid_list_name(trim_spec(name@)) && exists ==> r is Ok,
{
    let normalized = normalize_list_name(name)?;
    if !exists {
        return Err(SwpError::List(ListError::NotFound { name: normalized }));
    }
    Ok(())
}

/// The summaries of all lists, sorted by name; lists of equal name keep
/// their order.
pub fn list_lists(summaries: Vec<ListSummary>) -> (r: Vec<ListSummary>)
    ensures
        crate::sort::stable_sort_of(r@, summaries@, summary_order()),
{
    proof {
        crate::sort::lemma_string_le_total_preorder();
        assert forall|a: ListSummary, b: ListSummary| #[trigger] summary_order()(a, b) || summary_order()(b, a) by {
            assert(crate::sort::string_le()(a.name, b.name) || crate::sort::string_le()(b.name, a.name));
        }
        assert forall|a: ListSummary, b: ListSummary, c: ListSummary|
            #[trigger] summary_order()(a, b) && #[trigger] summary_order()(b, c) implies summary_order()(a, c) by {
            assert(crate::sort::string_le()(a.name, b.name) && crate::sort::string_le()(b.name, c.name) ==> crate::sort::string_le()(a.name, c.name));
        }
    }
    crate::sort::stable_sort(summaries, summary_le, Ghost(summary_order()))
}

/// Summaries ordered by name.
pub open spec fn summary_order() -> spec_fn(ListSummary, ListSummary) -> bool {
    |a: ListSummary, b: ListSummary| crate::sort::chars_le(a.name@, b.name@)
}

fn summary_le(a: &ListSummary, b: &ListSummary) -> (r: bool)
    ensures
        r == summary_order()(*a, *b),
{
    crate::sort::string_le_exec(&a.name, &b.name)
}

/// The items of `list`, in order: each id with the key the index records for it.
pub fn get_list_items_from_list(list: &WallpaperList, index: &WallpaperIndex) -> (r: Vec<ListItem>)
    ensures
        r@.len() == list.wallpapers@.len(),
        forall|i: int| 0 <= i < r@.len() ==> (#[trigger] r@[i]).id == list.wallpapers@[i]
            && crate::paths::opt_view(r@[i].relative_path) == resolved_key(index.model(), list.wallpapers@[i]),
{
    let mut items: Vec<ListItem> = Vec::new();
    let mut i: usize = 0;
    while i < list.wallpapers.len()
        invariant
            i <= list.wallpapers.len(),
            items@.len() == i,
            forall|j: int| 0 <= j < i ==> (#[trigger] items@[j]).id == list.wallpapers@[j]
                && crate::paths::opt_view(items@[j].relative_path) == resolved_key(index.model(), list.wallpapers@[j]),
        decreases list.wallpapers.len() - i,
    {
        let id = list.wallpapers[i];
        let rel = resolve_uuid_to_relative_path_with_index(id, index);
        items.push(ListItem { id, relative_path: rel });
        i = i + 1;
    }
    items
}

/// Whether `v` holds `x`.
pub fn contains_id(v: &Vec<u128>, x: u128) -> (r: bool)
    ensures
        r == v@.contains(x),
{
    let mut i: usize = 0;
    while i < v.len()
        invariant
            i <= v.len(),
            forall|j: int| 0 <= j < i ==> v@[j] != x,
        decreases v.len() - i,
    {
        if v[i] == x {
            return true;
        }
        i = i + 1;
    }
    false
}

/// The ids that a removal takes out: those given, and those the index
/// records for the given paths (keys with an unreadable id are skipped).
pub open spec fn ids_to_remove(index: IndexModel, base: Seq<char>, paths: Seq<String>, ids: Seq<u128>, x: u128) -> bool {
    ||| ids.contains(x)
    ||| exists|i: int| #[trigger] path_yields(index, base, paths, i, x)
}

/// Whether the `i`-th of `paths` has the id `x` in the index.
pub open spec fn path_yields(index: IndexModel, base: Seq<char>, paths: Seq<String>, i: int, x: u128) -> bool {
    &&& 0 <= i < paths.len()
    &&& relative_key(paths[i]@, base) matches Some(k) && index.by_path.contains_key(k)
        && uuid_parse(index.by_path[k]) == Ok::<u128, Seq<char>>(x)
}

/// The first of `paths` that lies outside `base`, if any.
pub open spec fn first_outside(paths: Seq<String>, base: Seq<char>, i: int) -> bool {
    &&& 0 <= i < paths.len()
    &&& relative_key(paths[i]@, base) is None
    &&& forall|j: int| 0 <= j < i ==> relative_key(#[trigger] paths[j]@, base) is Some
}

/// Takes out of `list` the wallpapers with the given ids and those at the
/// given paths (under the wallpaper directory `base`), stamping the list
/// with `now`; gives how many entries went. A path outside `base` is an
/// error, and leaves the list as it was.
pub fn remove_wallpapers(
    list: &mut WallpaperList,
    index: &WallpaperIndex,
    base: &str,
    paths: &Vec<String>,
    ids: &Vec<u128>,
    now: u64,
) -> (r: Result<usize, SwpError>)
    ensures
        (exists|i: int| first_outside(paths@, base@, i)) ==> (r matches Err(
            SwpError::List(ListError::WallpaperOutsideBase { path, base: b }),
        ) && b@ == base@ && (exists|i: int| first_outside(paths@, base@, i) && path@ == paths@[i]@)
            && *final(list) == *old(list)),
        (forall|i: int| 0 <= i < paths@.len() ==> relative_key(#[trigger] paths@[i]@, base@) is Some) ==> (
        r matches Ok(n) && final(list).wallpapers@ == old(list).wallpapers@.filter(
            |x: u128| !ids_to_remove(index.model(), base@, paths@, ids@, x),
        ) && n == old(list).wallpapers@.len() - final(list).wallpapers@.len() && final(list).updated_at
            == now && final(list).name == old(list).name && final(list).created_at == old(list).created_at),
{
    broadcast use Seq::lemma_filter_push;

    let mut to_remove: Vec<u128> = Vec::new();
    let mut i: usize = 0;
    while i < ids.len()
        invariant
            i <= ids.len(),
            to_remove@ == ids@.subrange(0, i as int),
        decreases ids.len() - i,
    {
        to_remove.push(ids[i]);
        i = i + 1;
        assert(to_remove@ =~= ids@.subrange(0, i as int));
    }
    assert(ids@.subrange(0, ids@.len() as int) =~= ids@);
    let mut k: usize = 0;
    while k < paths.len()
        invariant
            k <= paths.len(),
            forall|j: int| 0 <= j < k ==> relative_key(#[trigger] paths@[j]@, base@) is Some,
            forall|x: u128| to_remove@.contains(x) ==> ids_to_remove(index.model(), base@, paths@, ids@, x),
            forall|x: u128| ids@.contains(x) ==> to_remove@.contains(x),
            forall|x: u128, j: int| j < k && #[trigger] path_yields(index.model(), base@, paths@, j, x) ==> to_remove@.contains(x),
        decreases paths.len() - k,
    {
        let key = match to_relative_wallpaper_path(paths[k].as_str(), base) {
            Ok(key) => key,
            Err(e) => {
                assert(first_outside(paths@, base@, k as int));
                return Err(e);
            },
        };
        match index.by_path.get(key.as_str()) {
            Some(id_str) => match parse_uuid(id_str.as_str()) {
                Ok(id) => {
                    let ghost before = to_remove@;
                    to_remove.push(id);
                    proof {
                        assert(to_remove@ == before.push(id));
                        assert(path_yields(index.model(), base@, paths@, k as int, id));
                        assert forall|x: u128| before.contains(x) implies to_remove@.contains(x) by {
                            let j = choose|j: int| 0 <= j < before.len() && before[j] == x;
                            assert(to_remove@[j] == x);
                        }
                        assert(to_remove@[before.len() as int] == id);
                        assert forall|x: u128| to_remove@.contains(x) implies ids_to_remove(index.model(), base@, paths@, ids@, x) by {
                            let j = choose|j: int| 0 <= j < to_remove@.len() && to_remove@[j] == x;
                            if j < before.len() {
                                assert(before[j] == x);
                                assert(before.contains(x));
                            } else {
                                assert(x == id);
                                assert(path_yields(index.model(), base@, paths@, k as int, x));
                            }
                        }
                    }
                },
                Err(_) => {
                    assert(forall|x: u128| !path_yields(index.model(), base@, paths@, k as int, x));
                },
            },
            None => {
                assert(forall|x: u128| !path_yields(index.model(), base@, paths@, k as int, x));
            },
        }
        k = k + 1;
    }
    let ghost keep = |x: u128| !ids_to_remove(index.model(), base@, paths@, ids@, x);
    assert forall|x: u128| to_remove@.contains(x) <==> ids_to_remove(index.model(), base@, paths@, ids@, x) by {
        if ids_to_remove(index.model(), base@, paths@, ids@, x) && !ids@.contains(x) {
            let j = choose|j: int| #[trigger] path_yields(index.model(), base@, paths@, j, x);
            assert(to_remove@.contains(x));
        }
    }
    let original_len = list.wallpapers.len();
    let mut kept: Vec<u128> = Vec::new();
    let mut t: usize = 0;
    assert(list.wallpapers@.subrange(0, 0) =~= Seq::<u128>::empty());
    assert(kept@ =~= list.wallpapers@.subrange(0, 0).filter(keep)) by {
        reveal(Seq::filter);
    }
    while t < list.wallpapers.len()
        invariant
            t <= list.wallpapers.len(),
            keep == (|x: u128| !ids_to_remove(index.model(), base@, paths@, ids@, x)),
            forall|x: u128| to_remove@.contains(x) <==> ids_to_remove(index.model(), base@, paths@, ids@, x),
            kept@ == list.wallpapers@.subrange(0, t as int).filter(keep),
        decreases list.wallpapers.len() - t,
    {
        let x = list.wallpapers[t];
        assert(list.wallpapers@.subrange(0, t + 1) =~= list.wallpapers@.subrange(0, t as int).push(x));
        proof {
            list.wallpapers@.subrange(0, t as int).lemma_filter_push(x, keep);
        }
        if !contains_id(&to_remove, x) {
            kept.push(x);
        }
        t = t + 1;
    }
    assert(list.wallpapers@.subrange(0, list.wallpapers@.len() as int) =~= list.wallpapers@);
    proof {
        list.wallpapers@.lemma_filter_len(keep);
    }
    let removed = original_len - kept.len();
    list.wallpapers = kept;
    list.updated_at = now;
    Ok(removed)
}

} // verus!

verus! {

/// Whether `models` (the index after each step) and `ids` (the id of each
/// path) describe adding the first `m` of `paths` in turn, each step a
/// lookup-or-create of the path's id, and no id among `existing`.
pub open spec fn add_steps(
    models: Seq<IndexModel>,
    ids: Seq<u128>,
    existing: Seq<u128>,
    base: Seq<char>,
    paths: Seq<String>,
    m: int,
) -> bool {
    &&& 0 <= m <= paths.len()
    &&& models.len() == m + 1
    &&& ids.len() == m
    &&& forall|i: int| 0 <= i < m ==> get_or_create_post(
        #[trigger] models[i],
        models[i + 1],
        paths[i]@,
        base,
        Ok(ids[i]),
    ) && !existing.contains(ids[i])
}

/// Whether `e` reports that the wallpaper `path` is already in the list `name`.
pub open spec fn already_in_list_error(e: SwpError, name: Seq<char>, path: Seq<char>) -> bool {
    e matches SwpError::List(ListError::AlreadyInList { name: n, wallpaper: w }) && n@ == name && w@ == path
}

/// What adding `paths` to the list named `name` (holding `old_ids`, with
/// index `old_index`, wallpaper directory `base`) leads to: the paths are
/// taken in turn, each getting its id from the index (created where
/// missing); every id is appended. The first path whose lookup fails, or
/// whose id the list already held before the call, ends it with that error.
pub open spec fn add_outcome(
    old_ids: Seq<u128>,
    old_index: IndexModel,
    new_ids: Seq<u128>,
    new_index: IndexModel,
    base: Seq<char>,
    name: Seq<char>,
    paths: Seq<String>,
    r: Result<usize, SwpError>,
) -> bool {
    exists|models: Seq<IndexModel>, ids: Seq<u128>, m: int|
        #[trigger] add_steps(models, ids, old_ids, base, paths, m) && models[0] == old_index && match r {
            Ok(n) => m == paths.len() && n == m && new_index == models[m] && new_ids == old_ids + ids,
            Err(e) => m < paths.len() && (get_or_create_post(models[m], new_index, paths[m]@, base, Err(e))
                || (exists|id: u128| #[trigger] old_ids.contains(id) && get_or_create_post(
                models[m],
                new_index,
                paths[m]@,
                base,
                Ok(id),
            ) && already_in_list_error(e, name, paths[m]@))),
        }
}

/// Adds the wallpapers at `paths` (under the wallpaper directory `base`) to
/// `list`, named `name`, giving each an id in `index`; stamps the list with
/// `now` and gives how many were added. A wallpaper that the list already
/// held is an error.
pub fn add_wallpapers_by_paths(
    list: &mut WallpaperList,
    index: &mut WallpaperIndex,
    base: &str,
    name: &str,
    paths: &Vec<String>,
    now: u64,
) -> (r: Result<usize, SwpError>)
    ensures
        add_outcome(
            old(list).wallpapers@,
            old(index).model(),
            final(list).wallpapers@,
            final(index).model(),
            base@,
            name@,
            paths@,
            r,
        ),
        r is Ok ==> final(list).updated_at == now && final(list).name == old(list).name
            && final(list).created_at == old(list).created_at,
{
    let mut existing: Vec<u128> = Vec::new();
    let mut t: usize = 0;
    while t < list.wallpapers.len()
        invariant
            t <= list.wallpapers.len(),
            existing@ == list.wallpapers@.subrange(0, t as int),
        decreases list.wallpapers.len() - t,
    {
        existing.push(list.wallpapers[t]);
        t = t + 1;
        assert(existing@ =~= list.wallpapers@.subrange(0, t as int));
    }
    assert(existing@ =~= old(list).wallpapers@);
    let ghost mut models: Seq<IndexModel> = seq![index.model()];
    let ghost mut ids: Seq<u128> = Seq::empty();
    let mut added: usize = 0;
    let mut i: usize = 0;
    assert(list.wallpapers@ =~= old(list).wallpapers@ + ids);
    while i < paths.len()
        invariant
            i <= paths.len(),
            added == i,
            existing@ == old(list).wallpapers@,
            models[0] == old(index).model(),
            models.last() == index.model(),
            add_steps(models, ids, existing@, base@, paths@, i as int),
            list.wallpapers@ == old(list).wallpapers@ + ids,
            list.name == old(list).name,
            list.created_at == old(list).created_at,
        decreases paths.len() - i,
    {
        let id = match get_or_create_uuid_with_index(paths[i].as_str(), base, index) {
            Ok(id) => id,
            Err(e) => {
                assert(add_steps(models, ids, old(list).wallpapers@, base@, paths@, i as int));
                return Err(e);
            },
        };
        if contains_id(&existing, id) {
            let err = SwpError::List(
                ListError::AlreadyInList { name: String::from_str(name), wallpaper: paths[i].clone() },
            );
            assert(add_steps(models, ids, old(list).wallpapers@, base@, paths@, i as int));
            assert(old(list).wallpapers@.contains(id));
            return Err(err);
        }
        list.wallpapers.push(id);
        added = added + 1;
        proof {
            let ghost prev = models;
            models = models.push(index.model());
            ids = ids.push(id);
            assert(list.wallpapers@ =~= old(list).wallpapers@ + ids);
            assert forall|j: int| 0 <= j < i + 1 implies get_or_create_post(
                #[trigger] models[j],
                models[j + 1],
                paths@[j]@,
                base@,
                Ok(ids[j]),
            ) && !existing@.contains(ids[j]) by {
                if j < i {
                    assert(models[j] == prev[j] && models[j + 1] == prev[j + 1] && ids[j] == ids.drop_last()[j]);
                }
            }
        }
        i = i + 1;
    }
    list.updated_at = now;
    assert(add_steps(models, ids, old(list).wallpapers@, base@, paths@, i as int));
    Ok(added)
}

} // verus!

verus! {

/// A lookup-or-create step keeps every key that the index already had,
/// with its stored id text.
proof fn lemma_step_keeps_keys(a: IndexModel, b: IndexModel, p: Seq<char>, base: Seq<char>, id: u128)
    requires
        get_or_create_post(a, b, p, base, Ok(id)),
    ensures
        forall|k: Seq<char>| #[trigger] a.by_path.contains_key(k) ==> b.by_path.contains_key(k) && b.by_path[k]
            == a.by_path[k],
{
}

/// Along the steps of an addition, the key of step `i` keeps, in every
/// later index, the id text that step `i` left it with.
proof fn lemma_steps_keep_key(
    models: Seq<IndexModel>,
    ids: Seq<u128>,
    existing: Seq<u128>,
    base: Seq<char>,
    paths: Seq<String>,
    m: int,
    i: int,
    j: int,
)
    requires
        add_steps(models, ids, existing, base, paths, m),
        0 <= i < m,
        i + 1 <= j <= m,
    ensures
        relative_key(paths[i]@, base) matches Some(k) && models[j].by_path.contains_key(k) && models[j].by_path[k]
            == models[i + 1].by_path[k],
    decreases j - (i + 1),
{
    assert(get_or_create_post(models[i], models[i + 1], paths[i]@, base, Ok(ids[i])));
    let k = relative_key(paths[i]@, base)->0;
    if j > i + 1 {
        lemma_steps_keep_key(models, ids, existing, base, paths, m, i, j - 1);
        assert(get_or_create_post(models[j - 1], models[j], paths[j - 1]@, base, Ok(ids[j - 1])));
        lemma_step_keeps_keys(models[j - 1], models[j], paths[j - 1]@, base, ids[j - 1]);
        assert(models[j - 1].by_path.contains_key(k));
    }
}

/// Wallpapers added to a list by path are taken out again by removing the
/// same paths: after a successful `add_wallpapers_by_paths`, every id it
/// appended is one that `remove_wallpapers` with those paths (against the
/// index the addition left, and with any ids given besides) takes out, and
/// none of those paths lies outside the wallpaper directory.
pub proof fn lemma_added_paths_are_removable(
    old_ids: Seq<u128>,
    old_index: IndexModel,
    new_ids: Seq<u128>,
    new_index: IndexModel,
    base: Seq<char>,
    name: Seq<char>,
    paths: Seq<String>,
    n: usize,
    extra: Seq<u128>,
)
    requires
        add_outcome(old_ids, old_index, new_ids, new_index, base, name, paths, Ok(n)),
    ensures
        new_ids.len() == old_ids.len() + n,
        new_ids.subrange(0, old_ids.len() as int) == old_ids,
        forall|i: int| 0 <= i < paths.len() ==> relative_key(#[trigger] paths[i]@, base) is Some,
        forall|j: int|
            old_ids.len() <= j < new_ids.len() ==> ids_to_remove(new_index, base, paths, extra, #[trigger] new_ids[j]),
{
    let (models, ids, m) = choose|models: Seq<IndexModel>, ids: Seq<u128>, m: int|
        #[trigger] add_steps(models, ids, old_ids, base, paths, m) && models[0] == old_index && m == paths.len()
            && n == m && new_index == models[m] && new_ids == old_ids + ids;
    assert(new_ids.subrange(0, old_ids.len() as int) =~= old_ids);
    assert forall|i: int| 0 <= i < paths.len() implies relative_key(#[trigger] paths[i]@, base) is Some by {
        assert(get_or_create_post(models[i], models[i + 1], paths[i]@, base, Ok(ids[i])));
    }
    assert forall|j: int| old_ids.len() <= j < new_ids.len() implies ids_to_remove(
        new_index,
        base,
        paths,
        extra,
        #[trigger] new_ids[j],
    ) by {
        let i = j - old_ids.len();
        assert(new_ids[j] == ids[i]);
        assert(get_or_create_post(models[i], models[i + 1], paths[i]@, base, Ok(ids[i])));
        lemma_steps_keep_key(models, ids, old_ids, base, paths, m, i, m);
        let k = relative_key(paths[i]@, base)->0;
        assert(uuid_parse(models[i + 1].by_path[k]) == Ok::<u128, Seq<char>>(ids[i]));
        assert(path_yields(new_index, base, paths, i, new_ids[j]));
    }
}

/// `s` with the items at `i` and `j` exchanged.
pub open spec fn swap_at(s: Seq<u128>, i: int, j: int) -> Seq<u128> {
    s.update(i, s[j]).update(j, s[i])
}

/// The Fisher-Yates passes over `s` from position `i` down to 1: the item
/// at each position `k` is exchanged with the one at `js[k]`.
pub open spec fn swaps_from(s: Seq<u128>, js: Seq<u64>, i: int) -> Seq<u128>
    decreases i,
{
    if i < 1 {
        s
    } else {
        swaps_from(swap_at(s, i, js[i] as int), js, i - 1)
    }
}

/// Whether `js` are Fisher-Yates draws for `n` items: the one for each
/// position `k` from 1 on lies in `0..=k`.
pub open spec fn shuffle_draws(js: Seq<u64>, n: nat) -> bool {
    js.len() == n && forall|k: int| 1 <= k < n ==> #[trigger] js[k] <= k
}

/// `ids` shuffled by the given Fisher-Yates draws: from the last position
/// down to the second, each item is exchanged with the one at its draw.
/// The result holds exactly the same ids, as many times each.
pub fn shuffle_with(ids: &Vec<u128>, js: &Vec<u64>) -> (r: Vec<u128>)
    requires
        shuffle_draws(js@, ids@.len()),
    ensures
        r@ == swaps_from(ids@, js@, ids@.len() - 1),
        r@.to_multiset() == ids@.to_multiset(),
        r@.len() == ids@.len(),
{
    broadcast use vstd::seq_lib::group_to_multiset_ensures;
    broadcast use vstd::multiset::group_multiset_axioms;

    let mut result: Vec<u128> = Vec::new();
    let mut t: usize = 0;
    while t < ids.len()
        invariant
            t <= ids.len(),
            result@ == ids@.subrange(0, t as int),
        decreases ids.len() - t,
    {
        result.push(ids[t]);
        t = t + 1;
        assert(result@ =~= ids@.subrange(0, t as int));
    }
    assert(result@ =~= ids@);
    if result.len() < 2 {
        return result;
    }
    let mut i: usize = result.len() - 1;
    while i >= 1
        invariant
            i < result.len(),
            result@.len() == ids@.len(),
            shuffle_draws(js@, ids@.len()),
            result@.to_multiset() == ids@.to_multiset(),
            swaps_from(result@, js@, i as int) == swaps_from(ids@, js@, ids@.len() - 1),
        decreases i,
    {
        let j = js[i] as usize;
        assert(js@[i as int] <= i);
        let ghost s = result@;
        let a = result[i];
        let b = result[j];
        result.set(i, b);
        result.set(j, a);
        proof {
            let s1 = s.update(i as int, b);
            assert(result@ == s1.update(j as int, a));
            assert(result@ == swap_at(s, i as int, j as int));
            assert(s1[j as int] == b);
            assert(s[i as int] == a);
            assert(s.contains(a));
            vstd::seq_lib::to_multiset_contains(s, a);
            assert(s.to_multiset().count(a) > 0);
            vstd::seq_lib::to_multiset_update(s, i as int, b);
            vstd::seq_lib::to_multiset_update(s1, j as int, a);
            assert(s1.to_multiset() == s.to_multiset().insert(b).remove(a));
            assert(result@.to_multiset() == s1.to_multiset().insert(a).remove(b));
            assert(result@.to_multiset() =~= s.to_multiset());
        }
        i = i - 1;
    }
    result
}

proof fn lemma_swaps_len(s: Seq<u128>, js: Seq<u64>, i: int)
    requires
        i < s.len(),
        js.len() == s.len(),
        forall|k: int| 1 <= k <= i ==> #[trigger] js[k] <= k,
    ensures
        swaps_from(s, js, i).len() == s.len(),
    decreases i,
{
    if i >= 1 {
        lemma_swaps_len(swap_at(s, i, js[i] as int), js, i - 1);
    }
}

/// The passes down from `i` read only the draws at positions `1..=i`.
proof fn lemma_swaps_same_draws(s: Seq<u128>, js: Seq<u64>, js2: Seq<u64>, i: int)
    requires
        forall|k: int| 1 <= k <= i ==> js[k] == js2[k],
    ensures
        swaps_from(s, js, i) == swaps_from(s, js2, i),
    decreases i,
{
    if i >= 1 {
        lemma_swaps_same_draws(swap_at(s, i, js[i] as int), js, js2, i - 1);
    }
}

/// Whether the draws `js` (each within its step's range) make the passes
/// down from `i` put the items at positions `0..=i` of `s` in the order
/// `perm`, leaving the rest.
pub open spec fn arranges(s: Seq<u128>, js: Seq<u64>, i: int, perm: Seq<int>) -> bool {
    &&& js.len() == s.len()
    &&& forall|k: int| 1 <= k < s.len() ==> #[trigger] js[k] <= k
    &&& swaps_from(s, js, i).len() == s.len()
    &&& forall|k: int| 0 <= k <= i ==> #[trigger] swaps_from(s, js, i)[k] == s[perm[k]]
    &&& forall|k: int| i < k < s.len() ==> #[trigger] swaps_from(s, js, i)[k] == s[k]
}

/// The passes down from `i` can put the items at positions `0..=i` in the
/// order `perm` (any arrangement of those positions), leaving the rest.
proof fn lemma_swaps_reach(s: Seq<u128>, i: int, perm: Seq<int>)
    requires
        0 <= i < s.len(),
        s.len() <= u64::MAX,
        perm.len() == i + 1,
        forall|k: int| 0 <= k <= i ==> 0 <= #[trigger] perm[k] <= i,
        forall|a: int, b: int| 0 <= a <= i && 0 <= b <= i && a != b ==> perm[a] != perm[b],
    ensures
        exists|js: Seq<u64>| #[trigger] arranges(s, js, i, perm),
    decreases i,
{
    let n = s.len();
    if i == 0 {
        let js = Seq::new(n, |k: int| 0u64);
        assert(perm[0] == 0);
        assert(swaps_from(s, js, 0) == s);
        assert(arranges(s, js, i, perm));
    } else {
        let m = perm[i];
        let s2 = swap_at(s, i, m);
        let perm2 = Seq::new(i as nat, |k: int| if perm[k] == i { m } else { perm[k] });
        assert forall|k: int| 0 <= k <= i - 1 implies 0 <= #[trigger] perm2[k] <= i - 1 && s2[perm2[k]] == s[perm[k]] by {
            assert(perm[k] != m);
            if perm[k] == i {
                assert(m != i);
            }
        }
        assert forall|a: int, b: int| 0 <= a <= i - 1 && 0 <= b <= i - 1 && a != b implies perm2[a] != perm2[b] by {
            assert(perm[a] != perm[b]);
            assert(perm[a] != m);
            assert(perm[b] != m);
        }
        lemma_swaps_reach(s2, i - 1, perm2);
        let js2 = choose|js: Seq<u64>| #[trigger] arranges(s2, js, i - 1, perm2);
        let js = js2.update(i, m as u64);
        assert(js[i] as int == m);
        lemma_swaps_same_draws(s2, js, js2, i - 1);
        assert(swaps_from(s, js, i) == swaps_from(swap_at(s, i, js[i] as int), js, i - 1));
        assert(swaps_from(s, js, i) == swaps_from(s2, js2, i - 1));
        let out = swaps_from(s, js, i);
        assert forall|k: int| 0 <= k <= i implies #[trigger] out[k] == s[perm[k]] by {
            if k < i {
                assert(s2[perm2[k]] == s[perm[k]]);
            } else {
                assert(out[i] == s2[i]);
            }
        }
        assert forall|k: int| i < k < n implies #[trigger] out[k] == s[k] by {
            assert(out[k] == s2[k]);
        }
        assert forall|k: int| 1 <= k < n implies #[trigger] js[k] <= k by {
            if k != i {
                assert(js[k] == js2[k]);
            }
        }
        assert(arranges(s, js, i, perm));
    }
}

/// Every order can come out of the shuffle: for any arrangement `perm` of
/// the positions of `ids`, there are Fisher-Yates draws, each within the
/// range its step draws from, that put `ids` in that order.
pub proof fn lemma_every_order_can_be_drawn(ids: Seq<u128>, perm: Seq<int>)
    requires
        ids.len() <= u64::MAX,
        perm.len() == ids.len(),
        forall|k: int| 0 <= k < ids.len() ==> 0 <= #[trigger] perm[k] < ids.len(),
        forall|a: int, b: int| 0 <= a < ids.len() && 0 <= b < ids.len() && a != b ==> perm[a] != perm[b],
    ensures
        exists|js: Seq<u64>|
            shuffle_draws(js, ids.len()) && swaps_from(ids, js, ids.len() - 1) == Seq::new(
                ids.len(),
                |k: int| ids[perm[k]],
            ),
{
    let n = ids.len();
    if n == 0 {
        let js = Seq::<u64>::empty();
        assert(swaps_from(ids, js, -1) =~= Seq::new(n, |k: int| ids[perm[k]]));
        assert(shuffle_draws(js, n));
    } else {
        lemma_swaps_reach(ids, n - 1, perm);
        let js = choose|js: Seq<u64>| #[trigger] arranges(ids, js, n - 1, perm);
        assert(swaps_from(ids, js, n - 1) =~= Seq::new(n, |k: int| ids[perm[k]]));
        assert(shuffle_draws(js, n));
        assert(shuffle_draws(js, ids.len()) && swaps_from(ids, js, ids.len() - 1) == Seq::new(
            ids.len(),
            |k: int| ids[perm[k]],
        ));
    }
}

/// The ids of `ids` in an order drawn at random (Fisher-Yates, with the
/// draws of `rand`): the result holds exactly the same ids, as many times
/// each.
pub fn fisher_yates_shuffle(ids: &Vec<u128>) -> (r: Vec<u128>)
    ensures
        r@.to_multiset() == ids@.to_multiset(),
        r@.len() == ids@.len(),
        exists|js: Seq<u64>| shuffle_draws(js, ids@.len()) && r@ == swaps_from(ids@, js, ids@.len() - 1),
{
    let n = ids.len();
    let mut js: Vec<u64> = Vec::new();
    while js.len() < n
        invariant
            js@.len() <= n,
            forall|k: int| 0 <= k < js@.len() ==> #[trigger] js@[k] == 0,
        decreases n - js.len(),
    {
        js.push(0);
    }
    if n >= 2 {
        let mut i: usize = n - 1;
        while i >= 1
            invariant
                i < n,
                js@.len() == n,
                forall|k: int| 1 <= k < n ==> #[trigger] js@[k] <= k,
            decreases i,
        {
            let j = crate::rng::random_below(0, (i as u64) + 1);
            js.set(i, j);
            i = i - 1;
        }
    }
    let r = shuffle_with(ids, &js);
    assert(shuffle_draws(js@, ids@.len()));
    r
}

/// Plays a list: hands out its wallpapers in random cycles, every wallpaper
/// once per cycle, and drops those that turn out to be gone.
#[derive(Debug)]
pub struct ListPlayer {
    list_name: String,
    all_ids: Vec<u128>,
    cycle_queue: Vec<u128>,
}

impl ListPlayer {
    /// Every id still waiting in the current cycle is one of the list's.
    #[verifier::type_invariant]
    spec fn queue_within_list(self) -> bool {
        forall|x: u128| #[trigger] self.cycle_queue@.contains(x) ==> self.all_ids@.contains(x)
    }

    /// The name of the list being played.
    pub closed spec fn name(&self) -> Seq<char> {
        self.list_name@
    }

    /// The ids of the list being played.
    pub closed spec fn ids(&self) -> Seq<u128> {
        self.all_ids@
    }

    /// The ids still to come in the current cycle; the last comes next.
    pub closed spec fn queue(&self) -> Seq<u128> {
        self.cycle_queue@
    }

    /// Whether every id still to come in the current cycle is one of the list's.
    pub open spec fn queue_in_list(&self) -> bool {
        forall|x: u128| #[trigger] self.queue().contains(x) ==> self.ids().contains(x)
    }

    /// A player for `list`, with a first cycle drawn at random; an empty
    /// list is an error.
    pub fn new(list: WallpaperList) -> (r: Result<ListPlayer, SwpError>)
        ensures
            list.wallpapers@.len() == 0 ==> (r matches Err(SwpError::List(ListError::Empty { name })) && name@
                == list.name@),
            list.wallpapers@.len() > 0 ==> (r matches Ok(p) && p.name() == list.name@ && p.ids()
                == list.wallpapers@ && p.queue().to_multiset() == list.wallpapers@.to_multiset()
                && p.queue_in_list()),
    {
        broadcast use vstd::seq_lib::group_to_multiset_ensures;

        if list.wallpapers.len() == 0 {
            return Err(SwpError::List(ListError::Empty { name: list.name }));
        }
        let cycle_queue = fisher_yates_shuffle(&list.wallpapers);
        proof {
            assert forall|x: u128| #[trigger] cycle_queue@.contains(x) implies list.wallpapers@.contains(x) by {
                assert(cycle_queue@.to_multiset().count(x) > 0);
            }
        }
        Ok(ListPlayer { list_name: list.name, all_ids: list.wallpapers, cycle_queue })
    }

    /// The name of the list being played.
    pub fn list_name(&self) -> (r: &String)
        ensures
            r@ == self.name(),
    {
        &self.list_name
    }

    /// The ids of the list being played.
    pub fn current_ids(&self) -> (r: Vec<u128>)
        ensures
            r@ == self.ids(),
    {
        let mut r: Vec<u128> = Vec::new();
        let mut t: usize = 0;
        while t < self.all_ids.len()
            invariant
                t <= self.all_ids.len(),
                r@ == self.all_ids@.subrange(0, t as int),
            decreases self.all_ids.len() - t,
        {
            r.push(self.all_ids[t]);
            t = t + 1;
            assert(r@ =~= self.all_ids@.subrange(0, t as int));
        }
        assert(r@ =~= self.all_ids@);
        r
    }

    /// The next id to try: the next of the current cycle, after drawing a
    /// new cycle where the current one is over. A list with no wallpapers
    /// left is an error.
    pub fn next_candidate(&mut self) -> (r: Result<u128, SwpError>)
        ensures
            final(self).ids() == old(self).ids(),
            final(self).name() == old(self).name(),
            old(self).ids().len() == 0 ==> (r matches Err(SwpError::List(ListError::Empty { name })) && name@
                == old(self).name() && final(self).queue() == old(self).queue()),
            old(self).ids().len() > 0 && old(self).queue().len() > 0 ==> (r matches Ok(id) && id == old(self).queue().last() && final(self).queue() == old(self).queue().drop_last()),
            old(self).ids().len() > 0 && old(self).queue().len() == 0 ==> (r matches Ok(id) && final(self).queue().push(id).to_multiset() == old(self).ids().to_multiset()),
            r matches Ok(id) ==> old(self).ids().contains(id) && candidate_step(*old(self), *final(self), id),
            final(self).queue_in_list(),
    {
        broadcast use vstd::seq_lib::group_to_multiset_ensures;

        proof {
            use_type_invariant(&*self);
        }
        if self.all_ids.len() == 0 {
            return Err(SwpError::List(ListError::Empty { name: self.list_name.clone() }));
        }
        if self.cycle_queue.len() == 0 {
            let fresh = fisher_yates_shuffle(&self.all_ids);
            proof {
                assert forall|x: u128| #[trigger] fresh@.contains(x) implies self.all_ids@.contains(x) by {
                    assert(fresh@.to_multiset().count(x) > 0);
                }
            }
            self.cycle_queue = fresh;
        }
        let ghost q = self.cycle_queue@;
        assert(q.contains(q.last()));
        let mut rest: Vec<u128> = Vec::new();
        std::mem::swap(&mut rest, &mut self.cycle_queue);
        let id = rest.pop().unwrap();
        proof {
            assert(q =~= rest@.push(id));
            assert forall|x: u128| #[trigger] rest@.contains(x) implies self.all_ids@.contains(x) by {
                assert(q.contains(x));
            }
        }
        self.cycle_queue = rest;
        Ok(id)
    }

    /// Drops `id` from the list and from the current cycle.
    pub fn discard(&mut self, id: u128)
        ensures
            final(self).ids() == old(self).ids().filter(|x: u128| x != id),
            final(self).queue() == old(self).queue().filter(|x: u128| x != id),
            final(self).name() == old(self).name(),
            final(self).queue_in_list(),
    {
        broadcast use Seq::lemma_filter_push;

        proof {
            use_type_invariant(&*self);
        }
        let ghost pred = |x: u128| x != id;
        let ids = filter_out(&self.all_ids, id);
        let queue = filter_out(&self.cycle_queue, id);
        proof {
            assert forall|x: u128| #[trigger] queue@.contains(x) implies ids@.contains(x) by {
                let k = choose|k: int| 0 <= k < queue@.len() && queue@[k] == x;
                self.cycle_queue@.lemma_filter_pred(pred, k);
                self.cycle_queue@.lemma_filter_contains_rev(pred, x);
                assert(self.all_ids@.contains(x));
                let j = choose|j: int| 0 <= j < self.all_ids@.len() && self.all_ids@[j] == x;
                self.all_ids@.lemma_filter_contains(pred, j);
            }
        }
        proof {
            assert forall|x: u128| #[trigger] queue@.contains(x) implies self.all_ids@.contains(x) by {
                self.cycle_queue@.lemma_filter_contains_rev(pred, x);
            }
        }
        self.cycle_queue = queue;
        self.all_ids = ids;
    }

    /// `list` (as loaded again) with the player's current ids, stamped `now`.
    pub fn persist_current_ids(&self, list: &mut WallpaperList, now: u64)
        ensures
            final(list).wallpapers@ == self.ids(),
            final(list).updated_at == now,
            final(list).name == old(list).name,
            final(list).created_at == old(list).created_at,
    {
        list.wallpapers = self.current_ids();
        list.updated_at = now;
    }

    /// The next wallpaper to try: its id and, where the index knows it, its
    /// path under the wallpaper directory `base`. The caller applies it if
    /// the file exists, and otherwise discards the id and asks again.
    pub fn next_wallpaper(&mut self, index: &WallpaperIndex, base: &str) -> (r: Result<(u128, Option<String>), SwpError>)
        ensures
            final(self).ids() == old(self).ids(),
            final(self).name() == old(self).name(),
            old(self).ids().len() == 0 ==> (r matches Err(SwpError::List(ListError::Empty { name })) && name@
                == old(self).name()),
            old(self).ids().len() > 0 && old(self).queue().len() > 0 ==> (r matches Ok((id, _)) && id == old(self).queue().last() && final(self).queue() == old(self).queue().drop_last()),
            old(self).ids().len() > 0 && old(self).queue().len() == 0 ==> (r matches Ok((id, _)) && final(self).queue().push(id).to_multiset() == old(self).ids().to_multiset()),
            r matches Ok((id, p)) ==> old(self).ids().contains(id) && match resolved_key(index.model(), id) {
                Some(k) => p matches Some(s) && s@ == join_spec(base@, k),
                None => p is None,
            },
    {
        let id = self.next_candidate()?;
        let path = resolve_uuid_to_path_with_index(id, index, base);
        Ok((id, path))
    }
}

/// Whether `new` is `old` after handing out `id`: the list's ids stay;
/// from a cycle under way the last id still to come is handed out; with
/// the cycle over, a new one is drawn (a reordering of the ids) and its
/// first id handed out.
pub open spec fn candidate_step(old: ListPlayer, new: ListPlayer, id: u128) -> bool {
    &&& new.ids() == old.ids()
    &&& old.queue().len() > 0 ==> id == old.queue().last() && new.queue() == old.queue().drop_last()
    &&& old.queue().len() == 0 ==> new.queue().push(id).to_multiset() == old.ids().to_multiset()
}

proof fn lemma_cycle_prefix(players: Seq<ListPlayer>, drawn: Seq<u128>, i: int)
    requires
        players.len() == drawn.len() + 1,
        drawn.len() == players[0].ids().len(),
        players[0].queue().len() == 0,
        forall|k: int| 0 <= k < drawn.len() ==> candidate_step(#[trigger] players[k], players[k + 1], drawn[k]),
        0 <= i < drawn.len(),
    ensures
        players[i + 1].ids() == players[0].ids(),
        players[i + 1].queue().len() == drawn.len() - 1 - i,
        drawn.subrange(0, i + 1).to_multiset().add(players[i + 1].queue().to_multiset()) == players[0].ids().to_multiset(),
    decreases i,
{
    broadcast use vstd::seq_lib::group_to_multiset_ensures;

    assert(candidate_step(players[i], players[i + 1], drawn[i]));
    if i == 0 {
        let q = players[1].queue();
        assert(drawn.subrange(0, 1) =~= Seq::<u128>::empty().push(drawn[0]));
        assert(q.push(drawn[0]).to_multiset() == players[0].ids().to_multiset());
        assert(Seq::<u128>::empty().to_multiset() =~= vstd::multiset::Multiset::<u128>::empty());
        assert(drawn.subrange(0, 1).to_multiset().add(q.to_multiset()) =~= q.push(drawn[0]).to_multiset());
        assert(q.push(drawn[0]).len() == q.push(drawn[0]).to_multiset().len());
        assert(players[0].ids().len() == players[0].ids().to_multiset().len());
    } else {
        lemma_cycle_prefix(players, drawn, i - 1);
        let q = players[i].queue();
        assert(q.drop_last().push(q.last()) =~= q);
        assert(drawn.subrange(0, i + 1) =~= drawn.subrange(0, i).push(drawn[i]));
        assert(drawn.subrange(0, i + 1).to_multiset().add(players[i + 1].queue().to_multiset())
            =~= drawn.subrange(0, i).to_multiset().add(q.to_multiset()));
    }
}

/// Every wallpaper of a list is played once per cycle: from a player whose
/// cycle is over, the next `n` ids handed out (`n` the number of ids of the
/// list) are the list's ids, each as many times as the list holds it.
pub proof fn lemma_cycle_plays_each_once(players: Seq<ListPlayer>, drawn: Seq<u128>)
    requires
        players.len() == drawn.len() + 1,
        drawn.len() == players[0].ids().len(),
        drawn.len() > 0,
        players[0].queue().len() == 0,
        forall|i: int| 0 <= i < drawn.len() ==> candidate_step(#[trigger] players[i], players[i + 1], drawn[i]),
    ensures
        drawn.to_multiset() == players[0].ids().to_multiset(),
{
    broadcast use vstd::seq_lib::group_to_multiset_ensures;

    let n = drawn.len() as int;
    lemma_cycle_prefix(players, drawn, n - 1);
    assert(players[n].queue() =~= Seq::<u128>::empty());
    assert(drawn.subrange(0, n) =~= drawn);
    assert(players[n].queue().to_multiset() =~= vstd::multiset::Multiset::<u128>::empty());
    assert(drawn.to_multiset().add(vstd::multiset::Multiset::<u128>::empty()) =~= drawn.to_multiset());
}

/// `v` without the occurrences of `id`.
pub fn filter_out(v: &Vec<u128>, id: u128) -> (r: Vec<u128>)
    ensures
        r@ == v@.filter(|x: u128| x != id),
{
    broadcast use Seq::lemma_filter_push;

    let ghost pred = |x: u128| x != id;
    let mut r: Vec<u128> = Vec::new();
    let mut t: usize = 0;
    assert(v@.subrange(0, 0) =~= Seq::<u128>::empty());
    assert(r@ =~= v@.subrange(0, 0).filter(pred)) by {
        reveal(Seq::filter);
    }
    while t < v.len()
        invariant
            t <= v.len(),
            pred == (|x: u128| x != id),
            r@ == v@.subrange(0, t as int).filter(pred),
        decreases v.len() - t,
    {
        let x = v[t];
        assert(v@.subrange(0, t + 1) =~= v@.subrange(0, t as int).push(x));
        proof {
            v@.subrange(0, t as int).lemma_filter_push(x, pred);
        }
        if x != id {
            r.push(x);
        }
        t = t + 1;
    }
    assert(v@.subrange(0, v@.len() as int) =~= v@);
    r
}

} // verus!
