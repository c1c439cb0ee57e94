//! List files: what saving a list writes and what reading one back gives,
//! with the laws that tie the two together over a lists directory.

use vstd::prelude::*;
use crate::error::{ListError, SwpError};
use crate::text::{concat2, trim_spec};
use crate::wallpaper_core::lists::{
    parse_uuid, reads_back_as, uuid_parse, uuid_string, uuid_text, valid_list_name, WallpaperList,
};

verus! {

/// The schema version written into list files.
pub const LIST_SCHEMA_VERSION: u32 = 1;

/// A list as its file holds it: the ids as UUID text, with the schema
/// version.
#[derive(Debug, Clone)]
pub struct ListFile {
    pub name: String,
    pub wallpapers: Vec<String>,
    pub created_at: u64,
    pub updated_at: u64,
    pub version: u32,
}

/// Whether `f` is what saving the list `l` writes: its name and times, and
/// each id as its UUID text, which reads back as that id.
pub open spec fn written_for(f: ListFile, l: WallpaperList) -> bool {
    &&& f.name@ == l.name@
    &&& f.wallpapers@.len() == l.wallpapers@.len()
    &&& forall|i: int| 0 <= i < f.wallpapers@.len() ==> #[trigger] f.wallpapers@[i]@ == uuid_text(l.wallpapers@[i])
        && reads_back_as(f.wallpapers@[i]@, l.wallpapers@[i])
    &&& f.created_at == l.created_at
    &&& f.updated_at == l.updated_at
    &&& f.version == LIST_SCHEMA_VERSION
}

/// What the list `l` is saved as.
pub fn to_list_file(l: &WallpaperList) -> (r: ListFile)
    ensures
        written_for(r, *l),
{
    let mut ids: Vec<String> = Vec::new();
    let mut i: usize = 0;
    while i < l.wallpapers.len()
        invariant
            i <= l.wallpapers@.len(),
            ids@.len() == i,
            forall|j: int| 0 <= j < i ==> #[trigger] ids@[j]@ == uuid_text(l.wallpapers@[j]) && reads_back_as(
                ids@[j]@,
                l.wallpapers@[j],
            ),
        decreases l.wallpapers@.len() - i,
    {
        ids.push(uuid_string(l.wallpapers[i]));
        i = i + 1;
    }
    ListFile {
        name: l.name.clone(),
        wallpapers: ids,
        created_at: l.created_at,
        updated_at: l.updated_at,
        version: LIST_SCHEMA_VERSION,
    }
}

/// The ids that the texts `s` read as, in order; where one of them does
/// not read as a UUID, the error text of the first that does not.
pub open spec fn parsed_ids(s: Seq<String>) -> Result<Seq<u128>, Seq<char>>
    decreases s.len(),
{
    if s.len() == 0 {
        Ok(Seq::empty())
    } else {
        match parsed_ids(s.drop_last()) {
            Ok(p) => match uuid_parse(s.last()@) {
                Ok(id) => Ok(p.push(id)),
                Err(m) => Err(m),
            },
            Err(m) => Err(m),
        }
    }
}

/// What reading the list `name` from the file at `path` gives, where the
/// file holds `stored` (`None`: there is no such file).
pub open spec fn read_list_post(
    name: Seq<char>,
    path: Seq<char>,
    stored: Option<ListFile>,
    r: Result<WallpaperList, SwpError>,
) -> bool {
    match stored {
        None => r matches Err(SwpError::List(ListError::NotFound { name: n })) && n@ == name,
        Some(f) => match parsed_ids(f.wallpapers@) {
            Ok(ids) => r matches Ok(l) && l.name@ == f.name@ && l.wallpapers@ == ids && l.created_at
                == f.created_at && l.updated_at == f.updated_at,
            Err(m) => r matches Err(SwpError::List(ListError::Storage { message })) && message@
                == "failed to parse "@ + path + ": UUID parsing failed: "@ + m,
        },
    }
}

/// The list named `name` read from the file at `path`, which holds
/// `stored`: no file is `NotFound`; an id that does not read as a UUID is
/// a storage error naming the file.
pub fn read_list(name: &str, path: &str, stored: Option<ListFile>) -> (r: Result<WallpaperList, SwpError>)
    ensures
        read_list_post(name@, path@, stored, r),
{
    if stored.is_none() {
        return Err(SwpError::List(ListError::NotFound { name: String::from_str(name) }));
    }
    let f = stored.unwrap();
    let mut ids: Vec<u128> = Vec::new();
    let mut i: usize = 0;
    while i < f.wallpapers.len()
        invariant
            stored == Some(f),
            i <= f.wallpapers@.len(),
            parsed_ids(f.wallpapers@.subrange(0, i as int)) == Ok::<Seq<u128>, Seq<char>>(ids@),
        decreases f.wallpapers@.len() - i,
    {
        let ghost pre = f.wallpapers@.subrange(0, i as int);
        let ghost next = f.wallpapers@.subrange(0, i + 1);
        assert(next.drop_last() =~= pre);
        match parse_uuid(f.wallpapers[i].as_str()) {
            Ok(id) => {
                ids.push(id);
            },
            Err(e) => {
                proof {
                    lemma_parsed_ids_fails_on(f.wallpapers@, i as int, e@);
                }
                let mut message = concat2("failed to parse ", path);
                message.append(": UUID parsing failed: ");
                message.append(e.as_str());
                return Err(SwpError::List(ListError::Storage { message }));
            },
        }
        i = i + 1;
    }
    assert(f.wallpapers@.subrange(0, f.wallpapers@.len() as int) =~= f.wallpapers@);
    Ok(WallpaperList { name: f.name, wallpapers: ids, created_at: f.created_at, updated_at: f.updated_at })
}

/// Where the text at `i` does not read as a UUID, failing with `m`, and
/// those before it do, the whole sequence fails with `m`.
proof fn lemma_parsed_ids_fails_on(s: Seq<String>, i: int, m: Seq<char>)
    requires
        0 <= i < s.len(),
        parsed_ids(s.subrange(0, i)) is Ok,
        uuid_parse(s[i]@) == Err::<u128, Seq<char>>(m),
    ensures
        parsed_ids(s) == Err::<Seq<u128>, Seq<char>>(m),
{
    assert(s.subrange(0, i + 1).drop_last() =~= s.subrange(0, i));
    lemma_parsed_ids_err_extends(s, i + 1, m);
}

/// Once a prefix of `s` fails with `m`, so does `s`.
proof fn lemma_parsed_ids_err_extends(s: Seq<String>, k: int, m: Seq<char>)
    requires
        0 <= k <= s.len(),
        parsed_ids(s.subrange(0, k)) == Err::<Seq<u128>, Seq<char>>(m),
    ensures
        parsed_ids(s) == Err::<Seq<u128>, Seq<char>>(m),
    decreases s.len() - k,
{
    if k == s.len() {
        assert(s.subrange(0, k) =~= s);
    } else {
        assert(s.subrange(0, k + 1).drop_last() =~= s.subrange(0, k));
        lemma_parsed_ids_err_extends(s, k + 1, m);
    }
}

/// The texts written for the ids `ids` read back as those ids.
proof fn lemma_written_ids_read_back(f: ListFile, l: WallpaperList, k: int)
    requires
        written_for(f, l),
        0 <= k <= f.wallpapers@.len(),
    ensures
        parsed_ids(f.wallpapers@.subrange(0, k)) == Ok::<Seq<u128>, Seq<char>>(l.wallpapers@.subrange(0, k)),
    decreases k,
{
    if k == 0 {
        assert(f.wallpapers@.subrange(0, 0) =~= Seq::<String>::empty());
        assert(l.wallpapers@.subrange(0, 0) =~= Seq::<u128>::empty());
    } else {
        lemma_written_ids_read_back(f, l, k - 1);
        assert(f.wallpapers@.subrange(0, k).drop_last() =~= f.wallpapers@.subrange(0, k - 1));
        assert(f.wallpapers@[k - 1]@ == uuid_text(l.wallpapers@[k - 1]));
        assert(l.wallpapers@.subrange(0, k - 1).push(l.wallpapers@[k - 1]) =~= l.wallpapers@.subrange(0, k));
    }
}

/// A saved list reads back as itself: reading the file written for `l`
/// gives a list with `l`'s name, ids (in order) and times.
pub proof fn lemma_saved_list_reads_back(
    l: WallpaperList,
    f: ListFile,
    name: Seq<char>,
    path: Seq<char>,
    r: Result<WallpaperList, SwpError>,
)
    requires
        written_for(f, l),
        read_list_post(name, path, Some(f), r),
    ensures
        r matches Ok(back) && back.name@ == l.name@ && back.wallpapers@ == l.wallpapers@ && back.created_at
            == l.created_at && back.updated_at == l.updated_at,
{
    lemma_written_ids_read_back(f, l, f.wallpapers@.len() as int);
    assert(f.wallpapers@.subrange(0, f.wallpapers@.len() as int) =~= f.wallpapers@);
    assert(l.wallpapers@.subrange(0, l.wallpapers@.len() as int) =~= l.wallpapers@);
}

/// The file that a lists directory, holding `dir` by file name, has under
/// the name `file`, if any.
pub open spec fn file_at(dir: Map<Seq<char>, ListFile>, file: Seq<char>) -> Option<ListFile> {
    if dir.contains_key(file) {
        Some(dir[file])
    } else {
        None
    }
}

/// A created list reads back: once the list that creating `name` gives is
/// saved under its file name, reading `name` finds that file and gives a
/// new, empty list of the normalized name with both times at the creation.
pub proof fn lemma_created_list_reads_back(
    name: Seq<char>,
    exists: bool,
    now: u64,
    l: WallpaperList,
    f: ListFile,
    dir: Map<Seq<char>, ListFile>,
    path: Seq<char>,
    r: Result<WallpaperList, SwpError>,
)
    requires
        valid_list_name(trim_spec(name)),
        !exists,
        l.name@ == trim_spec(name),
        l.wallpapers@.len() == 0,
        l.created_at == now,
        l.updated_at == now,
        written_for(f, l),
        read_list_post(name, path, file_at(dir.insert(l.name@ + ".json"@, f), trim_spec(name) + ".json"@), r),
    ensures
        r matches Ok(back) && back.name@ == trim_spec(name) && back.wallpapers@.len() == 0 && back.created_at
            == now && back.updated_at == now,
{
    assert(dir.insert(l.name@ + ".json"@, f).contains_key(trim_spec(name) + ".json"@));
    lemma_saved_list_reads_back(l, f, name, path, r);
}

/// A deleted list is gone: once the file of the list `name` is removed,
/// reading `name` (or any name that normalizes alike) gives `NotFound`.
pub proof fn lemma_deleted_list_reads_not_found(
    name: Seq<char>,
    other: Seq<char>,
    dir: Map<Seq<char>, ListFile>,
    path: Seq<char>,
    r: Result<WallpaperList, SwpError>,
)
    requires
        valid_list_name(trim_spec(name)),
        trim_spec(other) == trim_spec(name),
        read_list_post(other, path, file_at(dir.remove(trim_spec(name) + ".json"@), trim_spec(other) + ".json"@), r),
    ensures
        r matches Err(SwpError::List(ListError::NotFound { name: n })) && n@ == other,
{
}

} // verus!
