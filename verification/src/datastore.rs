//! Storage structures for UFO data and images.
//!
//! A [`Store`] maps relative paths to file contents. Paths are compared by their
//! components, so `a/b` and `a//b/` name the same entry. A store read from a source
//! that has a place on disk records its paths and loads each entry when it is first
//! asked for; one read from any other source loads every entry when it is built.

use vstd::prelude::*;

use crate::error::{StoreEntryError, StoreError};
use crate::path::{components, is_absolute, same_path, spec_components, spec_is_absolute, spec_same_path};
use crate::text::to_string;

verus! {

/// The directory of the data store, relative to the font's root.
pub const DATA_DIR: &'static str = "data";

/// The directory of the images store, relative to the font's root.
pub const IMAGES_DIR: &'static str = "images";

/// The eight bytes that every PNG file starts with.
pub open spec fn png_signature() -> Seq<u8> {
    seq![137u8, 80u8, 78u8, 71u8, 13u8, 10u8, 26u8, 10u8]
}

/// An entry of a directory listing.
#[derive(Debug, Clone)]
pub enum DirEntry {
    /// A plain file, by name.
    File(String),
    /// A directory, by name.
    Dir(String),
}

/// `std::io::Error::from(std::io::ErrorKind::NotFound)`.
#[verifier::external_body]
pub(crate) fn not_found_error() -> std::io::Error {
    std::io::Error::from(std::io::ErrorKind::NotFound)
}

/// `std::io::Error::from(std::io::ErrorKind::Unsupported)`.
#[verifier::external_body]
fn unsupported_error() -> std::io::Error {
    std::io::Error::from(std::io::ErrorKind::Unsupported)
}

/// A source of the files of a font package. Paths are relative to the package's root.
pub trait FontSource {
    /// The contents of the file at `path`, or `None` if there is no such file.
    fn try_read(&self, path: &str) -> Option<Result<Vec<u8>, std::io::Error>>;

    /// The entries of the directory at `path`. Sources that cannot list directories keep
    /// this default, which fails with an error of kind `Unsupported`.
    fn list_dir(&self, path: &str) -> (res: Result<Vec<DirEntry>, std::io::Error>)
        default_ensures
            res is Err,
    {
        Err(unsupported_error())
    }

    /// The place of the package on disk, for sources that have one. A store built from
    /// such a source loads its entries on demand.
    fn as_path(&self) -> (res: Option<String>)
        default_ensures
            res is None,
    {
        None
    }

    /// The contents of the file at `path`; a missing file is an error of kind `NotFound`.
    fn read(&self, path: &str) -> Result<Vec<u8>, std::io::Error> {
        found_or_missing(self.try_read(path))
    }
}

/// What reading a file gives for the source's answer: that answer, or an error of
/// kind `NotFound` where there is no such file.
pub fn found_or_missing(reply: Option<Result<Vec<u8>, std::io::Error>>) -> (res: Result<Vec<u8>, std::io::Error>)
    ensures
        match reply {
            Some(r) => res == r,
            None => res is Err,
        },
{
    match reply {
        Some(r) => r,
        None => Err(not_found_error()),
    }
}

/// The state of one entry of a store.
#[derive(Debug)]
pub enum Item {
    /// Not read yet.
    NotLoaded,
    /// Read and valid.
    Loaded(Vec<u8>),
    /// Reading or validating failed.
    Error(StoreError),
}

impl Clone for Item {
    fn clone(&self) -> (res: Self)
        ensures
            match (*self, res) {
                (Item::NotLoaded, Item::NotLoaded) => true,
                (Item::Loaded(a), Item::Loaded(b)) => a@ == b@,
                (Item::Error(a), Item::Error(b)) => a == b,
                _ => false,
            },
    {
        match self {
            Item::NotLoaded => Item::NotLoaded,
            Item::Loaded(d) => Item::Loaded(d.clone()),
            Item::Error(e) => Item::Error(e.clone()),
        }
    }
}

/// The texts of a list of strings.
pub open spec fn string_views(v: Seq<String>) -> Seq<Seq<char>> {
    v.map_values(|s: String| s@)
}

/// `path` joined to `dir`: `path` alone when `dir` is empty.
pub open spec fn spec_join(dir: Seq<char>, path: Seq<char>) -> Seq<char> {
    if dir.len() == 0 {
        path
    } else {
        dir + seq!['/'] + path
    }
}

pub(crate) fn join(dir: &str, path: &str) -> (res: String)
    ensures
        res@ == spec_join(dir@, path@),
{
    if dir.unicode_len() == 0 {
        to_string(path)
    } else {
        let mut s = to_string(dir);
        s.append("/");
        proof {
            reveal_strlit("/");
        }
        s.append(path);
        s
    }
}

/// True when some key of `keys` names the same path as the first `k` components of
/// `cs`.
pub open spec fn has_key_with_components(keys: Seq<Seq<char>>, cs: Seq<Seq<char>>) -> bool {
    exists|i: int| 0 <= i < keys.len() && spec_components(#[trigger] keys[i]) == cs
}

/// The error, if any, of an entry of the data store at `path` with `keys` present: the
/// path is empty, absolute, or lies under a file of the store.
pub open spec fn data_entry_error(path: Seq<char>, keys: Seq<Seq<char>>) -> Option<StoreError> {
    if path.len() == 0 {
        Some(StoreError::EmptyPath)
    } else if spec_is_absolute(path) {
        Some(StoreError::PathIsAbsolute)
    } else if exists|k: int|
        1 <= k < spec_components(path).len() && #[trigger] has_key_with_components(
            keys,
            spec_components(path).subrange(0, k),
        ) {
        Some(StoreError::DirUnderFile)
    } else {
        None
    }
}

/// The error, if any, of an entry of the images store at `path` with contents `data`:
/// the path is empty, absolute, or in a subdirectory, or the data is not a PNG image.
pub open spec fn image_entry_error(path: Seq<char>, data: Seq<u8>) -> Option<StoreError> {
    if path.len() == 0 {
        Some(StoreError::EmptyPath)
    } else if spec_is_absolute(path) {
        Some(StoreError::PathIsAbsolute)
    } else if spec_components(path).len() >= 2 {
        Some(StoreError::Subdir)
    } else if !(data.len() >= 8 && data.subrange(0, 8) == png_signature()) {
        Some(StoreError::InvalidImage)
    } else {
        None
    }
}

/// The rules of a kind of store.
pub trait DataType: Sized {
    /// The error, if any, of an entry at `path` with contents `data`, when the store
    /// holds `keys`.
    spec fn spec_entry_error(&self, path: Seq<char>, keys: Seq<Seq<char>>, data: Seq<u8>) -> Option<StoreError>;

    /// A value of the kind.
    fn make() -> Self;

    /// The directory of the store, relative to the font's root.
    spec fn spec_dir(&self) -> Seq<char>;

    /// The directory of the store, relative to the font's root.
    fn dir(&self) -> (res: &'static str)
        ensures
            res@ == self.spec_dir();

    /// Lists the paths of the store's files in `source`, relative to the store's
    /// directory.
    fn try_list_contents<S: FontSource>(&self, source: &S) -> Result<Vec<String>, StoreEntryError>;

    /// Checks an entry at `path` with contents `data` against a store holding `keys`.
    fn validate_entry(&self, path: &str, keys: &Vec<String>, data: &Vec<u8>) -> (res: Result<(), StoreError>)
        ensures
            match self.spec_entry_error(path@, string_views(keys@), data@) {
                Some(e) => res == Err::<(), StoreError>(e),
                None => res is Ok,
            };
}

/// Implements custom behavior for the data store.
#[derive(Debug, Default, Clone)]
pub struct Data;

/// Implements custom behavior for the images store.
#[derive(Debug, Default, Clone)]
pub struct Image;

/// Lazy access to the contents of the UFO's `data` directory.
pub type DataStore = Store<Data>;

/// Lazy access to the contents of the UFO's `images` directory.
pub type ImageStore = Store<Image>;

/// Whether some key of `keys` names the same path as `cs`.
fn any_key_with_components(keys: &Vec<String>, cs: &Vec<String>) -> (res: bool)
    ensures
        res == has_key_with_components(string_views(keys@), string_views(cs@)),
{
    let ghost ks = string_views(keys@);
    let ghost target = string_views(cs@);
    let mut i: usize = 0;
    while i < keys.len()
        invariant
            0 <= i <= keys@.len(),
            ks == string_views(keys@),
            target == string_views(cs@),
            forall|j: int| 0 <= j < i ==> spec_components(#[trigger] ks[j]) != target,
        decreases keys@.len() - i,
    {
        let kc = components(keys[i].as_str());
        proof {
            assert(ks[i as int] == keys@[i as int]@);
        }
        if crate::path::same_components(&kc, cs) {
            proof {
                assert forall|m: int| 0 <= m < target.len() implies spec_components(ks[i as int])[m] == target[m] by {
                    assert(kc@[m]@ == cs@[m]@);
                    assert(kc@[m]@ == spec_components(keys@[i as int]@)[m]);
                }
                assert(spec_components(ks[i as int]) =~= target);
            }
            return true;
        }
        proof {
            if spec_components(ks[i as int]) == target {
                assert(kc@.len() == cs@.len());
                assert forall|m: int| 0 <= m < kc@.len() implies #[trigger] kc@[m]@ == cs@[m]@ by {
                    assert(target[m] == cs@[m]@);
                }
            }
        }
        i += 1;
    }
    false
}

/// The name in a directory listing's entry.
pub open spec fn entry_name(e: DirEntry) -> Seq<char> {
    match e {
        DirEntry::File(n) => n@,
        DirEntry::Dir(n) => n@,
    }
}

/// The paths, under `rel`, of the files of a listing, in its order.
pub open spec fn listed_files(rel: Seq<char>, entries: Seq<DirEntry>) -> Seq<Seq<char>>
    decreases entries.len(),
{
    if entries.len() == 0 {
        Seq::empty()
    } else {
        let init = listed_files(rel, entries.drop_last());
        match entries.last() {
            DirEntry::File(n) => init.push(spec_join(rel, n@)),
            DirEntry::Dir(_) => init,
        }
    }
}

/// The subdirectories of a listing of the directory `dir`, in its order: each by its
/// path and by its path under `rel`.
pub open spec fn listed_dirs(dir: Seq<char>, rel: Seq<char>, entries: Seq<DirEntry>) -> Seq<(Seq<char>, Seq<char>)>
    decreases entries.len(),
{
    if entries.len() == 0 {
        Seq::empty()
    } else {
        let init = listed_dirs(dir, rel, entries.drop_last());
        match entries.last() {
            DirEntry::Dir(n) => init.push((spec_join(dir, n@), spec_join(rel, n@))),
            DirEntry::File(_) => init,
        }
    }
}

/// The pairs of strings by their views.
pub open spec fn pair_views(q: Seq<(String, String)>) -> Seq<(Seq<char>, Seq<char>)> {
    q.map_values(|p: (String, String)| (p.0@, p.1@))
}

/// Takes in the listing `entries` of the directory `dir_path`, whose path under the
/// data directory is `rel_dir`: its files are added to `paths` and its subdirectories
/// to `queue`, in the listing's order.
pub fn take_listing(
    dir_path: &str,
    rel_dir: &str,
    entries: &Vec<DirEntry>,
    queue: &mut Vec<(String, String)>,
    paths: &mut Vec<String>,
)
    ensures
        string_views(final(paths)@) == string_views(old(paths)@) + listed_files(rel_dir@, entries@),
        pair_views(final(queue)@) == pair_views(old(queue)@) + listed_dirs(dir_path@, rel_dir@, entries@),
{
    let mut i: usize = 0;
    while i < entries.len()
        invariant
            0 <= i <= entries@.len(),
            string_views(paths@) == string_views(old(paths)@) + listed_files(rel_dir@, entries@.subrange(0, i as int)),
            pair_views(queue@) == pair_views(old(queue)@) + listed_dirs(dir_path@, rel_dir@, entries@.subrange(0, i as int)),
        decreases entries.len() - i,
    {
        let ghost sub = entries@.subrange(0, i + 1);
        let ghost p0 = paths@;
        let ghost q0 = queue@;
        proof {
            assert(sub.drop_last() =~= entries@.subrange(0, i as int));
            assert(sub.last() == entries@[i as int]);
        }
        match &entries[i] {
            DirEntry::Dir(name) => {
                let d = join(dir_path, name.as_str());
                let r = join(rel_dir, name.as_str());
                queue.push((d, r));
                proof {
                    assert(listed_files(rel_dir@, sub) == listed_files(rel_dir@, sub.drop_last()));
                    assert(pair_views(queue@) =~= pair_views(q0).push((d@, r@)));
                    assert(pair_views(queue@) =~= pair_views(old(queue)@) + listed_dirs(dir_path@, rel_dir@, sub));
                }
            },
            DirEntry::File(name) => {
                let f = join(rel_dir, name.as_str());
                paths.push(f);
                proof {
                    assert(listed_dirs(dir_path@, rel_dir@, sub) == listed_dirs(dir_path@, rel_dir@, sub.drop_last()));
                    assert(string_views(paths@) =~= string_views(p0).push(f@));
                    assert(string_views(paths@) =~= string_views(old(paths)@) + listed_files(rel_dir@, sub));
                }
            },
        }
        i += 1;
    }
    proof {
        assert(entries@.subrange(0, entries@.len() as int) =~= entries@);
    }
}

/// The index of the first directory in a listing, if any.
pub open spec fn first_dir(entries: Seq<DirEntry>) -> Option<int> {
    if exists|i: int| 0 <= i < entries.len() && entries[i] is Dir {
        Some(choose|i: int| 0 <= i < entries.len() && entries[i] is Dir && forall|j: int| 0 <= j < i ==> entries[j] is File)
    } else {
        None
    }
}

/// The files of a listing of the images directory, by name and in order; a
/// subdirectory is an error for the first one's name.
pub fn image_listing(entries: &Vec<DirEntry>) -> (res: Result<Vec<String>, StoreEntryError>)
    ensures
        match first_dir(entries@) {
            Some(i) => res matches Err(e) && e.source == StoreError::Subdir && e.path@ == entry_name(entries@[i]),
            None => res matches Ok(paths) && string_views(paths@) == entries@.map_values(|e: DirEntry| entry_name(e)),
        },
{
    let mut paths: Vec<String> = Vec::new();
    let mut i: usize = 0;
    while i < entries.len()
        invariant
            0 <= i <= entries@.len(),
            string_views(paths@) == entries@.subrange(0, i as int).map_values(|e: DirEntry| entry_name(e)),
            forall|j: int| 0 <= j < i ==> entries@[j] is File,
        decreases entries.len() - i,
    {
        match &entries[i] {
            DirEntry::Dir(name) => {
                proof {
                    let k = choose|k: int| 0 <= k < entries@.len() && entries@[k] is Dir && forall|j: int| 0 <= j < k ==> entries@[j] is File;
                    assert(0 <= k < entries@.len() && entries@[k] is Dir && forall|j: int| 0 <= j < k ==> entries@[j] is File);
                    if k < i {
                        assert(entries@[k] is File);
                    } else if k > i {
                        assert(entries@[i as int] is File);
                    }
                }
                return Err(StoreEntryError::new(name.clone(), StoreError::Subdir));
            },
            DirEntry::File(name) => {
                let ghost p0 = paths@;
                let f = name.clone();
                paths.push(f);
                proof {
                    assert(string_views(paths@) =~= string_views(p0).push(f@));
                    assert(entry_name(entries@[i as int]) == f@);
                    assert(string_views(paths@) =~= entries@.subrange(0, i + 1).map_values(|e: DirEntry| entry_name(e)));
                }
            },
        }
        i += 1;
    }
    proof {
        assert(entries@.subrange(0, entries@.len() as int) =~= entries@);
    }
    Ok(paths)
}

impl DataType for Data {
    open spec fn spec_entry_error(&self, path: Seq<char>, keys: Seq<Seq<char>>, data: Seq<u8>) -> Option<StoreError> {
        data_entry_error(path, keys)
    }

    open spec fn spec_dir(&self) -> Seq<char> {
        DATA_DIR@
    }

    fn make() -> Self {
        Data
    }

    fn dir(&self) -> (res: &'static str) {
        DATA_DIR
    }

    fn try_list_contents<S: FontSource>(&self, source: &S) -> (res: Result<Vec<String>, StoreEntryError>)
        ensures
            res matches Err(e) ==> e.source is Io,
    {
        let mut paths: Vec<String> = Vec::new();
        // Each queued directory with its path relative to the data directory.
        let mut dir_queue: Vec<(String, String)> = Vec::new();
        dir_queue.push((to_string(DATA_DIR), String::new()));
        let mut budget: usize = usize::MAX;
        while dir_queue.len() > 0 && budget > 0
            decreases budget,
        {
            budget = budget - 1;
            let (dir_path, rel_dir) = match dir_queue.pop() {
                Some(d) => d,
                None => {
                    break;
                },
            };
            let entries = match source.list_dir(dir_path.as_str()) {
                Ok(entries) => entries,
                Err(e) => {
                    return Err(StoreEntryError::new(dir_path, StoreError::Io(std::sync::Arc::new(e))));
                },
            };
            take_listing(dir_path.as_str(), rel_dir.as_str(), &entries, &mut dir_queue, &mut paths);
        }
        Ok(paths)
    }

    fn validate_entry(&self, path: &str, keys: &Vec<String>, data: &Vec<u8>) -> (res: Result<(), StoreError>) {
        let ghost ks = string_views(keys@);
        if path.unicode_len() == 0 {
            return Err(StoreError::EmptyPath);
        }
        if is_absolute(path) {
            return Err(StoreError::PathIsAbsolute);
        }
        let cs = components(path);
        let ghost pc = spec_components(path@);
        proof {
            assert(string_views(cs@) =~= pc);
        }
        // The ancestors from the parent up, each by its components.
        let mut k: usize = cs.len();
        let mut prefix: Vec<String> = cs.clone();
        proof {
            assert(string_views(prefix@) =~= pc.subrange(0, k as int));
        }
        while k > 1
            invariant
                0 < k <= pc.len() || (k == 0 && pc.len() == 0),
                pc == spec_components(path@),
                ks == string_views(keys@),
                string_views(prefix@) == pc.subrange(0, k as int),
                path@.len() > 0,
                !spec_is_absolute(path@),
                forall|m: int| k <= m < pc.len() ==> !#[trigger] has_key_with_components(ks, pc.subrange(0, m)),
            decreases k,
        {
            let ghost before = prefix@;
            proof {
                assert(string_views(before).len() == before.len());
            }
            prefix.pop();
            k = k - 1;
            proof {
                assert forall|m: int| 0 <= m < k implies #[trigger] string_views(prefix@)[m] == pc.subrange(0, k as int)[m] by {
                    assert(prefix@[m] == before[m]);
                    assert(string_views(before)[m] == pc.subrange(0, k + 1)[m]);
                }
                assert(string_views(prefix@) =~= pc.subrange(0, k as int));
            }
            if any_key_with_components(keys, &prefix) {
                proof {
                    assert(1 <= k < pc.len() && has_key_with_components(ks, pc.subrange(0, k as int)));
                }
                return Err(StoreError::DirUnderFile);
            }
        }
        proof {
            assert(!(exists|m: int| 1 <= m < pc.len() && #[trigger] has_key_with_components(ks, pc.subrange(0, m))));
        }
        Ok(())
    }
}

impl DataType for Image {
    open spec fn spec_entry_error(&self, path: Seq<char>, keys: Seq<Seq<char>>, data: Seq<u8>) -> Option<StoreError> {
        image_entry_error(path, data)
    }

    open spec fn spec_dir(&self) -> Seq<char> {
        IMAGES_DIR@
    }

    fn make() -> Self {
        Image
    }

    fn dir(&self) -> (res: &'static str) {
        IMAGES_DIR
    }

    fn try_list_contents<S: FontSource>(&self, source: &S) -> (res: Result<Vec<String>, StoreEntryError>)
        ensures
            res matches Err(e) ==> (e.source is Io && e.path@ == IMAGES_DIR@) || e.source == StoreError::Subdir,
    {
        let entries = match source.list_dir(IMAGES_DIR) {
            Ok(entries) => entries,
            Err(e) => {
                return Err(StoreEntryError::new(to_string(IMAGES_DIR), StoreError::Io(std::sync::Arc::new(e))));
            },
        };
        // The specification forbids directories.
        image_listing(&entries)
    }

    fn validate_entry(&self, path: &str, keys: &Vec<String>, data: &Vec<u8>) -> (res: Result<(), StoreError>) {
        if path.unicode_len() == 0 {
            return Err(StoreError::EmptyPath);
        }
        if is_absolute(path) {
            return Err(StoreError::PathIsAbsolute);
        }
        if components(path).len() >= 2 {
            return Err(StoreError::Subdir);
        }
        let signature: [u8; 8] = [137u8, 80, 78, 71, 13, 10, 26, 10];
        assert(signature@ =~= png_signature());
        if data.len() < 8 {
            return Err(StoreError::InvalidImage);
        }
        let mut i: usize = 0;
        while i < 8
            invariant
                0 <= i <= 8,
                data@.len() >= 8,
                path@.len() > 0,
                !spec_is_absolute(path@),
                spec_components(path@).len() < 2,
                signature@ == png_signature(),
                forall|j: int| 0 <= j < i ==> data@[j] == png_signature()[j],
            decreases 8 - i,
        {
            if data[i] != signature[i] {
                assert(data@.subrange(0, 8)[i as int] != png_signature()[i as int]);
                assert(data@.subrange(0, 8) != png_signature());
                return Err(StoreError::InvalidImage);
            }
            i += 1;
        }
        assert(data@.subrange(0, 8) =~= png_signature());
        Ok(())
    }
}

/// A generic file store for UFO data and images, mapping relative paths to file
/// contents.
#[derive(Debug)]
pub struct Store<T: DataType> {
    items: Vec<(String, Item)>,
    ufo_root: Option<String>,
    impl_type: T,
}

/// The keys of a list of entries.
pub open spec fn entry_keys(items: Seq<(String, Item)>) -> Seq<Seq<char>> {
    items.map_values(|e: (String, Item)| e.0@)
}

/// True when no two entries name the same path.
pub open spec fn keys_distinct(items: Seq<(String, Item)>) -> bool {
    forall|i: int, j: int| 0 <= i < j < items.len() ==> !spec_same_path(#[trigger] items[i].0@, #[trigger] items[j].0@)
}

/// Removing a path leaves no entry for it, one entry fewer where there was one, and
/// every other entry as it was.
pub proof fn law_remove_absent(before: Seq<(String, Item)>, path: Seq<char>)
    requires
        keys_distinct(before),
    ensures
        position_of(removed(before, path), path) is None,
        removed(before, path).len() == before.len() - if position_of(before, path) is Some {
            1int
        } else {
            0int
        },
        keys_distinct(removed(before, path)),
{
    match position_of(before, path) {
        Some(i) => {
            let after = before.remove(i);
            if position_of(after, path) is Some {
                let j = choose|j: int| 0 <= j < after.len() && spec_same_path(#[trigger] after[j].0@, path);
                let oj = if j < i { j } else { j + 1 };
                assert(after[j] == before[oj]);
                assert(spec_same_path(before[i].0@, path));
                if oj < i {
                    assert(!spec_same_path(before[oj].0@, before[i].0@));
                } else {
                    assert(!spec_same_path(before[i].0@, before[oj].0@));
                }
            }
            assert forall|a: int, b: int| 0 <= a < b < after.len() implies !spec_same_path(
                #[trigger] after[a].0@,
                #[trigger] after[b].0@,
            ) by {
                let oa = if a < i { a } else { a + 1 };
                let ob = if b < i { b } else { b + 1 };
                assert(after[a] == before[oa]);
                assert(after[b] == before[ob]);
            }
        },
        None => {},
    }
}

/// Inserting at a path leaves exactly one entry for it, holding the item, one entry
/// more where there was none, and every other entry as it was.
pub proof fn law_insert_then_find(before: Seq<(String, Item)>, path: String, item: Item)
    requires
        keys_distinct(before),
    ensures
        keys_distinct(inserted(before, path, item)),
        position_of(inserted(before, path, item), path@) matches Some(i) && inserted(before, path, item)[i].1 == item,
        inserted(before, path, item).len() == before.len() + if position_of(before, path@) is Some {
            0int
        } else {
            1int
        },
        forall|j: int|
            0 <= j < before.len() && !spec_same_path(before[j].0@, path@) ==> #[trigger] inserted(before, path, item)[j]
                == before[j],
{
    let after = inserted(before, path, item);
    match position_of(before, path@) {
        Some(i) => {
            assert forall|a: int, b: int| 0 <= a < b < after.len() implies !spec_same_path(
                #[trigger] after[a].0@,
                #[trigger] after[b].0@,
            ) by {
                assert(after[a].0 == before[a].0);
                assert(after[b].0 == before[b].0);
            }
            assert(spec_same_path(after[i].0@, path@));
            lemma_position_unique(after, path@, i);
            assert forall|j: int| 0 <= j < before.len() && !spec_same_path(before[j].0@, path@) implies #[trigger] after[j]
                == before[j] by {
                if j == i {
                    assert(spec_same_path(before[i].0@, path@));
                }
            }
        },
        None => {
            let n = before.len() as int;
            assert forall|a: int, b: int| 0 <= a < b < after.len() implies !spec_same_path(
                #[trigger] after[a].0@,
                #[trigger] after[b].0@,
            ) by {
                if b == n {
                    assert(after[a] == before[a]);
                    assert(after[b].0 == path);
                    if spec_same_path(before[a].0@, path@) {
                        assert(position_of(before, path@) is Some);
                    }
                } else {
                    assert(after[a] == before[a]);
                    assert(after[b] == before[b]);
                }
            }
            assert(after[n].0 == path);
            assert(spec_same_path(after[n].0@, path@));
            lemma_position_unique(after, path@, n);
        },
    }
}

/// Entries with the same paths, in the same order, find a path at the same position:
/// reading an entry, which keeps every path, leaves a second read to the same entry.
pub proof fn law_same_keys_same_position(before: Seq<(String, Item)>, after: Seq<(String, Item)>, path: Seq<char>)
    requires
        after.len() == before.len(),
        forall|j: int| 0 <= j < before.len() ==> (#[trigger] after[j]).0 == before[j].0,
        keys_distinct(before),
    ensures
        position_of(after, path) == position_of(before, path),
        keys_distinct(after),
{
    assert forall|a: int, b: int| 0 <= a < b < after.len() implies !spec_same_path(
        #[trigger] after[a].0@,
        #[trigger] after[b].0@,
    ) by {
        assert(after[a].0 == before[a].0);
        assert(after[b].0 == before[b].0);
    }
    if position_of(before, path) is Some {
        let i = position_of(before, path)->0;
        assert(after[i].0 == before[i].0);
        lemma_position_unique(after, path, i);
    } else {
        if position_of(after, path) is Some {
            let j = position_of(after, path)->0;
            assert(after[j].0 == before[j].0);
            assert(spec_same_path(before[j].0@, path));
        }
    }
}

/// What a read of the entry for `path` does: with no entry, it gives nothing and
/// changes nothing; otherwise the entry is loaded if it was not (and kept as it was if
/// it was), every other entry stays, and the result is the entry's data or its error.
pub open spec fn read_entry<T: DataType>(
    before: Seq<(String, Item)>,
    kind: T,
    path: Seq<char>,
    after: Seq<(String, Item)>,
    res: Option<Result<Vec<u8>, StoreError>>,
) -> bool {
    match position_of(before, path) {
        None => res is None && after == before,
        Some(i) => {
            let item = after[i].1;
            &&& after.len() == before.len()
            &&& forall|j: int| 0 <= j < before.len() && j != i ==> #[trigger] after[j] == before[j]
            &&& after[i].0 == before[i].0
            &&& !(before[i].1 is NotLoaded) ==> item == before[i].1
            &&& !(item is NotLoaded)
            &&& item matches Item::Loaded(d) ==> (before[i].1 is NotLoaded
                ==> kind.spec_entry_error(path, entry_keys(before), d@) is None)
            &&& res matches Some(r) && match item {
                Item::Loaded(d) => r matches Ok(v) && v@ == d@,
                Item::Error(e) => r == Err::<Vec<u8>, StoreError>(e),
                Item::NotLoaded => false,
            }
        },
    }
}

/// A store has an entry for a path exactly when one of its keys is that path, and
/// exactly then a read of the path gives something.
pub proof fn law_contains_iff_listed<T: DataType>(
    before: Seq<(String, Item)>,
    kind: T,
    path: Seq<char>,
    after: Seq<(String, Item)>,
    res: Option<Result<Vec<u8>, StoreError>>,
)
    requires
        read_entry(before, kind, path, after, res),
    ensures
        (position_of(before, path) is Some) == (exists|i: int|
            0 <= i < entry_keys(before).len() && spec_same_path(#[trigger] entry_keys(before)[i], path)),
        (res is Some) == (position_of(before, path) is Some),
{
    if exists|i: int| 0 <= i < entry_keys(before).len() && spec_same_path(#[trigger] entry_keys(before)[i], path) {
        let i = choose|i: int| 0 <= i < entry_keys(before).len() && spec_same_path(#[trigger] entry_keys(before)[i], path);
        assert(entry_keys(before)[i] == before[i].0@);
    }
    if position_of(before, path) is Some {
        let i = position_of(before, path)->0;
        assert(entry_keys(before)[i] == before[i].0@);
    }
}

/// What `iter` gives for an entry is what a later read of that entry gives, and the
/// read changes nothing: after `iter`, every entry is loaded or failed, and a read of
/// the key at position `i` reports that item.
pub proof fn law_iter_then_read<T: DataType>(
    items: Seq<(String, Item)>,
    kind: T,
    i: int,
    given: Result<Vec<u8>, StoreError>,
    after: Seq<(String, Item)>,
    read: Option<Result<Vec<u8>, StoreError>>,
)
    requires
        keys_distinct(items),
        0 <= i < items.len(),
        reports_item(given, items[i].1),
        read_entry(items, kind, items[i].0@, after, read),
    ensures
        after == items,
        read matches Some(r) && reports_item(r, items[i].1),
        given matches Ok(v1) ==> (read matches Some(Ok(v2)) && v2@ == v1@),
        given matches Err(e) ==> read == Some(Err::<Vec<u8>, StoreError>(e)),
{
    lemma_position_unique(items, items[i].0@, i);
    assert(after =~= items) by {
        assert forall|j: int| 0 <= j < items.len() implies #[trigger] after[j] == items[j] by {
            if j == i {
                assert(after[j].0 == items[j].0);
                assert(after[j].1 == items[j].1);
            }
        }
    }
}

/// Reading an entry twice gives the same answer, and the second read changes nothing:
/// a failed load is kept and reported again.
pub proof fn law_read_twice<T: DataType>(
    before: Seq<(String, Item)>,
    kind: T,
    path: Seq<char>,
    middle: Seq<(String, Item)>,
    first: Option<Result<Vec<u8>, StoreError>>,
    after: Seq<(String, Item)>,
    second: Option<Result<Vec<u8>, StoreError>>,
)
    requires
        keys_distinct(before),
        read_entry(before, kind, path, middle, first),
        read_entry(middle, kind, path, after, second),
    ensures
        after == middle,
        (first is None) == (second is None),
        first matches Some(Ok(v1)) ==> (second matches Some(Ok(v2)) && v2@ == v1@),
        first matches Some(Err(e1)) ==> second == Some(Err::<Vec<u8>, StoreError>(e1)),
{
    match position_of(before, path) {
        None => {},
        Some(i) => {
            assert forall|j: int| 0 <= j < before.len() implies (#[trigger] middle[j]).0 == before[j].0 by {
                if j != i {
                    assert(middle[j] == before[j]);
                }
            }
            law_same_keys_same_position(before, middle, path);
            assert(after =~= middle) by {
                assert forall|j: int| 0 <= j < middle.len() implies #[trigger] after[j] == middle[j] by {
                    if j == i {
                        assert(after[j].0 == middle[j].0);
                        assert(after[j].1 == middle[j].1);
                    }
                }
            }
        },
    }
}

/// The position of the entry for `path`, if there is one.
pub open spec fn position_of(items: Seq<(String, Item)>, path: Seq<char>) -> Option<int> {
    if exists|i: int| 0 <= i < items.len() && spec_same_path(#[trigger] items[i].0@, path) {
        Some(choose|i: int| 0 <= i < items.len() && spec_same_path(#[trigger] items[i].0@, path))
    } else {
        None
    }
}

/// The entries after an insertion of `item` at `path`: an entry for the same path keeps
/// its key and takes the item; otherwise the entry comes last.
pub open spec fn inserted(items: Seq<(String, Item)>, path: String, item: Item) -> Seq<(String, Item)> {
    match position_of(items, path@) {
        Some(i) => items.update(i, (items[i].0, item)),
        None => items.push((path, item)),
    }
}

/// The entries after the removal of the one for `path`, if any.
pub open spec fn removed(items: Seq<(String, Item)>, path: Seq<char>) -> Seq<(String, Item)> {
    match position_of(items, path) {
        Some(i) => items.remove(i),
        None => items,
    }
}

proof fn lemma_position_unique(items: Seq<(String, Item)>, path: Seq<char>, i: int)
    requires
        keys_distinct(items),
        0 <= i < items.len(),
        spec_same_path(items[i].0@, path),
    ensures
        position_of(items, path) == Some(i),
{
    let j = choose|j: int| 0 <= j < items.len() && spec_same_path(#[trigger] items[j].0@, path);
    if j != i {
        if j < i {
            assert(!spec_same_path(items[j].0@, items[i].0@));
        } else {
            assert(!spec_same_path(items[i].0@, items[j].0@));
        }
    }
}

fn find_pos(items: &Vec<(String, Item)>, path: &str) -> (res: Option<usize>)
    requires
        keys_distinct(items@),
    ensures
        match res {
            Some(i) => i < items@.len() && position_of(items@, path@) == Some(i as int),
            None => position_of(items@, path@) is None,
        },
{
    let mut i: usize = 0;
    while i < items.len()
        invariant
            0 <= i <= items@.len(),
            keys_distinct(items@),
            forall|j: int| 0 <= j < i ==> !spec_same_path(#[trigger] items@[j].0@, path@),
        decreases items@.len() - i,
    {
        if same_path(items[i].0.as_str(), path) {
            proof {
                lemma_position_unique(items@, path@, i as int);
            }
            return Some(i);
        }
        i += 1;
    }
    None
}

/// The item that loading `path` from `source` gives: its contents if reading and
/// checking succeed, the error otherwise.
fn load_item<T: DataType, S: FontSource>(impl_type: &T, source: &S, path: &str, keys: &Vec<String>) -> (res: Item)
    ensures
        res matches Item::Loaded(d) ==> impl_type.spec_entry_error(path@, string_views(keys@), d@) is None,
        !(res is NotLoaded),
{
    let full = join(impl_type.dir(), path);
    item_for(impl_type, path, keys, source.read(full.as_str()))
}

/// The item for the entry at `path`, given what reading its file gave, in a store of
/// this kind that holds `keys`: the contents where they pass the store's checks,
/// the check's error where they fail it, and the reading error where reading failed.
pub fn item_for<T: DataType>(impl_type: &T, path: &str, keys: &Vec<String>, read: Result<Vec<u8>, std::io::Error>) -> (res: Item)
    ensures
        match read {
            Ok(data) => match impl_type.spec_entry_error(path@, string_views(keys@), data@) {
                Some(e) => res == Item::Error(e),
                None => res == Item::Loaded(data),
            },
            Err(_) => res matches Item::Error(StoreError::Io(_)),
        },
{
    match read {
        Ok(data) => match impl_type.validate_entry(path, keys, &data) {
            Ok(()) => Item::Loaded(data),
            Err(e) => Item::Error(e),
        },
        Err(e) => Item::Error(StoreError::Io(std::sync::Arc::new(e))),
    }
}

/// True when `r` reports the item: its data where it is loaded, its error where it
/// failed.
pub open spec fn reports_item(r: Result<Vec<u8>, StoreError>, item: Item) -> bool {
    match item {
        Item::Loaded(d) => r matches Ok(v) && v@ == d@,
        Item::Error(e) => r == Err::<Vec<u8>, StoreError>(e),
        Item::NotLoaded => false,
    }
}

/// The value that reading an entry gives, for an item that is loaded or failed.
pub open spec fn item_result(item: Item) -> Result<Vec<u8>, StoreError> {
    match item {
        Item::Loaded(d) => Ok(d),
        Item::Error(e) => Err(e),
        Item::NotLoaded => Err(StoreError::EmptyPath),
    }
}

fn item_value(item: &Item) -> (res: Result<Vec<u8>, StoreError>)
    requires
        !(*item is NotLoaded),
    ensures
        match *item {
            Item::Loaded(d) => res matches Ok(r) && r@ == d@,
            Item::Error(e) => res matches Err(r) && r == e,
            Item::NotLoaded => false,
        },
{
    match item {
        Item::Loaded(d) => Ok(d.clone()),
        Item::Error(e) => Err(e.clone()),
        Item::NotLoaded => Err(StoreError::EmptyPath),
    }
}

/// True when two stores hold the same paths: as many, and each of the first in the
/// second.
pub open spec fn same_paths(a: Seq<(String, Item)>, b: Seq<(String, Item)>) -> bool {
    a.len() == b.len() && forall|i: int| 0 <= i < a.len() ==> (#[trigger] position_of(b, a[i].0@)) is Some
}

impl<T: DataType> PartialEq for Store<T> {
    fn eq(&self, other: &Self) -> (res: bool) {
        proof {
            use_type_invariant(other);
        }
        if self.items.len() != other.items.len() {
            return false;
        }
        let mut i: usize = 0;
        while i < self.items.len()
            invariant
                0 <= i <= self.items@.len(),
                self.items@.len() == other.items@.len(),
                keys_distinct(other.items@),
                forall|j: int| 0 <= j < i ==> (#[trigger] position_of(other.items@, self.items@[j].0@)) is Some,
            decreases self.items@.len() - i,
        {
            if find_pos(&other.items, self.items[i].0.as_str()).is_none() {
                return false;
            }
            i += 1;
        }
        true
    }
}

impl<T: DataType> vstd::std_specs::cmp::PartialEqSpecImpl for Store<T> {
    open spec fn obeys_eq_spec() -> bool {
        true
    }

    open spec fn eq_spec(&self, other: &Self) -> bool {
        same_paths(self.spec_items(), other.spec_items())
    }
}

impl<T: DataType + Clone> Clone for Store<T> {
    fn clone(&self) -> (res: Self)
        ensures
            res.spec_items().len() == self.spec_items().len(),
            forall|i: int| 0 <= i < self.spec_items().len() ==> (#[trigger] res.spec_items()[i]).0@ == self.spec_items()[i].0@,
            res.spec_is_lazy() == self.spec_is_lazy(),
    {
        proof {
            use_type_invariant(self);
        }
        let mut items: Vec<(String, Item)> = Vec::new();
        let mut i: usize = 0;
        while i < self.items.len()
            invariant
                0 <= i <= self.items@.len(),
                keys_distinct(self.items@),
                items@.len() == i,
                forall|j: int| 0 <= j < i ==> (#[trigger] items@[j]).0@ == self.items@[j].0@,
            decreases self.items@.len() - i,
        {
            items.push((to_string(self.items[i].0.as_str()), self.items[i].1.clone()));
            i += 1;
        }
        proof {
            assert forall|a: int, b: int| 0 <= a < b < items@.len() implies !spec_same_path(
                #[trigger] items@[a].0@,
                #[trigger] items@[b].0@,
            ) by {
                assert(!spec_same_path(self.items@[a].0@, self.items@[b].0@));
            }
        }
        Store { items, ufo_root: self.ufo_root.clone(), impl_type: self.impl_type.clone() }
    }
}

impl<T: DataType> Store<T> {
    #[verifier::type_invariant]
    closed spec fn inv(self) -> bool {
        keys_distinct(self.items@)
    }

    /// The entries of the store, in the order in which they came.
    pub closed spec fn spec_items(&self) -> Seq<(String, Item)> {
        self.items@
    }

    /// Whether the store loads its entries on demand.
    pub closed spec fn spec_is_lazy(&self) -> bool {
        self.ufo_root is Some
    }

    /// The rules of the store.
    pub closed spec fn spec_kind(&self) -> T {
        self.impl_type
    }

    /// Returns an empty store.
    pub fn empty() -> (res: Self)
        ensures
            res.spec_items().len() == 0,
            !res.spec_is_lazy(),
    {
        Store { items: Vec::new(), ufo_root: None, impl_type: T::make() }
    }

    fn key_list(&self) -> (res: Vec<String>)
        ensures
            string_views(res@) == entry_keys(self.spec_items()),
    {
        let mut out: Vec<String> = Vec::new();
        let mut i: usize = 0;
        while i < self.items.len()
            invariant
                0 <= i <= self.items@.len(),
                string_views(out@) == entry_keys(self.items@).subrange(0, i as int),
            decreases self.items@.len() - i,
        {
            let ghost before = out@;
            out.push(to_string(self.items[i].0.as_str()));
            proof {
                assert(string_views(out@) =~= string_views(before).push(self.items@[i as int].0@));
                assert(entry_keys(self.items@).subrange(0, i + 1) =~= entry_keys(self.items@).subrange(0, i as int).push(
                    entry_keys(self.items@)[i as int],
                ));
            }
            i += 1;
        }
        proof {
            assert(entry_keys(self.items@).subrange(0, self.items@.len() as int) =~= entry_keys(self.items@));
        }
        out
    }

    /// Sets the entry for `path` to `item`, as [`inserted`] says.
    fn put(&mut self, path: String, item: Item)
        ensures
            final(self).spec_items() == inserted(old(self).spec_items(), path, item),
            final(self).spec_is_lazy() == old(self).spec_is_lazy(),
            final(self).spec_kind() == old(self).spec_kind(),
    {
        proof {
            use_type_invariant(&*self);
        }
        let ghost old_items = self.items@;
        let mut items = Vec::new();
        std::mem::swap(&mut items, &mut self.items);
        match find_pos(&items, path.as_str()) {
            Some(i) => {
                let key = items[i].0.clone();
                items.set(i, (key, item));
                proof {
                    assert forall|a: int, b: int| 0 <= a < b < items@.len() implies !spec_same_path(
                        #[trigger] items@[a].0@,
                        #[trigger] items@[b].0@,
                    ) by {
                        assert(old_items[a].0@ == items@[a].0@);
                        assert(old_items[b].0@ == items@[b].0@);
                    }
                }
                self.items = items;
            },
            None => {
                items.push((path, item));
                proof {
                    assert forall|a: int, b: int| 0 <= a < b < items@.len() implies !spec_same_path(
                        #[trigger] items@[a].0@,
                        #[trigger] items@[b].0@,
                    ) by {
                        assert(old_items[a] == items@[a]);
                        if b < old_items.len() {
                            assert(old_items[b] == items@[b]);
                        } else {
                            assert(!spec_same_path(old_items[a].0@, path@));
                        }
                    }
                }
                self.items = items;
            },
        }
    }

    /// Builds the store of `source`. When the source has a place on disk, the entries
    /// are recorded unloaded; otherwise each is read and checked now, and the first
    /// failure is returned.
    pub fn new<S: FontSource>(source: &S) -> (res: Result<Self, StoreEntryError>)
        ensures
            res matches Ok(s) ==> {
                &&& s.spec_is_lazy() ==> forall|i: int| 0 <= i < s.spec_items().len() ==> (#[trigger] s.spec_items()[i]).1 is NotLoaded
                &&& !s.spec_is_lazy() ==> forall|i: int| 0 <= i < s.spec_items().len() ==> (#[trigger] s.spec_items()[i]).1 is Loaded
            },
    {
        let impl_type = T::make();
        let paths = match impl_type.try_list_contents(source) {
            Ok(p) => p,
            Err(e) => {
                return Err(e);
            },
        };
        let root = source.as_path();
        let mut store: Self = Store { items: Vec::new(), ufo_root: None, impl_type };
        let lazy = root.is_some();
        let mut i: usize = 0;
        while i < paths.len()
            invariant
                0 <= i <= paths@.len(),
                !store.spec_is_lazy(),
                lazy == root is Some,
                lazy ==> forall|j: int| 0 <= j < store.spec_items().len() ==> (#[trigger] store.spec_items()[j]).1 is NotLoaded,
                !lazy ==> forall|j: int| 0 <= j < store.spec_items().len() ==> (#[trigger] store.spec_items()[j]).1 is Loaded,
            decreases paths@.len() - i,
        {
            let ghost before = store.spec_items();
            if lazy {
                store.put(paths[i].clone(), Item::NotLoaded);
                proof {
                    assert forall|j: int| 0 <= j < store.spec_items().len() implies (#[trigger] store.spec_items()[j]).1 is NotLoaded by {
                        match position_of(before, paths@[i as int]@) {
                            Some(p) => {
                                if j != p {
                                    assert(store.spec_items()[j] == before[j]);
                                }
                            },
                            None => {
                                if j < before.len() {
                                    assert(store.spec_items()[j] == before[j]);
                                }
                            },
                        }
                    }
                }
            } else {
                let full = join(store.impl_type.dir(), paths[i].as_str());
                let data = match source.read(full.as_str()) {
                    Ok(d) => d,
                    Err(e) => {
                        return Err(StoreEntryError::new(paths[i].clone(), StoreError::Io(std::sync::Arc::new(e))));
                    },
                };
                match store.insert(paths[i].clone(), data) {
                    Ok(()) => {
                        proof {
                            assert forall|j: int| 0 <= j < store.spec_items().len() implies (#[trigger] store.spec_items()[j]).1 is Loaded by {
                                match position_of(before, paths@[i as int]@) {
                                    Some(p) => {
                                        if j != p {
                                            assert(store.spec_items()[j] == before[j]);
                                        }
                                    },
                                    None => {
                                        if j < before.len() {
                                            assert(store.spec_items()[j] == before[j]);
                                        }
                                    },
                                }
                            }
                        }
                    },
                    Err(e) => {
                        return Err(StoreEntryError::new(paths[i].clone(), e));
                    },
                }
            }
            i += 1;
        }
        proof {
            use_type_invariant(&store);
        }
        let ghost items = store.spec_items();
        let done = Store { items: store.items, ufo_root: root, impl_type: store.impl_type };
        assert(done.spec_items() == items);
        assert(done.spec_is_lazy() == lazy);
        Ok(done)
    }

    /// Returns `true` if the store contains data for the specified path.
    pub fn contains_key(&self, k: &str) -> (res: bool)
        ensures
            res == (position_of(self.spec_items(), k@) is Some),
            keys_distinct(self.spec_items()),
    {
        proof {
            use_type_invariant(self);
        }
        find_pos(&self.items, k).is_some()
    }

    /// Clears the store, removing all path-data pairs.
    pub fn clear(&mut self)
        ensures
            final(self).spec_items().len() == 0,
            final(self).spec_is_lazy() == old(self).spec_is_lazy(),
    {
        self.items = Vec::new();
    }

    /// Returns whether the store loads its entries on demand.
    pub fn is_lazy(&self) -> (res: bool)
        ensures
            res == self.spec_is_lazy(),
    {
        self.ufo_root.is_some()
    }

    /// The place on disk of the package whose entries the store loads on demand, if it
    /// loads them so.
    pub fn ufo_root(&self) -> (res: Option<&str>)
        ensures
            (res is Some) == self.spec_is_lazy(),
    {
        match &self.ufo_root {
            Some(r) => Some(r.as_str()),
            None => None,
        }
    }

    /// Returns whether every entry is loaded and valid.
    pub fn all_loaded(&self) -> (res: bool)
        ensures
            res == forall|i: int| 0 <= i < self.spec_items().len() ==> (#[trigger] self.spec_items()[i]).1 is Loaded,
    {
        let mut i: usize = 0;
        while i < self.items.len()
            invariant
                0 <= i <= self.items@.len(),
                forall|j: int| 0 <= j < i ==> (#[trigger] self.items@[j]).1 is Loaded,
            decreases self.items@.len() - i,
        {
            match &self.items[i].1 {
                Item::Loaded(_) => {},
                _ => {
                    return false;
                },
            }
            i += 1;
        }
        true
    }

    /// Returns the number of elements in the store.
    pub fn len(&self) -> (res: usize)
        ensures
            res == self.spec_items().len(),
            keys_distinct(self.spec_items()),
    {
        proof {
            use_type_invariant(self);
        }
        self.items.len()
    }

    /// Returns `true` if the store contains no elements.
    pub fn is_empty(&self) -> (res: bool)
        ensures
            res == (self.spec_items().len() == 0),
    {
        self.items.len() == 0
    }

    /// Returns the paths of the store, in the order in which they came.
    pub fn keys(&self) -> (res: Vec<String>)
        ensures
            string_views(res@) == entry_keys(self.spec_items()),
    {
        self.key_list()
    }

    /// Returns the data for the path, loading it from `source` first if the store has
    /// not yet. A failed load is kept, and reported again on every later access.
    pub fn get<S: FontSource>(&mut self, path: &str, source: &S) -> (res: Option<Result<Vec<u8>, StoreError>>)
        ensures
            final(self).spec_is_lazy() == old(self).spec_is_lazy(),
            final(self).spec_kind() == old(self).spec_kind(),
            keys_distinct(old(self).spec_items()),
            keys_distinct(final(self).spec_items()),
            read_entry(old(self).spec_items(), old(self).spec_kind(), path@, final(self).spec_items(), res),
    {
        proof {
            use_type_invariant(&*self);
        }
        let pos = find_pos(&self.items, path);
        let r = match pos {
            None => None,
            Some(i) => {
                if matches!(self.items[i].1, Item::NotLoaded) {
                    let keys = self.key_list();
                    let item = load_item(&self.impl_type, source, path, &keys);
                    let ghost old_items = self.items@;
                    let mut items = Vec::new();
                    std::mem::swap(&mut items, &mut self.items);
                    let key = items[i].0.clone();
                    items.set(i, (key, item));
                    proof {
                        assert forall|a: int, b: int| 0 <= a < b < items@.len() implies !spec_same_path(
                            #[trigger] items@[a].0@,
                            #[trigger] items@[b].0@,
                        ) by {
                            assert(old_items[a].0@ == items@[a].0@);
                            assert(old_items[b].0@ == items@[b].0@);
                        }
                    }
                    self.items = items;
                }
                Some(item_value(&self.items[i].1))
            },
        };
        proof {
            use_type_invariant(&*self);
        }
        r
    }

    /// Try to insert data for this path. Overwrites existing data.
    ///
    /// In a data store, fails if the path is empty or absolute, or if any of its
    /// ancestors is in the store already. In an images store, fails if the path is
    /// empty or absolute, if it has an ancestor, or if the data does not start with the
    /// PNG header. On failure the store is unchanged.
    pub fn insert(&mut self, path: String, data: Vec<u8>) -> (res: Result<(), StoreError>)
        ensures
            final(self).spec_is_lazy() == old(self).spec_is_lazy(),
            final(self).spec_kind() == old(self).spec_kind(),
            keys_distinct(old(self).spec_items()),
            keys_distinct(final(self).spec_items()),
            match old(self).spec_kind().spec_entry_error(path@, entry_keys(old(self).spec_items()), data@) {
                Some(e) => res == Err::<(), StoreError>(e) && final(self).spec_items() == old(self).spec_items(),
                None => res is Ok && final(self).spec_items() == inserted(old(self).spec_items(), path, Item::Loaded(data)),
            },
    {
        proof {
            use_type_invariant(&*self);
        }
        let keys = self.key_list();
        let r = match self.impl_type.validate_entry(path.as_str(), &keys, &data) {
            Ok(()) => {
                self.put(path, Item::Loaded(data));
                Ok(())
            },
            Err(e) => Err(e),
        };
        proof {
            use_type_invariant(&*self);
        }
        r
    }

    /// Removes a path from the store.
    pub fn remove(&mut self, k: &str)
        ensures
            final(self).spec_items() == removed(old(self).spec_items(), k@),
            final(self).spec_is_lazy() == old(self).spec_is_lazy(),
            final(self).spec_kind() == old(self).spec_kind(),
            keys_distinct(old(self).spec_items()),
            keys_distinct(final(self).spec_items()),
    {
        proof {
            use_type_invariant(&*self);
        }
        let ghost old_items = self.items@;
        match find_pos(&self.items, k) {
            Some(i) => {
                let mut items = Vec::new();
                std::mem::swap(&mut items, &mut self.items);
                items.remove(i);
                proof {
                    assert forall|a: int, b: int| 0 <= a < b < items@.len() implies !spec_same_path(
                        #[trigger] items@[a].0@,
                        #[trigger] items@[b].0@,
                    ) by {
                        let oa = if a < i { a } else { a + 1 };
                        let ob = if b < i { b } else { b + 1 };
                        assert(items@[a] == old_items[oa]);
                        assert(items@[b] == old_items[ob]);
                    }
                }
                self.items = items;
            },
            None => {},
        }
        proof {
            use_type_invariant(&*self);
        }
    }

    /// Every path with its data, loading what is not loaded yet from `source`.
    pub fn iter<S: FontSource>(&mut self, source: &S) -> (res: Vec<(String, Result<Vec<u8>, StoreError>)>)
        ensures
            res@.len() == old(self).spec_items().len(),
            final(self).spec_items().len() == old(self).spec_items().len(),
            final(self).spec_is_lazy() == old(self).spec_is_lazy(),
            final(self).spec_kind() == old(self).spec_kind(),
            keys_distinct(old(self).spec_items()),
            keys_distinct(final(self).spec_items()),
            forall|i: int| 0 <= i < res@.len() ==> (#[trigger] res@[i]).0@ == old(self).spec_items()[i].0@,
            forall|i: int| 0 <= i < res@.len() ==> !(#[trigger] final(self).spec_items()[i].1 is NotLoaded),
            forall|i: int| 0 <= i < res@.len() ==> (#[trigger] final(self).spec_items()[i]).0 == old(self).spec_items()[i].0,
            forall|i: int| 0 <= i < res@.len() ==> reports_item((#[trigger] res@[i]).1, final(self).spec_items()[i].1),
            forall|i: int|
                0 <= i < res@.len() && !(old(self).spec_items()[i].1 is NotLoaded) ==> (#[trigger] final(self).spec_items()[i]).1
                    == old(self).spec_items()[i].1,
    {
        proof {
            use_type_invariant(&*self);
        }
        let keys = self.key_list();
        proof {
            assert(string_views(keys@).len() == keys@.len());
            assert forall|j: int| 0 <= j < keys@.len() implies (#[trigger] self.spec_items()[j]).0@ == keys@[j]@ by {
                assert(string_views(keys@)[j] == keys@[j]@);
                assert(entry_keys(self.spec_items())[j] == self.spec_items()[j].0@);
            }
        }
        let mut out: Vec<(String, Result<Vec<u8>, StoreError>)> = Vec::new();
        let mut i: usize = 0;
        while i < keys.len()
            invariant
                0 <= i <= keys@.len(),
                keys@.len() == old(self).spec_items().len(),
                self.spec_items().len() == keys@.len(),
                string_views(keys@) == entry_keys(old(self).spec_items()),
                forall|j: int| 0 <= j < keys@.len() ==> (#[trigger] self.spec_items()[j]).0@ == keys@[j]@,
                out@.len() == i,
                forall|j: int| 0 <= j < i ==> (#[trigger] out@[j]).0@ == keys@[j]@,
                forall|j: int| 0 <= j < i ==> !(#[trigger] self.spec_items()[j].1 is NotLoaded),
                self.spec_is_lazy() == old(self).spec_is_lazy(),
                self.spec_kind() == old(self).spec_kind(),
                forall|j: int| 0 <= j < keys@.len() ==> (#[trigger] self.spec_items()[j]).0 == old(self).spec_items()[j].0,
                forall|j: int| 0 <= j < i ==> reports_item((#[trigger] out@[j]).1, self.spec_items()[j].1),
                forall|j: int|
                    0 <= j < keys@.len() && !(old(self).spec_items()[j].1 is NotLoaded) ==> (#[trigger] self.spec_items()[j]).1
                        == old(self).spec_items()[j].1,
                forall|j: int| i <= j < keys@.len() ==> (#[trigger] self.spec_items()[j]) == old(self).spec_items()[j],
            decreases keys@.len() - i,
        {
            proof {
                use_type_invariant(&*self);
                assert(spec_same_path(self.spec_items()[i as int].0@, keys@[i as int]@));
                lemma_position_unique(self.spec_items(), keys@[i as int]@, i as int);
            }
            let r = self.get(keys[i].as_str(), source);
            match r {
                Some(v) => {
                    out.push((to_string(keys[i].as_str()), v));
                },
                None => {
                    proof {
                        use_type_invariant(&*self);
                    }
                    return out;
                },
            }
            i += 1;
        }
        proof {
            use_type_invariant(&*self);
        }
        out
    }
}

} // verus!
