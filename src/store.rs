//! The change store: the last observed size of each path.
use vstd::prelude::*;

use crate::extensions::{classify_spec, Extension};
use crate::text::{str_eq, views};

verus! {

/// What the store remembers of a file: its size in bytes.
pub type FileSize = u128;

/// The map that a sequence of `(key, value)` entries describes, the later
/// entry of a key winning.
pub open spec fn map_of(entries: Seq<(Seq<char>, u128)>) -> Map<Seq<char>, u128>
    decreases entries.len(),
{
    if entries.len() == 0 {
        Map::empty()
    } else {
        map_of(entries.drop_last()).insert(entries.last().0, entries.last().1)
    }
}

/// Entry `i` is the last entry of its key.
pub open spec fn last_of_key(entries: Seq<(Seq<char>, u128)>, i: int) -> bool {
    0 <= i < entries.len() && forall|j: int| i < j < entries.len() ==> entries[j].0 != entries[i].0
}

/// The keys of the entries.
pub open spec fn keys_of(entries: Seq<(Seq<char>, u128)>) -> Seq<Seq<char>> {
    entries.map_values(|e: (Seq<char>, u128)| e.0)
}

proof fn lemma_map_of_domain(entries: Seq<(Seq<char>, u128)>)
    ensures
        forall|k: Seq<char>| #[trigger]
            map_of(entries).contains_key(k) <==> keys_of(entries).contains(k),
    decreases entries.len(),
{
    if entries.len() > 0 {
        let init = entries.drop_last();
        lemma_map_of_domain(init);
        assert(map_of(entries) == map_of(init).insert(entries.last().0, entries.last().1));
        assert forall|k: Seq<char>| #[trigger]
            map_of(entries).contains_key(k) <==> keys_of(entries).contains(k) by {
            if k == entries.last().0 {
                assert(keys_of(entries)[entries.len() - 1] == k);
            }
            if keys_of(entries).contains(k) && k != entries.last().0 {
                let i = choose|i: int| 0 <= i < entries.len() && keys_of(entries)[i] == k;
                assert(keys_of(init)[i] == k);
            }
            if keys_of(init).contains(k) {
                let i = choose|i: int| 0 <= i < init.len() && keys_of(init)[i] == k;
                assert(keys_of(entries)[i] == k);
            }
        }
    }
}

proof fn lemma_map_of_last(entries: Seq<(Seq<char>, u128)>, i: int)
    requires
        last_of_key(entries, i),
    ensures
        map_of(entries).contains_key(entries[i].0),
        map_of(entries)[entries[i].0] == entries[i].1,
    decreases entries.len(),
{
    if i < entries.len() - 1 {
        let init = entries.drop_last();
        assert(init[i] == entries[i]);
        lemma_map_of_last(init, i);
    }
}

proof fn lemma_map_of_update(entries: Seq<(Seq<char>, u128)>, i: int, v: u128)
    requires
        last_of_key(entries, i),
    ensures
        map_of(entries.update(i, (entries[i].0, v))) == map_of(entries).insert(entries[i].0, v),
    decreases entries.len(),
{
    let k = entries[i].0;
    let ne = entries.update(i, (k, v));
    let init = entries.drop_last();
    if i == entries.len() - 1 {
        assert(ne.drop_last() =~= init);
        assert(map_of(ne) =~= map_of(entries).insert(k, v));
    } else {
        assert(ne.drop_last() =~= init.update(i, (k, v)));
        assert(init[i] == entries[i]);
        lemma_map_of_update(init, i, v);
        assert(entries.last().0 != k);
        assert(map_of(ne) =~= map_of(entries).insert(k, v));
    }
}

/// A path is new iff the store does not hold it.
pub open spec fn spec_is_new(m: Map<Seq<char>, FileSize>, path: Seq<char>) -> bool {
    !m.contains_key(path)
}

/// A path is modified iff the store holds it with another size.
pub open spec fn spec_is_modify(m: Map<Seq<char>, FileSize>, path: Seq<char>, size: FileSize) -> bool {
    m.contains_key(path) && m[path] != size
}

/// An update writes only where the path is modified.
pub open spec fn spec_update(m: Map<Seq<char>, FileSize>, path: Seq<char>, size: FileSize) -> Map<
    Seq<char>,
    FileSize,
> {
    if spec_is_modify(m, path, size) {
        m.insert(path, size)
    } else {
        m
    }
}

/// An insert writes only where the path is new.
pub open spec fn spec_insert(m: Map<Seq<char>, FileSize>, path: Seq<char>, size: FileSize) -> Map<
    Seq<char>,
    FileSize,
> {
    if spec_is_new(m, path) {
        m.insert(path, size)
    } else {
        m
    }
}

/// Once an insert of a new path, or an update of a modified one, has written
/// a size, the path is neither new nor modified for that size.
pub proof fn lemma_written_path_is_settled(m: Map<Seq<char>, FileSize>, path: Seq<char>, size: FileSize)
    ensures
        spec_is_new(m, path) ==> {
            let after = spec_insert(m, path, size);
            !spec_is_modify(after, path, size) && !spec_is_new(after, path)
        },
        spec_is_modify(m, path, size) ==> {
            let after = spec_update(m, path, size);
            !spec_is_modify(after, path, size) && !spec_is_new(after, path)
        },
{
}

/// Remembers, for each path seen, its last observed size.
#[derive(Debug)]
pub struct FileStore {
    store: Vec<(String, FileSize)>,
}

/// The views of stored entries.
pub open spec fn entry_views(entries: Seq<(String, FileSize)>) -> Seq<(Seq<char>, FileSize)> {
    entries.map_values(|e: (String, FileSize)| (e.0@, e.1))
}

impl View for FileStore {
    type V = Map<Seq<char>, u128>;

    closed spec fn view(&self) -> Map<Seq<char>, u128> {
        map_of(entry_views(self.store@))
    }
}

impl FileStore {
    /// An empty store.
    pub fn new() -> (r: FileStore)
        ensures
            r@ == Map::<Seq<char>, u128>::empty(),
    {
        let r = FileStore { store: Vec::new() };
        assert(entry_views(r.store@) =~= Seq::<(Seq<char>, u128)>::empty());
        r
    }

    /// The index of the last entry of `path`.
    fn find(&self, path: &str) -> (r: Option<usize>)
        ensures
            match r {
                Some(i) => last_of_key(entry_views(self.store@), i as int)
                    && entry_views(self.store@)[i as int].0 == path@,
                None => !self@.contains_key(path@),
            },
    {
        let ghost es = entry_views(self.store@);
        let mut i: usize = self.store.len();
        while i > 0
            invariant
                i <= self.store@.len(),
                es == entry_views(self.store@),
                forall|j: int| i <= j < es.len() ==> es[j].0 != path@,
            decreases i,
        {
            if str_eq(self.store[i - 1].0.as_str(), path) {
                return Some(i - 1);
            }
            i = i - 1;
        }
        proof {
            lemma_map_of_domain(es);
            if keys_of(es).contains(path@) {
                let j = choose|j: int| 0 <= j < es.len() && keys_of(es)[j] == path@;
            }
        }
        None
    }

    /// Whether `path` has never been stored.
    pub fn is_new(&self, path: &str) -> (r: bool)
        ensures
            r == spec_is_new(self@, path@),
    {
        match self.find(path) {
            Some(i) => {
                proof {
                    lemma_map_of_last(entry_views(self.store@), i as int);
                }
                false
            },
            None => true,
        }
    }

    /// Whether `path` is stored with a size other than `filesize`.
    pub fn is_modify(&self, path: &str, filesize: FileSize) -> (r: bool)
        ensures
            r == spec_is_modify(self@, path@, filesize),
    {
        match self.find(path) {
            Some(i) => {
                proof {
                    lemma_map_of_last(entry_views(self.store@), i as int);
                }
                self.store[i].1 != filesize
            },
            None => false,
        }
    }

    /// The size stored for `path`, if any.
    pub fn get(&self, path: &str) -> (r: Option<FileSize>)
        ensures
            match r {
                Some(v) => self@.contains_key(path@) && self@[path@] == v,
                None => !self@.contains_key(path@),
            },
    {
        match self.find(path) {
            Some(i) => {
                proof {
                    lemma_map_of_last(entry_views(self.store@), i as int);
                }
                Some(self.store[i].1)
            },
            None => None,
        }
    }

    /// Records `filesize` for `path` where it is stored with another size.
    pub fn update(&mut self, path: String, filesize: FileSize)
        ensures
            final(self)@ == spec_update(old(self)@, path@, filesize),
    {
        match self.find(path.as_str()) {
            Some(i) => {
                proof {
                    lemma_map_of_last(entry_views(self.store@), i as int);
                }
                if self.store[i].1 != filesize {
                    let ghost es = entry_views(self.store@);
                    proof {
                        lemma_map_of_update(es, i as int, filesize);
                    }
                    self.store.set(i, (path, filesize));
                    assert(entry_views(self.store@) =~= es.update(i as int, (es[i as int].0, filesize)));
                }
            },
            None => {},
        }
    }

    /// Records `filesize` for `path` where `path` is new.
    pub fn insert(&mut self, path: String, filesize: FileSize)
        ensures
            final(self)@ == spec_insert(old(self)@, path@, filesize),
    {
        if self.is_new(path.as_str()) {
            let ghost es = entry_views(self.store@);
            let ghost p = path@;
            self.store.push((path, filesize));
            assert(entry_views(self.store@).drop_last() =~= es);
            assert(entry_views(self.store@).last() == (p, filesize));
        }
    }
}

/// Whether `a` and `b` agree on `k`.
fn agree_on(a: &FileStore, b: &FileStore, k: &str) -> (r: bool)
    ensures
        r == (a@.contains_key(k@) == b@.contains_key(k@) && (a@.contains_key(k@) ==> a@[k@]
            == b@[k@])),
{
    match (a.get(k), b.get(k)) {
        (Some(x), Some(y)) => x == y,
        (None, None) => true,
        _ => false,
    }
}

/// Whether `a` and `b` agree on every key that `a` holds.
fn agree_on_keys_of(a: &FileStore, b: &FileStore) -> (r: bool)
    ensures
        r == forall|k: Seq<char>| #[trigger]
            a@.contains_key(k) ==> b@.contains_key(k) && a@[k] == b@[k],
{
    let ghost es = entry_views(a.store@);
    proof {
        lemma_map_of_domain(es);
    }
    let mut i: usize = 0;
    while i < a.store.len()
        invariant
            i <= a.store@.len(),
            es == entry_views(a.store@),
            forall|k: Seq<char>| #[trigger] a@.contains_key(k) <==> keys_of(es).contains(k),
            forall|j: int|
                0 <= j < i ==> b@.contains_key(#[trigger] keys_of(es)[j]) && a@[keys_of(es)[j]]
                    == b@[keys_of(es)[j]],
        decreases a.store@.len() - i,
    {
        assert(keys_of(es)[i as int] == a.store@[i as int].0@);
        assert(a@.contains_key(keys_of(es)[i as int]));
        if !agree_on(a, b, a.store[i].0.as_str()) {
            return false;
        }
        i = i + 1;
    }
    assert forall|k: Seq<char>| #[trigger] a@.contains_key(k) implies b@.contains_key(k) && a@[k]
        == b@[k] by {
        let j = choose|j: int| 0 <= j < keys_of(es).len() && keys_of(es)[j] == k;
    }
    true
}

impl PartialEq for FileStore {
    fn eq(&self, other: &FileStore) -> (r: bool) {
        let r = agree_on_keys_of(self, other) && agree_on_keys_of(other, self);
        if r {
            assert(self@ =~= other@);
        }
        r
    }
}

impl vstd::std_specs::cmp::PartialEqSpecImpl for FileStore {
    open spec fn obeys_eq_spec() -> bool {
        true
    }

    /// Two stores are equal iff they hold the same sizes.
    open spec fn eq_spec(&self, other: &FileStore) -> bool {
        self@ == other@
    }
}

/// A change store that also keeps lists of paths and extensions to ignore:
/// paths whose extension is on the list are never inserted.
#[derive(Debug)]
pub struct IgnoringFileStore {
    store: FileStore,
    ignore_paths: Vec<String>,
    ignore_extends: Vec<Extension>,
}

impl View for IgnoringFileStore {
    type V = Map<Seq<char>, u128>;

    closed spec fn view(&self) -> Map<Seq<char>, u128> {
        self.store@
    }
}

impl IgnoringFileStore {
    /// The extensions whose paths are never inserted.
    pub closed spec fn ignored_extensions(&self) -> Seq<Extension> {
        self.ignore_extends@
    }

    /// The paths recorded with `add_ignore_path`.
    pub closed spec fn ignored_paths(&self) -> Seq<Seq<char>> {
        views(self.ignore_paths@)
    }

    /// Whether `insert` leaves `path` out for its extension.
    pub open spec fn spec_is_ignored(&self, path: Seq<char>) -> bool {
        self.ignored_extensions().contains(classify_spec(path))
    }

    /// An empty store that ignores nothing.
    pub fn new() -> (r: IgnoringFileStore)
        ensures
            r@ == Map::<Seq<char>, u128>::empty(),
            r.ignored_extensions() == Seq::<Extension>::empty(),
            r.ignored_paths() == Seq::<Seq<char>>::empty(),
    {
        let r = IgnoringFileStore {
            store: FileStore::new(),
            ignore_paths: Vec::new(),
            ignore_extends: Vec::new(),
        };
        assert(views(r.ignore_paths@) =~= Seq::<Seq<char>>::empty());
        r
    }

    /// Whether `path` has never been stored.
    pub fn is_new(&self, path: &str) -> (r: bool)
        ensures
            r == spec_is_new(self@, path@),
    {
        self.store.is_new(path)
    }

    /// Whether `path` is stored with a size other than `filesize`.
    pub fn is_modify(&self, path: &str, filesize: FileSize) -> (r: bool)
        ensures
            r == spec_is_modify(self@, path@, filesize),
    {
        self.store.is_modify(path, filesize)
    }

    /// Whether `insert` leaves `path` out for its extension.
    pub fn is_ignore(&self, path: &str) -> (r: bool)
        ensures
            r == self.spec_is_ignored(path@),
    {
        let kind = Extension::classify(path);
        let mut i: usize = 0;
        while i < self.ignore_extends.len()
            invariant
                i <= self.ignore_extends@.len(),
                kind == classify_spec(path@),
                forall|j: int| 0 <= j < i ==> self.ignore_extends@[j] != kind,
            decreases self.ignore_extends@.len() - i,
        {
            if self.ignore_extends[i] == kind {
                assert(self.ignore_extends@[i as int] == kind);
                return true;
            }
            i = i + 1;
        }
        false
    }

    /// Records `filesize` for `path` where it is stored with another size.
    pub fn update(&mut self, path: String, filesize: FileSize)
        ensures
            final(self)@ == spec_update(old(self)@, path@, filesize),
            final(self).ignored_extensions() == old(self).ignored_extensions(),
            final(self).ignored_paths() == old(self).ignored_paths(),
    {
        self.store.update(path, filesize);
    }

    /// Records `filesize` for `path` where `path` is new and its extension is
    /// not ignored.
    pub fn insert(&mut self, path: String, filesize: FileSize)
        ensures
            final(self)@ == if old(self).spec_is_ignored(path@) {
                old(self)@
            } else {
                spec_insert(old(self)@, path@, filesize)
            },
            final(self).ignored_extensions() == old(self).ignored_extensions(),
            final(self).ignored_paths() == old(self).ignored_paths(),
    {
        if !self.is_ignore(path.as_str()) {
            self.store.insert(path, filesize);
        }
    }

    /// Records a path to ignore.
    pub fn add_ignore_path(&mut self, path: String)
        ensures
            final(self)@ == old(self)@,
            final(self).ignored_paths() == old(self).ignored_paths().push(path@),
            final(self).ignored_extensions() == old(self).ignored_extensions(),
    {
        self.ignore_paths.push(path);
        assert(views(self.ignore_paths@) =~= views(old(self).ignore_paths@).push(path@));
    }

    /// Leaves paths of `extends` out of later inserts.
    pub fn add_ignore_extends(&mut self, extends: Extension)
        ensures
            final(self)@ == old(self)@,
            final(self).ignored_paths() == old(self).ignored_paths(),
            final(self).ignored_extensions() == old(self).ignored_extensions().push(extends),
    {
        self.ignore_extends.push(extends);
    }
}

impl PartialEq for IgnoringFileStore {
    fn eq(&self, other: &IgnoringFileStore) -> (r: bool) {
        if !(self.store == other.store) {
            return false;
        }
        if self.ignore_paths.len() != other.ignore_paths.len() {
            assert(self.ignored_paths().len() != other.ignored_paths().len());
            return false;
        }
        if self.ignore_extends.len() != other.ignore_extends.len() {
            return false;
        }
        let mut i: usize = 0;
        while i < self.ignore_paths.len()
            invariant
                i <= self.ignore_paths@.len() == other.ignore_paths@.len(),
                forall|j: int| 0 <= j < i ==> self.ignore_paths@[j]@ == other.ignore_paths@[j]@,
            decreases self.ignore_paths@.len() - i,
        {
            if !str_eq(self.ignore_paths[i].as_str(), other.ignore_paths[i].as_str()) {
                assert(self.ignored_paths()[i as int] != other.ignored_paths()[i as int]);
                return false;
            }
            i = i + 1;
        }
        assert(self.ignored_paths() =~= other.ignored_paths());
        let mut i: usize = 0;
        while i < self.ignore_extends.len()
            invariant
                i <= self.ignore_extends@.len() == other.ignore_extends@.len(),
                forall|j: int| 0 <= j < i ==> self.ignore_extends@[j] == other.ignore_extends@[j],
            decreases self.ignore_extends@.len() - i,
        {
            if self.ignore_extends[i] != other.ignore_extends[i] {
                return false;
            }
            i = i + 1;
        }
        assert(self.ignored_extensions() =~= other.ignored_extensions());
        true
    }
}

impl vstd::std_specs::cmp::PartialEqSpecImpl for IgnoringFileStore {
    open spec fn obeys_eq_spec() -> bool {
        true
    }

    /// Two stores are equal iff they hold the same sizes and ignore the same
    /// paths and extensions.
    open spec fn eq_spec(&self, other: &IgnoringFileStore) -> bool {
        &&& self@ == other@
        &&& self.ignored_paths() == other.ignored_paths()
        &&& self.ignored_extensions() == other.ignored_extensions()
    }
}

} // verus!
