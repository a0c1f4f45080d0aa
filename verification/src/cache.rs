use vstd::prelude::*;

use crate::assoc::{
    as_map, distinct_keys, lemma_as_map_contains, lemma_as_map_dom_len, lemma_as_map_index,
    lemma_as_map_map_values, lemma_as_map_push, lemma_as_map_take_step, lemma_as_map_update,
    PathKey,
};
use crate::entry::{CacheEntry, CachePayload, EntryModel, FilePayload, PayloadModel};
use crate::paths::TreePath;
use crate::store::{merged_file_row, FileRowModel, Store};

verus! {

/// The entry a write-back leaves in memory: dirty entries are demoted
/// (the dirty bit cleared) and dirty file entries lose their in-memory
/// thumbnail bytes; clean entries are untouched.
pub open spec fn wb_entry(e: EntryModel) -> EntryModel {
    if e.new {
        match e.payload {
            PayloadModel::File { .. } => EntryModel {
                new: false,
                modified: e.modified,
                desc: e.desc,
                payload: PayloadModel::File { data: Seq::<u8>::empty() },
            },
            PayloadModel::Album { .. } => EntryModel {
                new: false,
                modified: e.modified,
                desc: e.desc,
                payload: e.payload,
            },
        }
    } else {
        e
    }
}

/// Whether the cache holds a dirty file entry at `p`; exactly these
/// entries are persisted by a write-back.
pub open spec fn is_dirty_file(c: Map<PathKey, EntryModel>, p: PathKey) -> bool {
    c.contains_key(p) && c[p].new && c[p].payload is File
}

/// The thumbnail bytes of a file entry.
pub open spec fn entry_file_data(e: EntryModel) -> Seq<u8> {
    match e.payload {
        PayloadModel::File { data } => data,
        PayloadModel::Album { .. } => Seq::<u8>::empty(),
    }
}

/// The file table a write-back of cache `c` leaves behind: every dirty
/// file entry is upserted (timestamp and bytes written, a stored caption
/// kept), every other row is untouched.
pub open spec fn wb_files(
    c: Map<PathKey, EntryModel>,
    files: Map<PathKey, FileRowModel>,
) -> Map<PathKey, FileRowModel> {
    Map::new(
        |p: PathKey| files.contains_key(p) || is_dirty_file(c, p),
        |p: PathKey|
            if is_dirty_file(c, p) {
                FileRowModel {
                    modified: c[p].modified,
                    desc: if files.contains_key(p) {
                        files[p].desc
                    } else {
                        None
                    },
                    data: entry_file_data(c[p]),
                }
            } else {
                files[p]
            },
    )
}

/// The entry a wholesale cache clear leaves behind: file entries lose
/// their bytes, album entries and all captions survive.
pub open spec fn cleared_entry(e: EntryModel) -> EntryModel {
    match e.payload {
        PayloadModel::File { .. } => EntryModel {
            new: e.new,
            modified: e.modified,
            desc: e.desc,
            payload: PayloadModel::File { data: Seq::<u8>::empty() },
        },
        PayloadModel::Album { .. } => e,
    }
}

/// The whole cache after a write-back.
pub open spec fn wb_cache(c: Map<PathKey, EntryModel>) -> Map<PathKey, EntryModel> {
    c.map_values(|e: EntryModel| wb_entry(e))
}

/// The whole cache after a wholesale clear.
pub open spec fn cleared_cache(c: Map<PathKey, EntryModel>) -> Map<PathKey, EntryModel> {
    c.map_values(|e: EntryModel| cleared_entry(e))
}

/// Extending the cache with an entry that is not a dirty file changes
/// nothing about what a write-back persists.
proof fn lemma_wb_files_skip(
    c: Map<PathKey, EntryModel>,
    k: PathKey,
    v: EntryModel,
    f0: Map<PathKey, FileRowModel>,
)
    requires
        !c.contains_key(k),
        !(v.new && v.payload is File),
    ensures
        wb_files(c.insert(k, v), f0) == wb_files(c, f0),
{
    let c1 = c.insert(k, v);
    assert forall|p: PathKey| is_dirty_file(c1, p) == is_dirty_file(c, p) by {
        if p != k {
            assert(c1.contains_key(p) == c.contains_key(p));
        }
    }
    assert(wb_files(c1, f0) =~= wb_files(c, f0));
}

/// Extending the cache with a dirty file entry at a fresh path upserts
/// exactly that row.
proof fn lemma_wb_files_dirty(
    c: Map<PathKey, EntryModel>,
    k: PathKey,
    v: EntryModel,
    f0: Map<PathKey, FileRowModel>,
)
    requires
        !c.contains_key(k),
        v.new,
        v.payload is File,
    ensures
        wb_files(c.insert(k, v), f0) == wb_files(c, f0).insert(
            k,
            merged_file_row(wb_files(c, f0), k, v.modified, entry_file_data(v)),
        ),
{
    let c1 = c.insert(k, v);
    let fi = wb_files(c, f0);
    assert forall|p: PathKey| p != k implies is_dirty_file(c1, p) == is_dirty_file(c, p) by {
        assert(c1.contains_key(p) == c.contains_key(p));
    }
    assert(is_dirty_file(c1, k));
    assert(!is_dirty_file(c, k));
    assert(fi.contains_key(k) == f0.contains_key(k));
    if f0.contains_key(k) {
        assert(fi[k] == f0[k]);
    }
    assert(wb_files(c1, f0) =~= fi.insert(k, merged_file_row(fi, k, v.modified, entry_file_data(v))));
}

/// The view of one held row.
pub open spec fn pair_view(p: (TreePath, CacheEntry)) -> (PathKey, EntryModel) {
    (p.0@, p.1@)
}

/// The views of a row sequence.
pub open spec fn entry_pairs(s: Seq<(TreePath, CacheEntry)>) -> Seq<(PathKey, EntryModel)> {
    s.map_values(|p: (TreePath, CacheEntry)| pair_view(p))
}

/// The in-memory cache: one metadata entry per path. Abstractly it is a
/// map from a path to its entry model; a path absent from the map is, for
/// authorization purposes, an unlocked, admin-owned default.
pub struct CacheMap {
    entries: Vec<(TreePath, CacheEntry)>,
}

impl View for CacheMap {
    type V = Map<PathKey, EntryModel>;

    closed spec fn view(&self) -> Map<PathKey, EntryModel> {
        as_map(entry_pairs(self.entries@))
    }
}

impl CacheMap {
    /// The row views, exposed only to this crate's proofs.
    pub closed spec fn pairs(&self) -> Seq<(PathKey, EntryModel)> {
        entry_pairs(self.entries@)
    }

    /// Well-formedness: every path is held by exactly one row.
    pub closed spec fn wf(&self) -> bool {
        distinct_keys(self.pairs())
    }

    pub fn new() -> (r: CacheMap)
        ensures
            r.wf(),
            r@ == Map::<PathKey, EntryModel>::empty(),
    {
        let r = CacheMap { entries: Vec::new() };
        proof {
            assert(r.pairs() =~= Seq::<(PathKey, EntryModel)>::empty());
        }
        r
    }

    /// The index of the row holding `path`, if any.
    fn position(&self, path: &TreePath) -> (r: Option<usize>)
        ensures
            match r {
                Some(i) => i < self.pairs().len() && self.pairs()[i as int].0 == path@,
                None => forall|j: int|
                    0 <= j < self.pairs().len() ==> self.pairs()[j].0 != path@,
            },
    {
        let n = self.entries.len();
        let mut i: usize = 0;
        while i < n
            invariant
                i <= n,
                n == self.entries@.len(),
                forall|j: int| 0 <= j < i ==> self.pairs()[j].0 != path@,
            decreases n - i,
        {
            if self.entries[i].0.eq_path(path) {
                assert(self.pairs()[i as int].0 == path@);
                return Some(i);
            }
            assert(self.pairs()[i as int].0 != path@);
            i = i + 1;
        }
        None
    }

    /// The entry for `path`, if the cache holds one.
    pub fn get(&self, path: &TreePath) -> (r: Option<&CacheEntry>)
        requires
            self.wf(),
        ensures
            match r {
                Some(e) => self@.contains_key(path@) && e@ == self@[path@],
                None => !self@.contains_key(path@),
            },
    {
        proof {
            lemma_as_map_contains(self.pairs(), path@);
        }
        match self.position(path) {
            Some(i) => {
                proof {
                    lemma_as_map_index(self.pairs(), i as int);
                }
                Some(&self.entries[i].1)
            },
            None => None,
        }
    }

    /// Inserts or replaces the entry for `path`.
    pub fn insert(&mut self, path: TreePath, entry: CacheEntry)
        requires
            old(self).wf(),
        ensures
            final(self).wf(),
            final(self)@ == old(self)@.insert(path@, entry@),
    {
        let ghost s0 = self.pairs();
        match self.position(&path) {
            Some(i) => {
                let ghost pv = path@;
                let ghost ev = entry@;
                self.entries.set(i, (path, entry));
                proof {
                    assert(self.pairs() =~= s0.update(i as int, (s0[i as int].0, ev)));
                    lemma_as_map_update(s0, i as int, ev);
                }
            },
            None => {
                let ghost pv = path@;
                let ghost ev = entry@;
                self.entries.push((path, entry));
                proof {
                    assert(self.pairs() =~= s0.push((pv, ev)));
                    lemma_as_map_push(s0, pv, ev);
                }
            },
        }
    }

    /// The number of cached entries.
    pub fn len(&self) -> (r: usize)
        requires
            self.wf(),
        ensures
            r == self@.dom().len(),
    {
        proof {
            lemma_as_map_dom_len(self.pairs());
        }
        self.entries.len()
    }

    /// Persists every dirty entry into the durable store model as one
    /// logical transaction: each dirty file entry is upserted by path,
    /// its in-memory thumbnail bytes are evicted to bound memory, and
    /// every dirty bit is cleared. Album rows are not written here: album
    /// metadata is persisted eagerly at the point of mutation.
    pub fn write_back(&mut self, store: &mut Store)
        requires
            old(self).wf(),
            old(store).wf(),
        ensures
            final(self).wf(),
            final(store).wf(),
            final(self)@ == wb_cache(old(self)@),
            final(store)@.files == wb_files(old(self)@, old(store)@.files),
            final(store)@.albums == old(store)@.albums,
    {
        let ghost s0 = self.pairs();
        let ghost f0 = store@.files;
        let ghost a0 = store@.albums;
        proof {
            assert(s0.take(0) =~= Seq::<(PathKey, EntryModel)>::empty());
            assert(wb_files(as_map(s0.take(0)), f0) =~= f0);
        }
        let n = self.entries.len();
        let mut i: usize = 0;
        while i < n
            invariant
                i <= n,
                n == self.entries@.len(),
                s0.len() == n,
                distinct_keys(s0),
                self.wf(),
                store.wf(),
                self.pairs().len() == n,
                forall|j: int| 0 <= j < n ==> self.pairs()[j].0 == s0[j].0,
                forall|j: int| 0 <= j < i ==> self.pairs()[j].1 == wb_entry(s0[j].1),
                forall|j: int| i <= j < n ==> self.pairs()[j] == s0[j],
                store@.albums == a0,
                store@.files == wb_files(as_map(s0.take(i as int)), f0),
            decreases n - i,
        {
            let ghost k = s0[i as int].0;
            let ghost v = s0[i as int].1;
            let ghost c_i = as_map(s0.take(i as int));
            proof {
                lemma_as_map_take_step(s0, i as int);
            }
            let key_c = self.entries[i].0.clone();
            let e = self.entries[i].1.clone();
            proof {
                assert(key_c@ == k);
                assert(e@ == v);
            }
            if e.new {
                match e.payload {
                    CachePayload::File(fp) => {
                        store.upsert_file_write(&key_c, e.modified, &fp.data);
                        let new_entry = CacheEntry {
                            new: false,
                            modified: e.modified,
                            desc: e.desc,
                            payload: CachePayload::File(FilePayload { data: Vec::new() }),
                        };
                        proof {
                            assert(fp.data@ == entry_file_data(v));
                            lemma_wb_files_dirty(c_i, k, v, f0);
                            assert(store@.files == wb_files(as_map(s0.take(i as int + 1)), f0));
                            assert(new_entry@ =~= wb_entry(v));
                        }
                        let ghost prev = self.pairs();
                        self.entries.set(i, (key_c, new_entry));
                        proof {
                            assert(self.pairs() =~= prev.update(i as int, (k, wb_entry(v))));
                        }
                    },
                    CachePayload::Album(ap) => {
                        let new_entry = CacheEntry {
                            new: false,
                            modified: e.modified,
                            desc: e.desc,
                            payload: CachePayload::Album(ap),
                        };
                        proof {
                            lemma_wb_files_skip(c_i, k, v, f0);
                            assert(store@.files == wb_files(as_map(s0.take(i as int + 1)), f0));
                            assert(new_entry@ =~= wb_entry(v));
                        }
                        let ghost prev = self.pairs();
                        self.entries.set(i, (key_c, new_entry));
                        proof {
                            assert(self.pairs() =~= prev.update(i as int, (k, wb_entry(v))));
                        }
                    },
                }
            } else {
                proof {
                    lemma_wb_files_skip(c_i, k, v, f0);
                    assert(store@.files == wb_files(as_map(s0.take(i as int + 1)), f0));
                    assert(self.pairs()[i as int].1 == wb_entry(s0[i as int].1));
                }
            }
            i = i + 1;
        }
        proof {
            assert(s0.take(n as int) =~= s0);
            lemma_as_map_map_values(s0, self.pairs(), |e: EntryModel| wb_entry(e));
        }
    }

    /// Empties the thumbnail byte buffer of every file entry in place.
    /// Entries are not removed; captions and album entries survive.
    /// Returns the number of entries visited.
    pub fn clear_file_data(&mut self) -> (n: usize)
        requires
            old(self).wf(),
        ensures
            final(self).wf(),
            final(self)@ == cleared_cache(old(self)@),
            n == old(self)@.dom().len(),
    {
        let ghost s0 = self.pairs();
        proof {
            lemma_as_map_dom_len(s0);
        }
        let n = self.entries.len();
        let mut i: usize = 0;
        while i < n
            invariant
                i <= n,
                n == self.entries@.len(),
                s0.len() == n,
                distinct_keys(s0),
                self.wf(),
                self.pairs().len() == n,
                forall|j: int| 0 <= j < n ==> self.pairs()[j].0 == s0[j].0,
                forall|j: int| 0 <= j < i ==> self.pairs()[j].1 == cleared_entry(s0[j].1),
                forall|j: int| i <= j < n ==> self.pairs()[j] == s0[j],
            decreases n - i,
        {
            let key_c = self.entries[i].0.clone();
            let e = self.entries[i].1.clone();
            proof {
                assert(key_c@ == s0[i as int].0);
                assert(e@ == s0[i as int].1);
            }
            match e.payload {
                CachePayload::File(_) => {
                    let new_entry = CacheEntry {
                        new: e.new,
                        modified: e.modified,
                        desc: e.desc,
                        payload: CachePayload::File(FilePayload { data: Vec::new() }),
                    };
                    proof {
                        assert(new_entry@ =~= cleared_entry(s0[i as int].1));
                    }
                    let ghost prev = self.pairs();
                    self.entries.set(i, (key_c, new_entry));
                    proof {
                        assert(self.pairs() =~= prev.update(
                            i as int,
                            (s0[i as int].0, cleared_entry(s0[i as int].1)),
                        ));
                    }
                },
                CachePayload::Album(_) => {
                    proof {
                        assert(cleared_entry(s0[i as int].1) == s0[i as int].1);
                    }
                },
            }
            i = i + 1;
        }
        proof {
            lemma_as_map_map_values(s0, self.pairs(), |e: EntryModel| cleared_entry(e));
        }
        n
    }
}

} // verus!
