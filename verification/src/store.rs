use vstd::prelude::*;

use crate::assoc::{
    as_map, distinct_keys, lemma_as_map_contains, lemma_as_map_index, lemma_as_map_push,
    lemma_as_map_update, PathKey,
};
use crate::cache::CacheMap;
use crate::assoc::lemma_as_map_take_step;
use crate::entry::{clone_bytes, clone_opt_string, opt_str_view, AlbumPayload, CacheEntry, CachePayload, EntryModel, FilePayload, PayloadModel};
use crate::paths::TreePath;

verus! {

/// A row of the durable file table: freshness timestamp (milliseconds
/// since the Unix epoch), optional caption and thumbnail bytes.
pub struct FileRow {
    pub path: TreePath,
    pub modified: u64,
    pub desc: Option<String>,
    pub data: Vec<u8>,
}

/// Mathematical image of a file row, without its key.
#[verifier::ext_equal]
pub struct FileRowModel {
    pub modified: u64,
    pub desc: Option<Seq<char>>,
    pub data: Seq<u8>,
}

impl View for FileRow {
    type V = FileRowModel;

    open spec fn view(&self) -> FileRowModel {
        FileRowModel {
            modified: self.modified,
            desc: opt_str_view(self.desc),
            data: self.data@,
        }
    }
}

/// A row of the durable album table: password hash (empty means
/// unlocked), optional caption and owning user.
pub struct AlbumRow {
    pub path: TreePath,
    pub password_hash: String,
    pub desc: Option<String>,
    pub owner: usize,
}

/// Mathematical image of an album row, without its key.
#[verifier::ext_equal]
pub struct AlbumRowModel {
    pub password_hash: Seq<char>,
    pub desc: Option<Seq<char>>,
    pub owner: usize,
}

impl View for AlbumRow {
    type V = AlbumRowModel;

    open spec fn view(&self) -> AlbumRowModel {
        AlbumRowModel {
            password_hash: self.password_hash@,
            desc: opt_str_view(self.desc),
            owner: self.owner,
        }
    }
}

pub open spec fn file_pairs(s: Seq<FileRow>) -> Seq<(PathKey, FileRowModel)> {
    s.map_values(|r: FileRow| (r.path@, r@))
}

pub open spec fn album_pairs(s: Seq<AlbumRow>) -> Seq<(PathKey, AlbumRowModel)> {
    s.map_values(|r: AlbumRow| (r.path@, r@))
}

/// Mathematical image of the durable store: its two tables, each a map
/// from a path to a row.
#[verifier::ext_equal]
pub struct StoreModel {
    pub files: Map<PathKey, FileRowModel>,
    pub albums: Map<PathKey, AlbumRowModel>,
}

/// The durable row store, modeled as explicit in-memory tables with
/// upsert-by-path semantics. The process boundary (the database file and
/// its SQL dialect) is a collaborator outside this crate; every mutation
/// of this model corresponds to one statement the collaborator executes.
pub struct Store {
    files: Vec<FileRow>,
    albums: Vec<AlbumRow>,
}

impl View for Store {
    type V = StoreModel;

    closed spec fn view(&self) -> StoreModel {
        StoreModel {
            files: as_map(file_pairs(self.files@)),
            albums: as_map(album_pairs(self.albums@)),
        }
    }
}

/// The row an upsert of thumbnail data leaves at `p`: fresh timestamp
/// and bytes, with any already-stored caption kept.
pub open spec fn merged_file_row(
    files: Map<PathKey, FileRowModel>,
    p: PathKey,
    modified: u64,
    data: Seq<u8>,
) -> FileRowModel {
    FileRowModel {
        modified,
        desc: if files.contains_key(p) {
            files[p].desc
        } else {
            None
        },
        data,
    }
}

/// The row a caption upsert leaves at `p`: only the caption changes on an
/// existing row; a fresh row starts with no thumbnail bytes.
pub open spec fn desc_file_row(
    files: Map<PathKey, FileRowModel>,
    p: PathKey,
    modified: u64,
    desc: Option<Seq<char>>,
) -> FileRowModel {
    if files.contains_key(p) {
        FileRowModel { desc, ..files[p] }
    } else {
        FileRowModel { modified, desc, data: Seq::<u8>::empty() }
    }
}

/// A file row with its thumbnail bytes dropped, as the wholesale cache
/// clear leaves every row.
pub open spec fn cleared_row(r: FileRowModel) -> FileRowModel {
    FileRowModel { modified: r.modified, desc: r.desc, data: Seq::<u8>::empty() }
}

/// The row a lock upsert leaves at `p`: only the password hash changes on
/// an existing row.
pub open spec fn locked_album_row(
    albums: Map<PathKey, AlbumRowModel>,
    p: PathKey,
    hash: Seq<char>,
    desc: Option<Seq<char>>,
    owner: usize,
) -> AlbumRowModel {
    if albums.contains_key(p) {
        AlbumRowModel { password_hash: hash, ..albums[p] }
    } else {
        AlbumRowModel { password_hash: hash, desc, owner }
    }
}

/// The row an owner upsert leaves at `p`: only the owner changes on an
/// existing row.
pub open spec fn owned_album_row(
    albums: Map<PathKey, AlbumRowModel>,
    p: PathKey,
    hash: Seq<char>,
    desc: Option<Seq<char>>,
    owner: usize,
) -> AlbumRowModel {
    if albums.contains_key(p) {
        AlbumRowModel { owner, ..albums[p] }
    } else {
        AlbumRowModel { password_hash: hash, desc, owner }
    }
}

/// The entry a startup load builds from a file row: clean, with the
/// stored timestamp and caption. Thumbnail bytes are fetched lazily per
/// request, not restored here, to avoid holding the whole image corpus
/// in memory.
pub open spec fn file_entry_of(r: FileRowModel) -> EntryModel {
    EntryModel {
        new: false,
        modified: r.modified,
        desc: r.desc,
        payload: PayloadModel::File { data: Seq::<u8>::empty() },
    }
}

/// The entry a startup load builds from an album row: clean, with
/// timestamp zero.
pub open spec fn album_entry_of(r: AlbumRowModel) -> EntryModel {
    EntryModel {
        new: false,
        modified: 0,
        desc: r.desc,
        payload: PayloadModel::Album { password_hash: r.password_hash, owner: r.owner },
    }
}

/// The cache a startup load yields: every file row, then every album
/// row; an album row wins where both tables hold a path.
pub open spec fn load_model(s: StoreModel) -> Map<PathKey, EntryModel> {
    s.files.map_values(|r: FileRowModel| file_entry_of(r)).union_prefer_right(
        s.albums.map_values(|r: AlbumRowModel| album_entry_of(r)),
    )
}

impl Store {
    /// Well-formedness: each table holds at most one row per path.
    pub closed spec fn wf(&self) -> bool {
        distinct_keys(file_pairs(self.files@)) && distinct_keys(album_pairs(self.albums@))
    }

    pub fn new() -> (r: Store)
        ensures
            r.wf(),
            r@.files == Map::<PathKey, FileRowModel>::empty(),
            r@.albums == Map::<PathKey, AlbumRowModel>::empty(),
    {
        let r = Store { files: Vec::new(), albums: Vec::new() };
        proof {
            assert(file_pairs(r.files@) =~= Seq::<(PathKey, FileRowModel)>::empty());
            assert(album_pairs(r.albums@) =~= Seq::<(PathKey, AlbumRowModel)>::empty());
        }
        r
    }

    fn file_position(&self, path: &TreePath) -> (r: Option<usize>)
        ensures
            match r {
                Some(i) => i < self.files@.len() && file_pairs(self.files@)[i as int].0 == path@,
                None => forall|j: int|
                    0 <= j < self.files@.len() ==> file_pairs(self.files@)[j].0 != path@,
            },
    {
        let n = self.files.len();
        let mut i: usize = 0;
        while i < n
            invariant
                i <= n,
                n == self.files@.len(),
                forall|j: int| 0 <= j < i ==> file_pairs(self.files@)[j].0 != path@,
            decreases n - i,
        {
            if self.files[i].path.eq_path(path) {
                assert(file_pairs(self.files@)[i as int].0 == path@);
                return Some(i);
            }
            assert(file_pairs(self.files@)[i as int].0 != path@);
            i = i + 1;
        }
        None
    }

    fn album_position(&self, path: &TreePath) -> (r: Option<usize>)
        ensures
            match r {
                Some(i) => i < self.albums@.len() && album_pairs(self.albums@)[i as int].0
                    == path@,
                None => forall|j: int|
                    0 <= j < self.albums@.len() ==> album_pairs(self.albums@)[j].0 != path@,
            },
    {
        let n = self.albums.len();
        let mut i: usize = 0;
        while i < n
            invariant
                i <= n,
                n == self.albums@.len(),
                forall|j: int| 0 <= j < i ==> album_pairs(self.albums@)[j].0 != path@,
            decreases n - i,
        {
            if self.albums[i].path.eq_path(path) {
                assert(album_pairs(self.albums@)[i as int].0 == path@);
                return Some(i);
            }
            assert(album_pairs(self.albums@)[i as int].0 != path@);
            i = i + 1;
        }
        None
    }

    /// Upserts the thumbnail bytes and timestamp for `path`, keeping any
    /// stored caption; one transactional row write of the write-back.
    pub fn upsert_file_write(&mut self, path: &TreePath, modified: u64, data: &Vec<u8>)
        requires
            old(self).wf(),
        ensures
            final(self).wf(),
            final(self)@.files == old(self)@.files.insert(
                path@,
                merged_file_row(old(self)@.files, path@, modified, data@),
            ),
            final(self)@.albums == old(self)@.albums,
    {
        let ghost s0 = file_pairs(self.files@);
        proof {
            lemma_as_map_contains(s0, path@);
        }
        match self.file_position(path) {
            Some(i) => {
                proof {
                    lemma_as_map_index(s0, i as int);
                }
                let desc = clone_opt_string(&self.files[i].desc);
                let row = FileRow { path: path.clone(), modified, desc, data: clone_bytes(data) };
                let ghost rv = row@;
                self.files.set(i, row);
                proof {
                    assert(file_pairs(self.files@) =~= s0.update(i as int, (s0[i as int].0, rv)));
                    lemma_as_map_update(s0, i as int, rv);
                    assert(rv =~= merged_file_row(old(self)@.files, path@, modified, data@));
                }
            },
            None => {
                let row = FileRow { path: path.clone(), modified, desc: None, data: clone_bytes(data) };
                let ghost rv = row@;
                self.files.push(row);
                proof {
                    assert(file_pairs(self.files@) =~= s0.push((path@, rv)));
                    lemma_as_map_push(s0, path@, rv);
                    assert(rv =~= merged_file_row(old(self)@.files, path@, modified, data@));
                }
            },
        }
    }

    /// Upserts the caption for `path` in the file table; the eager
    /// persistence step of a caption change.
    pub fn set_file_desc(&mut self, path: &TreePath, modified: u64, desc: &Option<String>)
        requires
            old(self).wf(),
        ensures
            final(self).wf(),
            final(self)@.files == old(self)@.files.insert(
                path@,
                desc_file_row(old(self)@.files, path@, modified, opt_str_view(*desc)),
            ),
            final(self)@.albums == old(self)@.albums,
    {
        let ghost s0 = file_pairs(self.files@);
        proof {
            lemma_as_map_contains(s0, path@);
        }
        match self.file_position(path) {
            Some(i) => {
                proof {
                    lemma_as_map_index(s0, i as int);
                }
                let row = FileRow {
                    path: path.clone(),
                    modified: self.files[i].modified,
                    desc: clone_opt_string(desc),
                    data: clone_bytes(&self.files[i].data),
                };
                let ghost rv = row@;
                self.files.set(i, row);
                proof {
                    assert(file_pairs(self.files@) =~= s0.update(i as int, (s0[i as int].0, rv)));
                    lemma_as_map_update(s0, i as int, rv);
                    assert(rv =~= desc_file_row(old(self)@.files, path@, modified, opt_str_view(*desc)));
                }
            },
            None => {
                let row = FileRow {
                    path: path.clone(),
                    modified,
                    desc: clone_opt_string(desc),
                    data: Vec::new(),
                };
                let ghost rv = row@;
                self.files.push(row);
                proof {
                    assert(file_pairs(self.files@) =~= s0.push((path@, rv)));
                    lemma_as_map_push(s0, path@, rv);
                    assert(rv =~= desc_file_row(old(self)@.files, path@, modified, opt_str_view(*desc)));
                }
            },
        }
    }

    /// Updates the caption of the file row at `path`, if one is stored;
    /// a path without a row is left alone, as a bare update statement
    /// would leave it.
    pub fn update_file_desc_existing(&mut self, path: &TreePath, desc: &Option<String>)
        requires
            old(self).wf(),
        ensures
            final(self).wf(),
            final(self)@.files == (if old(self)@.files.contains_key(path@) {
                old(self)@.files.insert(
                    path@,
                    FileRowModel { desc: opt_str_view(*desc), ..old(self)@.files[path@] },
                )
            } else {
                old(self)@.files
            }),
            final(self)@.albums == old(self)@.albums,
    {
        let ghost s0 = file_pairs(self.files@);
        proof {
            lemma_as_map_contains(s0, path@);
        }
        match self.file_position(path) {
            Some(i) => {
                proof {
                    lemma_as_map_index(s0, i as int);
                }
                let row = FileRow {
                    path: path.clone(),
                    modified: self.files[i].modified,
                    desc: clone_opt_string(desc),
                    data: clone_bytes(&self.files[i].data),
                };
                let ghost rv = row@;
                self.files.set(i, row);
                proof {
                    assert(file_pairs(self.files@) =~= s0.update(i as int, (s0[i as int].0, rv)));
                    lemma_as_map_update(s0, i as int, rv);
                    assert(rv =~= (FileRowModel {
                        desc: opt_str_view(*desc),
                        ..old(self)@.files[path@]
                    }));
                }
            },
            None => {},
        }
    }

    /// Empties the stored thumbnail bytes of every file row: the bulk
    /// statement issued by the wholesale cache clear.
    pub fn clear_file_data(&mut self)
        requires
            old(self).wf(),
        ensures
            final(self).wf(),
            final(self)@.files == old(self)@.files.map_values(|r: FileRowModel| cleared_row(r)),
            final(self)@.albums == old(self)@.albums,
    {
        let ghost s0 = file_pairs(self.files@);
        let n = self.files.len();
        let mut i: usize = 0;
        while i < n
            invariant
                i <= n,
                n == self.files@.len(),
                s0.len() == n,
                distinct_keys(s0),
                self.wf(),
                file_pairs(self.files@).len() == n,
                forall|j: int| 0 <= j < n ==> file_pairs(self.files@)[j].0 == s0[j].0,
                forall|j: int| 0 <= j < i ==> file_pairs(self.files@)[j].1 == cleared_row(
                    s0[j].1,
                ),
                forall|j: int| i <= j < n ==> file_pairs(self.files@)[j] == s0[j],
                album_pairs(self.albums@) == old(self).spec_album_pairs(),
            decreases n - i,
        {
            let row = FileRow {
                path: self.files[i].path.clone(),
                modified: self.files[i].modified,
                desc: clone_opt_string(&self.files[i].desc),
                data: Vec::new(),
            };
            let ghost prev = file_pairs(self.files@);
            let ghost rv = row@;
            proof {
                assert(rv =~= cleared_row(s0[i as int].1));
            }
            self.files.set(i, row);
            proof {
                assert(file_pairs(self.files@) =~= prev.update(
                    i as int,
                    (s0[i as int].0, cleared_row(s0[i as int].1)),
                ));
            }
            i = i + 1;
        }
        proof {
            crate::assoc::lemma_as_map_map_values(
                s0,
                file_pairs(self.files@),
                |r: FileRowModel| cleared_row(r),
            );
        }
    }

    /// The album rows, exposed only to this crate's proofs.
    pub closed spec fn spec_album_pairs(&self) -> Seq<(PathKey, AlbumRowModel)> {
        album_pairs(self.albums@)
    }

    /// Upserts the password hash for `path` in the album table; the eager
    /// persistence step of setting or clearing a lock.
    pub fn set_album_lock_row(
        &mut self,
        path: &TreePath,
        hash: &String,
        desc: &Option<String>,
        owner: usize,
    )
        requires
            old(self).wf(),
        ensures
            final(self).wf(),
            final(self)@.albums == old(self)@.albums.insert(
                path@,
                locked_album_row(old(self)@.albums, path@, hash@, opt_str_view(*desc), owner),
            ),
            final(self)@.files == old(self)@.files,
    {
        let ghost s0 = album_pairs(self.albums@);
        proof {
            lemma_as_map_contains(s0, path@);
        }
        match self.album_position(path) {
            Some(i) => {
                proof {
                    lemma_as_map_index(s0, i as int);
                }
                let row = AlbumRow {
                    path: path.clone(),
                    password_hash: hash.clone(),
                    desc: clone_opt_string(&self.albums[i].desc),
                    owner: self.albums[i].owner,
                };
                let ghost rv = row@;
                self.albums.set(i, row);
                proof {
                    assert(album_pairs(self.albums@) =~= s0.update(i as int, (s0[i as int].0, rv)));
                    lemma_as_map_update(s0, i as int, rv);
                    assert(rv =~= locked_album_row(
                        old(self)@.albums,
                        path@,
                        hash@,
                        opt_str_view(*desc),
                        owner,
                    ));
                }
            },
            None => {
                let row = AlbumRow {
                    path: path.clone(),
                    password_hash: hash.clone(),
                    desc: clone_opt_string(desc),
                    owner,
                };
                let ghost rv = row@;
                self.albums.push(row);
                proof {
                    assert(album_pairs(self.albums@) =~= s0.push((path@, rv)));
                    lemma_as_map_push(s0, path@, rv);
                    assert(rv =~= locked_album_row(
                        old(self)@.albums,
                        path@,
                        hash@,
                        opt_str_view(*desc),
                        owner,
                    ));
                }
            },
        }
    }

    /// Upserts the owner for `path` in the album table; the eager
    /// persistence step of an ownership change.
    pub fn set_album_owner_row(
        &mut self,
        path: &TreePath,
        hash: &String,
        desc: &Option<String>,
        owner: usize,
    )
        requires
            old(self).wf(),
        ensures
            final(self).wf(),
            final(self)@.albums == old(self)@.albums.insert(
                path@,
                owned_album_row(old(self)@.albums, path@, hash@, opt_str_view(*desc), owner),
            ),
            final(self)@.files == old(self)@.files,
    {
        let ghost s0 = album_pairs(self.albums@);
        proof {
            lemma_as_map_contains(s0, path@);
        }
        match self.album_position(path) {
            Some(i) => {
                proof {
                    lemma_as_map_index(s0, i as int);
                }
                let row = AlbumRow {
                    path: path.clone(),
                    password_hash: self.albums[i].password_hash.clone(),
                    desc: clone_opt_string(&self.albums[i].desc),
                    owner,
                };
                let ghost rv = row@;
                self.albums.set(i, row);
                proof {
                    assert(album_pairs(self.albums@) =~= s0.update(i as int, (s0[i as int].0, rv)));
                    lemma_as_map_update(s0, i as int, rv);
                    assert(rv =~= owned_album_row(
                        old(self)@.albums,
                        path@,
                        hash@,
                        opt_str_view(*desc),
                        owner,
                    ));
                }
            },
            None => {
                let row = AlbumRow {
                    path: path.clone(),
                    password_hash: hash.clone(),
                    desc: clone_opt_string(desc),
                    owner,
                };
                let ghost rv = row@;
                self.albums.push(row);
                proof {
                    assert(album_pairs(self.albums@) =~= s0.push((path@, rv)));
                    lemma_as_map_push(s0, path@, rv);
                    assert(rv =~= owned_album_row(
                        old(self)@.albums,
                        path@,
                        hash@,
                        opt_str_view(*desc),
                        owner,
                    ));
                }
            },
        }
    }

    /// Builds the whole in-memory cache from the durable tables: the
    /// bulk load run once at process start. Every loaded entry is clean.
    pub fn load(&self) -> (c: CacheMap)
        requires
            self.wf(),
        ensures
            c.wf(),
            c@ == load_model(self@),
    {
        let ghost s0f = file_pairs(self.files@);
        let ghost s0a = album_pairs(self.albums@);
        let mut c = CacheMap::new();
        proof {
            assert(s0f.take(0) =~= Seq::<(PathKey, FileRowModel)>::empty());
            assert(Map::<PathKey, FileRowModel>::empty().map_values(
                |r: FileRowModel| file_entry_of(r),
            ) =~= Map::<PathKey, EntryModel>::empty());
        }
        let nf = self.files.len();
        let mut i: usize = 0;
        while i < nf
            invariant
                i <= nf,
                nf == self.files@.len(),
                s0f == file_pairs(self.files@),
                s0f.len() == nf,
                distinct_keys(s0f),
                c.wf(),
                c@ == as_map(s0f.take(i as int)).map_values(|r: FileRowModel| file_entry_of(r)),
            decreases nf - i,
        {
            let row = &self.files[i];
            let entry = CacheEntry {
                new: false,
                modified: row.modified,
                desc: clone_opt_string(&row.desc),
                payload: CachePayload::File(FilePayload { data: Vec::new() }),
            };
            let p = row.path.clone();
            let ghost k = s0f[i as int].0;
            let ghost rv = s0f[i as int].1;
            proof {
                lemma_as_map_take_step(s0f, i as int);
                assert(*row == self.files@[i as int]);
                assert(file_pairs(self.files@)[i as int]
                    == (self.files@[i as int].path@, self.files@[i as int]@));
                assert(s0f[i as int] == (self.files@[i as int].path@, self.files@[i as int]@));
                assert(p@ == k);
                assert(entry@ =~= file_entry_of(rv));
            }
            c.insert(p, entry);
            proof {
                assert(as_map(s0f.take(i as int + 1)).map_values(
                    |r: FileRowModel| file_entry_of(r),
                ) =~= as_map(s0f.take(i as int)).map_values(
                    |r: FileRowModel| file_entry_of(r),
                ).insert(k, file_entry_of(rv)));
            }
            i = i + 1;
        }
        let ghost fm = as_map(s0f).map_values(|r: FileRowModel| file_entry_of(r));
        proof {
            assert(s0f.take(nf as int) =~= s0f);
            assert(s0a.take(0) =~= Seq::<(PathKey, AlbumRowModel)>::empty());
            assert(Map::<PathKey, AlbumRowModel>::empty().map_values(
                |r: AlbumRowModel| album_entry_of(r),
            ) =~= Map::<PathKey, EntryModel>::empty());
            assert(fm.union_prefer_right(
                Map::<PathKey, AlbumRowModel>::empty().map_values(
                    |r: AlbumRowModel| album_entry_of(r),
                ),
            ) =~= fm);
        }
        let na = self.albums.len();
        let mut j: usize = 0;
        while j < na
            invariant
                j <= na,
                na == self.albums@.len(),
                s0a == album_pairs(self.albums@),
                s0a.len() == na,
                distinct_keys(s0a),
                c.wf(),
                c@ == fm.union_prefer_right(
                    as_map(s0a.take(j as int)).map_values(|r: AlbumRowModel| album_entry_of(r)),
                ),
            decreases na - j,
        {
            let row = &self.albums[j];
            let entry = CacheEntry {
                new: false,
                modified: 0,
                desc: clone_opt_string(&row.desc),
                payload: CachePayload::Album(AlbumPayload {
                    password_hash: row.password_hash.clone(),
                    owner: row.owner,
                }),
            };
            let p = row.path.clone();
            let ghost k = s0a[j as int].0;
            let ghost rv = s0a[j as int].1;
            proof {
                lemma_as_map_take_step(s0a, j as int);
                assert(*row == self.albums@[j as int]);
                assert(album_pairs(self.albums@)[j as int]
                    == (self.albums@[j as int].path@, self.albums@[j as int]@));
                assert(s0a[j as int] == (self.albums@[j as int].path@, self.albums@[j as int]@));
                assert(p@ == k);
                assert(entry@ =~= album_entry_of(rv));
            }
            c.insert(p, entry);
            proof {
                let am0 = as_map(s0a.take(j as int)).map_values(
                    |r: AlbumRowModel| album_entry_of(r),
                );
                let am1 = as_map(s0a.take(j as int + 1)).map_values(
                    |r: AlbumRowModel| album_entry_of(r),
                );
                assert(am1 =~= am0.insert(k, album_entry_of(rv)));
                assert(fm.union_prefer_right(am1) =~= fm.union_prefer_right(am0).insert(
                    k,
                    album_entry_of(rv),
                ));
            }
            j = j + 1;
        }
        proof {
            assert(s0a.take(na as int) =~= s0a);
        }
        c
    }

    /// The file rows as stored, for a caller that mirrors them row by
    /// row into the durable medium.
    pub fn file_rows(&self) -> (r: &Vec<FileRow>)
        ensures
            as_map(file_pairs(r@)) == self@.files,
    {
        &self.files
    }

    /// The album rows as stored, for a caller that mirrors them row by
    /// row into the durable medium.
    pub fn album_rows(&self) -> (r: &Vec<AlbumRow>)
        ensures
            as_map(album_pairs(r@)) == self@.albums,
    {
        &self.albums
    }

    /// The stored thumbnail bytes for `path`; the lazy per-request fetch.
    pub fn file_data(&self, path: &TreePath) -> (r: Result<Vec<u8>, crate::errors::AppError>)
        requires
            self.wf(),
        ensures
            match r {
                Ok(d) => self@.files.contains_key(path@) && d@ == self@.files[path@].data,
                Err(e) => !self@.files.contains_key(path@) && e == crate::errors::AppError::NotFound,
            },
    {
        proof {
            lemma_as_map_contains(file_pairs(self.files@), path@);
        }
        match self.file_position(path) {
            Some(i) => {
                proof {
                    lemma_as_map_index(file_pairs(self.files@), i as int);
                }
                Ok(clone_bytes(&self.files[i].data))
            },
            None => Err(crate::errors::AppError::NotFound),
        }
    }
}

} // verus!
