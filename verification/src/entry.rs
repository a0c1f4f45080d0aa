use vstd::prelude::*;

verus! {

/// Cached thumbnail bytes for a file path. An empty buffer means the
/// thumbnail is not generated yet, or was evicted by a write-back.
pub struct FilePayload {
    pub data: Vec<u8>,
}

/// Album metadata. An empty `password_hash` means the album is unlocked;
/// this equivalence is the single source of truth for "is this path locked".
pub struct AlbumPayload {
    pub password_hash: String,
    pub owner: usize,
}

/// The kind-specific part of a cache entry. The kind of a path never
/// changes once an entry exists for it.
pub enum CachePayload {
    File(FilePayload),
    Album(AlbumPayload),
}

/// One cached metadata record.
///
/// `new` is the dirty bit: true until the entry is persisted by a
/// write-back. `modified` is the freshness timestamp of the payload, in
/// milliseconds since the Unix epoch.
pub struct CacheEntry {
    pub new: bool,
    pub modified: u64,
    pub desc: Option<String>,
    pub payload: CachePayload,
}

/// Mathematical image of a payload.
#[verifier::ext_equal]
pub enum PayloadModel {
    File { data: Seq<u8> },
    Album { password_hash: Seq<char>, owner: usize },
}

/// Mathematical image of a cache entry.
#[verifier::ext_equal]
pub struct EntryModel {
    pub new: bool,
    pub modified: u64,
    pub desc: Option<Seq<char>>,
    pub payload: PayloadModel,
}

/// The view of an optional description string.
pub open spec fn opt_str_view(d: Option<String>) -> Option<Seq<char>> {
    match d {
        Some(s) => Some(s@),
        None => None,
    }
}

/// Byte-for-byte copy of a thumbnail buffer.
pub fn clone_bytes(v: &Vec<u8>) -> (r: Vec<u8>)
    ensures
        r@ == v@,
{
    let mut r: Vec<u8> = Vec::new();
    let n = v.len();
    let mut i: usize = 0;
    while i < n
        invariant
            i <= n,
            n == v@.len(),
            r@ == v@.take(i as int),
        decreases n - i,
    {
        r.push(v[i]);
        assert(r@ =~= v@.take(i as int + 1));
        i = i + 1;
    }
    assert(v@.take(n as int) =~= v@);
    r
}

/// Copy of an optional description string.
pub fn clone_opt_string(d: &Option<String>) -> (r: Option<String>)
    ensures
        opt_str_view(r) == opt_str_view(*d),
{
    match d {
        Some(s) => Some(s.clone()),
        None => None,
    }
}

impl Clone for CachePayload {
    fn clone(&self) -> (r: Self)
        ensures
            r@ == self@,
    {
        match self {
            CachePayload::File(f) => CachePayload::File(FilePayload { data: clone_bytes(&f.data) }),
            CachePayload::Album(a) => CachePayload::Album(AlbumPayload {
                password_hash: a.password_hash.clone(),
                owner: a.owner,
            }),
        }
    }
}

impl Clone for CacheEntry {
    fn clone(&self) -> (r: Self)
        ensures
            r@ == self@,
    {
        CacheEntry {
            new: self.new,
            modified: self.modified,
            desc: clone_opt_string(&self.desc),
            payload: self.payload.clone(),
        }
    }
}

impl View for CachePayload {
    type V = PayloadModel;

    open spec fn view(&self) -> PayloadModel {
        match self {
            CachePayload::File(f) => PayloadModel::File { data: f.data@ },
            CachePayload::Album(a) => PayloadModel::Album {
                password_hash: a.password_hash@,
                owner: a.owner,
            },
        }
    }
}

impl View for CacheEntry {
    type V = EntryModel;

    open spec fn view(&self) -> EntryModel {
        EntryModel {
            new: self.new,
            modified: self.modified,
            desc: opt_str_view(self.desc),
            payload: self.payload@,
        }
    }
}

impl EntryModel {
    /// An entry is locked exactly when it is an album with a non-empty
    /// password hash.
    pub open spec fn is_locked(self) -> bool {
        match self.payload {
            PayloadModel::Album { password_hash, .. } => password_hash.len() > 0,
            PayloadModel::File { .. } => false,
        }
    }

    /// Only albums have an owner; files are always considered admin-owned.
    pub open spec fn owner(self) -> Option<usize> {
        match self.payload {
            PayloadModel::Album { owner, .. } => Some(owner),
            PayloadModel::File { .. } => None,
        }
    }

    pub open spec fn is_album(self) -> bool {
        self.payload is Album
    }

    pub open spec fn is_file(self) -> bool {
        self.payload is File
    }
}

impl CacheEntry {
    /// A fresh, dirty album entry with no password and the given owner.
    pub fn album_with_owner(owner: usize) -> (r: Self)
        ensures
            r@.new,
            r@.modified == 0,
            r@.desc is None,
            r@.payload == (PayloadModel::Album { password_hash: Seq::<char>::empty(), owner }),
    {
        CacheEntry {
            new: true,
            modified: 0,
            desc: None,
            payload: CachePayload::Album(AlbumPayload { password_hash: String::new(), owner }),
        }
    }

    /// True iff the payload is an album whose password hash is non-empty;
    /// never true for a file entry.
    pub fn is_locked(&self) -> (r: bool)
        ensures
            r == self@.is_locked(),
            r <==> (self@.payload matches PayloadModel::Album { password_hash, .. }
                && password_hash.len() > 0),
    {
        match &self.payload {
            CachePayload::Album(album) => !album.password_hash.as_str().is_empty(),
            CachePayload::File(_) => false,
        }
    }

    /// The album owner, or `None` for a file entry.
    pub fn owner(&self) -> (r: Option<usize>)
        ensures
            r == self@.owner(),
    {
        match &self.payload {
            CachePayload::Album(album) => Some(album.owner),
            CachePayload::File(_) => None,
        }
    }

    /// The stored password hash, or `None` for a file entry.
    pub fn password_hash(&self) -> (r: Option<&String>)
        ensures
            match r {
                Some(h) => self@.payload matches PayloadModel::Album { password_hash, .. }
                    && h@ == password_hash,
                None => self@.is_file(),
            },
    {
        match &self.payload {
            CachePayload::Album(album) => Some(&album.password_hash),
            CachePayload::File(_) => None,
        }
    }
}

} // verus!
