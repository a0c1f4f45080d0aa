use vstd::prelude::*;

use crate::auth::{authorized_path, authorized_path_model, opt_session_view, CheckAuth};
use crate::cache::CacheMap;
use crate::digest::{sha256_hex, sha256_hex_of};
use crate::entry::{
    clone_opt_string, AlbumPayload, CacheEntry, CachePayload, EntryModel, PayloadModel,
};
use crate::errors::AppError;
use crate::paths::TreePath;
use crate::session::Session;
use crate::store::{locked_album_row, owned_album_row, Store};

verus! {

/// The user id every untracked path is owned by.
pub const ADMIN_USER_ID: usize = 1;

/// The hash stored when a lock is set: empty for an empty password
/// (which unlocks the album), else the password's digest.
pub open spec fn lock_hash(password: Seq<u8>) -> Seq<char> {
    if password.len() == 0 {
        Seq::<char>::empty()
    } else {
        sha256_hex_of(password)
    }
}

/// The album entry a lock upsert leaves in the cache at a path that had
/// an album entry `e`: only the password hash changes.
pub open spec fn relocked_entry(e: EntryModel, hash: Seq<char>) -> EntryModel {
    EntryModel {
        new: e.new,
        modified: e.modified,
        desc: e.desc,
        payload: match e.payload {
            PayloadModel::Album { owner, .. } => PayloadModel::Album { password_hash: hash, owner },
            PayloadModel::File { data } => PayloadModel::File { data },
        },
    }
}

/// A fresh, dirty album entry with the given hash and owner, as created
/// the first time a lock is set on an untracked path.
pub open spec fn fresh_album_entry(hash: Seq<char>, owner: usize) -> EntryModel {
    EntryModel {
        new: true,
        modified: 0,
        desc: None,
        payload: PayloadModel::Album { password_hash: hash, owner },
    }
}

/// Sets or clears the password lock of the album at `path` and persists
/// it eagerly. The caller must be logged in, and — unless admin — must
/// own every tracked ancestor. A path with no entry gets a fresh album
/// entry owned by the caller; a file entry cannot be locked.
pub fn set_album_lock(
    cache: &mut CacheMap,
    store: &mut Store,
    session: Option<&Session>,
    path: &TreePath,
    password: &[u8],
) -> (r: Result<(), AppError>)
    requires
        old(cache).wf(),
        old(store).wf(),
    ensures
        final(cache).wf(),
        final(store).wf(),
        match r {
            Ok(()) => {
                &&& session matches Some(ss) && ss@.user_id is Some
                &&& {
                    let u = opt_session_view(session).unwrap().user_id.unwrap();
                    let hash = lock_hash(password@);
                    &&& (opt_session_view(session).unwrap().is_admin || authorized_path_model(
                        path@,
                        opt_session_view(session),
                        old(cache)@,
                        CheckAuth::Ownership,
                    ))
                    &&& old(cache)@.contains_key(path@) ==> old(cache)@[path@].is_album()
                    &&& {
                        let e1 = if old(cache)@.contains_key(path@) {
                            relocked_entry(old(cache)@[path@], hash)
                        } else {
                            fresh_album_entry(hash, u)
                        };
                        &&& final(cache)@ == old(cache)@.insert(path@, e1)
                        &&& final(store)@.albums == old(store)@.albums.insert(
                            path@,
                            locked_album_row(old(store)@.albums, path@, hash, e1.desc, u),
                        )
                        &&& final(store)@.files == old(store)@.files
                    }
                }
            },
            Err(AppError::SessionRequired) => {
                &&& session is None
                &&& final(cache)@ == old(cache)@
                &&& final(store)@ == old(store)@
            },
            Err(AppError::NotLoggedIn) => {
                &&& session matches Some(ss) && ss@.user_id is None
                &&& final(cache)@ == old(cache)@
                &&& final(store)@ == old(store)@
            },
            Err(AppError::Forbidden) => {
                &&& session matches Some(ss) && ss@.user_id is Some && !ss@.is_admin
                &&& !authorized_path_model(
                    path@,
                    opt_session_view(session),
                    old(cache)@,
                    CheckAuth::Ownership,
                )
                &&& final(cache)@ == old(cache)@
                &&& final(store)@ == old(store)@
            },
            Err(AppError::NotAnAlbum) => {
                &&& old(cache)@.contains_key(path@) && old(cache)@[path@].is_file()
                &&& final(cache)@ == old(cache)@
                &&& final(store)@ == old(store)@
            },
            Err(_) => false,
        },
{
    let ss = match session {
        Some(ss) => ss,
        None => {
            return Err(AppError::SessionRequired);
        },
    };
    let user_id = match ss.user_id {
        Some(u) => u,
        None => {
            return Err(AppError::NotLoggedIn);
        },
    };
    if !ss.is_admin {
        match authorized_path(path, session, cache, CheckAuth::Ownership) {
            Ok(()) => {},
            Err(_) => {
                return Err(AppError::Forbidden);
            },
        }
    }
    let hash = if password.len() == 0 {
        String::new()
    } else {
        sha256_hex(password)
    };
    let (entry1, desc_row) = match cache.get(path) {
        Some(e) => match &e.payload {
            CachePayload::Album(a) => {
                let d = clone_opt_string(&e.desc);
                let entry1 = CacheEntry {
                    new: e.new,
                    modified: e.modified,
                    desc: clone_opt_string(&e.desc),
                    payload: CachePayload::Album(AlbumPayload {
                        password_hash: hash.clone(),
                        owner: a.owner,
                    }),
                };
                (entry1, d)
            },
            CachePayload::File(_) => {
                return Err(AppError::NotAnAlbum);
            },
        },
        None => {
            let entry1 = CacheEntry {
                new: true,
                modified: 0,
                desc: None,
                payload: CachePayload::Album(AlbumPayload {
                    password_hash: hash.clone(),
                    owner: user_id,
                }),
            };
            (entry1, None)
        },
    };
    cache.insert(path.clone(), entry1);
    store.set_album_lock_row(path, &hash, &desc_row, user_id);
    Ok(())
}

/// The owner of the album at `path`, or the admin default for a path
/// with no entry or with a file entry. Readable by any caller the
/// ancestor walk admits.
pub fn get_owner(cache: &CacheMap, session: Option<&Session>, path: &TreePath) -> (r: Result<
    usize,
    AppError,
>)
    requires
        cache.wf(),
    ensures
        match r {
            Ok(o) => {
                &&& session is Some
                &&& (opt_session_view(session).unwrap().is_admin || authorized_path_model(
                    path@,
                    opt_session_view(session),
                    cache@,
                    CheckAuth::Read,
                ))
                &&& o == (if cache@.contains_key(path@) {
                    match cache@[path@].owner() {
                        Some(ow) => ow,
                        None => ADMIN_USER_ID,
                    }
                } else {
                    ADMIN_USER_ID
                })
            },
            Err(AppError::SessionRequired) => session is None,
            Err(AppError::Forbidden) => {
                &&& session matches Some(ss) && !ss@.is_admin
                &&& !authorized_path_model(
                    path@,
                    opt_session_view(session),
                    cache@,
                    CheckAuth::Read,
                )
            },
            Err(_) => false,
        },
{
    let ss = match session {
        Some(ss) => ss,
        None => {
            return Err(AppError::SessionRequired);
        },
    };
    if !ss.is_admin {
        match authorized_path(path, session, cache, CheckAuth::Read) {
            Ok(()) => {},
            Err(_) => {
                return Err(AppError::Forbidden);
            },
        }
    }
    match cache.get(path) {
        Some(e) => match e.owner() {
            Some(o) => Ok(o),
            None => Ok(ADMIN_USER_ID),
        },
        None => Ok(ADMIN_USER_ID),
    }
}

/// The album entry an ownership change leaves in the cache: only the
/// owner changes.
pub open spec fn reowned_entry(e: EntryModel, owner: usize) -> EntryModel {
    EntryModel {
        new: e.new,
        modified: e.modified,
        desc: e.desc,
        payload: match e.payload {
            PayloadModel::Album { password_hash, .. } => PayloadModel::Album {
                password_hash,
                owner,
            },
            PayloadModel::File { data } => PayloadModel::File { data },
        },
    }
}

/// Transfers ownership of the album at `path` and persists it eagerly.
/// Only the admin may change owners. A path with no entry gets a fresh
/// unlocked album entry owned by the new owner; a file entry cannot
/// carry an owner.
pub fn set_owner(
    cache: &mut CacheMap,
    store: &mut Store,
    session: Option<&Session>,
    path: &TreePath,
    new_owner: usize,
) -> (r: Result<(), AppError>)
    requires
        old(cache).wf(),
        old(store).wf(),
    ensures
        final(cache).wf(),
        final(store).wf(),
        match r {
            Ok(()) => {
                &&& session matches Some(ss) && ss@.is_admin
                &&& old(cache)@.contains_key(path@) ==> old(cache)@[path@].is_album()
                &&& {
                    let e1 = if old(cache)@.contains_key(path@) {
                        reowned_entry(old(cache)@[path@], new_owner)
                    } else {
                        fresh_album_entry(Seq::<char>::empty(), new_owner)
                    };
                    &&& final(cache)@ == old(cache)@.insert(path@, e1)
                    &&& final(store)@.albums == old(store)@.albums.insert(
                        path@,
                        owned_album_row(
                            old(store)@.albums,
                            path@,
                            match e1.payload {
                                PayloadModel::Album { password_hash, .. } => password_hash,
                                PayloadModel::File { .. } => Seq::<char>::empty(),
                            },
                            e1.desc,
                            new_owner,
                        ),
                    )
                    &&& final(store)@.files == old(store)@.files
                }
            },
            Err(AppError::SessionRequired) => {
                &&& session is None
                &&& final(cache)@ == old(cache)@
                &&& final(store)@ == old(store)@
            },
            Err(AppError::Forbidden) => {
                &&& session matches Some(ss) && !ss@.is_admin
                &&& final(cache)@ == old(cache)@
                &&& final(store)@ == old(store)@
            },
            Err(AppError::NotAnAlbum) => {
                &&& old(cache)@.contains_key(path@) && old(cache)@[path@].is_file()
                &&& final(cache)@ == old(cache)@
                &&& final(store)@ == old(store)@
            },
            Err(_) => false,
        },
{
    let ss = match session {
        Some(ss) => ss,
        None => {
            return Err(AppError::SessionRequired);
        },
    };
    if !ss.is_admin {
        return Err(AppError::Forbidden);
    }
    let (entry1, hash_row, desc_row) = match cache.get(path) {
        Some(e) => match &e.payload {
            CachePayload::Album(a) => {
                let d = clone_opt_string(&e.desc);
                let h = a.password_hash.clone();
                let entry1 = CacheEntry {
                    new: e.new,
                    modified: e.modified,
                    desc: clone_opt_string(&e.desc),
                    payload: CachePayload::Album(AlbumPayload {
                        password_hash: a.password_hash.clone(),
                        owner: new_owner,
                    }),
                };
                (entry1, h, d)
            },
            CachePayload::File(_) => {
                return Err(AppError::NotAnAlbum);
            },
        },
        None => {
            let entry1 = CacheEntry {
                new: true,
                modified: 0,
                desc: None,
                payload: CachePayload::Album(AlbumPayload {
                    password_hash: String::new(),
                    owner: new_owner,
                }),
            };
            (entry1, String::new(), None)
        },
    };
    cache.insert(path.clone(), entry1);
    store.set_album_owner_row(path, &hash_row, &desc_row, new_owner);
    Ok(())
}

} // verus!
