use vstd::prelude::*;

use crate::assoc::PathKey;
use crate::auth::{
    ancestor_ok, authorized_path_model, is_admin_opt, owner_matches, CheckAuth,
};
use crate::cache::{entry_file_data, is_dirty_file, wb_cache, wb_entry, wb_files};
use crate::entry::{EntryModel, PayloadModel};
use crate::session::SessionModel;
use crate::store::{load_model, AlbumRowModel, FileRowModel, StoreModel};

verus! {

/// Locking an ancestor locks everything beneath it: when any prefix of a
/// path holds a locked entry, a caller that is not admin, does not own
/// that entry, and has not unlocked it is denied on the whole path —
/// whatever the other ancestors, and for either check strength.
pub proof fn lemma_locked_ancestor_denies(
    path: PathKey,
    k: int,
    s: Option<SessionModel>,
    c: Map<PathKey, EntryModel>,
    check: CheckAuth,
)
    requires
        1 <= k <= path.len(),
        c.contains_key(path.take(k)),
        c[path.take(k)].is_locked(),
        !is_admin_opt(s),
        s matches Some(ss) ==> !owner_matches(c[path.take(k)], ss),
        s matches Some(ss) ==> !ss.auth_dirs.contains(path.take(k)),
    ensures
        !authorized_path_model(path, s, c, check),
{
    assert(!ancestor_ok(path, k, s, c, check));
}

/// A temporary password authorization never substitutes for ownership: a
/// session that has unlocked a locked path but is neither admin nor its
/// owner still fails the ownership check on that path.
pub proof fn lemma_temp_auth_no_ownership(
    path: PathKey,
    s: SessionModel,
    c: Map<PathKey, EntryModel>,
)
    requires
        path.len() >= 1,
        c.contains_key(path),
        c[path].is_locked(),
        !s.is_admin,
        !owner_matches(c[path], s),
        s.auth_dirs.contains(path),
    ensures
        !authorized_path_model(path, Some(s), c, CheckAuth::Ownership),
{
    assert(path.take(path.len() as int) =~= path);
    assert(!ancestor_ok(path, path.len() as int, Some(s), c, CheckAuth::Ownership));
}

/// Round trip of the write-back: persisting a dirty file entry and
/// reloading the cache from the durable store yields exactly the entry
/// the write-back left in memory — same timestamp, same caption, clean —
/// and the stored row carries the entry's thumbnail bytes, which the
/// lazy per-request fetch returns.
///
/// The caption agreement between entry and stored row is a standing
/// invariant of this crate (captions are persisted eagerly at the point
/// of mutation, never by the write-back); a path shadowed by an album
/// row cannot reload as a file entry, and no operation of this crate
/// files one path in both tables.
pub proof fn lemma_write_back_round_trip(
    c: Map<PathKey, EntryModel>,
    f: Map<PathKey, FileRowModel>,
    a: Map<PathKey, AlbumRowModel>,
    p: PathKey,
)
    requires
        is_dirty_file(c, p),
        !a.contains_key(p),
        f.contains_key(p) ==> f[p].desc == c[p].desc,
        !f.contains_key(p) ==> c[p].desc is None,
    ensures
        wb_files(c, f).contains_key(p),
        wb_files(c, f)[p].data == entry_file_data(c[p]),
        wb_files(c, f)[p].modified == c[p].modified,
        load_model(StoreModel { files: wb_files(c, f), albums: a }).contains_key(p),
        load_model(StoreModel { files: wb_files(c, f), albums: a })[p] == wb_cache(c)[p],
        !wb_cache(c)[p].new,
        wb_cache(c)[p].modified == c[p].modified,
        wb_cache(c)[p].desc == c[p].desc,
{
    let fw = wb_files(c, f);
    assert(fw.contains_key(p));
    assert(fw[p] == (FileRowModel {
        modified: c[p].modified,
        desc: if f.contains_key(p) {
            f[p].desc
        } else {
            None
        },
        data: entry_file_data(c[p]),
    }));
    let reloaded = load_model(StoreModel { files: fw, albums: a });
    assert(reloaded.contains_key(p));
    assert(reloaded[p] == (EntryModel {
        new: false,
        modified: c[p].modified,
        desc: fw[p].desc,
        payload: PayloadModel::File { data: Seq::<u8>::empty() },
    }));
    assert(wb_cache(c)[p] == wb_entry(c[p]));
    assert(reloaded[p] =~= wb_cache(c)[p]);
}

/// Idempotence of the write-back: running it twice in a row with no
/// intervening mutation performs zero additional writes — the second run
/// finds no dirty entry, leaves the durable file table exactly as the
/// first run left it, and leaves the cache unchanged.
pub proof fn lemma_write_back_idempotent(c: Map<PathKey, EntryModel>, f: Map<PathKey, FileRowModel>)
    ensures
        forall|p: PathKey| !is_dirty_file(wb_cache(c), p),
        wb_cache(wb_cache(c)) == wb_cache(c),
        wb_files(wb_cache(c), wb_files(c, f)) == wb_files(c, f),
{
    let c1 = wb_cache(c);
    assert forall|p: PathKey| !is_dirty_file(c1, p) by {
        if c1.contains_key(p) {
            assert(c1[p] == wb_entry(c[p]));
            assert(!c1[p].new);
        }
    }
    assert forall|p: PathKey| #[trigger] c1.contains_key(p) implies wb_entry(c1[p]) == c1[p] by {
        assert(c1[p] == wb_entry(c[p]));
    }
    assert(wb_cache(c1) =~= c1);
    assert(wb_files(c1, wb_files(c, f)) =~= wb_files(c, f));
}

} // verus!
