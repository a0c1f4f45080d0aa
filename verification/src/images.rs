use vstd::prelude::*;

use crate::auth::{authorized_path, authorized_path_model, opt_session_view, CheckAuth};
use crate::cache::{cleared_cache, CacheMap};
use crate::entry::{
    clone_bytes, CacheEntry, CachePayload, EntryModel, FilePayload, PayloadModel,
};
use crate::errors::AppError;
use crate::paths::TreePath;
use crate::session::Session;
use crate::store::{cleared_row, desc_file_row, FileRowModel, Store};

verus! {

/// The fixed edge length thumbnails are scaled to.
pub const THUMBNAIL_SIZE: u32 = 100;

/// The JPEG quality thumbnails are encoded with.
pub const JPEG_QUALITY: u8 = 85;

/// The image codec's opaque decoded image.
#[verifier::external_type_specification]
#[verifier::external_body]
pub struct ExDynamicImage(image::DynamicImage);

/// The image codec's error type.
#[verifier::external_type_specification]
#[verifier::external_body]
pub struct ExImageError(image::ImageError);

/// Whether the codec decodes these bytes at all; a pure function of the
/// bytes alone.
pub uninterp spec fn decode_ok(bytes: Seq<u8>) -> bool;

/// The image the codec decodes from these bytes; a pure function of the
/// bytes alone.
pub uninterp spec fn decoded_image_of(bytes: Seq<u8>) -> image::DynamicImage;

/// The bounded downscale of an image; a pure function of image and edge.
pub uninterp spec fn thumb_image_of(img: image::DynamicImage, edge: u32) -> image::DynamicImage;

/// Whether the codec can encode this image as JPEG at this quality.
pub uninterp spec fn jpeg_ok(img: image::DynamicImage, quality: u8) -> bool;

/// The JPEG encoding of an image; a pure function of image and quality.
pub uninterp spec fn jpeg_bytes_of(img: image::DynamicImage, quality: u8) -> Seq<u8>;

/// Relies on image::load_from_memory: decoding reads the bytes alone,
/// and equal bytes decode to the same image.
#[verifier::external_body]
fn decode_image(bytes: &[u8]) -> (r: Result<image::DynamicImage, image::ImageError>)
    ensures
        r is Ok <==> decode_ok(bytes@),
        r matches Ok(img) ==> img == decoded_image_of(bytes@),
{
    image::load_from_memory(bytes)
}

/// Relies on image::DynamicImage::thumbnail: a pure scale-down within
/// the given bounds, depending on image and bounds alone.
#[verifier::external_body]
fn thumbnail_image(img: &image::DynamicImage, edge: u32) -> (r: image::DynamicImage)
    ensures
        r == thumb_image_of(*img, edge),
{
    img.thumbnail(edge, edge)
}

/// Relies on image::DynamicImage::write_to with the JPEG format: the
/// encoded bytes depend on image and quality alone.
#[verifier::external_body]
fn encode_jpeg(img: &image::DynamicImage, quality: u8) -> (r: Result<Vec<u8>, image::ImageError>)
    ensures
        r is Ok <==> jpeg_ok(*img, quality),
        r matches Ok(v) ==> v@ == jpeg_bytes_of(*img, quality),
{
    let mut out: Vec<u8> = Vec::new();
    match img.write_to(&mut std::io::Cursor::new(&mut out), image::ImageOutputFormat::Jpeg(quality)) {
        Ok(()) => Ok(out),
        Err(e) => Err(e),
    }
}

/// Whether the fixed thumbnail pipeline succeeds on these bytes.
pub open spec fn thumb_encode_ok(bytes: Seq<u8>) -> bool {
    decode_ok(bytes) && jpeg_ok(
        thumb_image_of(decoded_image_of(bytes), THUMBNAIL_SIZE),
        JPEG_QUALITY,
    )
}

/// The bytes the fixed thumbnail pipeline produces: decode, scale down
/// to the thumbnail edge, encode as JPEG.
pub open spec fn thumb_jpeg(bytes: Seq<u8>) -> Seq<u8> {
    jpeg_bytes_of(thumb_image_of(decoded_image_of(bytes), THUMBNAIL_SIZE), JPEG_QUALITY)
}

/// Whether a cached timestamp is at least as recent as the filesystem's.
/// A missing modification time counts as fresh: some filesystems keep
/// none, and failing open avoids re-encoding on every request.
pub open spec fn fresh(mtime: Option<u64>, modified: u64) -> bool {
    match mtime {
        Some(t) => t <= modified,
        None => true,
    }
}

/// A filesystem timestamp, or zero where the filesystem offers none.
pub open spec fn mtime_or_zero(m: Option<u64>) -> u64 {
    match m {
        Some(t) => t,
        None => 0,
    }
}

/// What a thumbnail request should do next, decided against the cache
/// and the file's current modification time.
pub enum ThumbDecision {
    /// A fresh file entry exists: serve its bytes, fetching them lazily
    /// from the durable store where the in-memory buffer was evicted.
    Cached,
    /// The entry at this path is an album, which has no thumbnail.
    AlbumEntry,
    /// No entry, or a stale one: decode and encode anew.
    Regenerate,
}

/// Decides between serving the cached thumbnail, refusing (albums have
/// none), and regenerating. All lock-holding work of a thumbnail request
/// happens here; the CPU-bound codec work runs with no lock held.
pub fn thumb_decision(cache: &CacheMap, path: &TreePath, mtime: Option<u64>) -> (r: ThumbDecision)
    requires
        cache.wf(),
    ensures
        match r {
            ThumbDecision::Cached => cache@.contains_key(path@) && fresh(
                mtime,
                cache@[path@].modified,
            ) && cache@[path@].is_file(),
            ThumbDecision::AlbumEntry => cache@.contains_key(path@) && fresh(
                mtime,
                cache@[path@].modified,
            ) && cache@[path@].is_album(),
            ThumbDecision::Regenerate => !cache@.contains_key(path@) || !fresh(
                mtime,
                cache@[path@].modified,
            ),
        },
{
    match cache.get(path) {
        Some(entry) => {
            let is_fresh = match mtime {
                Some(t) => t <= entry.modified,
                None => true,
            };
            if is_fresh {
                match &entry.payload {
                    CachePayload::File(_) => ThumbDecision::Cached,
                    CachePayload::Album(_) => ThumbDecision::AlbumEntry,
                }
            } else {
                ThumbDecision::Regenerate
            }
        },
        None => ThumbDecision::Regenerate,
    }
}

/// Picks the bytes to serve for a fresh cached thumbnail: the durable
/// store's copy when it has one, else the in-memory buffer; empty both
/// ways means the thumbnail must be regenerated after all.
pub fn pick_thumb_bytes(db_data: Vec<u8>, mem_data: &Vec<u8>) -> (r: Option<Vec<u8>>)
    ensures
        match r {
            Some(out) => out@ == (if db_data@.len() > 0 {
                db_data@
            } else {
                mem_data@
            }) && out@.len() > 0,
            None => db_data@.len() == 0 && mem_data@.len() == 0,
        },
{
    if db_data.len() > 0 {
        Some(db_data)
    } else if mem_data.len() > 0 {
        Some(clone_bytes(mem_data))
    } else {
        None
    }
}

/// Runs the codec pipeline on the file's bytes and files the result as a
/// fresh, dirty file entry carrying the filesystem timestamp. On a codec
/// failure nothing is cached, so a bad file is retried fresh on the next
/// request; an album entry is never overwritten by a file entry.
pub fn make_thumbnail(
    cache: &mut CacheMap,
    path: &TreePath,
    file_bytes: &Vec<u8>,
    mtime: Option<u64>,
) -> (r: Result<Vec<u8>, AppError>)
    requires
        old(cache).wf(),
    ensures
        final(cache).wf(),
        match r {
            Ok(out) => {
                &&& !(old(cache)@.contains_key(path@) && old(cache)@[path@].is_album())
                &&& thumb_encode_ok(file_bytes@)
                &&& out@ == thumb_jpeg(file_bytes@)
                &&& final(cache)@ == old(cache)@.insert(
                    path@,
                    EntryModel {
                        new: true,
                        modified: mtime_or_zero(mtime),
                        desc: None,
                        payload: PayloadModel::File { data: thumb_jpeg(file_bytes@) },
                    },
                )
            },
            Err(AppError::NoThumbnail) => {
                &&& old(cache)@.contains_key(path@) && old(cache)@[path@].is_album()
                &&& final(cache)@ == old(cache)@
            },
            Err(AppError::CodecFailure) => {
                &&& !(old(cache)@.contains_key(path@) && old(cache)@[path@].is_album())
                &&& !thumb_encode_ok(file_bytes@)
                &&& final(cache)@ == old(cache)@
            },
            Err(_) => false,
        },
{
    let album_entry = match cache.get(path) {
        Some(e) => match &e.payload {
            CachePayload::Album(_) => true,
            CachePayload::File(_) => false,
        },
        None => false,
    };
    if album_entry {
        return Err(AppError::NoThumbnail);
    }
    let img = match decode_image(file_bytes.as_slice()) {
        Ok(i) => i,
        Err(_) => {
            return Err(AppError::CodecFailure);
        },
    };
    let small = thumbnail_image(&img, THUMBNAIL_SIZE);
    let out = match encode_jpeg(&small, JPEG_QUALITY) {
        Ok(o) => o,
        Err(_) => {
            return Err(AppError::CodecFailure);
        },
    };
    let modified = match mtime {
        Some(t) => t,
        None => 0,
    };
    let entry = CacheEntry {
        new: true,
        modified,
        desc: None,
        payload: CachePayload::File(FilePayload { data: clone_bytes(&out) }),
    };
    cache.insert(path.clone(), entry);
    Ok(out)
}

/// The caption of the entry at `path`, for any caller the ancestor walk
/// admits.
pub fn get_image_desc(cache: &CacheMap, session: Option<&Session>, path: &TreePath) -> (r: Result<
    String,
    AppError,
>)
    requires
        cache.wf(),
    ensures
        match r {
            Ok(d) => {
                &&& authorized_path_model(path@, opt_session_view(session), cache@, CheckAuth::Read)
                &&& cache@.contains_key(path@)
                &&& cache@[path@].desc matches Some(dv) && d@ == dv
            },
            Err(AppError::Forbidden) => !authorized_path_model(
                path@,
                opt_session_view(session),
                cache@,
                CheckAuth::Read,
            ),
            Err(AppError::NotFound) => {
                &&& authorized_path_model(path@, opt_session_view(session), cache@, CheckAuth::Read)
                &&& !cache@.contains_key(path@) || cache@[path@].desc is None
            },
            Err(_) => false,
        },
{
    match authorized_path(path, session, cache, CheckAuth::Read) {
        Ok(()) => {},
        Err(_) => {
            return Err(AppError::Forbidden);
        },
    }
    match cache.get(path) {
        Some(e) => match &e.desc {
            Some(d) => Ok(d.clone()),
            None => Err(AppError::NotFound),
        },
        None => Err(AppError::NotFound),
    }
}

/// The entry a caption change leaves at a path that had entry `e`: only
/// the caption changes, whatever the entry's kind.
pub open spec fn redescribed_entry(e: EntryModel, desc: Seq<char>) -> EntryModel {
    EntryModel { new: e.new, modified: e.modified, desc: Some(desc), payload: e.payload }
}

/// A fresh, dirty file entry created the first time a caption is set on
/// an untracked path.
pub open spec fn fresh_desc_entry(desc: Seq<char>) -> EntryModel {
    EntryModel {
        new: true,
        modified: 0,
        desc: Some(desc),
        payload: PayloadModel::File { data: Seq::<u8>::empty() },
    }
}

/// Sets the caption of the entry at `path` and persists it eagerly to
/// the file table; the caller must pass the ownership walk. A path with
/// no entry gets a fresh file entry; an existing entry of either kind
/// keeps everything but its caption. Only a stored file row is updated
/// for a pre-existing entry; a fresh entry inserts its row.
pub fn set_image_desc(
    cache: &mut CacheMap,
    store: &mut Store,
    session: Option<&Session>,
    path: &TreePath,
    desc: String,
) -> (r: Result<(), AppError>)
    requires
        old(cache).wf(),
        old(store).wf(),
    ensures
        final(cache).wf(),
        final(store).wf(),
        match r {
            Ok(()) => {
                &&& authorized_path_model(
                    path@,
                    opt_session_view(session),
                    old(cache)@,
                    CheckAuth::Ownership,
                )
                &&& if old(cache)@.contains_key(path@) {
                    &&& final(cache)@ == old(cache)@.insert(
                        path@,
                        redescribed_entry(old(cache)@[path@], desc@),
                    )
                    &&& final(store)@.files == (if old(store)@.files.contains_key(path@) {
                        old(store)@.files.insert(
                            path@,
                            FileRowModel { desc: Some(desc@), ..old(store)@.files[path@] },
                        )
                    } else {
                        old(store)@.files
                    })
                } else {
                    &&& final(cache)@ == old(cache)@.insert(path@, fresh_desc_entry(desc@))
                    &&& final(store)@.files == old(store)@.files.insert(
                        path@,
                        desc_file_row(old(store)@.files, path@, 0, Some(desc@)),
                    )
                }
                &&& final(store)@.albums == old(store)@.albums
            },
            Err(AppError::Forbidden) => {
                &&& !authorized_path_model(
                    path@,
                    opt_session_view(session),
                    old(cache)@,
                    CheckAuth::Ownership,
                )
                &&& final(cache)@ == old(cache)@
                &&& final(store)@ == old(store)@
            },
            Err(_) => false,
        },
{
    match authorized_path(path, session, cache, CheckAuth::Ownership) {
        Ok(()) => {},
        Err(_) => {
            return Err(AppError::Forbidden);
        },
    }
    let existing = match cache.get(path) {
        Some(e) => {
            let entry1 = CacheEntry {
                new: e.new,
                modified: e.modified,
                desc: Some(desc.clone()),
                payload: e.payload.clone(),
            };
            Some(entry1)
        },
        None => None,
    };
    match existing {
        Some(entry1) => {
            cache.insert(path.clone(), entry1);
            store.update_file_desc_existing(path, &Some(desc));
        },
        None => {
            let entry1 = CacheEntry {
                new: true,
                modified: 0,
                desc: Some(desc.clone()),
                payload: CachePayload::File(FilePayload { data: Vec::new() }),
            };
            cache.insert(path.clone(), entry1);
            store.set_file_desc(path, 0, &Some(desc));
        },
    }
    Ok(())
}

/// Empties every File thumbnail buffer in memory and nulls the stored
/// blobs, for the admin only; entries, captions and album metadata
/// survive. Returns the number of entries visited.
pub fn clear_cache(cache: &mut CacheMap, store: &mut Store, session: Option<&Session>) -> (r:
    Result<usize, AppError>)
    requires
        old(cache).wf(),
        old(store).wf(),
    ensures
        final(cache).wf(),
        final(store).wf(),
        match r {
            Ok(n) => {
                &&& session matches Some(ss) && ss@.is_admin
                &&& final(cache)@ == cleared_cache(old(cache)@)
                &&& final(store)@.files == old(store)@.files.map_values(
                    |row: FileRowModel| cleared_row(row),
                )
                &&& final(store)@.albums == old(store)@.albums
                &&& n == old(cache)@.dom().len()
            },
            Err(AppError::SessionRequired) => {
                &&& session is None
                &&& final(cache)@ == old(cache)@
                &&& final(store)@ == old(store)@
            },
            Err(AppError::Forbidden) => {
                &&& session matches Some(ss) && !ss@.is_admin
                &&& final(cache)@ == old(cache)@
                &&& final(store)@ == old(store)@
            },
            Err(_) => false,
        },
{
    let ss = match session {
        Some(ss) => ss,
        None => {
            return Err(AppError::SessionRequired);
        },
    };
    if !ss.is_admin {
        return Err(AppError::Forbidden);
    }
    let n = cache.clear_file_data();
    store.clear_file_data();
    Ok(n)
}

} // verus!
