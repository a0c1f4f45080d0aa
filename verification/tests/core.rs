use album_cache::cache::CacheMap;
use album_cache::entry::{AlbumPayload, CacheEntry, CachePayload, FilePayload};
use album_cache::errors::AppError;
use album_cache::images::clear_cache;
use album_cache::paths::TreePath;
use album_cache::session::Session;
use album_cache::store::Store;

fn path(segs: &[&str]) -> TreePath {
    TreePath::from_segs(segs.iter().map(|s| s.to_string()).collect())
}

fn file_entry(dirty: bool, modified: u64, desc: Option<&str>, data: &[u8]) -> CacheEntry {
    CacheEntry {
        new: dirty,
        modified,
        desc: desc.map(|d| d.to_string()),
        payload: CachePayload::File(FilePayload { data: data.to_vec() }),
    }
}

fn album_entry(dirty: bool, hash: &str, owner: usize) -> CacheEntry {
    CacheEntry {
        new: dirty,
        modified: 0,
        desc: None,
        payload: CachePayload::Album(AlbumPayload {
            password_hash: hash.to_string(),
            owner,
        }),
    }
}

fn admin_session() -> Session {
    Session {
        user_id: Some(1),
        is_admin: true,
        auth_dirs: Vec::new(),
    }
}

#[test]
fn locked_iff_nonempty_hash() {
    let unlocked = album_entry(false, "", 1);
    assert!(!unlocked.is_locked());
    let locked = album_entry(false, "abc123", 1);
    assert!(locked.is_locked());
}

#[test]
fn file_never_locked() {
    let f = file_entry(false, 0, None, b"\xff\xd8bytes");
    assert!(!f.is_locked());
    assert_eq!(f.owner(), None);
    assert!(f.password_hash().is_none());
}

#[test]
fn album_owner_and_hash() {
    let a = album_entry(false, "h", 7);
    assert_eq!(a.owner(), Some(7));
    assert_eq!(a.password_hash().unwrap(), "h");
}

#[test]
fn album_with_owner_is_fresh_and_unlocked() {
    let a = CacheEntry::album_with_owner(9);
    assert!(a.new);
    assert_eq!(a.modified, 0);
    assert!(a.desc.is_none());
    assert!(!a.is_locked());
    assert_eq!(a.owner(), Some(9));
}

#[test]
fn cache_insert_and_get() {
    let mut cache = CacheMap::new();
    assert_eq!(cache.len(), 0);
    cache.insert(path(&["a"]), file_entry(true, 5, Some("cap"), b"xy"));
    assert_eq!(cache.len(), 1);
    let e = cache.get(&path(&["a"])).unwrap();
    assert_eq!(e.modified, 5);
    assert_eq!(e.desc.as_deref(), Some("cap"));
    assert!(cache.get(&path(&["b"])).is_none());
    // replacing the same key keeps one entry
    cache.insert(path(&["a"]), file_entry(false, 6, None, b""));
    assert_eq!(cache.len(), 1);
    assert_eq!(cache.get(&path(&["a"])).unwrap().modified, 6);
}

#[test]
fn component_paths_do_not_match_by_string_prefix() {
    let mut cache = CacheMap::new();
    cache.insert(path(&["ab"]), file_entry(false, 1, None, b""));
    assert!(cache.get(&path(&["abc"])).is_none());
    assert!(cache.get(&path(&["ab", "c"])).is_none());
    assert!(cache.get(&path(&["ab"])).is_some());
}

#[test]
fn write_back_round_trip() {
    let mut cache = CacheMap::new();
    let mut store = Store::new();
    let p = path(&["vacation", "photo.jpg"]);
    cache.insert(p.clone(), file_entry(true, 8_640_000_000, None, b"thumbnail-bytes"));
    cache.write_back(&mut store);

    // in memory: demoted and evicted
    let e = cache.get(&p).unwrap();
    assert!(!e.new);
    assert_eq!(e.modified, 8_640_000_000);
    match &e.payload {
        CachePayload::File(f) => assert!(f.data.is_empty()),
        _ => panic!("entry changed kind"),
    }

    // reloading yields the same metadata, clean
    let reloaded = store.load();
    let r = reloaded.get(&p).unwrap();
    assert!(!r.new);
    assert_eq!(r.modified, 8_640_000_000);
    assert_eq!(r.desc, None);

    // the bytes are fetched lazily from the store
    assert_eq!(store.file_data(&p).unwrap(), b"thumbnail-bytes".to_vec());
}

#[test]
fn write_back_keeps_stored_caption() {
    let mut cache = CacheMap::new();
    let mut store = Store::new();
    let p = path(&["pic"]);
    // a caption reaches the store eagerly, before any write-back
    cache.insert(p.clone(), file_entry(false, 0, Some("hello"), b""));
    store.set_file_desc(&p, 0, &Some("hello".to_string()));
    // now the thumbnail is generated and swept
    cache.insert(p.clone(), file_entry(true, 42, Some("hello"), b"jpegdata"));
    cache.write_back(&mut store);
    let reloaded = store.load();
    let r = reloaded.get(&p).unwrap();
    assert_eq!(r.desc.as_deref(), Some("hello"));
    assert_eq!(r.modified, 42);
    assert_eq!(store.file_data(&p).unwrap(), b"jpegdata".to_vec());
}

#[test]
fn write_back_twice_writes_nothing_more() {
    let mut cache = CacheMap::new();
    let mut store = Store::new();
    let p1 = path(&["a"]);
    let p2 = path(&["b"]);
    cache.insert(p1.clone(), file_entry(true, 10, None, b"one"));
    cache.insert(p2.clone(), file_entry(true, 20, None, b"two"));
    cache.write_back(&mut store);

    let after_first_a = store.file_data(&p1).unwrap();
    let after_first_b = store.file_data(&p2).unwrap();
    let e1_modified = cache.get(&p1).unwrap().modified;

    cache.write_back(&mut store);

    // zero additional writes: the store rows and the cache are unchanged
    assert_eq!(store.file_data(&p1).unwrap(), after_first_a);
    assert_eq!(store.file_data(&p2).unwrap(), after_first_b);
    let e1 = cache.get(&p1).unwrap();
    assert!(!e1.new);
    assert_eq!(e1.modified, e1_modified);
}

#[test]
fn dirty_album_is_demoted_but_not_written() {
    let mut cache = CacheMap::new();
    let mut store = Store::new();
    let p = path(&["album"]);
    cache.insert(p.clone(), album_entry(true, "deadbeef", 3));
    cache.write_back(&mut store);
    let e = cache.get(&p).unwrap();
    assert!(!e.new);
    assert!(e.is_locked());
    // the write-back never writes album rows
    assert!(matches!(store.file_data(&p), Err(AppError::NotFound)));
}

#[test]
fn clear_cache_empties_buffers_and_keeps_descriptions() {
    let mut cache = CacheMap::new();
    let mut store = Store::new();
    let p = path(&["pic"]);
    cache.insert(p.clone(), file_entry(false, 7, Some("a caption"), b"bytes-in-memory"));
    store.set_file_desc(&p, 7, &Some("a caption".to_string()));
    cache.insert(path(&["album"]), album_entry(false, "h", 2));

    let admin = admin_session();
    let n = clear_cache(&mut cache, &mut store, Some(&admin)).unwrap();
    assert_eq!(n, 2);

    let e = cache.get(&p).unwrap();
    match &e.payload {
        CachePayload::File(f) => assert!(f.data.is_empty()),
        _ => panic!("entry changed kind"),
    }
    // the description survives the clear
    assert_eq!(e.desc.as_deref(), Some("a caption"));
    // album metadata survives too
    assert!(cache.get(&path(&["album"])).unwrap().is_locked());
}

#[test]
fn clear_cache_needs_admin() {
    let mut cache = CacheMap::new();
    let mut store = Store::new();
    assert!(matches!(
        clear_cache(&mut cache, &mut store, None),
        Err(AppError::SessionRequired)
    ));
    let user = Session {
        user_id: Some(2),
        is_admin: false,
        auth_dirs: Vec::new(),
    };
    assert!(matches!(
        clear_cache(&mut cache, &mut store, Some(&user)),
        Err(AppError::Forbidden)
    ));
}

#[test]
fn load_restores_files_and_albums() {
    let mut cache = CacheMap::new();
    let mut store = Store::new();
    let f = path(&["dir", "img.png"]);
    let a = path(&["dir"]);
    cache.insert(f.clone(), file_entry(true, 99, None, b"zz"));
    cache.write_back(&mut store);
    store.set_album_lock_row(&a, &"hash".to_string(), &Some("trip".to_string()), 4);

    let loaded = store.load();
    let fe = loaded.get(&f).unwrap();
    assert!(!fe.new);
    assert_eq!(fe.modified, 99);
    let ae = loaded.get(&a).unwrap();
    assert!(!ae.new);
    assert!(ae.is_locked());
    assert_eq!(ae.owner(), Some(4));
    assert_eq!(ae.desc.as_deref(), Some("trip"));
}
