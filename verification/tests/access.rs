use album_cache::albums::{get_owner, set_album_lock, set_owner};
use album_cache::auth::{authorized, authorized_path, validate_path, CheckAuth};
use album_cache::cache::CacheMap;
use album_cache::entry::{AlbumPayload, CacheEntry, CachePayload, FilePayload};
use album_cache::errors::AppError;
use album_cache::images::{get_image_desc, set_image_desc};
use album_cache::paths::TreePath;
use album_cache::session::{Session, Sessions, UserRow};
use album_cache::store::Store;

fn path(segs: &[&str]) -> TreePath {
    TreePath::from_segs(segs.iter().map(|s| s.to_string()).collect())
}

fn locked_album(hash: &str, owner: usize) -> CacheEntry {
    CacheEntry {
        new: false,
        modified: 0,
        desc: None,
        payload: CachePayload::Album(AlbumPayload {
            password_hash: hash.to_string(),
            owner,
        }),
    }
}

fn plain_file() -> CacheEntry {
    CacheEntry {
        new: false,
        modified: 0,
        desc: None,
        payload: CachePayload::File(FilePayload { data: Vec::new() }),
    }
}

fn session(user: Option<usize>, admin: bool, dirs: &[&[&str]]) -> Session {
    Session {
        user_id: user,
        is_admin: admin,
        auth_dirs: dirs.iter().map(|d| path(d)).collect(),
    }
}

#[test]
fn unlocked_entry_is_open_to_anyone() {
    let e = locked_album("", 1);
    assert!(authorized(&path(&["a"]), &e, None, CheckAuth::Read).is_ok());
}

#[test]
fn locked_entry_denies_anonymous() {
    let e = locked_album("h", 1);
    assert!(authorized(&path(&["a"]), &e, None, CheckAuth::Read).is_err());
}

#[test]
fn admin_passes_any_lock() {
    let e = locked_album("h", 1);
    let s = session(None, true, &[]);
    assert!(authorized(&path(&["a"]), &e, Some(&s), CheckAuth::Ownership).is_ok());
}

#[test]
fn owner_passes_both_strengths() {
    let e = locked_album("h", 5);
    let s = session(Some(5), false, &[]);
    assert!(authorized(&path(&["a"]), &e, Some(&s), CheckAuth::Read).is_ok());
    assert!(authorized(&path(&["a"]), &e, Some(&s), CheckAuth::Ownership).is_ok());
}

#[test]
fn temp_auth_grants_read_only_on_that_path() {
    let e = locked_album("h", 5);
    let s = session(Some(6), false, &[&["a"]]);
    assert!(authorized(&path(&["a"]), &e, Some(&s), CheckAuth::Read).is_ok());
    assert!(authorized(&path(&["b"]), &e, Some(&s), CheckAuth::Read).is_err());
}

#[test]
fn locked_ancestor_denies_descendant() {
    // /a is locked; /a/b and /a/b/c themselves have no entries
    let mut cache = CacheMap::new();
    cache.insert(path(&["a"]), locked_album("h", 1));
    let s = session(Some(6), false, &[]);
    let r = authorized_path(&path(&["a", "b", "c"]), Some(&s), &cache, CheckAuth::Read);
    assert!(matches!(r, Err(AppError::Forbidden)));
    // anonymous is denied as well
    let r2 = authorized_path(&path(&["a", "b", "c"]), None, &cache, CheckAuth::Read);
    assert!(matches!(r2, Err(AppError::Forbidden)));
}

#[test]
fn temp_auth_never_substitutes_for_ownership() {
    let mut cache = CacheMap::new();
    cache.insert(path(&["a"]), locked_album("h", 1));
    let s = session(Some(6), false, &[&["a"]]);
    // read passes thanks to the temporary authorization
    assert!(authorized_path(&path(&["a"]), Some(&s), &cache, CheckAuth::Read).is_ok());
    // ownership still fails
    let r = authorized_path(&path(&["a"]), Some(&s), &cache, CheckAuth::Ownership);
    assert!(matches!(r, Err(AppError::Forbidden)));
}

#[test]
fn untracked_path_is_open_for_reads_admin_only_for_ownership() {
    let cache = CacheMap::new();
    let p = path(&["nowhere", "file.jpg"]);
    assert!(authorized_path(&p, None, &cache, CheckAuth::Read).is_ok());
    let s = session(Some(6), false, &[]);
    assert!(authorized_path(&p, Some(&s), &cache, CheckAuth::Ownership).is_err());
    let admin = session(Some(1), true, &[]);
    assert!(authorized_path(&p, Some(&admin), &cache, CheckAuth::Ownership).is_ok());
}

#[test]
fn validate_path_rejects_double_dots() {
    assert!(validate_path(&path(&["a", "b.jpg"])).is_ok());
    assert!(validate_path(&path(&["a.b", "c..d"])).is_err());
    assert!(matches!(
        validate_path(&path(&[".."])),
        Err(AppError::InvalidPath)
    ));
    // a dot at a segment end next to one at the next segment's start is fine
    assert!(validate_path(&path(&["a.", ".b"])).is_ok());
}

#[test]
fn lock_unlock_scenario() {
    // lock album /vacation with password "swordfish"
    let mut cache = CacheMap::new();
    let mut store = Store::new();
    let vacation = path(&["vacation"]);
    let photo = path(&["vacation", "photo.jpg"]);
    // an untracked path is admin-owned, so the admin sets the lock
    let admin = session(Some(1), true, &[]);
    set_album_lock(&mut cache, &mut store, Some(&admin), &vacation, b"swordfish").unwrap();

    // the stored hash is a digest, not the password itself
    let e = cache.get(&vacation).unwrap();
    let h = e.password_hash().unwrap().clone();
    assert_eq!(h.len(), 64);
    assert_ne!(h.as_str(), "swordfish");
    assert!(e.is_locked());

    // an anonymous session is forbidden
    let mut sessions = Sessions::new();
    let token = sessions.create_or_reuse(None, 123_456_789_000).unwrap();
    {
        let anon = sessions.find(&token).unwrap();
        let r = authorized_path(&photo, Some(anon), &cache, CheckAuth::Read);
        assert!(matches!(r, Err(AppError::Forbidden)));
    }

    // a wrong password earns the incorrect-password outcome and no access
    let r = sessions.authorize_album(&token, &cache, &vacation, b"wrong");
    assert!(matches!(r, Err(AppError::IncorrectPassword)));
    {
        let still = sessions.find(&token).unwrap();
        assert!(authorized_path(&photo, Some(still), &cache, CheckAuth::Read).is_err());
    }

    // the right password grants read access to the album and its files
    sessions
        .authorize_album(&token, &cache, &vacation, b"swordfish")
        .unwrap();
    let granted = sessions.find(&token).unwrap();
    assert!(authorized_path(&photo, Some(granted), &cache, CheckAuth::Read).is_ok());
    assert!(authorized_path(&vacation, Some(granted), &cache, CheckAuth::Read).is_ok());
    // but never ownership
    assert!(authorized_path(&vacation, Some(granted), &cache, CheckAuth::Ownership).is_err());
}

#[test]
fn empty_password_unlocks() {
    let mut cache = CacheMap::new();
    let mut store = Store::new();
    let p = path(&["album"]);
    // the admin creates the locked album; afterwards its owner can relock it
    let admin = session(Some(1), true, &[]);
    set_album_lock(&mut cache, &mut store, Some(&admin), &p, b"pw").unwrap();
    assert!(cache.get(&p).unwrap().is_locked());
    let owner = session(Some(1), false, &[]);
    set_album_lock(&mut cache, &mut store, Some(&owner), &p, b"").unwrap();
    assert!(!cache.get(&p).unwrap().is_locked());
}

#[test]
fn set_album_lock_needs_login() {
    let mut cache = CacheMap::new();
    let mut store = Store::new();
    let p = path(&["album"]);
    assert!(matches!(
        set_album_lock(&mut cache, &mut store, None, &p, b"pw"),
        Err(AppError::SessionRequired)
    ));
    let anon = session(None, false, &[]);
    assert!(matches!(
        set_album_lock(&mut cache, &mut store, Some(&anon), &p, b"pw"),
        Err(AppError::NotLoggedIn)
    ));
}

#[test]
fn set_album_lock_refuses_file_entry() {
    let mut cache = CacheMap::new();
    let mut store = Store::new();
    let p = path(&["pic.jpg"]);
    cache.insert(p.clone(), plain_file());
    let admin = session(Some(1), true, &[]);
    assert!(matches!(
        set_album_lock(&mut cache, &mut store, Some(&admin), &p, b"pw"),
        Err(AppError::NotAnAlbum)
    ));
}

#[test]
fn non_owner_cannot_relock() {
    let mut cache = CacheMap::new();
    let mut store = Store::new();
    let p = path(&["album"]);
    cache.insert(p.clone(), locked_album("somehash", 2));
    let other = session(Some(3), false, &[]);
    assert!(matches!(
        set_album_lock(&mut cache, &mut store, Some(&other), &p, b"mine"),
        Err(AppError::Forbidden)
    ));
}

#[test]
fn owner_default_is_admin_user() {
    let mut cache = CacheMap::new();
    cache.insert(path(&["album"]), locked_album("", 6));
    let admin = session(Some(1), true, &[]);
    assert_eq!(get_owner(&cache, Some(&admin), &path(&["album"])).unwrap(), 6);
    assert_eq!(get_owner(&cache, Some(&admin), &path(&["nothere"])).unwrap(), 1);
    assert!(matches!(
        get_owner(&cache, None, &path(&["album"])),
        Err(AppError::SessionRequired)
    ));
}

#[test]
fn set_owner_is_admin_only_and_transfers() {
    let mut cache = CacheMap::new();
    let mut store = Store::new();
    let p = path(&["album"]);
    cache.insert(p.clone(), locked_album("keephash", 2));
    let user = session(Some(2), false, &[]);
    assert!(matches!(
        set_owner(&mut cache, &mut store, Some(&user), &p, 3),
        Err(AppError::Forbidden)
    ));
    let admin = session(Some(1), true, &[]);
    set_owner(&mut cache, &mut store, Some(&admin), &p, 3).unwrap();
    let e = cache.get(&p).unwrap();
    assert_eq!(e.owner(), Some(3));
    // the lock is untouched by an ownership change
    assert_eq!(e.password_hash().unwrap(), "keephash");
}

#[test]
fn descriptions_roundtrip_and_survive() {
    let mut cache = CacheMap::new();
    let mut store = Store::new();
    let p = path(&["pic.jpg"]);
    let admin = session(Some(1), true, &[]);
    set_image_desc(&mut cache, &mut store, Some(&admin), &p, "sunset".to_string()).unwrap();
    assert_eq!(
        get_image_desc(&cache, Some(&admin), &p).unwrap().as_str(),
        "sunset"
    );
    // the caption was persisted eagerly: a reload still has it
    let reloaded = store.load();
    assert_eq!(reloaded.get(&p).unwrap().desc.as_deref(), Some("sunset"));
    // a missing caption is the not-found outcome
    assert!(matches!(
        get_image_desc(&cache, Some(&admin), &path(&["other"])),
        Err(AppError::NotFound)
    ));
}

#[test]
fn logins_and_logouts() {
    let mut sessions = Sessions::new();
    let token = sessions.create_or_reuse(None, 42).unwrap();
    assert_eq!(token.len(), 64);
    // reusing the same cookie mints nothing new
    assert!(sessions.create_or_reuse(Some(&token), 43).is_none());

    // logging out before logging in is refused
    assert!(matches!(
        sessions.logout(&token),
        Err(AppError::NotLoggedIn)
    ));

    // a wrong password is refused; the digest really is applied
    let row = UserRow {
        id: 2,
        password_hash: Some(sha256::digest("letmein".as_bytes())),
        is_admin: false,
    };
    assert!(matches!(
        sessions.login(&token, &row, b"wrong"),
        Err(AppError::IncorrectPassword)
    ));
    sessions.login(&token, &row, b"letmein").unwrap();
    let s = sessions.find(&token).unwrap();
    assert_eq!(s.user_id, Some(2));
    assert!(!s.is_admin);

    sessions.logout(&token).unwrap();
    let s = sessions.find(&token).unwrap();
    assert_eq!(s.user_id, None);

    // an unknown token is a missing session
    assert!(matches!(
        sessions.login(&"nosuchtoken".to_string(), &row, b"letmein"),
        Err(AppError::SessionRequired)
    ));
}

#[test]
fn unlocks_survive_login_and_logout() {
    let mut cache = CacheMap::new();
    cache.insert(
        path(&["a"]),
        locked_album(sha256::digest("pw".as_bytes()).as_str(), 9),
    );
    let mut sessions = Sessions::new();
    let token = sessions.create_or_reuse(None, 7).unwrap();
    sessions
        .authorize_album(&token, &cache, &path(&["a"]), b"pw")
        .unwrap();
    let row = UserRow {
        id: 5,
        password_hash: None,
        is_admin: false,
    };
    sessions.login(&token, &row, b"").unwrap();
    assert!(sessions.find(&token).unwrap().contains_dir(&path(&["a"])));
    sessions.logout(&token).unwrap();
    assert!(sessions.find(&token).unwrap().contains_dir(&path(&["a"])));
}

#[test]
fn authorize_album_outcomes() {
    let mut cache = CacheMap::new();
    cache.insert(path(&["f.jpg"]), plain_file());
    let mut sessions = Sessions::new();
    let token = sessions.create_or_reuse(None, 99).unwrap();
    assert!(matches!(
        sessions.authorize_album(&token, &cache, &path(&["missing"]), b"x"),
        Err(AppError::NotFound)
    ));
    assert!(matches!(
        sessions.authorize_album(&token, &cache, &path(&["f.jpg"]), b"x"),
        Err(AppError::NotAnAlbum)
    ));
    assert!(matches!(
        sessions.authorize_album(&"unknown".to_string(), &cache, &path(&["missing"]), b"x"),
        Err(AppError::SessionRequired)
    ));
}
