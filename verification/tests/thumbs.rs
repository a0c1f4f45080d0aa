use album_cache::cache::CacheMap;
use album_cache::entry::{AlbumPayload, CacheEntry, CachePayload, FilePayload};
use album_cache::errors::AppError;
use album_cache::files::{classify_media, has_extension_segments};
use album_cache::images::{make_thumbnail, pick_thumb_bytes, thumb_decision, ThumbDecision};
use album_cache::paths::TreePath;

fn path(segs: &[&str]) -> TreePath {
    TreePath::from_segs(segs.iter().map(|s| s.to_string()).collect())
}

fn file_entry(modified: u64, data: &[u8]) -> CacheEntry {
    CacheEntry {
        new: false,
        modified,
        desc: None,
        payload: CachePayload::File(FilePayload { data: data.to_vec() }),
    }
}

fn days_to_ms(days: f64) -> u64 {
    (days * 24.0 * 3600.0 * 1000.0) as u64
}

#[test]
fn freshness_is_inclusive() {
    let mut cache = CacheMap::new();
    let p = path(&["img.jpg"]);
    cache.insert(p.clone(), file_entry(days_to_ms(100.0), b"cached"));

    // an mtime equal to the stored timestamp is fresh
    let same = Some(days_to_ms(100.0));
    assert!(matches!(
        thumb_decision(&cache, &p, same),
        ThumbDecision::Cached
    ));

    // a slightly newer file is stale
    let newer = Some(days_to_ms(100.0001));
    assert!(matches!(
        thumb_decision(&cache, &p, newer),
        ThumbDecision::Regenerate
    ));

    // a missing mtime defaults to fresh
    assert!(matches!(
        thumb_decision(&cache, &p, None),
        ThumbDecision::Cached
    ));

    // a path with no entry regenerates
    assert!(matches!(
        thumb_decision(&cache, &path(&["other"]), None),
        ThumbDecision::Regenerate
    ));
}

#[test]
fn album_has_no_thumbnail() {
    let mut cache = CacheMap::new();
    let p = path(&["album"]);
    cache.insert(
        p.clone(),
        CacheEntry {
            new: false,
            modified: 0,
            desc: None,
            payload: CachePayload::Album(AlbumPayload {
                password_hash: String::new(),
                owner: 1,
            }),
        },
    );
    assert!(matches!(
        thumb_decision(&cache, &p, None),
        ThumbDecision::AlbumEntry
    ));
    let bytes: Vec<u8> = Vec::new();
    assert!(matches!(
        make_thumbnail(&mut cache, &p, &bytes, None),
        Err(AppError::NoThumbnail)
    ));
}

#[test]
fn pick_prefers_store_bytes() {
    let mem = b"memory".to_vec();
    assert_eq!(pick_thumb_bytes(b"db".to_vec(), &mem).unwrap(), b"db".to_vec());
    assert_eq!(pick_thumb_bytes(Vec::new(), &mem).unwrap(), b"memory".to_vec());
    assert!(pick_thumb_bytes(Vec::new(), &Vec::new()).is_none());
}

#[test]
fn make_thumbnail_encodes_and_caches() {
    // a real 160x120 image, built through the codec itself
    let img = image::DynamicImage::ImageRgb8(image::RgbImage::from_pixel(
        160,
        120,
        image::Rgb([200u8, 30u8, 30u8]),
    ));
    let mut source: Vec<u8> = Vec::new();
    img.write_to(
        &mut std::io::Cursor::new(&mut source),
        image::ImageOutputFormat::Png,
    )
    .unwrap();

    let mut cache = CacheMap::new();
    let p = path(&["photos", "red.png"]);
    let mtime = Some(days_to_ms(123.5));
    let out = make_thumbnail(&mut cache, &p, &source, mtime).unwrap();

    // the codec really ran: the output is JPEG, not the PNG input
    assert_ne!(out, source);
    assert!(out.len() > 2 && out[0] == 0xff && out[1] == 0xd8);
    let thumb = image::load_from_memory(&out).unwrap();
    assert!(thumb.width() <= 100 && thumb.height() <= 100);

    // the entry was filed dirty with the filesystem timestamp
    let e = cache.get(&p).unwrap();
    assert!(e.new);
    assert_eq!(e.modified, days_to_ms(123.5));
    match &e.payload {
        CachePayload::File(f) => assert_eq!(f.data, out),
        _ => panic!("entry changed kind"),
    }
}

#[test]
fn codec_failure_caches_nothing() {
    let mut cache = CacheMap::new();
    let p = path(&["junk.bin"]);
    let garbage = b"this is not an image at all".to_vec();
    assert!(matches!(
        make_thumbnail(&mut cache, &p, &garbage, None),
        Err(AppError::CodecFailure)
    ));
    // no poison caching: the same bad file is retried fresh next time
    assert!(cache.get(&p).is_none());
}

#[test]
fn extension_segments_match_multi_part_extensions() {
    assert!(has_extension_segments("clip.webm.e", ".webm.e"));
    assert!(has_extension_segments("archive.tar.gz", ".tar.gz"));
    assert!(has_extension_segments("movie.mp4", ".mp4"));
    assert!(!has_extension_segments("movie.mp4", ".webm"));
    // the extension must be a proper suffix, shorter than the path
    assert!(!has_extension_segments(".mp4", ".mp4"));
    assert!(!has_extension_segments("x", ".verylongext"));
}

#[test]
fn media_classification() {
    assert_eq!(classify_media("a/b.jpg", "jpg"), Some(false));
    assert_eq!(classify_media("a/b.PNG.png", "png"), Some(false));
    assert_eq!(classify_media("a/b.webm", "webm"), Some(true));
    assert_eq!(classify_media("a/b.mp4", "mp4"), Some(true));
    assert_eq!(classify_media("a/b.txt", "txt"), None);
}
