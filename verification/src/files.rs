use vstd::prelude::*;

use vstd::string::StringSliceAdditionalSpecFns;
use vstd::string::StrSliceExecFns;

verus! {

/// Whether `path` ends in `ext`, byte for byte, with at least one byte
/// before it.
pub open spec fn ends_with_bytes(path: Seq<u8>, ext: Seq<u8>) -> bool {
    ext.len() < path.len() && path.skip(path.len() - ext.len()) == ext
}

/// Whether the path ends in the extension, compared on the last bytes of
/// the UTF-8 encoding. The standard path type only sees the last segment
/// of an extension, so ".tar.gz" or ".webm.e" would not match there;
/// byte comparison works because UTF-8 is stateless.
pub fn has_extension_segments(path: &str, extension: &str) -> (r: bool)
    ensures
        r == ends_with_bytes(path.spec_bytes(), extension.spec_bytes()),
{
    let pb = path.as_bytes_vec();
    let eb = extension.as_bytes_vec();
    if eb.len() < pb.len() {
        let off = pb.len() - eb.len();
        let ne = eb.len();
        let np = pb.len();
        let mut i: usize = 0;
        while i < ne
            invariant
                i <= ne,
                ne == eb@.len(),
                np == pb@.len(),
                off + ne == np,
                eb@.len() < pb@.len(),
                off == pb@.len() - eb@.len(),
                pb@ == path.spec_bytes(),
                eb@ == extension.spec_bytes(),
                forall|j: int| 0 <= j < i ==> pb@[off + j] == eb@[j],
            decreases ne - i,
        {
            if pb[off + i] != eb[i] {
                proof {
                    assert(pb@.skip(off as int)[i as int] == pb@[off + i]);
                    assert(pb@.skip(off as int) != eb@);
                }
                return false;
            }
            i = i + 1;
        }
        proof {
            assert(pb@.skip(off as int) =~= eb@);
        }
        true
    } else {
        false
    }
}

/// Character-wise equality of two strings.
fn str_eq(a: &str, b: &str) -> (r: bool)
    ensures
        r == (a@ == b@),
{
    let na = a.unicode_len();
    let nb = b.unicode_len();
    if na != nb {
        assert(a@ != b@) by {
            assert(a@.len() != b@.len());
        }
        return false;
    }
    let mut i: usize = 0;
    while i < na
        invariant
            i <= na,
            na == a@.len() == b@.len(),
            forall|j: int| 0 <= j < i ==> a@[j] == b@[j],
        decreases na - i,
    {
        if a.get_char(i) != b.get_char(i) {
            assert(a@[i as int] != b@[i as int]);
            return false;
        }
        i = i + 1;
    }
    assert(a@ =~= b@);
    true
}

pub open spec fn is_image_ext(ext: Seq<char>) -> bool {
    ext == "jpg"@ || ext == "png"@
}

pub open spec fn is_video_path(path: Seq<u8>) -> bool {
    ends_with_bytes(path, ".webm".spec_bytes()) || ends_with_bytes(path, ".mp4".spec_bytes())
}

/// Classifies a directory entry for the file listing by its lowercased
/// extension: `Some(false)` is a still image, `Some(true)` a video, and
/// `None` a file the listing skips.
pub fn classify_media(pathstr: &str, ext_lower: &str) -> (r: Option<bool>)
    ensures
        match r {
            Some(false) => is_image_ext(ext_lower@),
            Some(true) => !is_image_ext(ext_lower@) && is_video_path(pathstr.spec_bytes()),
            None => !is_image_ext(ext_lower@) && !is_video_path(pathstr.spec_bytes()),
        },
{
    if str_eq(ext_lower, "jpg") || str_eq(ext_lower, "png") {
        Some(false)
    } else if has_extension_segments(pathstr, ".webm") || has_extension_segments(pathstr, ".mp4") {
        Some(true)
    } else {
        None
    }
}

} // verus!
