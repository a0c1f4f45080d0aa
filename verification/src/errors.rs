use vstd::prelude::*;

verus! {

/// Failure taxonomy of the cache and authorization operations.
///
/// `Forbidden` is an authorization denial; `SessionRequired` marks an
/// endpoint that needs an established session but found none;
/// `NotFound` a path with no entry where one was required;
/// `IncorrectPassword` a failed password challenge;
/// `NotAnAlbum` an album operation aimed at a file entry;
/// `NoThumbnail` a thumbnail request aimed at an album entry;
/// `NotLoggedIn` a logout or credential change without a logged-in user;
/// `InvalidPath` a path that is rejected before any work is done;
/// `CodecFailure` a thumbnail decode or encode error.
#[derive(Clone, Copy, Debug, PartialEq, Eq, Structural)]
pub enum AppError {
    Forbidden,
    SessionRequired,
    NotFound,
    IncorrectPassword,
    NotAnAlbum,
    NoThumbnail,
    NotLoggedIn,
    InvalidPath,
    CodecFailure,
}

} // verus!
