use vstd::prelude::*;

use crate::assoc::PathKey;
use crate::cache::CacheMap;
use crate::entry::{CacheEntry, EntryModel};
use crate::errors::AppError;
use crate::paths::TreePath;
use crate::session::{Session, SessionModel};

verus! {

/// The two authorization strengths. Explicit, never a bool, so a call
/// site always says whether it asks for reading or for administering.
#[derive(Clone, Copy, Debug, PartialEq, Eq, Structural)]
pub enum CheckAuth {
    /// May the caller administer (lock, move, delete, upload) this path.
    Ownership,
    /// May the caller view this path's contents.
    Read,
}

/// The view of the session a request presented, if any.
pub open spec fn opt_session_view(s: Option<&Session>) -> Option<SessionModel> {
    match s {
        Some(x) => Some(x@),
        None => None,
    }
}

pub open spec fn is_admin_opt(s: Option<SessionModel>) -> bool {
    match s {
        Some(ss) => ss.is_admin,
        None => false,
    }
}

/// Whether the entry's owner is the session's authenticated user.
pub open spec fn owner_matches(e: EntryModel, s: SessionModel) -> bool {
    e.owner() matches Some(o) && s.user_id matches Some(u) && o == u
}

/// The single-entry authorization rule: an unlocked entry is open to
/// everyone; a locked one needs a session that is admin, or owns the
/// entry, or — for a read check only — has unlocked exactly this path.
pub open spec fn authorized_model(
    path: PathKey,
    e: EntryModel,
    s: Option<SessionModel>,
    check: CheckAuth,
) -> bool {
    if !e.is_locked() {
        true
    } else {
        match s {
            None => false,
            Some(ss) => if ss.is_admin {
                true
            } else if owner_matches(e, ss) {
                true
            } else if check is Ownership {
                false
            } else {
                ss.auth_dirs.contains(path)
            },
        }
    }
}

/// What an ancestor with no cache entry allows: it is unlocked and
/// admin-owned by default, so reads pass, and ownership needs the admin.
pub open spec fn absent_ok(s: Option<SessionModel>, check: CheckAuth) -> bool {
    check is Read || is_admin_opt(s)
}

/// Whether the ancestor made of the first `k` components of `path`
/// permits the caller.
pub open spec fn ancestor_ok(
    path: PathKey,
    k: int,
    s: Option<SessionModel>,
    c: Map<PathKey, EntryModel>,
    check: CheckAuth,
) -> bool {
    if c.contains_key(path.take(k)) {
        authorized_model(path.take(k), c[path.take(k)], s, check)
    } else {
        absent_ok(s, check)
    }
}

/// The ancestor walk: a path is authorized when every one of its
/// non-empty prefixes, from the path itself up to the root, permits the
/// caller; the empty path itself falls under the absent-ancestor rule.
/// Locking a parent album thereby locks everything beneath it without
/// any flag on the descendants.
pub open spec fn authorized_path_model(
    path: PathKey,
    s: Option<SessionModel>,
    c: Map<PathKey, EntryModel>,
    check: CheckAuth,
) -> bool {
    &&& path.len() == 0 ==> absent_ok(s, check)
    &&& forall|k: int| 1 <= k <= path.len() ==> ancestor_ok(path, k, s, c, check)
}

/// Decides whether one cache entry permits the caller; every denial is
/// the forbidden outcome.
pub fn authorized(
    path: &TreePath,
    cache_entry: &CacheEntry,
    session: Option<&Session>,
    check_auth: CheckAuth,
) -> (r: Result<(), AppError>)
    ensures
        r is Ok <==> authorized_model(path@, cache_entry@, opt_session_view(session), check_auth),
        r is Err ==> r == Err::<(), AppError>(AppError::Forbidden),
{
    if !cache_entry.is_locked() {
        return Ok(());
    }
    let session = match session {
        Some(s) => s,
        None => {
            return Err(AppError::Forbidden);
        },
    };
    if session.is_admin {
        return Ok(());
    }
    let owner_match = match (cache_entry.owner(), session.user_id) {
        (Some(o), Some(u)) => o == u,
        _ => false,
    };
    if owner_match {
        return Ok(());
    }
    match check_auth {
        CheckAuth::Ownership => Err(AppError::Forbidden),
        CheckAuth::Read => {
            if session.contains_dir(path) {
                Ok(())
            } else {
                Err(AppError::Forbidden)
            }
        },
    }
}

/// Checks every ancestor of `path` against the cache: the composite
/// authorization used for any resource that must honor the lock of each
/// containing album.
pub fn authorized_path(
    path: &TreePath,
    session: Option<&Session>,
    cache: &CacheMap,
    check_auth: CheckAuth,
) -> (r: Result<(), AppError>)
    requires
        cache.wf(),
    ensures
        r is Ok <==> authorized_path_model(
            path@,
            opt_session_view(session),
            cache@,
            check_auth,
        ),
        r is Err ==> r == Err::<(), AppError>(AppError::Forbidden),
{
    let ghost s = opt_session_view(session);
    let n = path.depth();
    if n == 0 {
        match check_auth {
            CheckAuth::Read => {
                return Ok(());
            },
            CheckAuth::Ownership => {
                let admin = match session {
                    Some(ss) => ss.is_admin,
                    None => false,
                };
                if admin {
                    return Ok(());
                } else {
                    return Err(AppError::Forbidden);
                }
            },
        }
    }
    let mut k: usize = 0;
    while k < n
        invariant
            k <= n,
            n == path@.len(),
            cache.wf(),
            s == opt_session_view(session),
            forall|j: int| 1 <= j <= k ==> ancestor_ok(path@, j, s, cache@, check_auth),
        decreases n - k,
    {
        let anc = path.prefix(k + 1);
        match cache.get(&anc) {
            Some(e) => {
                match authorized(&anc, e, session, check_auth) {
                    Ok(()) => {
                        assert(ancestor_ok(path@, k + 1 as int, s, cache@, check_auth));
                    },
                    Err(_) => {
                        proof {
                            assert(!ancestor_ok(path@, k + 1 as int, s, cache@, check_auth));
                            assert(!authorized_path_model(path@, s, cache@, check_auth));
                        }
                        return Err(AppError::Forbidden);
                    },
                }
            },
            None => {
                let pass = match check_auth {
                    CheckAuth::Read => true,
                    CheckAuth::Ownership => match session {
                        Some(ss) => ss.is_admin,
                        None => false,
                    },
                };
                if !pass {
                    proof {
                        assert(!ancestor_ok(path@, k + 1 as int, s, cache@, check_auth));
                        assert(!authorized_path_model(path@, s, cache@, check_auth));
                    }
                    return Err(AppError::Forbidden);
                }
                assert(ancestor_ok(path@, k + 1 as int, s, cache@, check_auth));
            },
        }
        k = k + 1;
    }
    Ok(())
}

/// Whether a path component holds two consecutive dots.
pub open spec fn has_double_dot(s: Seq<char>) -> bool {
    exists|i: int| 0 <= i && i + 1 < s.len() && #[trigger] s[i] == '.' && s[i + 1] == '.'
}

/// A path is valid when no component holds two consecutive dots, so no
/// request can climb out of the served tree.
pub open spec fn valid_path(p: PathKey) -> bool {
    forall|i: int| 0 <= i < p.len() ==> !has_double_dot(p[i])
}

fn seg_has_double_dot(s: &String) -> (r: bool)
    ensures
        r == has_double_dot(s@),
{
    let st = s.as_str();
    let n = st.unicode_len();
    let mut i: usize = 1;
    while i < n
        invariant
            1 <= i,
            n == s@.len(),
            st@ == s@,
            forall|j: int| 0 <= j && j + 1 < i ==> !(#[trigger] s@[j] == '.' && s@[j + 1] == '.'),
        decreases n - i,
    {
        if st.get_char(i - 1) == '.' && st.get_char(i) == '.' {
            assert(has_double_dot(s@));
            return true;
        }
        i = i + 1;
    }
    proof {
        if has_double_dot(s@) {
            let j = choose|j: int| 0 <= j && j + 1 < s@.len() && #[trigger] s@[j] == '.' && s@[j + 1] == '.';
            assert(false);
        }
    }
    false
}

/// Rejects any path with two consecutive dots in a component before it
/// reaches the tree.
pub fn validate_path(path: &TreePath) -> (r: Result<(), AppError>)
    ensures
        r is Ok <==> valid_path(path@),
        r is Err ==> r == Err::<(), AppError>(AppError::InvalidPath),
{
    let n = path.segs.len();
    let mut i: usize = 0;
    while i < n
        invariant
            i <= n,
            n == path@.len(),
            forall|j: int| 0 <= j < i ==> !has_double_dot(path@[j]),
        decreases n - i,
    {
        if seg_has_double_dot(&path.segs[i]) {
            assert(has_double_dot(path@[i as int]));
            return Err(AppError::InvalidPath);
        }
        i = i + 1;
    }
    Ok(())
}

} // verus!
