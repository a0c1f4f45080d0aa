use vstd::prelude::*;

use crate::assoc::{
    as_map, distinct_keys, lemma_as_map_contains, lemma_as_map_index, lemma_as_map_push,
    lemma_as_map_update, PathKey,
};
use crate::cache::CacheMap;
use crate::digest::{le_bytes_of_u128, sha256_hex, sha256_hex_of, u128_le_bytes};
use crate::entry::PayloadModel;
use crate::errors::AppError;
use crate::paths::TreePath;

verus! {

/// The set of paths a sequence of granted directories covers.
pub open spec fn dirs_set(v: Seq<TreePath>) -> Set<PathKey> {
    Set::new(|p: PathKey| exists|i: int| 0 <= i < v.len() && v[i]@ == p)
}

/// Mathematical image of a session.
#[verifier::ext_equal]
pub struct SessionModel {
    pub user_id: Option<usize>,
    pub is_admin: bool,
    pub auth_dirs: Set<PathKey>,
}

/// A session as minted on first contact: anonymous, without admin
/// standing, with nothing unlocked.
pub open spec fn empty_session() -> SessionModel {
    SessionModel { user_id: None, is_admin: false, auth_dirs: Set::<PathKey>::empty() }
}

/// One client's ephemeral state: its authenticated user (if any), its
/// admin standing, and the paths whose password challenge it has
/// satisfied for the rest of its life ("temporarily authorized
/// directories").
pub struct Session {
    pub user_id: Option<usize>,
    pub is_admin: bool,
    pub auth_dirs: Vec<TreePath>,
}

impl View for Session {
    type V = SessionModel;

    open spec fn view(&self) -> SessionModel {
        SessionModel {
            user_id: self.user_id,
            is_admin: self.is_admin,
            auth_dirs: dirs_set(self.auth_dirs@),
        }
    }
}

fn clone_dirs(v: &Vec<TreePath>) -> (r: Vec<TreePath>)
    ensures
        dirs_set(r@) == dirs_set(v@),
{
    let mut r: Vec<TreePath> = Vec::new();
    let n = v.len();
    let mut i: usize = 0;
    while i < n
        invariant
            i <= n,
            n == v@.len(),
            r@.len() == i,
            forall|j: int| 0 <= j < i ==> r@[j]@ == v@[j]@,
        decreases n - i,
    {
        r.push(v[i].clone());
        i = i + 1;
    }
    proof {
        assert forall|p: PathKey| dirs_set(r@).contains(p) implies dirs_set(v@).contains(p) by {
            let k = choose|k: int| 0 <= k < r@.len() && r@[k]@ == p;
            assert(v@[k]@ == p);
        }
        assert forall|p: PathKey| dirs_set(v@).contains(p) implies dirs_set(r@).contains(p) by {
            let k = choose|k: int| 0 <= k < v@.len() && v@[k]@ == p;
            assert(r@[k]@ == p);
        }
        assert(dirs_set(r@) =~= dirs_set(v@));
    }
    r
}

fn clone_session(s: &Session) -> (r: Session)
    ensures
        r@ == s@,
{
    Session { user_id: s.user_id, is_admin: s.is_admin, auth_dirs: clone_dirs(&s.auth_dirs) }
}

impl Session {
    /// A fresh anonymous session.
    pub fn new() -> (r: Self)
        ensures
            r@ == empty_session(),
    {
        let r = Session { user_id: None, is_admin: false, auth_dirs: Vec::new() };
        proof {
            assert(dirs_set(r.auth_dirs@) =~= Set::<PathKey>::empty());
        }
        r
    }

    /// Whether this session has unlocked `path`.
    pub fn contains_dir(&self, path: &TreePath) -> (r: bool)
        ensures
            r == self@.auth_dirs.contains(path@),
    {
        let n = self.auth_dirs.len();
        let mut i: usize = 0;
        while i < n
            invariant
                i <= n,
                n == self.auth_dirs@.len(),
                forall|j: int| 0 <= j < i ==> self.auth_dirs@[j]@ != path@,
            decreases n - i,
        {
            if self.auth_dirs[i].eq_path(path) {
                proof {
                    assert(dirs_set(self.auth_dirs@).contains(path@));
                }
                return true;
            }
            i = i + 1;
        }
        false
    }

    /// Records that this session has unlocked `path`.
    pub fn grant_dir(&mut self, path: TreePath)
        ensures
            final(self)@.user_id == old(self)@.user_id,
            final(self)@.is_admin == old(self)@.is_admin,
            final(self)@.auth_dirs == old(self)@.auth_dirs.insert(path@),
    {
        let ghost pv = path@;
        let already = self.contains_dir(&path);
        if !already {
            let ghost v0 = self.auth_dirs@;
            self.auth_dirs.push(path);
            proof {
                assert forall|p: PathKey| dirs_set(self.auth_dirs@).contains(p) implies dirs_set(
                    v0,
                ).insert(pv).contains(p) by {
                    let k = choose|k: int|
                        0 <= k < self.auth_dirs@.len() && self.auth_dirs@[k]@ == p;
                    if k < v0.len() {
                        assert(v0[k]@ == p);
                    }
                }
                assert forall|p: PathKey| dirs_set(v0).insert(pv).contains(p) implies dirs_set(
                    self.auth_dirs@,
                ).contains(p) by {
                    if p == pv {
                        assert(self.auth_dirs@[v0.len() as int]@ == p);
                    } else {
                        let k = choose|k: int| 0 <= k < v0.len() && v0[k]@ == p;
                        assert(self.auth_dirs@[k]@ == p);
                    }
                }
                assert(dirs_set(self.auth_dirs@) =~= dirs_set(v0).insert(pv));
            }
        } else {
            proof {
                assert(self@.auth_dirs.insert(pv) =~= self@.auth_dirs);
            }
        }
    }
}

/// One row of the durable user table, as the user-store collaborator
/// hands it to a login: the account id, the stored password digest (an
/// account without a password has none), and the admin flag.
pub struct UserRow {
    pub id: usize,
    pub password_hash: Option<String>,
    pub is_admin: bool,
}

pub open spec fn session_pairs(s: Seq<(String, Session)>) -> Seq<(Seq<char>, SessionModel)> {
    s.map_values(|p: (String, Session)| (p.0@, p.1@))
}

/// The in-memory session store, keyed by the opaque cookie token.
/// Sessions live only in memory and have no expiry: they last until the
/// process restarts.
pub struct Sessions {
    sessions: Vec<(String, Session)>,
}

impl View for Sessions {
    type V = Map<Seq<char>, SessionModel>;

    closed spec fn view(&self) -> Map<Seq<char>, SessionModel> {
        as_map(session_pairs(self.sessions@))
    }
}

impl Sessions {
    pub closed spec fn pairs(&self) -> Seq<(Seq<char>, SessionModel)> {
        session_pairs(self.sessions@)
    }

    /// Well-formedness: one session per token.
    pub closed spec fn wf(&self) -> bool {
        distinct_keys(self.pairs())
    }

    pub fn new() -> (r: Sessions)
        ensures
            r.wf(),
            r@ == Map::<Seq<char>, SessionModel>::empty(),
    {
        let r = Sessions { sessions: Vec::new() };
        proof {
            assert(r.pairs() =~= Seq::<(Seq<char>, SessionModel)>::empty());
        }
        r
    }

    fn position(&self, token: &String) -> (r: Option<usize>)
        ensures
            match r {
                Some(i) => i < self.pairs().len() && self.pairs()[i as int].0 == token@,
                None => forall|j: int|
                    0 <= j < self.pairs().len() ==> self.pairs()[j].0 != token@,
            },
    {
        let n = self.sessions.len();
        let mut i: usize = 0;
        while i < n
            invariant
                i <= n,
                n == self.sessions@.len(),
                forall|j: int| 0 <= j < i ==> self.pairs()[j].0 != token@,
            decreases n - i,
        {
            if self.sessions[i].0 == *token {
                assert(self.pairs()[i as int].0 == token@);
                return Some(i);
            }
            assert(self.pairs()[i as int].0 != token@);
            i = i + 1;
        }
        None
    }

    /// The session a cookie token resolves to, if any.
    pub fn find(&self, token: &String) -> (r: Option<&Session>)
        requires
            self.wf(),
        ensures
            match r {
                Some(s) => self@.contains_key(token@) && s@ == self@[token@],
                None => !self@.contains_key(token@),
            },
    {
        proof {
            lemma_as_map_contains(self.pairs(), token@);
        }
        match self.position(token) {
            Some(i) => {
                proof {
                    lemma_as_map_index(self.pairs(), i as int);
                }
                Some(&self.sessions[i].1)
            },
            None => None,
        }
    }

    /// Replaces the session filed under the row at `i`.
    fn replace_at(&mut self, i: usize, session: Session)
        requires
            old(self).wf(),
            i < old(self).pairs().len(),
        ensures
            final(self).wf(),
            final(self)@ == old(self)@.insert(old(self).pairs()[i as int].0, session@),
    {
        let ghost s0 = self.pairs();
        let token_c = self.sessions[i].0.clone();
        let ghost sv = session@;
        self.sessions.set(i, (token_c, session));
        proof {
            assert(self.pairs() =~= s0.update(i as int, (s0[i as int].0, sv)));
            lemma_as_map_update(s0, i as int, sv);
        }
    }

    /// If the presented cookie resolves to a session, nothing changes and
    /// no token is returned. Otherwise a fresh token is minted as the
    /// SHA-256 digest of the given high-resolution timestamp, an empty
    /// session is filed under it, and the token is returned for the
    /// caller to set as the client's cookie.
    pub fn create_or_reuse(&mut self, cookie: Option<&String>, now_nanos: u128) -> (r: Option<
        String,
    >)
        requires
            old(self).wf(),
        ensures
            final(self).wf(),
            match r {
                None => {
                    &&& cookie matches Some(c) && old(self)@.contains_key(c@)
                    &&& final(self)@ == old(self)@
                },
                Some(t) => {
                    &&& match cookie {
                        Some(c) => !old(self)@.contains_key(c@),
                        None => true,
                    }
                    &&& t@ == sha256_hex_of(u128_le_bytes(now_nanos))
                    &&& final(self)@ == old(self)@.insert(t@, empty_session())
                },
            },
    {
        let existing = match cookie {
            Some(c) => self.find(c).is_some(),
            None => false,
        };
        if existing {
            return None;
        }
        let bytes = le_bytes_of_u128(now_nanos);
        let token = sha256_hex(bytes.as_slice());
        let ghost s0 = self.pairs();
        let ghost tv = token@;
        let fresh = Session::new();
        proof {
            lemma_as_map_contains(s0, tv);
        }
        match self.position(&token) {
            Some(i) => {
                let token2 = token.clone();
                self.replace_at(i, fresh);
                proof {
                    lemma_as_map_index(s0, i as int);
                }
                Some(token2)
            },
            None => {
                let token2 = token.clone();
                self.sessions.push((token, fresh));
                proof {
                    assert(self.pairs() =~= s0.push((tv, empty_session())));
                    lemma_as_map_push(s0, tv, empty_session());
                }
                Some(token2)
            },
        }
    }

    /// Binds the session to the user row after a successful password
    /// check: the supplied password's digest must match the stored one,
    /// except for an account without a password. Temporary unlocks are
    /// kept across a login.
    pub fn login(&mut self, token: &String, row: &UserRow, password: &[u8]) -> (r: Result<
        (),
        AppError,
    >)
        requires
            old(self).wf(),
        ensures
            final(self).wf(),
            match r {
                Ok(()) => {
                    &&& old(self)@.contains_key(token@)
                    &&& match row.password_hash {
                        Some(h) => h@ == sha256_hex_of(password@),
                        None => true,
                    }
                    &&& final(self)@ == old(self)@.insert(
                        token@,
                        SessionModel {
                            user_id: Some(row.id),
                            is_admin: row.is_admin,
                            auth_dirs: old(self)@[token@].auth_dirs,
                        },
                    )
                },
                Err(AppError::SessionRequired) => {
                    &&& !old(self)@.contains_key(token@)
                    &&& final(self)@ == old(self)@
                },
                Err(AppError::IncorrectPassword) => {
                    &&& old(self)@.contains_key(token@)
                    &&& row.password_hash matches Some(h) && h@ != sha256_hex_of(password@)
                    &&& final(self)@ == old(self)@
                },
                Err(_) => false,
            },
    {
        let ghost s0 = self.pairs();
        proof {
            lemma_as_map_contains(s0, token@);
        }
        let i = match self.position(token) {
            Some(i) => i,
            None => {
                return Err(AppError::SessionRequired);
            },
        };
        proof {
            lemma_as_map_index(s0, i as int);
        }
        match &row.password_hash {
            Some(h) => {
                let supplied = sha256_hex(password);
                if !(*h == supplied) {
                    return Err(AppError::IncorrectPassword);
                }
            },
            None => {},
        }
        let dirs = clone_dirs(&self.sessions[i].1.auth_dirs);
        let updated = Session { user_id: Some(row.id), is_admin: row.is_admin, auth_dirs: dirs };
        self.replace_at(i, updated);
        Ok(())
    }

    /// Clears the session's user and admin standing. Temporary unlocks
    /// are kept across a logout.
    pub fn logout(&mut self, token: &String) -> (r: Result<(), AppError>)
        requires
            old(self).wf(),
        ensures
            final(self).wf(),
            match r {
                Ok(()) => {
                    &&& old(self)@.contains_key(token@)
                    &&& old(self)@[token@].user_id is Some
                    &&& final(self)@ == old(self)@.insert(
                        token@,
                        SessionModel {
                            user_id: None,
                            is_admin: false,
                            auth_dirs: old(self)@[token@].auth_dirs,
                        },
                    )
                },
                Err(AppError::SessionRequired) => {
                    &&& !old(self)@.contains_key(token@)
                    &&& final(self)@ == old(self)@
                },
                Err(AppError::NotLoggedIn) => {
                    &&& old(self)@.contains_key(token@)
                    &&& old(self)@[token@].user_id is None
                    &&& final(self)@ == old(self)@
                },
                Err(_) => false,
            },
    {
        let ghost s0 = self.pairs();
        proof {
            lemma_as_map_contains(s0, token@);
        }
        let i = match self.position(token) {
            Some(i) => i,
            None => {
                return Err(AppError::SessionRequired);
            },
        };
        proof {
            lemma_as_map_index(s0, i as int);
        }
        if self.sessions[i].1.user_id.is_none() {
            return Err(AppError::NotLoggedIn);
        }
        let dirs = clone_dirs(&self.sessions[i].1.auth_dirs);
        let updated = Session { user_id: None, is_admin: false, auth_dirs: dirs };
        self.replace_at(i, updated);
        Ok(())
    }

    /// The album password challenge: hashes the supplied password with
    /// the digest used at lock-set time and compares it against the hash
    /// stored for the album at `path`; on a match the session gains
    /// read-level access to `path` for its remaining life.
    pub fn authorize_album(
        &mut self,
        token: &String,
        cache: &CacheMap,
        path: &TreePath,
        password: &[u8],
    ) -> (r: Result<(), AppError>)
        requires
            old(self).wf(),
            cache.wf(),
        ensures
            final(self).wf(),
            match r {
                Ok(()) => {
                    &&& old(self)@.contains_key(token@)
                    &&& cache@.contains_key(path@)
                    &&& cache@[path@].payload matches PayloadModel::Album { password_hash, .. }
                        && password_hash == sha256_hex_of(password@)
                    &&& final(self)@ == old(self)@.insert(
                        token@,
                        SessionModel {
                            user_id: old(self)@[token@].user_id,
                            is_admin: old(self)@[token@].is_admin,
                            auth_dirs: old(self)@[token@].auth_dirs.insert(path@),
                        },
                    )
                },
                Err(AppError::SessionRequired) => {
                    &&& !old(self)@.contains_key(token@)
                    &&& final(self)@ == old(self)@
                },
                Err(AppError::NotFound) => {
                    &&& old(self)@.contains_key(token@)
                    &&& !cache@.contains_key(path@)
                    &&& final(self)@ == old(self)@
                },
                Err(AppError::NotAnAlbum) => {
                    &&& old(self)@.contains_key(token@)
                    &&& cache@.contains_key(path@)
                    &&& cache@[path@].is_file()
                    &&& final(self)@ == old(self)@
                },
                Err(AppError::IncorrectPassword) => {
                    &&& old(self)@.contains_key(token@)
                    &&& cache@.contains_key(path@)
                    &&& cache@[path@].payload matches PayloadModel::Album { password_hash, .. }
                        && password_hash != sha256_hex_of(password@)
                    &&& final(self)@ == old(self)@
                },
                Err(_) => false,
            },
    {
        let ghost s0 = self.pairs();
        proof {
            lemma_as_map_contains(s0, token@);
        }
        let i = match self.position(token) {
            Some(i) => i,
            None => {
                return Err(AppError::SessionRequired);
            },
        };
        proof {
            lemma_as_map_index(s0, i as int);
        }
        let entry = match cache.get(path) {
            Some(e) => e,
            None => {
                return Err(AppError::NotFound);
            },
        };
        let stored = match entry.password_hash() {
            Some(h) => h,
            None => {
                return Err(AppError::NotAnAlbum);
            },
        };
        let supplied = sha256_hex(password);
        if *stored == supplied {
            let mut updated = clone_session(&self.sessions[i].1);
            updated.grant_dir(path.clone());
            self.replace_at(i, updated);
            Ok(())
        } else {
            Err(AppError::IncorrectPassword)
        }
    }
}

} // verus!
