//! The session manager: issues, resolves and revokes opaque session
//! tokens. A session is live exactly while `now < expires_at`; expiry
//! is lazy, so an expired row answers like an absent one.

use vstd::prelude::*;
use crate::lookup::{find_by, lemma_find_by_characterization, unique_by};
use crate::models::{Session, SessionView};
use crate::token::fresh_token;

verus! {

/// How long a session lives, in seconds: 30 days.
pub const SESSION_LIFETIME_SECONDS: u64 = 2592000;

/// The session stored under `token`, if any, live or not.
pub open spec fn session_by_token(sessions: Seq<SessionView>, token: Seq<char>) -> Option<
    SessionView,
> {
    find_by(sessions, |s: SessionView| s.id, token)
}

/// What token resolution returns, at the level of the model: the
/// session under `token`, provided it has not expired at `now`.
pub open spec fn resolve_result(sessions: Seq<SessionView>, token: Seq<char>, now: u64) -> Option<
    SessionView,
> {
    match session_by_token(sessions, token) {
        Some(s) => if now < s.expires_at {
            Some(s)
        } else {
            None
        },
        None => None,
    }
}

/// Issues, validates, and revokes opaque session tokens; owns the
/// sessions table.
pub struct SessionManager {
    sessions: Vec<Session>,
}

impl View for SessionManager {
    type V = Seq<SessionView>;

    closed spec fn view(&self) -> Seq<SessionView> {
        self.sessions@.map_values(|s: Session| s@)
    }
}

impl SessionManager {
    /// Well-formedness: tokens are pairwise distinct.
    pub open spec fn wf(&self) -> bool {
        unique_by(self@, |s: SessionView| s.id)
    }

    /// An empty store.
    pub fn new() -> (s: Self)
        ensures
            s@ == Seq::<SessionView>::empty(),
            s.wf(),
    {
        let s = SessionManager { sessions: Vec::new() };
        proof {
            assert(s@ =~= Seq::<SessionView>::empty());
        }
        s
    }

    /// Index of the session with this token, by linear scan.
    fn index_by_token(&self, token: &str) -> (r: Option<usize>)
        ensures
            match r {
                Some(i) => i < self@.len() && self@[i as int].id == token@,
                None => forall|i: int| 0 <= i < self@.len() ==> self@[i].id != token@,
            },
    {
        let n = self.sessions.len();
        let mut i: usize = 0;
        while i < n
            invariant
                i <= n,
                n == self.sessions@.len(),
                self@ == self.sessions@.map_values(|s: Session| s@),
                forall|j: int| 0 <= j < i ==> self@[j].id != token@,
            decreases n - i,
        {
            if crate::text::str_eq(self.sessions[i].id.as_str(), token) {
                return Some(i);
            }
            i = i + 1;
        }
        None
    }

    /// Issues a session for `user_id`: a fresh random token, created
    /// now and expiring thirty days later. Every other token keeps the
    /// session it had; a token collision, practically impossible,
    /// replaces the colliding row.
    pub fn create_session(&mut self, user_id: i64, now: u64) -> (r: Session)
        requires
            old(self).wf(),
            now <= u64::MAX - SESSION_LIFETIME_SECONDS,
        ensures
            final(self).wf(),
            r@.user_id == user_id,
            r@.created_at == now,
            r@.expires_at == now + SESSION_LIFETIME_SECONDS,
            session_by_token(final(self)@, r@.id) == Some(r@),
            forall|t: Seq<char>| t != r@.id ==> session_by_token(final(self)@, t)
                == session_by_token(old(self)@, t),
            forall|i: int| 0 <= i < final(self)@.len() ==> final(self)@[i] == r@ || old(
                self,
            )@.contains(#[trigger] final(self)@[i]),
    {
        let token = fresh_token();
        let s = Session {
            id: token,
            user_id,
            created_at: now,
            expires_at: now + SESSION_LIFETIME_SECONDS,
        };
        let r = s.clone();
        let ghost prev = self@;
        match self.index_by_token(s.id.as_str()) {
            Some(i) => {
                self.sessions.set(i, s);
                proof {
                    assert(self@ =~= prev.update(i as int, r@));
                    assert(self.wf());
                    lemma_find_by_characterization(self@, |x: SessionView| x.id, r@.id);
                    assert(self@[i as int] == r@);
                    assert(session_by_token(self@, r@.id) == Some(r@));
                    assert forall|t: Seq<char>| t != r@.id implies session_by_token(self@, t)
                        == session_by_token(prev, t) by {
                        lemma_find_by_characterization(self@, |x: SessionView| x.id, t);
                        lemma_find_by_characterization(prev, |x: SessionView| x.id, t);
                        if exists|j: int| 0 <= j < prev.len() && prev[j].id == t {
                            let j = choose|j: int| 0 <= j < prev.len() && prev[j].id == t;
                            assert(j != i);
                            assert(self@[j] == prev[j]);
                        } else {
                            assert forall|j: int| 0 <= j < self@.len() implies self@[j].id != t by {
                                if j != i {
                                    assert(self@[j] == prev[j]);
                                }
                            }
                        }
                    }
                    assert forall|j: int| 0 <= j < self@.len() implies self@[j] == r@
                        || prev.contains(self@[j]) by {
                        if j != i {
                            assert(self@[j] == prev[j]);
                            assert(prev.contains(prev[j]));
                        }
                    }
                }
            },
            None => {
                self.sessions.push(s);
                proof {
                    assert(self@ =~= prev.push(r@));
                    assert(self.wf());
                    lemma_find_by_characterization(self@, |x: SessionView| x.id, r@.id);
                    assert(self@[prev.len() as int] == r@);
                    assert(session_by_token(self@, r@.id) == Some(r@));
                    assert forall|t: Seq<char>| t != r@.id implies session_by_token(self@, t)
                        == session_by_token(prev, t) by {
                        lemma_find_by_characterization(self@, |x: SessionView| x.id, t);
                        lemma_find_by_characterization(prev, |x: SessionView| x.id, t);
                        if exists|j: int| 0 <= j < prev.len() && prev[j].id == t {
                            let j = choose|j: int| 0 <= j < prev.len() && prev[j].id == t;
                            assert(self@[j] == prev[j]);
                        } else {
                            assert forall|j: int| 0 <= j < self@.len() implies self@[j].id != t by {
                                if j < prev.len() {
                                    assert(self@[j] == prev[j]);
                                }
                            }
                        }
                    }
                    assert forall|j: int| 0 <= j < self@.len() implies self@[j] == r@
                        || prev.contains(self@[j]) by {
                        if j < prev.len() {
                            assert(self@[j] == prev[j]);
                            assert(prev.contains(prev[j]));
                        }
                    }
                }
            },
        }
        r
    }

    /// Resolves a token to its session, answering nothing for an
    /// absent or expired token.
    pub fn resolve(&self, token: &str, now: u64) -> (r: Option<Session>)
        requires
            self.wf(),
        ensures
            match r {
                Some(s) => resolve_result(self@, token@, now) == Some(s@),
                None => resolve_result(self@, token@, now) is None,
            },
    {
        proof {
            lemma_find_by_characterization(self@, |s: SessionView| s.id, token@);
        }
        match self.index_by_token(token) {
            None => None,
            Some(i) => {
                let s = &self.sessions[i];
                proof {
                    assert(s@ == self@[i as int]);
                }
                if now < s.expires_at {
                    Some(s.clone())
                } else {
                    None
                }
            },
        }
    }

    /// Deletes the session under `token`, reporting whether one
    /// existed. Revoking an absent token is not an error.
    pub fn revoke(&mut self, token: &str) -> (r: bool)
        requires
            old(self).wf(),
        ensures
            final(self).wf(),
            r == (session_by_token(old(self)@, token@) is Some),
            session_by_token(final(self)@, token@) is None,
            forall|t: Seq<char>| t != token@ ==> session_by_token(final(self)@, t)
                == session_by_token(old(self)@, t),
            forall|i: int|
                0 <= i < final(self)@.len() ==> old(self)@.contains(#[trigger] final(self)@[i]),
    {
        let ghost prev = self@;
        proof {
            lemma_find_by_characterization(prev, |s: SessionView| s.id, token@);
        }
        match self.index_by_token(token) {
            None => {
                proof {
                    assert(session_by_token(prev, token@) is None);
                }
                false
            },
            Some(i) => {
                self.sessions.remove(i);
                proof {
                    assert(self@ =~= prev.remove(i as int));
                    assert(self.wf());
                    lemma_find_by_characterization(self@, |x: SessionView| x.id, token@);
                    assert forall|j: int| 0 <= j < self@.len() implies self@[j].id != token@ by {
                        if j < i {
                            assert(self@[j] == prev[j]);
                        } else {
                            assert(self@[j] == prev[j + 1]);
                        }
                    }
                    assert forall|t: Seq<char>| t != token@ implies session_by_token(self@, t)
                        == session_by_token(prev, t) by {
                        lemma_find_by_characterization(self@, |x: SessionView| x.id, t);
                        lemma_find_by_characterization(prev, |x: SessionView| x.id, t);
                        if exists|j: int| 0 <= j < prev.len() && prev[j].id == t {
                            let j = choose|j: int| 0 <= j < prev.len() && prev[j].id == t;
                            if j < i {
                                assert(self@[j] == prev[j]);
                            } else {
                                assert(j != i);
                                assert(self@[j - 1] == prev[j]);
                            }
                        } else {
                            assert forall|j: int| 0 <= j < self@.len() implies self@[j].id != t by {
                                if j < i {
                                    assert(self@[j] == prev[j]);
                                } else {
                                    assert(self@[j] == prev[j + 1]);
                                }
                            }
                        }
                    }
                    assert forall|j: int| 0 <= j < self@.len() implies prev.contains(
                        self@[j],
                    ) by {
                        if j < i {
                            assert(self@[j] == prev[j]);
                            assert(prev.contains(prev[j]));
                        } else {
                            assert(self@[j] == prev[j + 1]);
                            assert(prev.contains(prev[j + 1]));
                        }
                    }
                }
                true
            },
        }
    }
}

/// The lifecycle of one session: a token under which creation has just
/// stored the session `s` resolves to `s` at any instant before
/// `s.expires_at`, resolves to nothing from that instant on, and
/// resolves to nothing at any instant once the token is gone.
pub proof fn lemma_session_lifecycle(
    sessions: Seq<SessionView>,
    revoked: Seq<SessionView>,
    s: SessionView,
    before: u64,
    after: u64,
)
    requires
        session_by_token(sessions, s.id) == Some(s),
        session_by_token(revoked, s.id) is None,
        before < s.expires_at,
        after >= s.expires_at,
    ensures
        resolve_result(sessions, s.id, before) == Some(s),
        resolve_result(sessions, s.id, after) is None,
        forall|t: u64| resolve_result(revoked, s.id, t) is None,
{
}

} // verus!
