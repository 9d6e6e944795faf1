//! The auth gateway and the operation surface the presentation layer
//! calls: registration, login, logout, identity queries, and the four
//! todo operations, every one of the latter authorized through the
//! session token before it touches user-scoped data.

use vstd::prelude::*;
use crate::credentials::{auth_result, user_by_email, user_by_id, user_by_name, CredentialStore};
use crate::errors::StoreError;
use crate::lookup::{lemma_find_by_characterization, lemma_find_by_member};
use crate::models::{CreateTodo, LoginUser, RegisterUser, Session, SessionView, Todo, TodoView, User, UserView};
use crate::sessions::{resolve_result, session_by_token, SessionManager, SESSION_LIFETIME_SECONDS};
use crate::text::is_blank;
use crate::todos::{completion_updated, owned_todo, todos_of_desc, TodoStore};

verus! {

/// The view of an optional token.
pub open spec fn opt_str_view(token: Option<&str>) -> Option<Seq<char>> {
    match token {
        Some(t) => Some(t@),
        None => None,
    }
}

/// Whether some user carries the id `id`.
pub open spec fn user_id_known(users: Seq<UserView>, id: i64) -> bool {
    exists|j: int| 0 <= j < users.len() && users[j].id == id
}

/// Referential integrity: every session points at an existing user.
pub open spec fn users_cover_sessions(users: Seq<UserView>, sessions: Seq<SessionView>) -> bool {
    forall|i: int|
        0 <= i < sessions.len() ==> user_id_known(users, (#[trigger] sessions[i]).user_id)
}

/// Referential integrity: every todo points at an existing user.
pub open spec fn users_cover_todos(users: Seq<UserView>, todos: Seq<TodoView>) -> bool {
    forall|i: int| 0 <= i < todos.len() ==> user_id_known(users, (#[trigger] todos[i]).user_id)
}

/// What the identity query returns, at the level of the model: the
/// user joined through the live session under the presented token, if
/// all of a token, a live session and its user exist.
pub open spec fn current_user_result(
    users: Seq<UserView>,
    sessions: Seq<SessionView>,
    token: Option<Seq<char>>,
    now: u64,
) -> Option<UserView> {
    match token {
        None => None,
        Some(t) => match resolve_result(sessions, t, now) {
            None => None,
            Some(s) => user_by_id(users, s.user_id),
        },
    }
}

/// The whole core: the three stores behind one authorization boundary.
pub struct Core {
    users: CredentialStore,
    sessions: SessionManager,
    todos: TodoStore,
}

impl Core {
    /// The registered users.
    pub closed spec fn users_view(&self) -> Seq<UserView> {
        self.users@
    }

    /// The stored sessions, live or expired.
    pub closed spec fn sessions_view(&self) -> Seq<SessionView> {
        self.sessions@
    }

    /// The stored todos, across all users.
    pub closed spec fn todos_view(&self) -> Seq<TodoView> {
        self.todos@
    }

    /// The id the next registered user will receive.
    pub closed spec fn next_user_id(&self) -> i64 {
        self.users.next_user_id()
    }

    /// The id the next created todo will receive.
    pub closed spec fn next_todo_id(&self) -> i64 {
        self.todos.next_todo_id()
    }

    /// The three stores' own invariants.
    pub closed spec fn stores_wf(&self) -> bool {
        &&& self.users.wf()
        &&& self.sessions.wf()
        &&& self.todos.wf()
    }

    /// Well-formedness: each store is well-formed and every session
    /// and todo references an existing user.
    pub open spec fn wf(&self) -> bool {
        &&& self.stores_wf()
        &&& users_cover_sessions(self.users_view(), self.sessions_view())
        &&& users_cover_todos(self.users_view(), self.todos_view())
    }

    /// An empty core.
    pub fn new() -> (s: Self)
        ensures
            s.wf(),
            s.users_view() == Seq::<UserView>::empty(),
            s.sessions_view() == Seq::<SessionView>::empty(),
            s.todos_view() == Seq::<TodoView>::empty(),
            s.next_user_id() == 1,
            s.next_todo_id() == 1,
    {
        Core { users: CredentialStore::new(), sessions: SessionManager::new(), todos: TodoStore::new() }
    }

    /// The user id counter, readable at run time so a caller can test
    /// the precondition of `register` before calling it.
    pub fn user_id_counter(&self) -> (r: i64)
        ensures
            r == self.next_user_id(),
    {
        self.users.next_id_value()
    }

    /// The todo id counter, readable at run time so a caller can test
    /// the precondition of `add_todo` before calling it.
    pub fn todo_id_counter(&self) -> (r: i64)
        ensures
            r == self.next_todo_id(),
    {
        self.todos.next_id_value()
    }

    /// Creates an account; the session and todo stores are untouched.
    /// Fails with `DuplicateIdentity` exactly when the username or the
    /// email is already taken, and with `StorageUnavailable` when
    /// hashing fails.
    pub fn register(&mut self, user_data: &RegisterUser, now: u64) -> (r: Result<User, StoreError>)
        requires
            old(self).wf(),
            old(self).next_user_id() < i64::MAX,
        ensures
            final(self).wf(),
            final(self).sessions_view() == old(self).sessions_view(),
            final(self).todos_view() == old(self).todos_view(),
            final(self).next_todo_id() == old(self).next_todo_id(),
            user_by_name(old(self).users_view(), user_data.username@) is Some || user_by_email(
                old(self).users_view(),
                user_data.email@,
            ) is Some ==> r == Err::<User, StoreError>(StoreError::DuplicateIdentity),
            r == Err::<User, StoreError>(StoreError::DuplicateIdentity) ==> final(self).users_view()
                == old(self).users_view() && final(self).next_user_id() == old(self).next_user_id()
                && (user_by_name(old(self).users_view(), user_data.username@) is Some
                || user_by_email(old(self).users_view(), user_data.email@) is Some),
            r == Err::<User, StoreError>(StoreError::StorageUnavailable) ==> final(self).users_view()
                == old(self).users_view() && final(self).next_user_id() == old(self).next_user_id(),
            r matches Err(e) ==> e == StoreError::DuplicateIdentity
                || e == StoreError::StorageUnavailable,
            r matches Ok(u) ==> {
                &&& user_by_name(old(self).users_view(), user_data.username@) is None
                &&& user_by_email(old(self).users_view(), user_data.email@) is None
                &&& u@.username == user_data.username@
                &&& u@.email == user_data.email@
                &&& u@.id == old(self).next_user_id()
                &&& u@.created_at == now
                &&& crate::crypto::bcrypt_matches(user_data.password@, u@.password_hash)
                &&& final(self).users_view() == old(self).users_view().push(u@)
                &&& final(self).next_user_id() == old(self).next_user_id() + 1
            },
    {
        let r = self.users.register(user_data, now);
        proof {
            if r is Ok {
                let u = r.unwrap()@;
                assert forall|i: int| 0 <= i < self.sessions_view().len() implies user_id_known(
                    self.users_view(),
                    (#[trigger] self.sessions_view()[i]).user_id,
                ) by {
                    let j = choose|j: int|
                        0 <= j < old(self).users_view().len() && old(self).users_view()[j].id
                            == self.sessions_view()[i].user_id;
                    assert(self.users_view()[j].id == self.sessions_view()[i].user_id);
                }
                assert forall|i: int| 0 <= i < self.todos_view().len() implies user_id_known(
                    self.users_view(),
                    (#[trigger] self.todos_view()[i]).user_id,
                ) by {
                    let j = choose|j: int|
                        0 <= j < old(self).users_view().len() && old(self).users_view()[j].id
                            == self.todos_view()[i].user_id;
                    assert(self.users_view()[j].id == self.todos_view()[i].user_id);
                }
            }
        }
        r
    }

    /// Authenticates and, on success, issues a session for the user.
    /// Fails with `InvalidCredentials` exactly when the username is
    /// unknown or the password does not match; the two are
    /// indistinguishable.
    pub fn login(&mut self, login_data: &LoginUser, now: u64) -> (r: Result<
        (User, Session),
        StoreError,
    >)
        requires
            old(self).wf(),
            now <= u64::MAX - SESSION_LIFETIME_SECONDS,
        ensures
            final(self).wf(),
            final(self).users_view() == old(self).users_view(),
            final(self).todos_view() == old(self).todos_view(),
            final(self).next_user_id() == old(self).next_user_id(),
            final(self).next_todo_id() == old(self).next_todo_id(),
            r is Err <==> auth_result(
                old(self).users_view(),
                login_data.username@,
                login_data.password@,
            ) is None,
            r is Err ==> r == Err::<(User, Session), StoreError>(StoreError::InvalidCredentials)
                && final(self).sessions_view() == old(self).sessions_view(),
            r matches Ok((u, s)) ==> {
                &&& auth_result(old(self).users_view(), login_data.username@, login_data.password@)
                    == Some(u@)
                &&& s@.user_id == u@.id
                &&& s@.created_at == now
                &&& s@.expires_at == now + SESSION_LIFETIME_SECONDS
                &&& session_by_token(final(self).sessions_view(), s@.id) == Some(s@)
                &&& forall|t: Seq<char>| t != s@.id ==> session_by_token(
                    final(self).sessions_view(),
                    t,
                ) == session_by_token(old(self).sessions_view(), t)
            },
    {
        match self.users.authenticate(login_data) {
            None => Err(StoreError::InvalidCredentials),
            Some(u) => {
                proof {
                    lemma_find_by_member(
                        self.users_view(),
                        |x: UserView| x.username,
                        login_data.username@,
                    );
                }
                let s = self.sessions.create_session(u.id, now);
                let ghost new_sess = s@;
                proof {
                    assert(user_id_known(self.users_view(), u@.id));
                    assert forall|i: int|
                        0 <= i < self.sessions_view().len() implies user_id_known(
                        self.users_view(),
                        (#[trigger] self.sessions_view()[i]).user_id,
                    ) by {
                        let sv = self.sessions_view()[i];
                        if sv == new_sess {
                            assert(sv.user_id == u@.id);
                        } else {
                            assert(old(self).sessions_view().contains(sv));
                            let j = choose|j: int|
                                0 <= j < old(self).sessions_view().len() && old(
                                    self,
                                ).sessions_view()[j] == sv;
                            assert(user_id_known(self.users_view(), sv.user_id));
                        }
                    }
                }
                Ok((u, s))
            },
        }
    }

    /// Ends the session under the presented token, if any, reporting
    /// whether one existed. Safe to call with no token, and idempotent.
    pub fn logout(&mut self, token: Option<&str>) -> (r: bool)
        requires
            old(self).wf(),
        ensures
            final(self).wf(),
            final(self).users_view() == old(self).users_view(),
            final(self).todos_view() == old(self).todos_view(),
            final(self).next_user_id() == old(self).next_user_id(),
            final(self).next_todo_id() == old(self).next_todo_id(),
            token is None ==> !r && final(self).sessions_view() == old(self).sessions_view(),
            token matches Some(t) ==> {
                &&& r == (session_by_token(old(self).sessions_view(), t@) is Some)
                &&& session_by_token(final(self).sessions_view(), t@) is None
                &&& forall|t2: Seq<char>| t2 != t@ ==> session_by_token(
                    final(self).sessions_view(),
                    t2,
                ) == session_by_token(old(self).sessions_view(), t2)
            },
    {
        match token {
            None => false,
            Some(t) => {
                let r = self.sessions.revoke(t);
                proof {
                    assert forall|i: int|
                        0 <= i < self.sessions_view().len() implies user_id_known(
                        self.users_view(),
                        (#[trigger] self.sessions_view()[i]).user_id,
                    ) by {
                        let sv = self.sessions_view()[i];
                        assert(old(self).sessions_view().contains(sv));
                        let j = choose|j: int|
                            0 <= j < old(self).sessions_view().len() && old(self).sessions_view()[j]
                                == sv;
                        assert(user_id_known(self.users_view(), sv.user_id));
                    }
                }
                r
            },
        }
    }

    /// Resolves a token to its live session joined with its user,
    /// answering nothing for an absent or expired token.
    pub fn get_session(&self, token: &str, now: u64) -> (r: Option<(Session, User)>)
        requires
            self.wf(),
        ensures
            match r {
                Some(p) => resolve_result(self.sessions_view(), token@, now) == Some(p.0@)
                    && user_by_id(self.users_view(), p.0@.user_id) == Some(p.1@),
                None => resolve_result(self.sessions_view(), token@, now) is None,
            },
    {
        match self.sessions.resolve(token, now) {
            None => None,
            Some(s) => {
                proof {
                    lemma_find_by_member(self.sessions_view(), |x: SessionView| x.id, token@);
                    lemma_find_by_characterization(
                        self.users_view(),
                        |x: UserView| x.id,
                        s@.user_id,
                    );
                    assert(user_id_known(self.users_view(), s@.user_id));
                }
                match self.users.get_user(s.user_id) {
                    Some(u) => Some((s, u)),
                    None => {
                        proof {
                            assert(false);
                        }
                        None
                    },
                }
            },
        }
    }

    /// The identity behind the presented token: the user joined
    /// through the live session, or nothing. Absence of a login is a
    /// normal result, never an error.
    pub fn get_current_user(&self, token: Option<&str>, now: u64) -> (r: Option<User>)
        requires
            self.wf(),
        ensures
            match r {
                Some(u) => current_user_result(
                    self.users_view(),
                    self.sessions_view(),
                    opt_str_view(token),
                    now,
                ) == Some(u@),
                None => current_user_result(
                    self.users_view(),
                    self.sessions_view(),
                    opt_str_view(token),
                    now,
                ) is None,
            },
    {
        match token {
            None => None,
            Some(t) => match self.get_session(t, now) {
                None => None,
                Some(p) => {
                    let (_, u) = p;
                    Some(u)
                },
            },
        }
    }

    /// The mandatory entry gate of every protected operation: resolves
    /// the presented token, failing with `Unauthenticated` exactly
    /// when no user stands behind it.
    pub fn authorize(&self, token: Option<&str>, now: u64) -> (r: Result<User, StoreError>)
        requires
            self.wf(),
        ensures
            match r {
                Ok(u) => current_user_result(
                    self.users_view(),
                    self.sessions_view(),
                    opt_str_view(token),
                    now,
                ) == Some(u@),
                Err(e) => e == StoreError::Unauthenticated && current_user_result(
                    self.users_view(),
                    self.sessions_view(),
                    opt_str_view(token),
                    now,
                ) is None,
            },
    {
        match self.get_current_user(token, now) {
            Some(u) => Ok(u),
            None => Err(StoreError::Unauthenticated),
        }
    }

    /// Lists the authenticated user's todos, most recently created
    /// first. Fails with `Unauthenticated` exactly when no user stands
    /// behind the token.
    pub fn get_todos(&self, token: Option<&str>, now: u64) -> (r: Result<Vec<Todo>, StoreError>)
        requires
            self.wf(),
        ensures
            r is Err <==> current_user_result(
                self.users_view(),
                self.sessions_view(),
                opt_str_view(token),
                now,
            ) is None,
            r is Err ==> r == Err::<Vec<Todo>, StoreError>(StoreError::Unauthenticated),
            r matches Ok(v) ==> current_user_result(
                self.users_view(),
                self.sessions_view(),
                opt_str_view(token),
                now,
            ) matches Some(u) && v@.map_values(|t: Todo| t@) == todos_of_desc(
                self.todos_view(),
                u.id,
            ),
    {
        match self.authorize(token, now) {
            Err(e) => Err(e),
            Ok(u) => Ok(self.todos.list(u.id)),
        }
    }

    /// Fetches one of the authenticated user's todos by id. Fails
    /// with `NotFound` exactly when the id is absent or the row is
    /// owned by another user; the two are indistinguishable.
    pub fn get_todo_by_id(&self, token: Option<&str>, todo_id: i64, now: u64) -> (r: Result<
        Todo,
        StoreError,
    >)
        requires
            self.wf(),
        ensures
            r == Err::<Todo, StoreError>(StoreError::Unauthenticated) <==> current_user_result(
                self.users_view(),
                self.sessions_view(),
                opt_str_view(token),
                now,
            ) is None,
            r matches Err(e) ==> e == StoreError::Unauthenticated || e == StoreError::NotFound,
            current_user_result(
                self.users_view(),
                self.sessions_view(),
                opt_str_view(token),
                now,
            ) matches Some(u) ==> {
                &&& r == Err::<Todo, StoreError>(StoreError::NotFound) <==> owned_todo(
                    self.todos_view(),
                    u.id,
                    todo_id,
                ) is None
                &&& r matches Ok(t) ==> owned_todo(self.todos_view(), u.id, todo_id) == Some(t@)
            },
    {
        match self.authorize(token, now) {
            Err(e) => Err(e),
            Ok(u) => match self.todos.get(u.id, todo_id) {
                None => Err(StoreError::NotFound),
                Some(t) => Ok(t),
            },
        }
    }

    /// Creates a todo for the authenticated user. Fails with
    /// `Unauthenticated` exactly when no user stands behind the token,
    /// and with `InvalidInput` exactly when the title is blank.
    pub fn add_todo(&mut self, token: Option<&str>, todo: &CreateTodo, now: u64) -> (r: Result<
        Todo,
        StoreError,
    >)
        requires
            old(self).wf(),
            old(self).next_todo_id() < i64::MAX,
        ensures
            final(self).wf(),
            final(self).users_view() == old(self).users_view(),
            final(self).sessions_view() == old(self).sessions_view(),
            final(self).next_user_id() == old(self).next_user_id(),
            r matches Err(e) ==> e == StoreError::Unauthenticated || e == StoreError::InvalidInput,
            r is Err ==> final(self).todos_view() == old(self).todos_view() && final(self).next_todo_id() == old(self).next_todo_id(),
            r == Err::<Todo, StoreError>(StoreError::Unauthenticated) <==> current_user_result(
                old(self).users_view(),
                old(self).sessions_view(),
                opt_str_view(token),
                now,
            ) is None,
            current_user_result(
                old(self).users_view(),
                old(self).sessions_view(),
                opt_str_view(token),
                now,
            ) is Some ==> (r == Err::<Todo, StoreError>(StoreError::InvalidInput) <==> is_blank(
                todo.title@,
            )),
            r matches Ok(t) ==> current_user_result(
                old(self).users_view(),
                old(self).sessions_view(),
                opt_str_view(token),
                now,
            ) matches Some(u) && {
                &&& t@.user_id == u.id
                &&& t@.title == todo.title@
                &&& t@.completed == false
                &&& t@.created_at == now
                &&& t@.updated_at == now
                &&& t@.id == old(self).next_todo_id()
                &&& final(self).todos_view() == old(self).todos_view().push(t@)
                &&& final(self).next_todo_id() == old(self).next_todo_id() + 1
            },
    {
        match self.authorize(token, now) {
            Err(e) => Err(e),
            Ok(u) => {
                let r = self.todos.create(u.id, todo, now);
                proof {
                    if r is Ok {
                        let tok = opt_str_view(token).unwrap();
                        let sess = resolve_result(old(self).sessions_view(), tok, now).unwrap();
                        lemma_find_by_member(self.users_view(), |x: UserView| x.id, sess.user_id);
                        assert(user_id_known(self.users_view(), u@.id));
                        let t = r.unwrap()@;
                        assert forall|i: int|
                            0 <= i < self.todos_view().len() implies user_id_known(
                            self.users_view(),
                            (#[trigger] self.todos_view()[i]).user_id,
                        ) by {
                            let tv = self.todos_view()[i];
                            if tv != t {
                                assert(old(self).todos_view().contains(tv));
                                let j = choose|j: int|
                                    0 <= j < old(self).todos_view().len() && old(
                                        self,
                                    ).todos_view()[j] == tv;
                                assert(user_id_known(self.users_view(), tv.user_id));
                            }
                        }
                    }
                }
                r
            },
        }
    }

    /// Sets the completion flag of one of the authenticated user's
    /// todos, bumping its `updated_at`. An id that is absent or owned
    /// by another user answers `Ok(None)` and changes nothing; only a
    /// missing identity is an error.
    pub fn toggle_todo(&mut self, token: Option<&str>, todo_id: i64, completed: bool, now: u64) -> (r:
        Result<Option<Todo>, StoreError>)
        requires
            old(self).wf(),
        ensures
            final(self).wf(),
            final(self).users_view() == old(self).users_view(),
            final(self).sessions_view() == old(self).sessions_view(),
            final(self).next_user_id() == old(self).next_user_id(),
            final(self).next_todo_id() == old(self).next_todo_id(),
            r is Err <==> current_user_result(
                old(self).users_view(),
                old(self).sessions_view(),
                opt_str_view(token),
                now,
            ) is None,
            r is Err ==> r == Err::<Option<Todo>, StoreError>(StoreError::Unauthenticated) && final(self).todos_view() == old(self).todos_view(),
            r matches Ok(inner) ==> current_user_result(
                old(self).users_view(),
                old(self).sessions_view(),
                opt_str_view(token),
                now,
            ) matches Some(u) && {
                &&& inner is None ==> owned_todo(old(self).todos_view(), u.id, todo_id) is None
                    && final(self).todos_view() == old(self).todos_view()
                &&& inner matches Some(t) ==> owned_todo(
                    old(self).todos_view(),
                    u.id,
                    todo_id,
                ) is Some && completion_updated(
                    old(self).todos_view(),
                    final(self).todos_view(),
                    t@,
                    u.id,
                    todo_id,
                    completed,
                    now,
                )
            },
    {
        match self.authorize(token, now) {
            Err(e) => Err(e),
            Ok(u) => {
                let r = self.todos.update_completion(u.id, todo_id, completed, now);
                proof {
                    if r is Some {
                        let tok = opt_str_view(token).unwrap();
                        let sess = resolve_result(old(self).sessions_view(), tok, now).unwrap();
                        lemma_find_by_member(self.users_view(), |x: UserView| x.id, sess.user_id);
                        assert(user_id_known(self.users_view(), u@.id));
                        let t = r.unwrap()@;
                        assert(t.user_id == u@.id);
                        assert forall|i: int|
                            0 <= i < self.todos_view().len() implies user_id_known(
                            self.users_view(),
                            (#[trigger] self.todos_view()[i]).user_id,
                        ) by {
                            let tv = self.todos_view()[i];
                            if tv != t {
                                assert(old(self).todos_view().contains(tv));
                                let j = choose|j: int|
                                    0 <= j < old(self).todos_view().len() && old(
                                        self,
                                    ).todos_view()[j] == tv;
                                assert(user_id_known(self.users_view(), tv.user_id));
                            }
                        }
                    }
                }
                Ok(r)
            },
        }
    }

    /// Deletes one of the authenticated user's todos, reporting
    /// whether a row was removed. An id that is absent or owned by
    /// another user answers `Ok(false)` and changes nothing; deletion
    /// is idempotent.
    pub fn delete_todo(&mut self, token: Option<&str>, todo_id: i64, now: u64) -> (r: Result<
        bool,
        StoreError,
    >)
        requires
            old(self).wf(),
        ensures
            final(self).wf(),
            final(self).users_view() == old(self).users_view(),
            final(self).sessions_view() == old(self).sessions_view(),
            final(self).next_user_id() == old(self).next_user_id(),
            final(self).next_todo_id() == old(self).next_todo_id(),
            r is Err <==> current_user_result(
                old(self).users_view(),
                old(self).sessions_view(),
                opt_str_view(token),
                now,
            ) is None,
            r is Err ==> r == Err::<bool, StoreError>(StoreError::Unauthenticated) && final(self).todos_view() == old(self).todos_view(),
            r matches Ok(removed) ==> current_user_result(
                old(self).users_view(),
                old(self).sessions_view(),
                opt_str_view(token),
                now,
            ) matches Some(u) && {
                &&& removed == (owned_todo(old(self).todos_view(), u.id, todo_id) is Some)
                &&& owned_todo(final(self).todos_view(), u.id, todo_id) is None
                &&& !removed ==> final(self).todos_view() == old(self).todos_view()
                &&& forall|id2: i64| id2 != todo_id ==> crate::todos::todo_by_id(
                    final(self).todos_view(),
                    id2,
                ) == crate::todos::todo_by_id(old(self).todos_view(), id2)
            },
    {
        match self.authorize(token, now) {
            Err(e) => Err(e),
            Ok(u) => {
                let r = self.todos.delete(u.id, todo_id);
                proof {
                    assert forall|i: int|
                        0 <= i < self.todos_view().len() implies user_id_known(
                        self.users_view(),
                        (#[trigger] self.todos_view()[i]).user_id,
                    ) by {
                        let tv = self.todos_view()[i];
                        assert(old(self).todos_view().contains(tv));
                        let j = choose|j: int|
                            0 <= j < old(self).todos_view().len() && old(self).todos_view()[j]
                                == tv;
                        assert(user_id_known(self.users_view(), tv.user_id));
                    }
                }
                Ok(r)
            },
        }
    }
}

} // verus!
