//! The credential store: registration, password authentication, and
//! lookup by primary key. Owns the users table; usernames and emails
//! are globally unique, and only salted bcrypt hashes are kept.

use vstd::prelude::*;
use crate::crypto::{bcrypt_hash_password, bcrypt_matches, bcrypt_verify_password, is_bcrypt_hash};
use crate::errors::StoreError;
use crate::lookup::{find_by, lemma_find_by_characterization, unique_by};
use crate::models::{LoginUser, RegisterUser, User, UserView};
use crate::text::str_eq;

verus! {

/// The user registered under `name`, if any.
pub open spec fn user_by_name(users: Seq<UserView>, name: Seq<char>) -> Option<UserView> {
    find_by(users, |u: UserView| u.username, name)
}

/// The user registered under `email`, if any.
pub open spec fn user_by_email(users: Seq<UserView>, email: Seq<char>) -> Option<UserView> {
    find_by(users, |u: UserView| u.email, email)
}

/// The user with primary key `id`, if any.
pub open spec fn user_by_id(users: Seq<UserView>, id: i64) -> Option<UserView> {
    find_by(users, |u: UserView| u.id, id)
}

/// What authentication returns, at the level of the model: the user
/// under `name`, provided `password` matches the stored hash. An
/// unknown username and a wrong password are indistinguishable.
pub open spec fn auth_result(users: Seq<UserView>, name: Seq<char>, password: Seq<char>) -> Option<
    UserView,
> {
    match user_by_name(users, name) {
        Some(u) => if bcrypt_matches(password, u.password_hash) {
            Some(u)
        } else {
            None
        },
        None => None,
    }
}

/// Hashes and verifies user passwords; owns the users table.
pub struct CredentialStore {
    users: Vec<User>,
    next_id: i64,
}

impl View for CredentialStore {
    type V = Seq<UserView>;

    closed spec fn view(&self) -> Seq<UserView> {
        self.users@.map_values(|u: User| u@)
    }
}

impl CredentialStore {
    /// The primary key the next registered user will receive.
    pub closed spec fn next_user_id(&self) -> i64 {
        self.next_id
    }

    /// Well-formedness: ids, usernames and emails are pairwise
    /// distinct, ids stay below the id counter, and every stored hash
    /// is a well-formed bcrypt hash.
    pub open spec fn wf(&self) -> bool {
        &&& unique_by(self@, |u: UserView| u.id)
        &&& unique_by(self@, |u: UserView| u.username)
        &&& unique_by(self@, |u: UserView| u.email)
        &&& forall|i: int| 0 <= i < self@.len() ==> (#[trigger] self@[i]).id < self.next_user_id()
        &&& forall|i: int|
            0 <= i < self@.len() ==> is_bcrypt_hash((#[trigger] self@[i]).password_hash)
        &&& 1 <= self.next_user_id()
    }

    /// An empty store.
    pub fn new() -> (s: Self)
        ensures
            s@ == Seq::<UserView>::empty(),
            s.wf(),
            s.next_user_id() == 1,
    {
        let s = CredentialStore { users: Vec::new(), next_id: 1 };
        proof {
            assert(s@ =~= Seq::<UserView>::empty());
        }
        s
    }

    /// The id counter, readable at run time so a caller can test the
    /// precondition of `register` before calling it.
    pub fn next_id_value(&self) -> (r: i64)
        ensures
            r == self.next_user_id(),
    {
        self.next_id
    }

    /// Index of the user with this username, by linear scan.
    fn index_by_username(&self, name: &str) -> (r: Option<usize>)
        ensures
            match r {
                Some(i) => i < self@.len() && self@[i as int].username == name@,
                None => forall|i: int| 0 <= i < self@.len() ==> self@[i].username != name@,
            },
    {
        let n = self.users.len();
        let mut i: usize = 0;
        while i < n
            invariant
                i <= n,
                n == self.users@.len(),
                self@ == self.users@.map_values(|u: User| u@),
                forall|j: int| 0 <= j < i ==> self@[j].username != name@,
            decreases n - i,
        {
            if str_eq(self.users[i].username.as_str(), name) {
                return Some(i);
            }
            i = i + 1;
        }
        None
    }

    /// Index of the user with this email, by linear scan.
    fn index_by_email(&self, email: &str) -> (r: Option<usize>)
        ensures
            match r {
                Some(i) => i < self@.len() && self@[i as int].email == email@,
                None => forall|i: int| 0 <= i < self@.len() ==> self@[i].email != email@,
            },
    {
        let n = self.users.len();
        let mut i: usize = 0;
        while i < n
            invariant
                i <= n,
                n == self.users@.len(),
                self@ == self.users@.map_values(|u: User| u@),
                forall|j: int| 0 <= j < i ==> self@[j].email != email@,
            decreases n - i,
        {
            if str_eq(self.users[i].email.as_str(), email) {
                return Some(i);
            }
            i = i + 1;
        }
        None
    }

    /// Index of the user with this primary key, by linear scan.
    fn index_by_id(&self, user_id: i64) -> (r: Option<usize>)
        ensures
            match r {
                Some(i) => i < self@.len() && self@[i as int].id == user_id,
                None => forall|i: int| 0 <= i < self@.len() ==> self@[i].id != user_id,
            },
    {
        let n = self.users.len();
        let mut i: usize = 0;
        while i < n
            invariant
                i <= n,
                n == self.users@.len(),
                self@ == self.users@.map_values(|u: User| u@),
                forall|j: int| 0 <= j < i ==> self@[j].id != user_id,
            decreases n - i,
        {
            if self.users[i].id == user_id {
                return Some(i);
            }
            i = i + 1;
        }
        None
    }

    /// Creates an account. Fails with `DuplicateIdentity` when the
    /// username or the email is already taken, and with
    /// `StorageUnavailable` when hashing fails; otherwise appends a
    /// user carrying a fresh id and a salted hash of the password.
    pub fn register(&mut self, user_data: &RegisterUser, now: u64) -> (r: Result<User, StoreError>)
        requires
            old(self).wf(),
            old(self).next_user_id() < i64::MAX,
        ensures
            final(self).wf(),
            user_by_name(old(self)@, user_data.username@) is Some || user_by_email(
                old(self)@,
                user_data.email@,
            ) is Some ==> r == Err::<User, StoreError>(StoreError::DuplicateIdentity),
            r == Err::<User, StoreError>(StoreError::DuplicateIdentity) ==> final(self)@ == old(
                self,
            )@ && final(self).next_user_id() == old(self).next_user_id() && (user_by_name(
                old(self)@,
                user_data.username@,
            ) is Some || user_by_email(old(self)@, user_data.email@) is Some),
            r == Err::<User, StoreError>(StoreError::StorageUnavailable) ==> final(self)@ == old(
                self,
            )@ && final(self).next_user_id() == old(self).next_user_id(),
            r matches Err(e) ==> e == StoreError::DuplicateIdentity
                || e == StoreError::StorageUnavailable,
            r matches Ok(u) ==> {
                &&& user_by_name(old(self)@, user_data.username@) is None
                &&& user_by_email(old(self)@, user_data.email@) is None
                &&& u@.username == user_data.username@
                &&& u@.email == user_data.email@
                &&& u@.id == old(self).next_user_id()
                &&& u@.created_at == now
                &&& bcrypt_matches(user_data.password@, u@.password_hash)
                &&& final(self)@ == old(self)@.push(u@)
                &&& final(self).next_user_id() == old(self).next_user_id() + 1
            },
    {
        let dup_name = self.index_by_username(user_data.username.as_str());
        let dup_email = self.index_by_email(user_data.email.as_str());
        proof {
            lemma_find_by_characterization(self@, |u: UserView| u.username, user_data.username@);
            lemma_find_by_characterization(self@, |u: UserView| u.email, user_data.email@);
        }
        if dup_name.is_some() || dup_email.is_some() {
            return Err(StoreError::DuplicateIdentity);
        }
        match bcrypt_hash_password(user_data.password.as_str()) {
            Err(_) => Err(StoreError::StorageUnavailable),
            Ok(h) => {
                let u = User {
                    id: self.next_id,
                    username: user_data.username.clone(),
                    email: user_data.email.clone(),
                    password_hash: h,
                    created_at: now,
                };
                let created = u.clone();
                let ghost prev = self@;
                self.users.push(u);
                self.next_id = self.next_id + 1;
                proof {
                    assert(self@ =~= prev.push(created@));
                }
                Ok(created)
            },
        }
    }

    /// Authenticates by username and password. Returns the matching
    /// user, or nothing when the username is unknown or the password
    /// does not match; the two failures are indistinguishable.
    pub fn authenticate(&self, login_data: &LoginUser) -> (r: Option<User>)
        requires
            self.wf(),
        ensures
            match r {
                Some(u) => auth_result(self@, login_data.username@, login_data.password@) == Some(
                    u@,
                ),
                None => auth_result(self@, login_data.username@, login_data.password@) is None,
            },
    {
        proof {
            lemma_find_by_characterization(self@, |u: UserView| u.username, login_data.username@);
        }
        match self.index_by_username(login_data.username.as_str()) {
            None => None,
            Some(i) => {
                let u = &self.users[i];
                proof {
                    assert(u@ == self@[i as int]);
                }
                match bcrypt_verify_password(
                    login_data.password.as_str(),
                    u.password_hash.as_str(),
                ) {
                    Ok(true) => Some(u.clone()),
                    Ok(false) => None,
                    Err(_) => {
                        proof {
                            assert(false);
                        }
                        None
                    },
                }
            },
        }
    }

    /// Lookup by primary key.
    pub fn get_user(&self, user_id: i64) -> (r: Option<User>)
        requires
            self.wf(),
        ensures
            match r {
                Some(u) => user_by_id(self@, user_id) == Some(u@),
                None => user_by_id(self@, user_id) is None,
            },
    {
        proof {
            lemma_find_by_characterization(self@, |u: UserView| u.id, user_id);
        }
        match self.index_by_id(user_id) {
            None => None,
            Some(i) => {
                proof {
                    assert(self.users@[i as int]@ == self@[i as int]);
                }
                Some(self.users[i].clone())
            },
        }
    }
}

/// Registration followed by authentication: once a state with no user
/// under `u.username` is extended by `u`, authenticating with
/// `u.username` succeeds with exactly `u` for any password matching the
/// stored hash, and fails for any password that does not match it.
pub proof fn lemma_register_then_authenticate(
    users: Seq<UserView>,
    u: UserView,
    password: Seq<char>,
    wrong: Seq<char>,
)
    requires
        unique_by(users, |x: UserView| x.username),
        forall|i: int| 0 <= i < users.len() ==> users[i].username != u.username,
        bcrypt_matches(password, u.password_hash),
        !bcrypt_matches(wrong, u.password_hash),
    ensures
        auth_result(users.push(u), u.username, password) == Some(u),
        auth_result(users.push(u), u.username, wrong) is None,
{
    let post = users.push(u);
    assert(unique_by(post, |x: UserView| x.username));
    lemma_find_by_characterization(post, |x: UserView| x.username, u.username);
    assert(post[users.len() as int] == u);
}

/// Registering the same username twice fails: once `u` is present,
/// a later registration under `u.username` finds a duplicate, so the
/// store's `register` answers `DuplicateIdentity` and changes nothing.
pub proof fn lemma_register_then_duplicate(users: Seq<UserView>, u: UserView)
    requires
        unique_by(users.push(u), |x: UserView| x.username),
    ensures
        user_by_name(users.push(u), u.username) is Some,
{
    let post = users.push(u);
    lemma_find_by_characterization(post, |x: UserView| x.username, u.username);
    assert(post[users.len() as int] == u);
}

} // verus!
