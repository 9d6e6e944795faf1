//! The data model: users, sessions and todos, with mathematical views.
//!
//! Timestamps are plain seconds since the Unix epoch; strings are viewed
//! as character sequences. Each record type has a spec-level twin (its
//! view) that the contracts of the stores speak about.

use vstd::prelude::*;

verus! {

/// A registered account. `password_hash` holds a salted bcrypt hash,
/// never the raw password.
#[derive(Debug)]
pub struct User {
    pub id: i64,
    pub username: String,
    pub email: String,
    pub password_hash: String,
    pub created_at: u64,
}

/// Spec-level image of a [`User`].
pub struct UserView {
    pub id: i64,
    pub username: Seq<char>,
    pub email: Seq<char>,
    pub password_hash: Seq<char>,
    pub created_at: u64,
}

impl View for User {
    type V = UserView;

    open spec fn view(&self) -> UserView {
        UserView {
            id: self.id,
            username: self.username@,
            email: self.email@,
            password_hash: self.password_hash@,
            created_at: self.created_at,
        }
    }
}

impl Clone for User {
    fn clone(&self) -> (r: Self)
        ensures
            r@ == self@,
    {
        User {
            id: self.id,
            username: self.username.clone(),
            email: self.email.clone(),
            password_hash: self.password_hash.clone(),
            created_at: self.created_at,
        }
    }
}

/// A login session. `id` is the opaque token handed to the client; the
/// session is live exactly while `now < expires_at`.
#[derive(Debug)]
pub struct Session {
    pub id: String,
    pub user_id: i64,
    pub created_at: u64,
    pub expires_at: u64,
}

/// Spec-level image of a [`Session`].
pub struct SessionView {
    pub id: Seq<char>,
    pub user_id: i64,
    pub created_at: u64,
    pub expires_at: u64,
}

impl View for Session {
    type V = SessionView;

    open spec fn view(&self) -> SessionView {
        SessionView {
            id: self.id@,
            user_id: self.user_id,
            created_at: self.created_at,
            expires_at: self.expires_at,
        }
    }
}

impl Clone for Session {
    fn clone(&self) -> (r: Self)
        ensures
            r@ == self@,
    {
        Session {
            id: self.id.clone(),
            user_id: self.user_id,
            created_at: self.created_at,
            expires_at: self.expires_at,
        }
    }
}

/// A task owned by one user. Only `completed` and `updated_at` change
/// after creation; the title is immutable.
#[derive(Debug)]
pub struct Todo {
    pub id: i64,
    pub title: String,
    pub completed: bool,
    pub created_at: u64,
    pub updated_at: u64,
    pub user_id: i64,
}

/// Spec-level image of a [`Todo`].
pub struct TodoView {
    pub id: i64,
    pub title: Seq<char>,
    pub completed: bool,
    pub created_at: u64,
    pub updated_at: u64,
    pub user_id: i64,
}

impl View for Todo {
    type V = TodoView;

    open spec fn view(&self) -> TodoView {
        TodoView {
            id: self.id,
            title: self.title@,
            completed: self.completed,
            created_at: self.created_at,
            updated_at: self.updated_at,
            user_id: self.user_id,
        }
    }
}

impl Clone for Todo {
    fn clone(&self) -> (r: Self)
        ensures
            r@ == self@,
    {
        Todo {
            id: self.id,
            title: self.title.clone(),
            completed: self.completed,
            created_at: self.created_at,
            updated_at: self.updated_at,
            user_id: self.user_id,
        }
    }
}

/// Request payload for creating a todo.
#[derive(Debug)]
pub struct CreateTodo {
    pub title: String,
}

impl View for CreateTodo {
    type V = Seq<char>;

    open spec fn view(&self) -> Seq<char> {
        self.title@
    }
}

impl Clone for CreateTodo {
    fn clone(&self) -> (r: Self)
        ensures
            r@ == self@,
    {
        CreateTodo { title: self.title.clone() }
    }
}

/// Request payload for changing a todo's completion flag.
#[derive(Debug)]
pub struct UpdateTodo {
    pub completed: bool,
}

/// Request payload for registration.
#[derive(Debug)]
pub struct RegisterUser {
    pub username: String,
    pub email: String,
    pub password: String,
}

impl Clone for RegisterUser {
    fn clone(&self) -> (r: Self)
        ensures
            r.username@ == self.username@,
            r.email@ == self.email@,
            r.password@ == self.password@,
    {
        RegisterUser {
            username: self.username.clone(),
            email: self.email.clone(),
            password: self.password.clone(),
        }
    }
}

/// Request payload for login.
#[derive(Debug)]
pub struct LoginUser {
    pub username: String,
    pub password: String,
}

impl Clone for LoginUser {
    fn clone(&self) -> (r: Self)
        ensures
            r.username@ == self.username@,
            r.password@ == self.password@,
    {
        LoginUser {
            username: self.username.clone(),
            password: self.password.clone(),
        }
    }
}

} // verus!
