use todo_core::credentials::CredentialStore;
use todo_core::errors::StoreError;
use todo_core::models::{CreateTodo, LoginUser, RegisterUser};
use todo_core::sessions::{SessionManager, SESSION_LIFETIME_SECONDS};
use todo_core::todos::TodoStore;

fn reg(username: &str, email: &str, password: &str) -> RegisterUser {
    RegisterUser {
        username: username.to_string(),
        email: email.to_string(),
        password: password.to_string(),
    }
}

fn login(username: &str, password: &str) -> LoginUser {
    LoginUser { username: username.to_string(), password: password.to_string() }
}

#[test]
fn register_then_authenticate_round_trip() {
    let mut store = CredentialStore::new();
    let created = store.register(&reg("alice", "alice@example.com", "correct horse"), 100).unwrap();
    assert_eq!(created.username, "alice");
    assert_eq!(created.email, "alice@example.com");
    assert_eq!(created.created_at, 100);
    // The raw password is never stored.
    assert_ne!(created.password_hash, "correct horse");

    let found = store.authenticate(&login("alice", "correct horse")).unwrap();
    assert_eq!(found.username, "alice");
    assert_eq!(found.id, created.id);
}

#[test]
fn authenticate_wrong_password_or_unknown_user_fails() {
    let mut store = CredentialStore::new();
    store.register(&reg("bob", "bob@example.com", "hunter2"), 5).unwrap();
    assert!(store.authenticate(&login("bob", "hunter3")).is_none());
    assert!(store.authenticate(&login("nobody", "hunter2")).is_none());
}

#[test]
fn duplicate_username_rejected() {
    let mut store = CredentialStore::new();
    store.register(&reg("carol", "carol@example.com", "pw"), 1).unwrap();
    let second = store.register(&reg("carol", "other@example.com", "pw"), 2);
    assert_eq!(second.unwrap_err(), StoreError::DuplicateIdentity);
}

#[test]
fn duplicate_email_rejected() {
    let mut store = CredentialStore::new();
    store.register(&reg("dave", "dave@example.com", "pw"), 1).unwrap();
    let second = store.register(&reg("dave2", "dave@example.com", "pw"), 2);
    assert_eq!(second.unwrap_err(), StoreError::DuplicateIdentity);
}

#[test]
fn get_user_finds_by_id_only() {
    let mut store = CredentialStore::new();
    let u = store.register(&reg("erin", "erin@example.com", "pw"), 1).unwrap();
    let found = store.get_user(u.id).unwrap();
    assert_eq!(found.username, "erin");
    assert!(store.get_user(u.id + 1).is_none());
}

#[test]
fn session_token_resolves_until_expiry() {
    let mut sessions = SessionManager::new();
    let s = sessions.create_session(7, 1000);
    assert_eq!(s.user_id, 7);
    assert_eq!(s.created_at, 1000);
    assert_eq!(s.expires_at, 1000 + SESSION_LIFETIME_SECONDS);

    let live = sessions.resolve(s.id.as_str(), 1000).unwrap();
    assert_eq!(live.user_id, 7);
    assert!(sessions.resolve(s.id.as_str(), s.expires_at - 1).is_some());
    // Lazy expiry: from the expiry instant on, the session answers
    // like an absent one.
    assert!(sessions.resolve(s.id.as_str(), s.expires_at).is_none());
    assert!(sessions.resolve(s.id.as_str(), s.expires_at + 5).is_none());
}

#[test]
fn revoked_token_resolves_to_nothing_and_revoke_is_idempotent() {
    let mut sessions = SessionManager::new();
    let s = sessions.create_session(3, 50);
    assert!(sessions.revoke(s.id.as_str()));
    assert!(sessions.resolve(s.id.as_str(), 51).is_none());
    assert!(!sessions.revoke(s.id.as_str()));
}

#[test]
fn tokens_are_opaque_and_fresh() {
    let mut sessions = SessionManager::new();
    let a = sessions.create_session(1, 0);
    let b = sessions.create_session(1, 0);
    // A hyphenated UUID: 36 characters, unrelated to the user id.
    assert_eq!(a.id.len(), 36);
    assert_eq!(b.id.len(), 36);
    assert_ne!(a.id, b.id);
    // One user may hold several concurrent sessions.
    assert!(sessions.resolve(a.id.as_str(), 1).is_some());
    assert!(sessions.resolve(b.id.as_str(), 1).is_some());
}

#[test]
fn create_then_list_scoped_by_owner() {
    let mut todos = TodoStore::new();
    let t = todos.create(1, &CreateTodo { title: "buy milk".to_string() }, 10).unwrap();
    assert_eq!(t.title, "buy milk");
    assert!(!t.completed);

    let mine = todos.list(1);
    assert_eq!(mine.len(), 1);
    assert_eq!(mine[0].title, "buy milk");
    assert!(!mine[0].completed);

    let theirs = todos.list(2);
    assert!(theirs.is_empty());
}

#[test]
fn list_is_most_recent_first() {
    let mut todos = TodoStore::new();
    todos.create(1, &CreateTodo { title: "first".to_string() }, 10).unwrap();
    todos.create(2, &CreateTodo { title: "foreign".to_string() }, 11).unwrap();
    todos.create(1, &CreateTodo { title: "second".to_string() }, 12).unwrap();
    let mine = todos.list(1);
    assert_eq!(mine.len(), 2);
    assert_eq!(mine[0].title, "second");
    assert_eq!(mine[1].title, "first");
}

#[test]
fn blank_title_rejected() {
    let mut todos = TodoStore::new();
    let r = todos.create(1, &CreateTodo { title: "   ".to_string() }, 0);
    assert_eq!(r.unwrap_err(), StoreError::InvalidInput);
    let r = todos.create(1, &CreateTodo { title: "\t\n".to_string() }, 0);
    assert_eq!(r.unwrap_err(), StoreError::InvalidInput);
    let r = todos.create(1, &CreateTodo { title: String::new() }, 0);
    assert_eq!(r.unwrap_err(), StoreError::InvalidInput);
    assert!(todos.create(1, &CreateTodo { title: " x ".to_string() }, 0).is_ok());
}

#[test]
fn create_then_get_round_trip() {
    let mut todos = TodoStore::new();
    let t = todos.create(4, &CreateTodo { title: "water plants".to_string() }, 99).unwrap();
    let got = todos.get(4, t.id).unwrap();
    assert_eq!(got.id, t.id);
    assert_eq!(got.title, "water plants");
    assert_eq!(got.completed, false);
    assert_eq!(got.created_at, 99);
    assert_eq!(got.updated_at, 99);
    assert_eq!(got.user_id, 4);
}

#[test]
fn foreign_update_is_a_no_op() {
    let mut todos = TodoStore::new();
    let t = todos.create(1, &CreateTodo { title: "secret".to_string() }, 7).unwrap();
    // User 2 cannot toggle user 1's row.
    assert!(todos.update_completion(2, t.id, true, 8).is_none());
    // The row is untouched when later fetched by its owner.
    let mine = todos.get(1, t.id).unwrap();
    assert!(!mine.completed);
    assert_eq!(mine.updated_at, 7);
}

#[test]
fn owner_update_bumps_updated_at() {
    let mut todos = TodoStore::new();
    let t = todos.create(1, &CreateTodo { title: "call mom".to_string() }, 7).unwrap();
    let updated = todos.update_completion(1, t.id, true, 42).unwrap();
    assert!(updated.completed);
    assert_eq!(updated.updated_at, 42);
    assert_eq!(updated.created_at, 7);
    assert_eq!(updated.title, "call mom");
    let again = todos.get(1, t.id).unwrap();
    assert!(again.completed);
    assert_eq!(again.updated_at, 42);
}

#[test]
fn cross_user_get_answers_like_absent() {
    let mut todos = TodoStore::new();
    let t = todos.create(1, &CreateTodo { title: "mine".to_string() }, 1).unwrap();
    assert!(todos.get(2, t.id).is_none());
    assert!(todos.get(1, t.id + 1).is_none());
}

#[test]
fn delete_is_idempotent() {
    let mut todos = TodoStore::new();
    let t = todos.create(1, &CreateTodo { title: "done soon".to_string() }, 1).unwrap();
    assert!(todos.delete(1, t.id));
    // The second call on an already-deleted id reports false, not an
    // error.
    assert!(!todos.delete(1, t.id));
    assert!(todos.get(1, t.id).is_none());
}

#[test]
fn foreign_delete_is_a_no_op() {
    let mut todos = TodoStore::new();
    let t = todos.create(1, &CreateTodo { title: "keep".to_string() }, 1).unwrap();
    assert!(!todos.delete(2, t.id));
    assert!(todos.get(1, t.id).is_some());
}
