use todo_core::clock::current_unix_time;
use todo_core::errors::StoreError;
use todo_core::gateway::Core;
use todo_core::models::{CreateTodo, LoginUser, RegisterUser};
use todo_core::sessions::SESSION_LIFETIME_SECONDS;

fn reg(username: &str, email: &str, password: &str) -> RegisterUser {
    RegisterUser {
        username: username.to_string(),
        email: email.to_string(),
        password: password.to_string(),
    }
}

fn login(username: &str, password: &str) -> LoginUser {
    LoginUser { username: username.to_string(), password: password.to_string() }
}

#[test]
fn full_flow_register_login_todo_logout() {
    let mut core = Core::new();
    let now = current_unix_time();
    assert!(now > 1_600_000_000);

    let user = core.register(&reg("alice", "alice@example.com", "pw-alice"), now).unwrap();
    let (logged_in, session) = core.login(&login("alice", "pw-alice"), now).unwrap();
    assert_eq!(logged_in.id, user.id);
    let token = session.id.clone();

    let me = core.get_current_user(Some(token.as_str()), now).unwrap();
    assert_eq!(me.username, "alice");

    let t = core
        .add_todo(Some(token.as_str()), &CreateTodo { title: "buy milk".to_string() }, now)
        .unwrap();
    assert_eq!(t.title, "buy milk");
    assert!(!t.completed);
    assert_eq!(t.user_id, user.id);

    let listed = core.get_todos(Some(token.as_str()), now).unwrap();
    assert_eq!(listed.len(), 1);
    assert_eq!(listed[0].title, "buy milk");

    let toggled = core.toggle_todo(Some(token.as_str()), t.id, true, now + 1).unwrap().unwrap();
    assert!(toggled.completed);
    assert_eq!(toggled.updated_at, now + 1);

    let fetched = core.get_todo_by_id(Some(token.as_str()), t.id, now).unwrap();
    assert!(fetched.completed);

    assert!(core.delete_todo(Some(token.as_str()), t.id, now).unwrap());
    assert!(!core.delete_todo(Some(token.as_str()), t.id, now).unwrap());

    assert!(core.logout(Some(token.as_str())));
    assert!(core.get_current_user(Some(token.as_str()), now).is_none());
    assert!(!core.logout(Some(token.as_str())));
}

#[test]
fn login_with_wrong_password_is_invalid_credentials() {
    let mut core = Core::new();
    core.register(&reg("bob", "bob@example.com", "right"), 10).unwrap();
    let r = core.login(&login("bob", "wrong"), 10);
    assert_eq!(r.unwrap_err(), StoreError::InvalidCredentials);
    let r = core.login(&login("nobody", "right"), 10);
    assert_eq!(r.unwrap_err(), StoreError::InvalidCredentials);
}

#[test]
fn duplicate_registration_through_gateway() {
    let mut core = Core::new();
    core.register(&reg("carol", "carol@example.com", "pw"), 1).unwrap();
    let r = core.register(&reg("carol", "elsewhere@example.com", "pw"), 2);
    assert_eq!(r.unwrap_err(), StoreError::DuplicateIdentity);
}

#[test]
fn missing_or_stale_token_is_unauthenticated() {
    let mut core = Core::new();
    let r = core.get_todos(None, 5);
    assert_eq!(r.unwrap_err(), StoreError::Unauthenticated);
    let r = core.add_todo(None, &CreateTodo { title: "x".to_string() }, 5);
    assert_eq!(r.unwrap_err(), StoreError::Unauthenticated);
    let r = core.toggle_todo(Some("no-such-token"), 1, true, 5);
    assert_eq!(r.unwrap_err(), StoreError::Unauthenticated);
    let r = core.delete_todo(Some("no-such-token"), 1, 5);
    assert_eq!(r.unwrap_err(), StoreError::Unauthenticated);
    let r = core.get_todo_by_id(Some("no-such-token"), 1, 5);
    assert_eq!(r.unwrap_err(), StoreError::Unauthenticated);
}

#[test]
fn expired_session_is_unauthenticated() {
    let mut core = Core::new();
    core.register(&reg("dora", "dora@example.com", "pw"), 0).unwrap();
    let (_, session) = core.login(&login("dora", "pw"), 1000).unwrap();
    let token = session.id.clone();
    assert!(core.get_current_user(Some(token.as_str()), 1000).is_some());
    let after = 1000 + SESSION_LIFETIME_SECONDS;
    assert!(core.get_current_user(Some(token.as_str()), after).is_none());
    let r = core.get_todos(Some(token.as_str()), after);
    assert_eq!(r.unwrap_err(), StoreError::Unauthenticated);
}

#[test]
fn blank_title_through_gateway_is_invalid_input() {
    let mut core = Core::new();
    core.register(&reg("erin", "erin@example.com", "pw"), 0).unwrap();
    let (_, session) = core.login(&login("erin", "pw"), 0).unwrap();
    let r = core.add_todo(Some(session.id.as_str()), &CreateTodo { title: "  ".to_string() }, 0);
    assert_eq!(r.unwrap_err(), StoreError::InvalidInput);
}

#[test]
fn cross_user_rows_are_not_found_through_gateway() {
    let mut core = Core::new();
    core.register(&reg("frank", "frank@example.com", "pw-f"), 0).unwrap();
    core.register(&reg("grace", "grace@example.com", "pw-g"), 0).unwrap();
    let (_, fs) = core.login(&login("frank", "pw-f"), 0).unwrap();
    let (_, gs) = core.login(&login("grace", "pw-g"), 0).unwrap();

    let t = core
        .add_todo(Some(fs.id.as_str()), &CreateTodo { title: "frank's".to_string() }, 0)
        .unwrap();

    // Grace sees neither the row nor its existence.
    let r = core.get_todo_by_id(Some(gs.id.as_str()), t.id, 0);
    assert_eq!(r.unwrap_err(), StoreError::NotFound);
    assert!(core.toggle_todo(Some(gs.id.as_str()), t.id, true, 1).unwrap().is_none());
    assert!(!core.delete_todo(Some(gs.id.as_str()), t.id, 1).unwrap());
    assert!(core.get_todos(Some(gs.id.as_str()), 1).unwrap().is_empty());

    // Frank's row is untouched.
    let mine = core.get_todo_by_id(Some(fs.id.as_str()), t.id, 1).unwrap();
    assert!(!mine.completed);
    assert_eq!(mine.updated_at, 0);
}

#[test]
fn logout_only_ends_the_presented_session() {
    let mut core = Core::new();
    core.register(&reg("heidi", "heidi@example.com", "pw"), 0).unwrap();
    let (_, s1) = core.login(&login("heidi", "pw"), 0).unwrap();
    let (_, s2) = core.login(&login("heidi", "pw"), 0).unwrap();
    assert!(core.logout(Some(s1.id.as_str())));
    assert!(core.get_current_user(Some(s1.id.as_str()), 1).is_none());
    assert!(core.get_current_user(Some(s2.id.as_str()), 1).is_some());
    assert!(!core.logout(None));
}

#[test]
fn error_messages_are_fixed() {
    assert_eq!(StoreError::DuplicateIdentity.message(), "Username or email already exists");
    assert_eq!(StoreError::InvalidCredentials.message(), "Invalid credentials");
    assert_eq!(StoreError::Unauthenticated.message(), "Not authenticated");
    assert_eq!(StoreError::NotFound.message(), "Not found");
    assert_eq!(StoreError::InvalidInput.message(), "Invalid input");
    assert_eq!(StoreError::StorageUnavailable.message(), "Storage unavailable");
}
