use abuelo::clock::Timestamp;
use abuelo::database::{Database, UserRecord};
use abuelo::routes::{
    auth_user, create_new_handle, create_user, delete_handle, get_user, get_user_handles,
    DeleteHandleRequest, HandleRequest, UserAuthRequest, UserCreateRequest,
};

fn setup() -> Database {
    Database::new()
}

fn create(db: &mut Database, username: &str, password: &str) -> abuelo::routes::UserCreateResponse {
    create_user(
        db,
        &UserCreateRequest { username: username.to_string(), password: password.to_string() },
    )
}

fn auth(db: &mut Database, username: &str, password: &str) -> abuelo::routes::UserAuthResponse {
    auth_user(
        db,
        &UserAuthRequest { username: username.to_string(), password: password.to_string() },
    )
}

#[test]
fn test_create_user() {
    let mut client = setup();

    // Test user creation
    let body = create(&mut client, "test_user", "test_password");
    assert_eq!(body.success, true);
    assert_eq!(body.message, "");

    // Test creating the same user again (should fail)
    let body = create(&mut client, "test_user", "test_password");
    assert_eq!(body.success, false);
    assert!(body.message.as_str().contains("Username was taken"));
}

#[test]
fn test_user_auth() {
    let mut client = setup();

    // Create a user first
    create(&mut client, "auth_test_user", "auth_test_password");

    // Test successful authentication
    let body = auth(&mut client, "auth_test_user", "auth_test_password");
    assert_eq!(body.success, true);
    assert_eq!(body.message, "");
    assert!(body.handle.is_some());

    // Test authentication with wrong password
    let body = auth(&mut client, "auth_test_user", "wrong_password");
    assert_eq!(body.success, false);
    assert_eq!(body.message, "Username or Password is invalid");
    assert!(body.handle.is_none());
}

#[test]
fn test_get_user() {
    let mut client = setup();

    // Create a user first
    create(&mut client, "get_test_user", "get_test_password");

    // Test getting user info
    let body = get_user(&client, "get_test_user");
    assert_eq!(body.success, true);
    assert_eq!(body.message, "");
    assert!(body.creation_time.is_some());
    assert_eq!(body.premium, Some(false));

    // Test getting non-existent user
    let body = get_user(&client, "nonexistent_user");
    assert_eq!(body.success, false);
    assert!(body.message.as_str().contains("QueryReturnedNoRows"));
    assert!(body.creation_time.is_none());
    assert!(body.premium.is_none());
}

#[test]
fn auth_mints_a_handle_of_the_account() {
    let mut db = setup();
    create(&mut db, "alice", "pw1");
    create(&mut db, "bob", "pw2");
    let alice = db.get_user("alice").unwrap();
    let bob = db.get_user("bob").unwrap();

    let first = auth(&mut db, "alice", "pw1").handle.unwrap();
    let second = auth(&mut db, "alice", "pw1").handle.unwrap();
    let third = auth(&mut db, "bob", "pw2").handle.unwrap();
    assert_ne!(first, second);
    assert_ne!(first, third);
    assert_ne!(second, third);
    assert!(db.is_handle_owned_by_user(first, alice.id()));
    assert!(db.is_handle_owned_by_user(second, alice.id()));
    assert!(db.is_handle_owned_by_user(third, bob.id()));
    assert!(!db.is_handle_owned_by_user(third, alice.id()));

    // A failed login mints nothing.
    assert!(auth(&mut db, "alice", "pw2").handle.is_none());
    assert!(auth(&mut db, "carol", "pw1").handle.is_none());
    assert_eq!(db.handles().len(), 3);
}

#[test]
fn listing_handles_of_a_user() {
    let mut db = setup();
    let reply = get_user_handles(&db, "alice");
    assert!(!reply.success);
    assert_eq!(reply.message, "User not found: alice");
    assert!(reply.handles.is_none());

    create(&mut db, "alice", "pw1");
    let reply = get_user_handles(&db, "alice");
    assert!(reply.success);
    assert_eq!(reply.message, "");
    assert_eq!(reply.handles, Some(vec![]));

    let first = auth(&mut db, "alice", "pw1").handle.unwrap();
    let second = auth(&mut db, "alice", "pw1").handle.unwrap();
    let reply = get_user_handles(&db, "alice");
    assert_eq!(reply.handles, Some(vec![first, second]));
}

#[test]
fn creating_a_handle_needs_a_login() {
    let mut db = setup();
    create(&mut db, "alice", "pw1");
    let request = |password: &str| HandleRequest {
        username: "alice".to_string(),
        password: password.to_string(),
    };

    let reply = create_new_handle(&mut db, &request("nope"));
    assert!(!reply.success);
    assert_eq!(reply.message, "Invalid username or password");
    assert!(reply.handle.is_none());
    assert!(db.handles().is_empty());

    let reply = create_new_handle(&mut db, &request("pw1"));
    assert!(reply.success);
    assert_eq!(reply.message, "Handle created successfully");
    let value = reply.handle.unwrap();
    assert_eq!(get_user_handles(&db, "alice").handles, Some(vec![value]));
}

#[test]
fn deleting_a_handle_needs_a_login_and_the_owner() {
    let mut db = setup();
    create(&mut db, "alice", "pw1");
    create(&mut db, "bob", "pw2");
    let value = auth(&mut db, "alice", "pw1").handle.unwrap();
    let request = |username: &str, password: &str, handle: u64| DeleteHandleRequest {
        username: username.to_string(),
        password: password.to_string(),
        handle,
    };

    let reply = delete_handle(&mut db, &request("alice", "wrong", value));
    assert!(!reply.success);
    assert_eq!(reply.message, "Invalid username or password");
    assert!(reply.handle.is_none());

    let reply = delete_handle(&mut db, &request("bob", "pw2", value));
    assert!(!reply.success);
    assert_eq!(reply.message, "This handle does not belong to the user");
    assert!(reply.handle.is_none());
    assert_eq!(db.handles().len(), 1);

    let reply = delete_handle(&mut db, &request("alice", "pw1", value));
    assert!(reply.success);
    assert_eq!(reply.message, "Handle deleted successfully");
    assert_eq!(reply.handle, Some(value));
    assert!(db.handles().is_empty());

    // Once more: the handle is gone, so it belongs to nobody.
    let reply = delete_handle(&mut db, &request("alice", "pw1", value));
    assert!(!reply.success);
    assert_eq!(reply.message, "This handle does not belong to the user");
}

#[test]
fn a_full_store_refuses_new_users_in_words() {
    let last = UserRecord::new(
        u64::MAX,
        "last".to_string(),
        String::new(),
        Timestamp::new(0, 0).unwrap(),
        false,
        0,
    );
    let mut db = Database::from_rows(vec![last], vec![]).unwrap();
    let reply = create(&mut db, "one more", "pw");
    assert!(!reply.success);
    assert_eq!(reply.message, "DBError: StoreUnavailable");
    assert_eq!(db.users().len(), 1);
}
