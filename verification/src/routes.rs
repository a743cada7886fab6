//! What each request is answered with, and what it does to the store.

use crate::clock::Timestamp;
use crate::database::{Database, StoreError, UserCreationError};
use crate::handle::{values_of, Handle};
use crate::laws::accounts::lemma_stored_user_has_id;
use vstd::prelude::*;
use vstd::string::StringExecFns;

verus! {

/// The answer to a request for the handles of a user.
pub struct UserHandlesResponse {
    pub success: bool,
    pub message: String,
    pub handles: Option<Vec<u64>>,
}

/// A request for a new handle.
pub struct HandleRequest {
    pub username: String,
    pub password: String,
}

/// The answer to a request that makes or deletes a handle.
pub struct HandleResponse {
    pub success: bool,
    pub message: String,
    pub handle: Option<u64>,
}

/// A request to delete a handle.
pub struct DeleteHandleRequest {
    pub username: String,
    pub password: String,
    pub handle: u64,
}

/// A request to create an account.
pub struct UserCreateRequest {
    pub username: String,
    pub password: String,
}

/// The answer to a request to create an account.
pub struct UserCreateResponse {
    pub success: bool,
    pub message: String,
}

/// The answer to a request for an account.
pub struct UserGetResponse {
    pub success: bool,
    pub message: String,
    pub creation_time: Option<Timestamp>,
    pub premium: Option<bool>,
}

/// A request to log in.
pub struct UserAuthRequest {
    pub username: String,
    pub password: String,
}

/// The answer to a request to log in.
pub struct UserAuthResponse {
    pub success: bool,
    pub handle: Option<u64>,
    pub message: String,
}

/// Lists the handles of the account `username`.
pub fn get_user_handles(db: &Database, username: &str) -> (reply: UserHandlesResponse)
    ensures
        reply.success == db@.has_user(username@),
        match reply.handles {
            Some(values) => reply.success && values@ == db@.handles_of(db@.user(username@).user_id),
            None => !reply.success,
        },
        reply.message@ == if reply.success {
            Seq::<char>::empty()
        } else {
            "User not found: "@ + username@
        },
{
    let user = match db.get_user(username) {
        Ok(user) => user,
        Err(_) => {
            return UserHandlesResponse {
                success: false,
                message: "User not found: ".to_owned().concat(username),
                handles: None,
            };
        },
    };
    let handles = Handle::get_all_for_user(user.id(), db).unwrap();
    let mut handle_values: Vec<u64> = Vec::new();
    let mut i: usize = 0;
    while i < handles.len()
        invariant
            i <= handles.len(),
            handle_values.len() == i,
            forall|k: int| 0 <= k < i ==> handle_values[k] == handles[k]@,
        decreases handles.len() - i,
    {
        handle_values.push(handles[i].get());
        i += 1;
    }
    assert(handle_values@ =~= values_of(handles@));
    UserHandlesResponse { success: true, message: String::new(), handles: Some(handle_values) }
}

/// Mints a handle for the account that `body` logs in as.
pub fn create_new_handle(db: &mut Database, body: &HandleRequest) -> (reply: HandleResponse)
    ensures
        reply.success == old(db)@.login_ok(body.username@, body.password@),
        match reply.handle {
            Some(value) => {
                &&& reply.success
                &&& !old(db)@.has_handle(value)
                &&& final(db)@ == old(db)@.with_handle(
                    value,
                    old(db)@.user(body.username@).user_id,
                )
            },
            None => !reply.success && final(db)@ == old(db)@,
        },
        reply.message@ == if reply.success {
            "Handle created successfully"@
        } else {
            "Invalid username or password"@
        },
{
    if !db.check_login(body.username.as_str(), body.password.as_str()) {
        return HandleResponse {
            success: false,
            message: "Invalid username or password".to_owned(),
            handle: None,
        };
    }
    let user = db.get_user(body.username.as_str()).unwrap();
    proof {
        lemma_stored_user_has_id(db@, body.username@);
    }
    let handle = Handle::new(&user, db).unwrap();
    HandleResponse {
        success: true,
        message: "Handle created successfully".to_owned(),
        handle: Some(handle.get()),
    }
}

/// Deletes the handle that `body` names, for the account that it logs in as.
pub fn delete_handle(db: &mut Database, body: &DeleteHandleRequest) -> (reply: HandleResponse)
    ensures
        reply.success == (old(db)@.login_ok(body.username@, body.password@) && old(db)@.owns(
            old(db)@.user(body.username@).user_id,
            body.handle,
        )),
        reply.handle == if reply.success {
            Some(body.handle)
        } else {
            None
        },
        final(db)@ == if reply.success {
            old(db)@.without_handle(body.handle)
        } else {
            old(db)@
        },
        reply.message@ == if reply.success {
            "Handle deleted successfully"@
        } else if old(db)@.login_ok(body.username@, body.password@) {
            "This handle does not belong to the user"@
        } else {
            "Invalid username or password"@
        },
{
    if !db.check_login(body.username.as_str(), body.password.as_str()) {
        return HandleResponse {
            success: false,
            message: "Invalid username or password".to_owned(),
            handle: None,
        };
    }
    let user = db.get_user(body.username.as_str()).unwrap();
    let handle = Handle::from_value(body.handle);
    if !handle.is_owned_by_user(user.id(), db) {
        return HandleResponse {
            success: false,
            message: "This handle does not belong to the user".to_owned(),
            handle: None,
        };
    }
    let removed = handle.delete(user.id(), db).unwrap();
    HandleResponse {
        success: true,
        message: "Handle deleted successfully".to_owned(),
        handle: Some(handle.get()),
    }
}

/// Creates the account that `body` describes.
pub fn create_user(db: &mut Database, body: &UserCreateRequest) -> (reply: UserCreateResponse)
    ensures
        reply.success == (!old(db)@.has_user(body.username@) && old(db)@.has_room()),
        reply.success ==> exists|creation_time: Timestamp, random: i64|
            final(db)@ == #[trigger] old(db)@.created(
                body.username@,
                body.password@,
                creation_time,
                random,
            ),
        !reply.success ==> final(db)@ == old(db)@,
        reply.message@ == if reply.success {
            Seq::<char>::empty()
        } else if old(db)@.has_user(body.username@) {
            UserCreationError::UsernameTaken.text()
        } else {
            UserCreationError::DBError(StoreError::StoreUnavailable).text()
        },
{
    match db.add_user(body.username.as_str(), body.password.as_str()) {
        Ok(account) => {
            assert(db@ == old(db)@.created(
                body.username@,
                body.password@,
                account@.creation_time,
                account@.random,
            ));
            UserCreateResponse { success: true, message: String::new() }
        },
        Err(err) => UserCreateResponse { success: false, message: err.to_string() },
    }
}

/// Looks up the account `username`.
pub fn get_user(db: &Database, username: &str) -> (reply: UserGetResponse)
    ensures
        reply.success == db@.has_user(username@),
        reply.creation_time == if reply.success {
            Some(db@.user(username@).creation_time)
        } else {
            None
        },
        reply.premium == if reply.success {
            Some(db@.user(username@).premium)
        } else {
            None
        },
        reply.message@ == if reply.success {
            Seq::<char>::empty()
        } else {
            StoreError::NotFound.text()
        },
{
    match db.get_user(username) {
        Err(err) => UserGetResponse {
            success: false,
            message: err.to_string(),
            creation_time: None,
            premium: None,
        },
        Ok(acc) => UserGetResponse {
            success: true,
            message: String::new(),
            creation_time: Some(acc.creation_time()),
            premium: Some(acc.premium()),
        },
    }
}

/// Logs `body` in and, where that succeeds, mints a handle for the account.
pub fn auth_user(db: &mut Database, body: &UserAuthRequest) -> (reply: UserAuthResponse)
    ensures
        reply.success == old(db)@.login_ok(body.username@, body.password@),
        match reply.handle {
            Some(value) => {
                &&& reply.success
                &&& !old(db)@.has_handle(value)
                &&& final(db)@ == old(db)@.with_handle(
                    value,
                    old(db)@.user(body.username@).user_id,
                )
            },
            None => !reply.success && final(db)@ == old(db)@,
        },
        reply.message@ == if reply.success {
            Seq::<char>::empty()
        } else {
            "Username or Password is invalid"@
        },
{
    if db.check_login(body.username.as_str(), body.password.as_str()) {
        let inner_handle = db.get_user(body.username.as_str()).unwrap();
        proof {
            lemma_stored_user_has_id(db@, body.username@);
        }
        let handle = Handle::new(&inner_handle, db).unwrap();
        UserAuthResponse { success: true, message: String::new(), handle: Some(handle.get()) }
    } else {
        UserAuthResponse {
            success: false,
            message: "Username or Password is invalid".to_owned(),
            handle: None,
        }
    }
}

} // verus!
