//! What holds of accounts and logins across the operations of the store.

use crate::clock::Timestamp;
use crate::hashing::{hash_input, password_hash, sha256};
use crate::laws::hashing::{lemma_equal_hashes_equal_digests, lemma_hash_input_sensitive};
use crate::tables::Tables;
use vstd::prelude::*;

verus! {

/// The identifier of a stored account is an identifier of the store.
pub proof fn lemma_stored_user_has_id(tables: Tables, username: Seq<char>)
    requires
        tables.has_user(username),
    ensures
        tables.has_user_id(tables.user(username).user_id),
{
    let at = choose|i: int|
        0 <= i < tables.users.len() && #[trigger] tables.users[i].username == username;
    assert(tables.users[at].user_id == tables.user(username).user_id);
}

/// An account that was created under a free name is stored under that name,
/// with the row that creation made.
pub proof fn lemma_created_is_stored(
    pre: Tables,
    username: Seq<char>,
    password: Seq<char>,
    creation_time: Timestamp,
    random: i64,
)
    requires
        !pre.has_user(username),
    ensures
        pre.created(username, password, creation_time, random).has_user(username),
        pre.created(username, password, creation_time, random).user(username) == pre.new_row(
            username,
            password,
            creation_time,
            random,
        ),
{
    let post = pre.created(username, password, creation_time, random);
    let last = pre.users.len() as int;
    assert(post.users[last].username == username);
    let at = choose|i: int| 0 <= i < post.users.len() && #[trigger] post.users[i].username == username;
    if at < last {
        assert(pre.users[at].username == username);
    }
}

/// Creating an account and then logging in with the same name and password
/// succeeds.
pub proof fn lemma_login_after_create(
    pre: Tables,
    username: Seq<char>,
    password: Seq<char>,
    creation_time: Timestamp,
    random: i64,
)
    requires
        !pre.has_user(username),
    ensures
        pre.created(username, password, creation_time, random).login_ok(username, password),
{
    lemma_created_is_stored(pre, username, password, creation_time, random);
}

/// After an account was created, a password whose hash is not the hash of
/// the account's password is refused.
pub proof fn lemma_wrong_password_refused(
    pre: Tables,
    username: Seq<char>,
    password: Seq<char>,
    wrong: Seq<char>,
    creation_time: Timestamp,
    random: i64,
)
    requires
        !pre.has_user(username),
        password_hash(wrong, creation_time, random as u64) != password_hash(
            password,
            creation_time,
            random as u64,
        ),
    ensures
        !pre.created(username, password, creation_time, random).login_ok(username, wrong),
{
    lemma_created_is_stored(pre, username, password, creation_time, random);
}

/// After an account was created, a wrong password logs in only where SHA-256
/// gives the bytes digested for it, which are other bytes than those
/// digested for the right password, the same digest.
pub proof fn lemma_wrong_password_needs_collision(
    pre: Tables,
    username: Seq<char>,
    password: Seq<char>,
    wrong: Seq<char>,
    creation_time: Timestamp,
    random: i64,
)
    requires
        !pre.has_user(username),
        wrong != password,
        pre.created(username, password, creation_time, random).login_ok(username, wrong),
    ensures
        hash_input(wrong, creation_time.minute(), random as u64) != hash_input(
            password,
            creation_time.minute(),
            random as u64,
        ),
        sha256(hash_input(wrong, creation_time.minute(), random as u64)) == sha256(
            hash_input(password, creation_time.minute(), random as u64),
        ),
{
    lemma_created_is_stored(pre, username, password, creation_time, random);
    lemma_hash_input_sensitive(
        password,
        creation_time.minute(),
        random as u64,
        wrong,
        creation_time.minute(),
        random as u64,
    );
    lemma_equal_hashes_equal_digests(
        wrong,
        creation_time,
        random as u64,
        password,
        creation_time,
        random as u64,
    );
}

/// Under a name that is not stored no password logs in.
pub proof fn lemma_unknown_user_refused(tables: Tables, username: Seq<char>, password: Seq<char>)
    requires
        !tables.has_user(username),
    ensures
        !tables.login_ok(username, password),
{
}

/// Creating an account changes no other account's login.
pub proof fn lemma_create_keeps_logins(
    pre: Tables,
    username: Seq<char>,
    password: Seq<char>,
    creation_time: Timestamp,
    random: i64,
    other: Seq<char>,
    other_password: Seq<char>,
)
    requires
        pre.wf(),
        other != username,
    ensures
        pre.created(username, password, creation_time, random).login_ok(other, other_password)
            == pre.login_ok(other, other_password),
{
    let post = pre.created(username, password, creation_time, random);
    if pre.has_user(other) {
        let at = choose|i: int| 0 <= i < pre.users.len() && #[trigger] pre.users[i].username == other;
        assert(post.users[at].username == other);
    }
    if post.has_user(other) {
        let at = choose|i: int|
            0 <= i < post.users.len() && #[trigger] post.users[i].username == other;
        assert(pre.users[at].username == other);
    }
    if pre.has_user(other) {
        let pre_at = choose|i: int|
            0 <= i < pre.users.len() && #[trigger] pre.users[i].username == other;
        let post_at = choose|i: int|
            0 <= i < post.users.len() && #[trigger] post.users[i].username == other;
        assert(post.users[post_at].username == other);
        assert(pre.users[post_at].username == other);
        assert(pre_at == post_at);
    }
}

} // verus!
