//! Accounts as the store hands them out: everything about a user but the
//! password and its hash.

use crate::clock::Timestamp;
use vstd::prelude::*;

verus! {

/// The store's identifier of an account.
pub type UserID = u64;

/// An account without its credentials.
#[derive(Debug, Clone)]
pub struct Account {
    username: String,
    user_id: UserID,
    creation_time: Timestamp,
    premium: bool,
    random: i64,
}

/// What an [`Account`] holds, as mathematical values.
#[verifier::ext_equal]
pub struct AccountView {
    pub username: Seq<char>,
    pub user_id: UserID,
    pub creation_time: Timestamp,
    pub premium: bool,
    pub random: i64,
}

impl View for Account {
    type V = AccountView;

    closed spec fn view(&self) -> AccountView {
        AccountView {
            username: self.username@,
            user_id: self.user_id,
            creation_time: self.creation_time,
            premium: self.premium,
            random: self.random,
        }
    }
}

impl Account {
    /// An account of the values given.
    pub fn new(
        username: String,
        user_id: UserID,
        creation_time: Timestamp,
        premium: bool,
        random: i64,
    ) -> (account: Self)
        ensures
            account@ == (AccountView {
                username: username@,
                user_id,
                creation_time,
                premium,
                random,
            }),
    {
        Self { username, user_id, creation_time, premium, random }
    }

    /// The name the account logs in with.
    pub fn username(&self) -> (name: &str)
        ensures
            name@ == self@.username,
    {
        self.username.as_str()
    }

    /// The identifier that the store gave the account.
    pub fn id(&self) -> (id: UserID)
        ensures
            id == self@.user_id,
    {
        self.user_id
    }

    /// Whether the account is a premium account.
    pub fn premium(&self) -> (premium: bool)
        ensures
            premium == self@.premium,
    {
        self.premium
    }

    /// When the account was created.
    pub fn creation_time(&self) -> (time: Timestamp)
        ensures
            time == self@.creation_time,
    {
        self.creation_time
    }

    /// The nonce that salts this account's password hash.
    pub fn random(&self) -> (nonce: i64)
        ensures
            nonce == self@.random,
    {
        self.random
    }
}

} // verus!
