//! The store: accounts with their credentials, and the handles they own.

use crate::account::{Account, UserID};
use crate::clock::Timestamp;
use crate::hashing::{hash_password, same_text};
use crate::random::{RandomSource, SystemRandom};
use crate::tables::{
    knows_id, lemma_created_wf, lemma_values_in_use, lemma_with_handle_wf, lemma_without_handle_wf,
    max_user_id, HandleRow, Tables, UserRow,
};
use vstd::prelude::*;
use vstd::string::StringExecFns;

verus! {

/// Why the store itself could not serve a request.
#[derive(Debug, Clone, Copy, PartialEq, Eq, Structural)]
pub enum StoreError {
    /// A query returned no rows: what was looked up is not stored.
    NotFound,
    /// The store cannot take another row: no identifier is left for it.
    StoreUnavailable,
}

/// Why an account was not created.
#[derive(Debug, Clone, Copy, PartialEq, Eq, Structural)]
pub enum UserCreationError {
    /// An account has the username already.
    UsernameTaken,
    /// The store refused.
    DBError(StoreError),
}

/// Why a handle was not registered.
#[derive(Debug, Clone, Copy, PartialEq, Eq, Structural)]
pub enum HandleDBError {
    /// The value is a handle already. Minting passes such a value over and
    /// never reports this.
    HandleAlreadyExists,
    /// The store refused.
    DBError(StoreError),
}

/// The kinds of failure that the operations of the store know between them.
#[derive(Debug, Clone, Copy, PartialEq, Eq, Structural)]
pub enum ErrorKind {
    /// An account was to be created under a username that is in use.
    UsernameTaken,
    /// What was looked up is not stored.
    NotFound,
    /// A handle was to be registered with a value that is in use.
    AlreadyExists,
    /// The store could not do its part.
    StoreUnavailable,
}

impl From<StoreError> for UserCreationError {
    fn from(value: StoreError) -> (e: Self) {
        Self::DBError(value)
    }
}

impl vstd::std_specs::convert::FromSpecImpl<StoreError> for UserCreationError {
    open spec fn obeys_from_spec() -> bool {
        true
    }

    open spec fn from_spec(value: StoreError) -> Self {
        Self::DBError(value)
    }
}

impl From<StoreError> for HandleDBError {
    fn from(value: StoreError) -> (e: Self) {
        Self::DBError(value)
    }
}

impl vstd::std_specs::convert::FromSpecImpl<StoreError> for HandleDBError {
    open spec fn obeys_from_spec() -> bool {
        true
    }

    open spec fn from_spec(value: StoreError) -> Self {
        Self::DBError(value)
    }
}

impl StoreError {
    /// The kind of this error.
    pub open spec fn kind_of(self) -> ErrorKind {
        match self {
            StoreError::NotFound => ErrorKind::NotFound,
            StoreError::StoreUnavailable => ErrorKind::StoreUnavailable,
        }
    }

    /// The kind of this error.
    pub fn kind(&self) -> (kind: ErrorKind)
        ensures
            kind == self.kind_of(),
    {
        match self {
            StoreError::NotFound => ErrorKind::NotFound,
            StoreError::StoreUnavailable => ErrorKind::StoreUnavailable,
        }
    }

    /// The error in words, as replies show it.
    pub open spec fn text(self) -> Seq<char> {
        match self {
            StoreError::NotFound => "QueryReturnedNoRows"@,
            StoreError::StoreUnavailable => "StoreUnavailable"@,
        }
    }

    /// The error in words.
    pub fn to_string(&self) -> (words: String)
        ensures
            words@ == self.text(),
    {
        match self {
            StoreError::NotFound => "QueryReturnedNoRows".to_owned(),
            StoreError::StoreUnavailable => "StoreUnavailable".to_owned(),
        }
    }
}

impl UserCreationError {
    /// The kind of this error: that of the store's error where the store
    /// refused.
    pub open spec fn kind_of(self) -> ErrorKind {
        match self {
            UserCreationError::UsernameTaken => ErrorKind::UsernameTaken,
            UserCreationError::DBError(e) => e.kind_of(),
        }
    }

    /// The kind of this error.
    pub fn kind(&self) -> (kind: ErrorKind)
        ensures
            kind == self.kind_of(),
    {
        match self {
            UserCreationError::UsernameTaken => ErrorKind::UsernameTaken,
            UserCreationError::DBError(e) => e.kind(),
        }
    }

    /// The error in words.
    pub open spec fn text(self) -> Seq<char> {
        match self {
            UserCreationError::UsernameTaken => "Username was taken"@,
            UserCreationError::DBError(e) => "DBError: "@ + e.text(),
        }
    }

    /// The error in words.
    pub fn to_string(&self) -> (words: String)
        ensures
            words@ == self.text(),
    {
        match self {
            UserCreationError::UsernameTaken => "Username was taken".to_owned(),
            UserCreationError::DBError(e) => "DBError: ".to_owned().concat(e.to_string().as_str()),
        }
    }
}

impl HandleDBError {
    /// The kind of this error: that of the store's error where the store
    /// refused.
    pub open spec fn kind_of(self) -> ErrorKind {
        match self {
            HandleDBError::HandleAlreadyExists => ErrorKind::AlreadyExists,
            HandleDBError::DBError(e) => e.kind_of(),
        }
    }

    /// The kind of this error.
    pub fn kind(&self) -> (kind: ErrorKind)
        ensures
            kind == self.kind_of(),
    {
        match self {
            HandleDBError::HandleAlreadyExists => ErrorKind::AlreadyExists,
            HandleDBError::DBError(e) => e.kind(),
        }
    }

    /// The error in words.
    pub open spec fn text(self) -> Seq<char> {
        match self {
            HandleDBError::HandleAlreadyExists => "Handle already exists."@,
            HandleDBError::DBError(e) => "DBError: "@ + e.text(),
        }
    }

    /// The error in words.
    pub fn to_string(&self) -> (words: String)
        ensures
            words@ == self.text(),
    {
        match self {
            HandleDBError::HandleAlreadyExists => "Handle already exists.".to_owned(),
            HandleDBError::DBError(e) => "DBError: ".to_owned().concat(e.to_string().as_str()),
        }
    }
}

/// An account as it is stored, credentials included.
#[derive(Debug, Clone)]
pub struct UserRecord {
    user_id: UserID,
    username: String,
    password_hash: String,
    creation_time: Timestamp,
    premium: bool,
    random: i64,
}

impl View for UserRecord {
    type V = UserRow;

    closed spec fn view(&self) -> UserRow {
        UserRow {
            user_id: self.user_id,
            username: self.username@,
            password_hash: self.password_hash@,
            creation_time: self.creation_time,
            premium: self.premium,
            random: self.random,
        }
    }
}

impl UserRecord {
    /// A record of the values given.
    pub fn new(
        user_id: UserID,
        username: String,
        password_hash: String,
        creation_time: Timestamp,
        premium: bool,
        random: i64,
    ) -> (record: Self)
        ensures
            record@ == (UserRow {
                user_id,
                username: username@,
                password_hash: password_hash@,
                creation_time,
                premium,
                random,
            }),
    {
        Self { user_id, username, password_hash, creation_time, premium, random }
    }

    /// The identifier of the account.
    pub fn user_id(&self) -> (id: UserID)
        ensures
            id == self@.user_id,
    {
        self.user_id
    }

    /// The name the account logs in with.
    pub fn username(&self) -> (name: &str)
        ensures
            name@ == self@.username,
    {
        self.username.as_str()
    }

    /// The hash of the account's password.
    pub fn password_hash(&self) -> (hash: &str)
        ensures
            hash@ == self@.password_hash,
    {
        self.password_hash.as_str()
    }

    /// When the account was created.
    pub fn creation_time(&self) -> (time: Timestamp)
        ensures
            time == self@.creation_time,
    {
        self.creation_time
    }

    /// Whether the account is a premium account.
    pub fn premium(&self) -> (premium: bool)
        ensures
            premium == self@.premium,
    {
        self.premium
    }

    /// The nonce that salts the password hash.
    pub fn random(&self) -> (nonce: i64)
        ensures
            nonce == self@.random,
    {
        self.random
    }

    /// The record without its credentials.
    pub fn account(&self) -> (account: Account)
        ensures
            account@ == self@.account(),
    {
        Account::new(
            self.username.clone(),
            self.user_id,
            self.creation_time,
            self.premium,
            self.random,
        )
    }

    /// Whether `password` is the password this record was stored with.
    pub fn accepts(&self, password: &str) -> (ok: bool)
        ensures
            ok == self@.accepts(password@),
    {
        let nonce: u64 = #[verifier::truncate] (self.random as u64);
        let hash = hash_password(password, self.creation_time, nonce);
        same_text(hash.as_str(), self.password_hash.as_str())
    }
}

/// The rows that `records` stand for.
pub open spec fn rows(records: Seq<UserRecord>) -> Seq<UserRow> {
    Seq::new(records.len(), |i: int| records[i]@)
}

/// The store. Its tables are consistent at all times.
pub struct Database {
    users: Vec<UserRecord>,
    handles: Vec<HandleRow>,
}

impl View for Database {
    type V = Tables;

    closed spec fn view(&self) -> Tables {
        Tables { users: rows(self.users@), handles: self.handles@ }
    }
}

impl Database {
    /// What holds of every store: its tables are consistent.
    #[verifier::type_invariant]
    pub open spec fn consistent(self) -> bool {
        self@.wf()
    }

    /// A store without accounts and without handles.
    pub fn new() -> (db: Self)
        ensures
            db@ == Tables::empty(),
    {
        Database { users: Vec::new(), handles: Vec::new() }
    }

    /// Where the record of `username` stands.
    fn find_user(&self, username: &String) -> (found: Option<usize>)
        ensures
            match found {
                Some(i) => i < self.users.len() && self.users[i as int]@.username == username@
                    && self@.has_user(username@) && self@.user(username@) == self.users[i as int]@,
                None => !self@.has_user(username@),
            },
    {
        proof {
            use_type_invariant(self);
        }
        let mut i: usize = 0;
        while i < self.users.len()
            invariant
                self@.wf(),
                i <= self.users.len(),
                forall|k: int| 0 <= k < i ==> self.users[k]@.username != username@,
            decreases self.users.len() - i,
        {
            if self.users[i].username == *username {
                proof {
                    let tables = self@;
                    assert(tables.users[i as int].username == username@);
                    let j = choose|j: int|
                        0 <= j < tables.users.len() && #[trigger] tables.users[j].username
                            == username@;
                    assert(j == i);
                }
                return Some(i);
            }
            i += 1;
        }
        None
    }

    /// The account stored under `username`.
    pub fn get_user(&self, username: &str) -> (found: Result<Account, StoreError>)
        ensures
            match found {
                Ok(account) => self@.has_user(username@) && account@ == self@.user(
                    username@,
                ).account(),
                Err(e) => !self@.has_user(username@) && e == StoreError::NotFound,
            },
    {
        let name = username.to_owned();
        match self.find_user(&name) {
            Some(i) => Ok(self.users[i].account()),
            None => Err(StoreError::NotFound),
        }
    }

    /// Whether `username` is stored and `password` is its password.
    pub fn check_login(&self, username: &str, password: &str) -> (ok: bool)
        ensures
            ok == self@.login_ok(username@, password@),
    {
        let name = username.to_owned();
        match self.find_user(&name) {
            Some(i) => self.users[i].accepts(password),
            None => false,
        }
    }

    /// The greatest identifier in use; 0 where there is no account.
    fn last_user_id(&self) -> (last: u64)
        ensures
            last == max_user_id(self@.users),
    {
        let mut last: u64 = 0;
        let mut i: usize = 0;
        while i < self.users.len()
            invariant
                i <= self.users.len(),
                last == max_user_id(self@.users.take(i as int)),
            decreases self.users.len() - i,
        {
            assert(self@.users.take(i + 1).drop_last() =~= self@.users.take(i as int));
            if self.users[i].user_id > last {
                last = self.users[i].user_id;
            }
            i += 1;
        }
        assert(self@.users.take(i as int) =~= self@.users);
        last
    }

    /// Takes both tables out and leaves the store empty.
    fn take_tables(&mut self) -> (taken: (Vec<UserRecord>, Vec<HandleRow>))
        ensures
            rows(taken.0@) == old(self)@.users,
            taken.1@ == old(self)@.handles,
            old(self)@.wf(),
    {
        proof {
            use_type_invariant(&*self);
        }
        let mut taken = Database::new();
        std::mem::swap(self, &mut taken);
        let Database { users, handles } = taken;
        (users, handles)
    }

    /// Creates the account `username` with the creation time and the nonce given.
    ///
    /// Refused with `UsernameTaken` where the name is in use, and with
    /// `DBError(StoreUnavailable)` where it is free but no identifier is left;
    /// either way the store stays as it was. Otherwise the account gets the
    /// identifier after the greatest in use.
    pub fn add_user_with(
        &mut self,
        username: &str,
        password: &str,
        creation_time: Timestamp,
        random: i64,
    ) -> (made: Result<Account, UserCreationError>)
        ensures
            match made {
                Ok(account) => {
                    &&& !old(self)@.has_user(username@)
                    &&& old(self)@.has_room()
                    &&& final(self)@ == old(self)@.created(
                        username@,
                        password@,
                        creation_time,
                        random,
                    )
                    &&& account@ == old(self)@.new_row(
                        username@,
                        password@,
                        creation_time,
                        random,
                    ).account()
                },
                Err(e) => {
                    &&& final(self)@ == old(self)@
                    &&& if old(self)@.has_user(username@) {
                        e == UserCreationError::UsernameTaken
                    } else {
                        !old(self)@.has_room() && e == UserCreationError::DBError(
                            StoreError::StoreUnavailable,
                        )
                    }
                },
            },
    {
        let name = username.to_owned();
        if self.find_user(&name).is_some() {
            return Err(UserCreationError::UsernameTaken);
        }
        let last: u64 = self.last_user_id();
        if last == u64::MAX {
            return Err(UserCreationError::DBError(StoreError::StoreUnavailable));
        }
        let nonce: u64 = #[verifier::truncate] (random as u64);
        let password_hash = hash_password(password, creation_time, nonce);
        let record = UserRecord::new(last + 1, name, password_hash, creation_time, false, random);
        let account = record.account();
        let ghost before = self@;
        let (mut users, handles) = self.take_tables();
        users.push(record);
        proof {
            let after = Tables { users: rows(users@), handles: handles@ };
            assert(after =~= before.created(username@, password@, creation_time, random));
            lemma_created_wf(before, username@, password@, creation_time, random);
        }
        *self = Database { users, handles };
        Ok(account)
    }

    /// Creates the account `username` at the current time, with a fresh nonce.
    ///
    /// Refused exactly as [`Database::add_user_with`] refuses. The account
    /// returned tells which time and which nonce were drawn.
    pub fn add_user(&mut self, username: &str, password: &str) -> (made: Result<
        Account,
        UserCreationError,
    >)
        ensures
            made is Ok <==> !old(self)@.has_user(username@) && old(self)@.has_room(),
            match made {
                Ok(account) => {
                    &&& final(self)@ == old(self)@.created(
                        username@,
                        password@,
                        account@.creation_time,
                        account@.random,
                    )
                    &&& account@ == old(self)@.new_row(
                        username@,
                        password@,
                        account@.creation_time,
                        account@.random,
                    ).account()
                },
                Err(e) => {
                    &&& final(self)@ == old(self)@
                    &&& if old(self)@.has_user(username@) {
                        e == UserCreationError::UsernameTaken
                    } else {
                        e == UserCreationError::DBError(StoreError::StoreUnavailable)
                    }
                },
            },
    {
        let creation_time = Timestamp::now();
        let mut source = SystemRandom;
        let random: i64 = #[verifier::truncate] (source.next_u64() as i64);
        self.add_user_with(username, password, creation_time, random)
    }

    /// Where the handle `handle` stands.
    fn find_handle(&self, handle: u64) -> (found: Option<usize>)
        ensures
            match found {
                Some(i) => i < self.handles.len() && self.handles[i as int].handle_val == handle
                    && self@.has_handle(handle) && self@.handle_index(handle) == i,
                None => !self@.has_handle(handle),
            },
    {
        proof {
            use_type_invariant(self);
        }
        let mut i: usize = 0;
        while i < self.handles.len()
            invariant
                self@.wf(),
                i <= self.handles.len(),
                forall|k: int| 0 <= k < i ==> self.handles[k].handle_val != handle,
            decreases self.handles.len() - i,
        {
            if self.handles[i].handle_val == handle {
                proof {
                    let tables = self@;
                    assert(tables.handles[i as int].handle_val == handle);
                    assert(tables.handle_index(handle) == i);
                }
                return Some(i);
            }
            i += 1;
        }
        None
    }

    /// Registers `handle` as a handle of `user`.
    ///
    /// Refused with `HandleAlreadyExists` where the value is in use, whoever
    /// owns it, and with `DBError(NotFound)` where the value is free but `user`
    /// is not an account of this store; either way the store stays as it was.
    pub fn add_handle_to_db(&mut self, user: &Account, handle: u64) -> (added: Result<
        (),
        HandleDBError,
    >)
        ensures
            match added {
                Ok(()) => {
                    &&& !old(self)@.has_handle(handle)
                    &&& old(self)@.has_user_id(user@.user_id)
                    &&& final(self)@ == old(self)@.with_handle(handle, user@.user_id)
                },
                Err(e) => {
                    &&& final(self)@ == old(self)@
                    &&& if old(self)@.has_handle(handle) {
                        e == HandleDBError::HandleAlreadyExists
                    } else {
                        !old(self)@.has_user_id(user@.user_id) && e == HandleDBError::DBError(
                            StoreError::NotFound,
                        )
                    }
                },
            },
    {
        if self.find_handle(handle).is_some() {
            return Err(HandleDBError::HandleAlreadyExists);
        }
        if !id_among(&self.users, user.id()) {
            return Err(HandleDBError::DBError(StoreError::NotFound));
        }
        let ghost before = self@;
        let (users, mut handles) = self.take_tables();
        handles.push(HandleRow { handle_val: handle, user_id: user.id() });
        proof {
            let after = Tables { users: rows(users@), handles: handles@ };
            assert(after =~= before.with_handle(handle, user@.user_id));
            lemma_with_handle_wf(before, handle, user@.user_id);
        }
        *self = Database { users, handles };
        Ok(())
    }

    /// The handles of `user_id`, oldest first; none where the account owns none
    /// or is not stored.
    pub fn get_handles_for_user(&self, user_id: UserID) -> (listed: Result<Vec<u64>, StoreError>)
        ensures
            listed matches Ok(values) && values@ == self@.handles_of(user_id),
    {
        let mut values: Vec<u64> = Vec::new();
        let mut i: usize = 0;
        while i < self.handles.len()
            invariant
                i <= self.handles.len(),
                values@ == (Tables {
                    users: self@.users,
                    handles: self@.handles.take(i as int),
                }).handles_of(user_id),
            decreases self.handles.len() - i,
        {
            proof {
                let owned = |row: HandleRow| row.user_id == user_id;
                assert(self@.handles.take(i + 1).drop_last() =~= self@.handles.take(i as int));
                reveal_with_fuel(Seq::filter, 2);
                assert(self@.handles.take(i + 1).filter(owned) == if owned(
                    self@.handles[i as int],
                ) {
                    self@.handles.take(i as int).filter(owned).push(self@.handles[i as int])
                } else {
                    self@.handles.take(i as int).filter(owned)
                });
            }
            if self.handles[i].user_id == user_id {
                values.push(self.handles[i].handle_val);
            }
            i += 1;
            assert(values@ =~= (Tables {
                users: self@.users,
                handles: self@.handles.take(i as int),
            }).handles_of(user_id));
        }
        assert(self@.handles.take(i as int) =~= self@.handles);
        Ok(values)
    }

    /// Whether `handle` is stored as a handle of `user_id`.
    pub fn is_handle_owned_by_user(&self, handle: u64, user_id: UserID) -> (owned: bool)
        ensures
            owned == self@.owns(user_id, handle),
    {
        proof {
            use_type_invariant(self);
        }
        match self.find_handle(handle) {
            Some(i) => {
                proof {
                    let tables = self@;
                    if tables.owns(user_id, handle) {
                        let k = choose|k: int|
                            0 <= k < tables.handles.len() && #[trigger] tables.handles[k].handle_val
                                == handle && tables.handles[k].user_id == user_id;
                        assert(k == i);
                    }
                }
                self.handles[i].user_id == user_id
            },
            None => false,
        }
    }

    /// Removes `handle` where `user_id` owns it, and tells whether it did.
    pub fn delete_handle(&mut self, handle: u64, user_id: UserID) -> (deleted: Result<
        bool,
        StoreError,
    >)
        ensures
            deleted matches Ok(removed) && removed == old(self)@.owns(user_id, handle),
            final(self)@ == old(self)@.deleted(handle, user_id),
    {
        if !self.is_handle_owned_by_user(handle, user_id) {
            return Ok(false);
        }
        let found = self.find_handle(handle);
        let ghost before = self@;
        match found {
            Some(i) => {
                let (users, mut handles) = self.take_tables();
                handles.remove(i);
                proof {
                    let after = Tables { users: rows(users@), handles: handles@ };
                    assert(after =~= before.without_handle(handle));
                    lemma_without_handle_wf(before, handle);
                }
                *self = Database { users, handles };
                Ok(true)
            },
            None => Ok(false),
        }
    }

    /// The least value that is no handle.
    pub fn unused_handle(&self) -> (free: u64)
        ensures
            !self@.has_handle(free),
            forall|v: u64| v < free ==> self@.has_handle(v),
    {
        let mut candidate: u64 = 0;
        loop
            invariant
                forall|v: u64| v < candidate ==> self@.has_handle(v),
                candidate <= self.handles.len(),
            decreases self.handles.len() - candidate,
        {
            if self.find_handle(candidate).is_none() {
                return candidate;
            }
            proof {
                lemma_values_in_use(self@, candidate + 1);
            }
            candidate += 1;
        }
    }

    /// A store that holds the rows given, if they are consistent.
    pub fn from_rows(users: Vec<UserRecord>, handles: Vec<HandleRow>) -> (made: Option<Database>)
        ensures
            made is Some <==> (Tables { users: rows(users@), handles: handles@ }).wf(),
            made matches Some(db) ==> db@ == (Tables { users: rows(users@), handles: handles@ }),
    {
        let distinct_users = users_distinct(&users);
        let distinct_handles = handles_distinct(&handles);
        let known_owners = owners_known(&users, &handles);
        proof {
            let tables = Tables { users: rows(users@), handles: handles@ };
            if tables.wf() {
                assert forall|i: int, j: int| 0 <= i < j < handles.len() implies handles[i].handle_val
                    != handles[j].handle_val by {
                    assert(tables.handles[i].handle_val != tables.handles[j].handle_val);
                }
                assert forall|i: int, j: int| 0 <= i < j < users.len() implies rows(
                    users@,
                )[i].username != rows(users@)[j].username && rows(users@)[i].user_id != rows(
                    users@,
                )[j].user_id by {
                    assert(tables.users[i].username != tables.users[j].username);
                    assert(tables.users[i].user_id != tables.users[j].user_id);
                }
                assert forall|i: int| 0 <= i < handles.len() implies knows_id(
                    rows(users@),
                    #[trigger] handles[i].user_id,
                ) by {
                    assert(tables.has_user_id(tables.handles[i].user_id));
                }
            }
        }
        if distinct_users && distinct_handles && known_owners {
            Some(Database { users, handles })
        } else {
            None
        }
    }

    /// The stored accounts, oldest first.
    pub fn users(&self) -> (records: &Vec<UserRecord>)
        ensures
            rows(records@) == self@.users,
    {
        &self.users
    }

    /// The stored handles, oldest first.
    pub fn handles(&self) -> (stored: &Vec<HandleRow>)
        ensures
            stored@ == self@.handles,
    {
        &self.handles
    }
}

/// Whether no two of `users` share a username or an identifier.
fn users_distinct(users: &Vec<UserRecord>) -> (ok: bool)
    ensures
        ok <==> (forall|i: int, j: int|
            0 <= i < j < users.len() ==> rows(users@)[i].username != rows(users@)[j].username
                && rows(users@)[i].user_id != rows(users@)[j].user_id),
{
    let mut j: usize = 0;
    while j < users.len()
        invariant
            j <= users.len(),
            forall|a: int, b: int|
                0 <= a < b < j ==> rows(users@)[a].username != rows(users@)[b].username && rows(
                    users@,
                )[a].user_id != rows(users@)[b].user_id,
        decreases users.len() - j,
    {
        let mut i: usize = 0;
        while i < j
            invariant
                i <= j < users.len(),
                forall|a: int|
                    0 <= a < i ==> rows(users@)[a].username != rows(users@)[j as int].username
                        && rows(users@)[a].user_id != rows(users@)[j as int].user_id,
            decreases j - i,
        {
            if users[i].username == users[j].username || users[i].user_id == users[j].user_id {
                assert(rows(users@)[i as int] == users[i as int]@);
                assert(rows(users@)[j as int] == users[j as int]@);
                return false;
            }
            i += 1;
        }
        j += 1;
    }
    true
}

/// Whether no two of `handles` share a value.
fn handles_distinct(handles: &Vec<HandleRow>) -> (ok: bool)
    ensures
        ok <==> (forall|i: int, j: int|
            0 <= i < j < handles.len() ==> handles[i].handle_val != handles[j].handle_val),
{
    let mut j: usize = 0;
    while j < handles.len()
        invariant
            j <= handles.len(),
            forall|a: int, b: int| 0 <= a < b < j ==> handles[a].handle_val != handles[b].handle_val,
        decreases handles.len() - j,
    {
        let mut i: usize = 0;
        while i < j
            invariant
                i <= j < handles.len(),
                forall|a: int| 0 <= a < i ==> handles[a].handle_val != handles[j as int].handle_val,
            decreases j - i,
        {
            if handles[i].handle_val == handles[j].handle_val {
                return false;
            }
            i += 1;
        }
        j += 1;
    }
    true
}

/// Whether one of `users` has the identifier `user_id`.
fn id_among(users: &Vec<UserRecord>, user_id: UserID) -> (found: bool)
    ensures
        found == knows_id(rows(users@), user_id),
{
    let mut i: usize = 0;
    while i < users.len()
        invariant
            i <= users.len(),
            forall|k: int| 0 <= k < i ==> rows(users@)[k].user_id != user_id,
        decreases users.len() - i,
    {
        if users[i].user_id == user_id {
            assert(rows(users@)[i as int].user_id == user_id);
            return true;
        }
        i += 1;
    }
    false
}

/// Whether every one of `handles` belongs to one of `users`.
fn owners_known(users: &Vec<UserRecord>, handles: &Vec<HandleRow>) -> (ok: bool)
    ensures
        ok <==> (forall|i: int|
            0 <= i < handles.len() ==> knows_id(rows(users@), #[trigger] handles[i].user_id)),
{
    let mut i: usize = 0;
    while i < handles.len()
        invariant
            i <= handles.len(),
            forall|a: int|
                0 <= a < i ==> knows_id(rows(users@), #[trigger] handles[a].user_id),
        decreases handles.len() - i,
    {
        if !id_among(users, handles[i].user_id) {
            return false;
        }
        i += 1;
    }
    true
}

} // verus!
