//! The store as mathematics: two tables of rows, what it means for them to be
//! consistent, and what each operation of the store does to them.

use crate::account::{AccountView, UserID};
use crate::clock::Timestamp;
use crate::hashing::password_hash;
use vstd::prelude::*;

verus! {

/// One row of the account table.
#[verifier::ext_equal]
pub struct UserRow {
    pub user_id: UserID,
    pub username: Seq<char>,
    pub password_hash: Seq<char>,
    pub creation_time: Timestamp,
    pub premium: bool,
    pub random: i64,
}

/// One row of the handle table: a handle's value and the account that owns it.
#[derive(Debug, Clone, Copy, PartialEq, Eq, Structural)]
pub struct HandleRow {
    pub handle_val: u64,
    pub user_id: UserID,
}

/// Both tables, rows in the order in which they were stored.
#[verifier::ext_equal]
pub struct Tables {
    pub users: Seq<UserRow>,
    pub handles: Seq<HandleRow>,
}

impl UserRow {
    /// The row without its credentials.
    pub open spec fn account(self) -> AccountView {
        AccountView {
            username: self.username,
            user_id: self.user_id,
            creation_time: self.creation_time,
            premium: self.premium,
            random: self.random,
        }
    }

    /// Whether `password` is the password this row was stored with.
    pub open spec fn accepts(self, password: Seq<char>) -> bool {
        self.password_hash == password_hash(password, self.creation_time, self.random as u64)
    }
}

/// The greatest identifier among `users`; 0 where there is none.
pub open spec fn max_user_id(users: Seq<UserRow>) -> nat
    decreases users.len(),
{
    if users.len() == 0 {
        0
    } else {
        let rest = max_user_id(users.drop_last());
        if users.last().user_id > rest {
            users.last().user_id as nat
        } else {
            rest
        }
    }
}

/// Whether one of `users` has the identifier `user_id`.
pub open spec fn knows_id(users: Seq<UserRow>, user_id: UserID) -> bool {
    exists|i: int| 0 <= i < users.len() && #[trigger] users[i].user_id == user_id
}

impl Tables {
    /// Tables without rows.
    pub open spec fn empty() -> Tables {
        Tables { users: Seq::empty(), handles: Seq::empty() }
    }

    /// No username, no identifier and no handle value occurs twice, and every
    /// handle belongs to a stored account.
    pub open spec fn wf(self) -> bool {
        &&& forall|i: int, j: int|
            #![trigger self.users[i], self.users[j]]
            0 <= i < j < self.users.len() ==> self.users[i].username != self.users[j].username
        &&& forall|i: int, j: int|
            #![trigger self.users[i], self.users[j]]
            0 <= i < j < self.users.len() ==> self.users[i].user_id != self.users[j].user_id
        &&& forall|i: int, j: int|
            #![trigger self.handles[i], self.handles[j]]
            0 <= i < j < self.handles.len() ==> self.handles[i].handle_val
                != self.handles[j].handle_val
        &&& forall|i: int|
            0 <= i < self.handles.len() ==> self.has_user_id(#[trigger] self.handles[i].user_id)
    }

    /// Whether an account is stored under `username`.
    pub open spec fn has_user(self, username: Seq<char>) -> bool {
        exists|i: int| 0 <= i < self.users.len() && #[trigger] self.users[i].username == username
    }

    /// The row stored under `username`.
    pub open spec fn user(self, username: Seq<char>) -> UserRow
        recommends
            self.has_user(username),
    {
        self.users[choose|i: int|
            0 <= i < self.users.len() && #[trigger] self.users[i].username == username]
    }

    /// Whether an account has the identifier `user_id`.
    pub open spec fn has_user_id(self, user_id: UserID) -> bool {
        knows_id(self.users, user_id)
    }

    /// Whether another account can be given an identifier.
    pub open spec fn has_room(self) -> bool {
        max_user_id(self.users) < u64::MAX
    }

    /// Whether `username` is stored and `password` is its password.
    pub open spec fn login_ok(self, username: Seq<char>, password: Seq<char>) -> bool {
        self.has_user(username) && self.user(username).accepts(password)
    }

    /// The row that creating an account stores.
    pub open spec fn new_row(
        self,
        username: Seq<char>,
        password: Seq<char>,
        creation_time: Timestamp,
        random: i64,
    ) -> UserRow {
        UserRow {
            user_id: (max_user_id(self.users) + 1) as u64,
            username,
            password_hash: password_hash(password, creation_time, random as u64),
            creation_time,
            premium: false,
            random,
        }
    }

    /// The tables with `row` behind the accounts.
    pub open spec fn with_user(self, row: UserRow) -> Tables {
        Tables { users: self.users.push(row), handles: self.handles }
    }

    /// The tables after an account was created.
    pub open spec fn created(
        self,
        username: Seq<char>,
        password: Seq<char>,
        creation_time: Timestamp,
        random: i64,
    ) -> Tables {
        self.with_user(self.new_row(username, password, creation_time, random))
    }

    /// Whether `handle_val` is a handle, whoever owns it.
    pub open spec fn has_handle(self, handle_val: u64) -> bool {
        exists|i: int|
            0 <= i < self.handles.len() && #[trigger] self.handles[i].handle_val == handle_val
    }

    /// Whether `handle_val` is stored as a handle of `user_id`.
    pub open spec fn owns(self, user_id: UserID, handle_val: u64) -> bool {
        exists|i: int|
            0 <= i < self.handles.len() && #[trigger] self.handles[i].handle_val == handle_val
                && self.handles[i].user_id == user_id
    }

    /// The handles of `user_id`, oldest first.
    pub open spec fn handles_of(self, user_id: UserID) -> Seq<u64> {
        self.handles.filter(|row: HandleRow| row.user_id == user_id).map_values(
            |row: HandleRow| row.handle_val,
        )
    }

    /// The tables after `handle_val` was registered for `user_id`.
    pub open spec fn with_handle(self, handle_val: u64, user_id: UserID) -> Tables {
        Tables { users: self.users, handles: self.handles.push(HandleRow { handle_val, user_id }) }
    }

    /// Where `handle_val` stands in the handle table.
    pub open spec fn handle_index(self, handle_val: u64) -> int
        recommends
            self.has_handle(handle_val),
    {
        choose|i: int|
            0 <= i < self.handles.len() && #[trigger] self.handles[i].handle_val == handle_val
    }

    /// The tables without the handle `handle_val`.
    pub open spec fn without_handle(self, handle_val: u64) -> Tables
        recommends
            self.has_handle(handle_val),
    {
        Tables { users: self.users, handles: self.handles.remove(self.handle_index(handle_val)) }
    }

    /// The tables after `user_id` asked to delete `handle_val`: without the
    /// handle where `user_id` owns it, unchanged where not.
    pub open spec fn deleted(self, handle_val: u64, user_id: UserID) -> Tables {
        if self.owns(user_id, handle_val) {
            self.without_handle(handle_val)
        } else {
            self
        }
    }

    /// The tables after the handles `minted` were registered one after the other.
    pub open spec fn minted_all(self, minted: Seq<HandleRow>) -> Tables
        decreases minted.len(),
    {
        if minted.len() == 0 {
            self
        } else {
            self.minted_all(minted.drop_last()).with_handle(
                minted.last().handle_val,
                minted.last().user_id,
            )
        }
    }

    /// Whether each of `minted` was free when its turn came.
    pub open spec fn each_was_free(self, minted: Seq<HandleRow>) -> bool
        decreases minted.len(),
    {
        minted.len() == 0 || (self.each_was_free(minted.drop_last()) && !self.minted_all(
            minted.drop_last(),
        ).has_handle(minted.last().handle_val))
    }
}

/// No identifier among `users` is above the greatest.
pub proof fn lemma_max_user_id(users: Seq<UserRow>, i: int)
    requires
        0 <= i < users.len(),
    ensures
        users[i].user_id <= max_user_id(users),
    decreases users.len(),
{
    if i < users.len() - 1 {
        lemma_max_user_id(users.drop_last(), i);
    }
}

/// Creating an account under a free name keeps the tables consistent.
pub proof fn lemma_created_wf(
    pre: Tables,
    username: Seq<char>,
    password: Seq<char>,
    creation_time: Timestamp,
    random: i64,
)
    requires
        pre.wf(),
        !pre.has_user(username),
        pre.has_room(),
    ensures
        pre.created(username, password, creation_time, random).wf(),
{
    let row = pre.new_row(username, password, creation_time, random);
    let post = pre.created(username, password, creation_time, random);
    assert forall|i: int, j: int| 0 <= i < j < post.users.len() implies post.users[i].username
        != post.users[j].username && post.users[i].user_id != post.users[j].user_id by {
        if j == pre.users.len() {
            assert(pre.users[i].username != username);
            lemma_max_user_id(pre.users, i);
        }
    }
    assert forall|i: int| 0 <= i < post.handles.len() implies post.has_user_id(
        #[trigger] post.handles[i].user_id,
    ) by {
        let k = choose|k: int|
            0 <= k < pre.users.len() && #[trigger] pre.users[k].user_id == pre.handles[i].user_id;
        assert(post.users[k].user_id == post.handles[i].user_id);
    }
}

/// Registering a free value for a stored account keeps the tables consistent.
pub proof fn lemma_with_handle_wf(pre: Tables, handle_val: u64, user_id: UserID)
    requires
        pre.wf(),
        !pre.has_handle(handle_val),
        pre.has_user_id(user_id),
    ensures
        pre.with_handle(handle_val, user_id).wf(),
{
    let post = pre.with_handle(handle_val, user_id);
    assert forall|i: int, j: int| 0 <= i < j < post.handles.len() implies post.handles[i].handle_val
        != post.handles[j].handle_val by {
        if j == pre.handles.len() {
            assert(pre.handles[i].handle_val != handle_val);
        }
    }
    assert forall|i: int| 0 <= i < post.handles.len() implies post.has_user_id(
        #[trigger] post.handles[i].user_id,
    ) by {
        if i < pre.handles.len() {
            assert(pre.has_user_id(pre.handles[i].user_id));
        }
    }
}

/// Removing a handle keeps the tables consistent.
pub proof fn lemma_without_handle_wf(pre: Tables, handle_val: u64)
    requires
        pre.wf(),
        pre.has_handle(handle_val),
    ensures
        pre.without_handle(handle_val).wf(),
{
    let at = pre.handle_index(handle_val);
    let post = pre.without_handle(handle_val);
    assert(0 <= at < pre.handles.len());
    assert forall|i: int, j: int| 0 <= i < j < post.handles.len() implies post.handles[i].handle_val
        != post.handles[j].handle_val by {
        let from_i = if i < at { i } else { i + 1 };
        let from_j = if j < at { j } else { j + 1 };
        assert(post.handles[i] == pre.handles[from_i]);
        assert(post.handles[j] == pre.handles[from_j]);
    }
    assert forall|i: int| 0 <= i < post.handles.len() implies post.has_user_id(
        #[trigger] post.handles[i].user_id,
    ) by {
        let from_i = if i < at { i } else { i + 1 };
        assert(post.handles[i] == pre.handles[from_i]);
        assert(pre.has_user_id(pre.handles[from_i].user_id));
    }
}

/// Where every value below `n` is a handle, the table has at least `n` rows.
pub proof fn lemma_values_in_use(tables: Tables, n: int)
    requires
        0 <= n <= u64::MAX + 1,
        forall|v: u64| v < n ==> tables.has_handle(v),
    ensures
        n <= tables.handles.len(),
{
    let values = tables.handles.map_values(|row: HandleRow| row.handle_val as int);
    let low = vstd::set_lib::set_int_range(0, n);
    assert forall|v: int| low.contains(v) implies values.to_set().contains(v) by {
        let value = v as u64;
        assert(value == v);
        assert(tables.has_handle(value));
        let i = choose|i: int|
            0 <= i < tables.handles.len() && #[trigger] tables.handles[i].handle_val == value;
        assert(values[i] == v);
    }
    vstd::set_lib::lemma_int_range(0, n);
    vstd::seq_lib::seq_to_set_is_finite(values);
    vstd::set_lib::lemma_len_subset(low, values.to_set());
    values.lemma_cardinality_of_set();
}

} // verus!
