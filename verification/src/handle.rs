//! Session handles: 64-bit values, each registered to one account and to no
//! other while it is stored.

use crate::account::{Account, UserID};
use crate::database::{Database, HandleDBError, StoreError};
use crate::random::{RandomSource, SystemRandom};
use vstd::prelude::*;

verus! {

/// How many values are drawn before minting stops drawing.
pub const MAX_DRAWS: u64 = u64::MAX;

/// A session handle.
#[derive(Debug, Clone, Copy, PartialEq, Eq, Hash, Structural)]
pub struct Handle(u64);

impl View for Handle {
    type V = u64;

    closed spec fn view(&self) -> u64 {
        self.0
    }
}

/// The values of `handles`, in their order.
pub open spec fn values_of(handles: Seq<Handle>) -> Seq<u64> {
    Seq::new(handles.len(), |i: int| handles[i]@)
}

impl Handle {
    /// Mints a handle for `user` from the thread's random generator.
    ///
    /// See [`Handle::new_with`] for what is promised.
    pub fn new(user: &Account, db: &mut Database) -> (minted: Result<Handle, HandleDBError>)
        ensures
            minted is Ok <==> old(db)@.has_user_id(user@.user_id),
            match minted {
                Ok(handle) => {
                    &&& !old(db)@.has_handle(handle@)
                    &&& final(db)@ == old(db)@.with_handle(handle@, user@.user_id)
                },
                Err(e) => {
                    &&& final(db)@ == old(db)@
                    &&& e == HandleDBError::DBError(StoreError::NotFound)
                },
            },
    {
        let mut source = SystemRandom;
        Self::new_with(user, db, &mut source)
    }

    /// Mints a handle for `user`: draws values from `source` until one is
    /// not in use, and registers it.
    ///
    /// A value that is in use is passed over and the next one drawn; any
    /// other refusal of the store ends the minting with that error. So the
    /// handle returned was no handle before, and minting fails only where
    /// `user` is not an account of `db`. The loop is known to end: after
    /// [`MAX_DRAWS`] values that were all in use, the least free value is
    /// taken, and there is one, since the table has fewer rows than there are
    /// values.
    pub fn new_with<R: RandomSource>(user: &Account, db: &mut Database, source: &mut R) -> (minted:
        Result<Handle, HandleDBError>)
        ensures
            minted is Ok <==> old(db)@.has_user_id(user@.user_id),
            match minted {
                Ok(handle) => {
                    &&& !old(db)@.has_handle(handle@)
                    &&& final(db)@ == old(db)@.with_handle(handle@, user@.user_id)
                },
                Err(e) => {
                    &&& final(db)@ == old(db)@
                    &&& e == HandleDBError::DBError(StoreError::NotFound)
                },
            },
    {
        let mut draws: u64 = 0;
        while draws < MAX_DRAWS
            invariant
                db@ == old(db)@,
            decreases MAX_DRAWS - draws,
        {
            let num: u64 = source.next_u64();
            match db.add_handle_to_db(user, num) {
                Ok(()) => {
                    return Ok(Handle(num));
                },
                Err(HandleDBError::HandleAlreadyExists) => {},
                Err(HandleDBError::DBError(e)) => {
                    return Err(HandleDBError::DBError(e));
                },
            }
            draws += 1;
        }
        let num: u64 = db.unused_handle();
        match db.add_handle_to_db(user, num) {
            Ok(()) => Ok(Handle(num)),
            Err(_) => Err(HandleDBError::DBError(StoreError::NotFound)),
        }
    }

    /// The value of the handle.
    pub fn get(&self) -> (value: u64)
        ensures
            value == self@,
    {
        self.0
    }

    /// The handle with the value `value`, stored or not.
    pub fn from_value(value: u64) -> (handle: Self)
        ensures
            handle@ == value,
    {
        Handle(value)
    }

    /// The handles of `user_id`, oldest first.
    pub fn get_all_for_user(user_id: UserID, db: &Database) -> (listed: Result<
        Vec<Handle>,
        StoreError,
    >)
        ensures
            listed matches Ok(handles) && values_of(handles@) == db@.handles_of(user_id),
    {
        let handle_values = db.get_handles_for_user(user_id)?;
        let mut handles: Vec<Handle> = Vec::new();
        let mut i: usize = 0;
        while i < handle_values.len()
            invariant
                i <= handle_values.len(),
                handles.len() == i,
                values_of(handles@) == handle_values@.take(i as int),
            decreases handle_values.len() - i,
        {
            let ghost before = handles@;
            handles.push(Handle::from_value(handle_values[i]));
            i += 1;
            assert forall|k: int| 0 <= k < i implies values_of(handles@)[k] == handle_values[k] by {
                if k < i - 1 {
                    assert(values_of(before)[k] == handle_values@.take(i - 1)[k]);
                }
            }
            assert(values_of(handles@) =~= handle_values@.take(i as int));
        }
        assert(handle_values@.take(i as int) =~= handle_values@);
        Ok(handles)
    }

    /// Whether this handle is stored as a handle of `user_id`.
    pub fn is_owned_by_user(&self, user_id: UserID, db: &Database) -> (owned: bool)
        ensures
            owned == db@.owns(user_id, self@),
    {
        db.is_handle_owned_by_user(self.0, user_id)
    }

    /// Removes this handle where `user_id` owns it, and tells whether it did.
    pub fn delete(&self, user_id: UserID, db: &mut Database) -> (deleted: Result<bool, StoreError>)
        ensures
            deleted matches Ok(removed) && removed == old(db)@.owns(user_id, self@),
            final(db)@ == old(db)@.deleted(self@, user_id),
    {
        db.delete_handle(self.0, user_id)
    }
}

} // verus!
