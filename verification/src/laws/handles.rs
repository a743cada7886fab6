//! What holds of handles across the operations of the store.

use crate::account::UserID;
use crate::tables::{HandleRow, Tables};
use vstd::prelude::*;

verus! {

/// The handle table after a run of registrations is the table before it with
/// the registered rows behind it.
pub proof fn lemma_minted_all_rows(pre: Tables, minted: Seq<HandleRow>)
    ensures
        pre.minted_all(minted).handles == pre.handles + minted,
        pre.minted_all(minted).users == pre.users,
    decreases minted.len(),
{
    if minted.len() > 0 {
        lemma_minted_all_rows(pre, minted.drop_last());
        assert(pre.handles + minted =~= (pre.handles + minted.drop_last()).push(minted.last()));
    } else {
        assert(pre.handles + minted =~= pre.handles);
    }
}

/// However many handles are minted one after the other, and for whatever
/// accounts, no two of them have the same value, and none has the value of a
/// handle that was stored before.
pub proof fn lemma_mints_differ(pre: Tables, minted: Seq<HandleRow>, i: int, j: int)
    requires
        pre.each_was_free(minted),
        0 <= i < j < minted.len(),
    ensures
        minted[i].handle_val != minted[j].handle_val,
        !pre.has_handle(minted[i].handle_val),
        !pre.has_handle(minted[j].handle_val),
    decreases minted.len(),
{
    let earlier = minted.drop_last();
    if j < minted.len() - 1 {
        lemma_mints_differ(pre, earlier, i, j);
    } else {
        let before = pre.minted_all(earlier);
        lemma_minted_all_rows(pre, earlier);
        assert(!before.has_handle(minted[j].handle_val));
        assert(before.handles[pre.handles.len() + i] == minted[i]);
        if pre.has_handle(minted[j].handle_val) {
            let k = choose|k: int|
                0 <= k < pre.handles.len() && #[trigger] pre.handles[k].handle_val
                    == minted[j].handle_val;
            assert(before.handles[k] == pre.handles[k]);
        }
        lemma_first_was_free(pre, earlier, i);
    }
}

/// Each handle of a run of registrations was no handle before the run.
pub proof fn lemma_first_was_free(pre: Tables, minted: Seq<HandleRow>, i: int)
    requires
        pre.each_was_free(minted),
        0 <= i < minted.len(),
    ensures
        !pre.has_handle(minted[i].handle_val),
    decreases minted.len(),
{
    let earlier = minted.drop_last();
    if i < minted.len() - 1 {
        lemma_first_was_free(pre, earlier, i);
    } else {
        let before = pre.minted_all(earlier);
        lemma_minted_all_rows(pre, earlier);
        if pre.has_handle(minted[i].handle_val) {
            let k = choose|k: int|
                0 <= k < pre.handles.len() && #[trigger] pre.handles[k].handle_val
                    == minted[i].handle_val;
            assert(before.handles[k] == pre.handles[k]);
        }
    }
}

/// A handle that was just minted is owned by the account it was minted for
/// and by no other.
pub proof fn lemma_minted_is_owned(pre: Tables, handle_val: u64, user_id: UserID, other: UserID)
    requires
        !pre.has_handle(handle_val),
    ensures
        pre.with_handle(handle_val, user_id).owns(user_id, handle_val),
        other != user_id ==> !pre.with_handle(handle_val, user_id).owns(other, handle_val),
{
    let post = pre.with_handle(handle_val, user_id);
    let last = pre.handles.len() as int;
    assert(post.handles[last].handle_val == handle_val && post.handles[last].user_id == user_id);
    if other != user_id && post.owns(other, handle_val) {
        let k = choose|k: int|
            0 <= k < post.handles.len() && #[trigger] post.handles[k].handle_val == handle_val
                && post.handles[k].user_id == other;
        assert(k < last);
        assert(pre.handles[k].handle_val == handle_val);
    }
}

/// Minting changes the ownership of no other value.
pub proof fn lemma_mint_keeps_others(
    pre: Tables,
    handle_val: u64,
    user_id: UserID,
    other_val: u64,
    other: UserID,
)
    requires
        other_val != handle_val,
    ensures
        pre.with_handle(handle_val, user_id).owns(other, other_val) == pre.owns(other, other_val),
{
    let post = pre.with_handle(handle_val, user_id);
    if pre.owns(other, other_val) {
        let k = choose|k: int|
            0 <= k < pre.handles.len() && #[trigger] pre.handles[k].handle_val == other_val
                && pre.handles[k].user_id == other;
        assert(post.handles[k] == pre.handles[k]);
    }
    if post.owns(other, other_val) {
        let k = choose|k: int|
            0 <= k < post.handles.len() && #[trigger] post.handles[k].handle_val == other_val
                && post.handles[k].user_id == other;
        assert(pre.handles[k] == post.handles[k]);
    }
}

/// After a delete the handle is not owned by the account that asked, and
/// where it was removed it is no handle at all.
pub proof fn lemma_deleted_is_gone(pre: Tables, handle_val: u64, user_id: UserID)
    requires
        pre.wf(),
    ensures
        !pre.deleted(handle_val, user_id).owns(user_id, handle_val),
        pre.owns(user_id, handle_val) ==> !pre.deleted(handle_val, user_id).has_handle(handle_val),
{
    if pre.owns(user_id, handle_val) {
        let owned_at = choose|k: int|
            0 <= k < pre.handles.len() && #[trigger] pre.handles[k].handle_val == handle_val
                && pre.handles[k].user_id == user_id;
        assert(pre.has_handle(handle_val));
        let at = pre.handle_index(handle_val);
        let post = pre.without_handle(handle_val);
        if post.has_handle(handle_val) {
            let k = choose|k: int|
                0 <= k < post.handles.len() && #[trigger] post.handles[k].handle_val == handle_val;
            let from = if k < at { k } else { k + 1 };
            assert(post.handles[k] == pre.handles[from]);
        }
    }
}

/// A second delete of the same handle by the same account finds nothing to
/// remove and changes nothing.
pub proof fn lemma_delete_twice(pre: Tables, handle_val: u64, user_id: UserID)
    requires
        pre.wf(),
    ensures
        !pre.deleted(handle_val, user_id).owns(user_id, handle_val),
        pre.deleted(handle_val, user_id).deleted(handle_val, user_id) == pre.deleted(
            handle_val,
            user_id,
        ),
{
    lemma_deleted_is_gone(pre, handle_val, user_id);
}

/// Deleting a handle changes the ownership of no other value.
pub proof fn lemma_delete_keeps_others(
    pre: Tables,
    handle_val: u64,
    user_id: UserID,
    other_val: u64,
    other: UserID,
)
    requires
        pre.wf(),
        other_val != handle_val,
    ensures
        pre.deleted(handle_val, user_id).owns(other, other_val) == pre.owns(other, other_val),
{
    if pre.owns(user_id, handle_val) {
        let owned_at = choose|k: int|
            0 <= k < pre.handles.len() && #[trigger] pre.handles[k].handle_val == handle_val
                && pre.handles[k].user_id == user_id;
        assert(pre.has_handle(handle_val));
        let at = pre.handle_index(handle_val);
        let post = pre.without_handle(handle_val);
        if pre.owns(other, other_val) {
            let k = choose|k: int|
                0 <= k < pre.handles.len() && #[trigger] pre.handles[k].handle_val == other_val
                    && pre.handles[k].user_id == other;
            let to = if k < at { k } else { k - 1 };
            assert(post.handles[to] == pre.handles[k]);
        }
        if post.owns(other, other_val) {
            let k = choose|k: int|
                0 <= k < post.handles.len() && #[trigger] post.handles[k].handle_val == other_val
                    && post.handles[k].user_id == other;
            let from = if k < at { k } else { k + 1 };
            assert(post.handles[k] == pre.handles[from]);
        }
    }
}

/// A value that was just minted is a handle.
pub proof fn lemma_minted_is_stored(pre: Tables, handle_val: u64, user_id: UserID)
    ensures
        pre.with_handle(handle_val, user_id).has_handle(handle_val),
{
    let post = pre.with_handle(handle_val, user_id);
    assert(post.handles[pre.handles.len() as int].handle_val == handle_val);
}

/// An empty store lists nothing.
pub proof fn lemma_empty_lists_nothing(user_id: UserID)
    ensures
        Tables::empty().handles_of(user_id) == Seq::<u64>::empty(),
{
    reveal_with_fuel(Seq::filter, 1);
    assert(Tables::empty().handles_of(user_id) =~= Seq::<u64>::empty());
}

/// Minting puts the value at the end of the list of the account it is for and
/// changes no other list.
pub proof fn lemma_mint_lists(pre: Tables, handle_val: u64, user_id: UserID, other: UserID)
    ensures
        pre.with_handle(handle_val, user_id).handles_of(other) == if other == user_id {
            pre.handles_of(other).push(handle_val)
        } else {
            pre.handles_of(other)
        },
{
    let row = HandleRow { handle_val, user_id };
    let owned = |row: HandleRow| row.user_id == other;
    let value = |row: HandleRow| row.handle_val;
    pre.handles.lemma_filter_push(row, owned);
    if other == user_id {
        pre.handles.filter(owned).lemma_push_map_commute(value, row);
    }
    assert(pre.with_handle(handle_val, user_id).handles_of(other) =~= if other == user_id {
        pre.handles_of(other).push(handle_val)
    } else {
        pre.handles_of(other)
    });
}

/// Consistent tables stay consistent without their newest handle.
proof fn lemma_drop_last_wf(tables: Tables)
    requires
        tables.wf(),
        tables.handles.len() > 0,
    ensures
        (Tables { users: tables.users, handles: tables.handles.drop_last() }).wf(),
{
    let rest = Tables { users: tables.users, handles: tables.handles.drop_last() };
    assert forall|i: int| 0 <= i < rest.handles.len() implies rest.has_user_id(
        #[trigger] rest.handles[i].user_id,
    ) by {
        assert(tables.has_user_id(tables.handles[i].user_id));
    }
    assert forall|i: int, j: int|
        #![trigger rest.handles[i], rest.handles[j]]
        0 <= i < j < rest.handles.len() implies rest.handles[i].handle_val
        != rest.handles[j].handle_val by {
        assert(tables.handles[i].handle_val != tables.handles[j].handle_val);
    }
}

/// The list of an account holds exactly the values that the account owns.
pub proof fn lemma_listed_iff_owned(tables: Tables, user_id: UserID, handle_val: u64)
    ensures
        tables.handles_of(user_id).contains(handle_val) <==> tables.owns(user_id, handle_val),
    decreases tables.handles.len(),
{
    if tables.handles.len() == 0 {
        lemma_empty_lists_nothing(user_id);
        assert(tables.handles =~= Seq::empty());
        assert(tables.handles_of(user_id) =~= Seq::<u64>::empty());
    } else {
        let last = tables.handles.last();
        let rest = Tables { users: tables.users, handles: tables.handles.drop_last() };
        assert(rest.with_handle(last.handle_val, last.user_id) =~= tables);
        lemma_listed_iff_owned(rest, user_id, handle_val);
        lemma_mint_lists(rest, last.handle_val, last.user_id, user_id);
        let listed = tables.handles_of(user_id);
        let before = rest.handles_of(user_id);
        if listed.contains(handle_val) {
            let k = choose|k: int| 0 <= k < listed.len() && listed[k] == handle_val;
            if k < before.len() {
                assert(before[k] == handle_val);
                let at = choose|at: int|
                    0 <= at < rest.handles.len() && #[trigger] rest.handles[at].handle_val
                        == handle_val && rest.handles[at].user_id == user_id;
                assert(tables.handles[at] == rest.handles[at]);
            } else {
                assert(tables.handles[tables.handles.len() - 1] == last);
            }
        }
        if tables.owns(user_id, handle_val) {
            let at = choose|at: int|
                0 <= at < tables.handles.len() && #[trigger] tables.handles[at].handle_val
                    == handle_val && tables.handles[at].user_id == user_id;
            if at < rest.handles.len() {
                assert(rest.handles[at] == tables.handles[at]);
                let k = choose|k: int| 0 <= k < before.len() && before[k] == handle_val;
                assert(listed[k] == handle_val);
            } else {
                assert(listed[listed.len() - 1] == handle_val);
            }
        }
    }
}

/// No value stands twice in a list.
pub proof fn lemma_listed_once(tables: Tables, user_id: UserID)
    requires
        tables.wf(),
    ensures
        tables.handles_of(user_id).no_duplicates(),
    decreases tables.handles.len(),
{
    if tables.handles.len() == 0 {
        assert(tables.handles =~= Seq::empty());
        lemma_empty_lists_nothing(user_id);
        assert(tables.handles_of(user_id) =~= Seq::<u64>::empty());
    } else {
        let last = tables.handles.last();
        let rest = Tables { users: tables.users, handles: tables.handles.drop_last() };
        assert(rest.with_handle(last.handle_val, last.user_id) =~= tables);
        lemma_drop_last_wf(tables);
        lemma_listed_once(rest, user_id);
        lemma_mint_lists(rest, last.handle_val, last.user_id, user_id);
        if last.user_id == user_id {
            let before = rest.handles_of(user_id);
            lemma_listed_iff_owned(rest, user_id, last.handle_val);
            if rest.owns(user_id, last.handle_val) {
                let at = choose|at: int|
                    0 <= at < rest.handles.len() && #[trigger] rest.handles[at].handle_val
                        == last.handle_val && rest.handles[at].user_id == user_id;
                assert(tables.handles[at].handle_val == tables.handles[tables.handles.len()
                    - 1].handle_val);
            }
            assert forall|i: int, j: int|
                0 <= i < before.push(last.handle_val).len() && 0 <= j < before.push(
                    last.handle_val,
                ).len() && i != j implies before.push(last.handle_val)[i] != before.push(
                last.handle_val,
            )[j] by {
                if i < before.len() && j < before.len() {
                } else if i < before.len() {
                    assert(before.contains(before[i]));
                } else {
                    assert(before.contains(before[j]));
                }
            }
        }
    }
}

/// A filter that every element passes changes nothing.
proof fn lemma_filter_keeps_all(values: Seq<u64>, keep: spec_fn(u64) -> bool)
    requires
        forall|i: int| 0 <= i < values.len() ==> keep(#[trigger] values[i]),
    ensures
        values.filter(keep) == values,
    decreases values.len(),
{
    reveal_with_fuel(Seq::filter, 1);
    if values.len() > 0 {
        let rest = values.drop_last();
        assert forall|i: int| 0 <= i < rest.len() implies keep(#[trigger] rest[i]) by {
            assert(rest[i] == values[i]);
        }
        lemma_filter_keeps_all(rest, keep);
        assert(keep(values[values.len() - 1]));
        assert(rest.push(values.last()) =~= values);
    }
    assert(values.filter(keep) =~= values);
}

/// Removing a handle takes its value out of every list and keeps the rest of
/// each list in its order.
pub proof fn lemma_removed_from_lists(pre: Tables, handle_val: u64, other: UserID)
    requires
        pre.wf(),
        pre.has_handle(handle_val),
    ensures
        pre.without_handle(handle_val).handles_of(other) == pre.handles_of(other).filter(
            |value: u64| value != handle_val,
        ),
    decreases pre.handles.len(),
{
    let differs = |value: u64| value != handle_val;
    let at = pre.handle_index(handle_val);
    assert(0 <= at < pre.handles.len());
    let post = pre.without_handle(handle_val);
    let last = pre.handles.last();
    let rest = Tables { users: pre.users, handles: pre.handles.drop_last() };
    assert(rest.with_handle(last.handle_val, last.user_id) =~= pre);
    lemma_mint_lists(rest, last.handle_val, last.user_id, other);
    let before = rest.handles_of(other);
    if at == pre.handles.len() - 1 {
        assert(post =~= rest);
        assert forall|i: int| 0 <= i < before.len() implies differs(#[trigger] before[i]) by {
            if before[i] == handle_val {
                assert(before.contains(handle_val));
                lemma_listed_iff_owned(rest, other, handle_val);
                let k = choose|k: int|
                    0 <= k < rest.handles.len() && #[trigger] rest.handles[k].handle_val
                        == handle_val && rest.handles[k].user_id == other;
                assert(pre.handles[k].handle_val == pre.handles[at].handle_val);
            }
        }
        lemma_filter_keeps_all(before, differs);
        if last.user_id == other {
            before.lemma_filter_push(handle_val, differs);
        }
    } else {
        lemma_drop_last_wf(pre);
        assert(rest.handles[at].handle_val == handle_val);
        assert(rest.has_handle(handle_val));
        assert(rest.handle_index(handle_val) == at);
        lemma_removed_from_lists(rest, handle_val, other);
        let shorter = rest.without_handle(handle_val);
        assert(shorter.with_handle(last.handle_val, last.user_id) =~= post);
        lemma_mint_lists(shorter, last.handle_val, last.user_id, other);
        assert(pre.handles[pre.handles.len() - 1].handle_val != pre.handles[at].handle_val);
        if last.user_id == other {
            before.lemma_filter_push(last.handle_val, differs);
        }
    }
}

} // verus!
