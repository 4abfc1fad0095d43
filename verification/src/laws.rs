//! What holds of the table and its operations, whatever the rows.

use crate::config::TaskLifeCycle;
use crate::store::{
    doomed, expired, fresh_task, is_listing_of, spared_by, survivors, table_wf, with_fields,
    with_status, DeleteRule, DAY_SECS, MAX_ID,
};
use crate::task::{listed_before, name_verdict, Status, TaskView};
use crate::timestamp::Timestamp;
use vstd::prelude::*;

verus! {

/// The listing order is transitive.
pub proof fn lemma_listed_before_transitive(a: TaskView, b: TaskView, c: TaskView)
    requires
        listed_before(a, b),
        listed_before(b, c),
    ensures
        listed_before(a, c),
{
}

/// Of two tasks with different ids, one is listed before the other.
pub proof fn lemma_listed_before_total(a: TaskView, b: TaskView)
    requires
        a.id != b.id,
    ensures
        listed_before(a, b) || listed_before(b, a),
{
}

/// No task is listed before itself, and no two tasks before each other.
pub proof fn lemma_listed_before_asymmetric(a: TaskView, b: TaskView)
    ensures
        !(listed_before(a, b) && listed_before(b, a)),
{
}

/// In a valid table a task is active exactly while it has no `done_at`.
pub proof fn lemma_active_iff_unstamped(rows: Seq<TaskView>, next_id: int, i: int)
    requires
        table_wf(rows, next_id),
        0 <= i < rows.len(),
    ensures
        rows[i].status == Status::Active <==> rows[i].done_at is None,
{
}

/// A new task keeps the table valid, and its id is above every id in use.
pub proof fn lemma_insert_keeps_table(
    rows: Seq<TaskView>,
    next_id: int,
    name: Seq<char>,
    description: Seq<char>,
)
    requires
        table_wf(rows, next_id),
        name_verdict(name) is Ok,
        next_id < MAX_ID,
    ensures
        table_wf(rows.push(fresh_task(next_id, name, description)), next_id + 1),
        forall|i: int| 0 <= i < rows.len() ==> (#[trigger] rows[i]).id < next_id,
{
    let grown = rows.push(fresh_task(next_id, name, description));
    assert forall|i: int| 0 <= i < grown.len() implies (#[trigger] grown[i]).valid()
        && grown[i].id < next_id + 1 by {
        if i < rows.len() {
            assert(grown[i] == rows[i]);
        }
    }
    assert forall|i: int, j: int| 0 <= i < j < grown.len() implies (#[trigger] grown[i]).id < (
    #[trigger] grown[j]).id by {
        assert(grown[i] == rows[i]);
        if j < rows.len() {
            assert(grown[j] == rows[j]);
        }
    }
}

/// Renaming a task keeps the table valid and leaves every status and every
/// `done_at` as it was.
pub proof fn lemma_edit_keeps_table(
    rows: Seq<TaskView>,
    next_id: int,
    id: int,
    name: Seq<char>,
    description: Seq<char>,
)
    requires
        table_wf(rows, next_id),
        name_verdict(name) is Ok,
    ensures
        table_wf(with_fields(rows, id, name, description), next_id),
        forall|i: int|
            0 <= i < rows.len() ==> (#[trigger] with_fields(rows, id, name, description)[i]).status
                == rows[i].status && with_fields(rows, id, name, description)[i].done_at
                == rows[i].done_at && with_fields(rows, id, name, description)[i].id == rows[i].id,
{
    let edited = with_fields(rows, id, name, description);
    assert forall|i: int| 0 <= i < edited.len() implies (#[trigger] edited[i]).valid()
        && edited[i].id < next_id by {
        assert(rows[i].valid());
    }
    assert forall|i: int, j: int| 0 <= i < j < edited.len() implies (#[trigger] edited[i]).id < (
    #[trigger] edited[j]).id by {
        assert(rows[i].id < rows[j].id);
    }
}

/// Moving a task to a terminal status at a well-formed time keeps the table
/// valid: the task is no longer active, and it has a `done_at`.
pub proof fn lemma_set_status_keeps_table(
    rows: Seq<TaskView>,
    next_id: int,
    id: int,
    status: Status,
    stamp: Timestamp,
)
    requires
        table_wf(rows, next_id),
        status != Status::Active,
        stamp.wf(),
    ensures
        table_wf(with_status(rows, id, status, stamp), next_id),
{
    let changed = with_status(rows, id, status, stamp);
    assert forall|i: int| 0 <= i < changed.len() implies (#[trigger] changed[i]).valid()
        && changed[i].id < next_id by {
        assert(rows[i].valid());
    }
    assert forall|i: int, j: int| 0 <= i < j < changed.len() implies (#[trigger] changed[i]).id < (
    #[trigger] changed[j]).id by {
        assert(rows[i].id < rows[j].id);
    }
}

/// A bulk delete keeps the table valid, under any rule.
pub proof fn lemma_survivors_keep_table(rows: Seq<TaskView>, next_id: int, rule: DeleteRule)
    requires
        table_wf(rows, next_id),
    ensures
        table_wf(survivors(rows, rule), next_id),
    decreases rows.len(),
{
    reveal(Seq::filter);
    if rows.len() > 0 {
        let head = rows.drop_last();
        let last = rows.last();
        assert forall|i: int| 0 <= i < head.len() implies (#[trigger] head[i]).valid() && head[i].id
            < next_id by {
            assert(head[i] == rows[i]);
        }
        assert forall|i: int, j: int| 0 <= i < j < head.len() implies (#[trigger] head[i]).id < (
        #[trigger] head[j]).id by {
            assert(head[i] == rows[i]);
            assert(head[j] == rows[j]);
        }
        lemma_survivors_keep_table(head, next_id, rule);
        lemma_survivors(head, rule);
        let left = survivors(head, rule);
        let all = survivors(rows, rule);
        assert forall|k: int| 0 <= k < left.len() implies (#[trigger] left[k]).id < last.id by {
            assert(head.contains(left[k]));
            let j = choose|j: int| 0 <= j < head.len() && head[j] == left[k];
            assert(head[j] == rows[j]);
            assert(rows[j].id < rows[rows.len() - 1].id);
        }
        assert(last.valid() && last.id < next_id) by {
            assert(last == rows[rows.len() - 1]);
        }
        if spared_by(rule)(last) {
            assert(all == left.push(last));
            assert forall|i: int| 0 <= i < all.len() implies (#[trigger] all[i]).valid() && all[i].id
                < next_id by {
                if i < left.len() {
                    assert(all[i] == left[i]);
                }
            }
            assert forall|i: int, j: int| 0 <= i < j < all.len() implies (#[trigger] all[i]).id < (
            #[trigger] all[j]).id by {
                assert(all[i] == left[i]);
                if j < left.len() {
                    assert(all[j] == left[j]);
                }
            }
        } else {
            assert(all == left);
        }
    }
}

/// A listing holds no row twice, and no two of its entries share an id.
pub proof fn lemma_listing_ids_distinct(
    listing: Seq<TaskView>,
    rows: Seq<TaskView>,
    next_id: int,
    a: int,
    b: int,
)
    requires
        table_wf(rows, next_id),
        is_listing_of(listing, rows),
        0 <= a < listing.len(),
        0 <= b < listing.len(),
        listing[a].id == listing[b].id,
    ensures
        a == b,
{
    assert(rows.contains(listing[a]));
    assert(rows.contains(listing[b]));
    let i = choose|i: int| 0 <= i < rows.len() && rows[i] == listing[a];
    let j = choose|j: int| 0 <= j < rows.len() && rows[j] == listing[b];
    if i < j {
        assert(rows[i].id < rows[j].id);
    } else if j < i {
        assert(rows[j].id < rows[i].id);
    }
    assert(listing[a] == listing[b]);
    if a < b {
        assert(listed_before(listing[a], listing[b]));
    } else if b < a {
        assert(listed_before(listing[b], listing[a]));
    }
}

/// In a strictly growing run of `n` indices below `n`, no index lies below
/// its own position.
proof fn lemma_growing_indices_from_below(at: Seq<int>, k: int)
    requires
        forall|i: int| 0 <= i < at.len() ==> 0 <= #[trigger] at[i] < at.len(),
        forall|a: int, b: int| 0 <= a < b < at.len() ==> (#[trigger] at[a]) < (#[trigger] at[b]),
        0 <= k < at.len(),
    ensures
        at[k] >= k,
    decreases k,
{
    if k > 0 {
        lemma_growing_indices_from_below(at, k - 1);
        assert(at[k - 1] < at[k]);
    }
}

/// The same, seen from the last index down.
proof fn lemma_growing_indices_from_above(at: Seq<int>, k: int)
    requires
        forall|i: int| 0 <= i < at.len() ==> 0 <= #[trigger] at[i] < at.len(),
        forall|a: int, b: int| 0 <= a < b < at.len() ==> (#[trigger] at[a]) < (#[trigger] at[b]),
        0 <= k < at.len(),
    ensures
        at[k] <= k,
    decreases at.len() - k,
{
    if k < at.len() - 1 {
        lemma_growing_indices_from_above(at, k + 1);
        assert(at[k] < at[k + 1]);
    }
}

/// A table has one listing only: two listings of the same rows are equal.
pub proof fn lemma_listing_unique(first: Seq<TaskView>, second: Seq<TaskView>, rows: Seq<TaskView>)
    requires
        is_listing_of(first, rows),
        is_listing_of(second, rows),
    ensures
        first == second,
{
    let n = first.len() as int;
    let at = Seq::new(
        first.len(),
        |k: int| choose|m: int| 0 <= m < second.len() && second[m] == first[k],
    );
    assert forall|k: int| 0 <= k < n implies 0 <= #[trigger] at[k] < n && second[at[k]]
        == first[k] by {
        assert(rows.contains(first[k]));
        let j = choose|j: int| 0 <= j < rows.len() && rows[j] == first[k];
        assert(second.contains(rows[j]));
    }
    assert forall|a: int, b: int| 0 <= a < b < n implies (#[trigger] at[a]) < (#[trigger] at[b]) by {
        assert(listed_before(first[a], first[b]));
        assert(second[at[a]] == first[a]);
        assert(second[at[b]] == first[b]);
        if at[b] < at[a] {
            assert(listed_before(second[at[b]], second[at[a]]));
        }
    }
    assert forall|k: int| 0 <= k < n implies first[k] == second[k] by {
        lemma_growing_indices_from_below(at, k);
        lemma_growing_indices_from_above(at, k);
        assert(second[at[k]] == first[k]);
    }
    assert(first =~= second);
}

/// After a task is inserted, a listing of the table holds it at exactly one
/// position, active and with no `done_at`, under the id it was given and with
/// the name and description given; every other entry is a row that was there
/// before.
pub proof fn lemma_insert_then_listed(
    rows: Seq<TaskView>,
    next_id: int,
    name: Seq<char>,
    description: Seq<char>,
    listing: Seq<TaskView>,
) -> (at: int)
    requires
        table_wf(rows, next_id),
        is_listing_of(listing, rows.push(fresh_task(next_id, name, description))),
    ensures
        0 <= at < listing.len(),
        listing[at] == fresh_task(next_id, name, description),
        listing.len() == rows.len() + 1,
        forall|k: int|
            0 <= k < listing.len() && k != at ==> rows.contains(#[trigger] listing[k])
                && listing[k].id != next_id,
{
    let added = fresh_task(next_id, name, description);
    let grown = rows.push(added);
    assert(grown[rows.len() as int] == added);
    assert(listing.contains(grown[rows.len() as int]));
    let at = choose|k: int| 0 <= k < listing.len() && listing[k] == added;
    assert forall|k: int| 0 <= k < listing.len() && k != at implies rows.contains(
        #[trigger] listing[k],
    ) && listing[k].id != next_id by {
        assert(grown.contains(listing[k]));
        let j = choose|j: int| 0 <= j < grown.len() && grown[j] == listing[k];
        if j == rows.len() {
            if k < at {
                assert(listed_before(listing[k], listing[at]));
            } else {
                assert(listed_before(listing[at], listing[k]));
            }
        } else {
            assert(rows[j] == listing[k]);
            assert(rows[j].id < next_id);
        }
    }
    at
}

/// Marking a task done and then removing it leaves what removing it alone
/// leaves: the task is removed, and its `done_at` is the time of the removal.
pub proof fn lemma_delete_overwrites_done(
    rows: Seq<TaskView>,
    id: int,
    done_at: Timestamp,
    removed_at: Timestamp,
)
    ensures
        with_status(with_status(rows, id, Status::Done, done_at), id, Status::Removed, removed_at)
            == with_status(rows, id, Status::Removed, removed_at),
        forall|i: int|
            0 <= i < rows.len() && (#[trigger] rows[i]).id == id ==> {
                let row = with_status(
                    with_status(rows, id, Status::Done, done_at),
                    id,
                    Status::Removed,
                    removed_at,
                )[i];
                row.status == Status::Removed && row.done_at == Some(removed_at)
            },
{
    assert(with_status(
        with_status(rows, id, Status::Done, done_at),
        id,
        Status::Removed,
        removed_at,
    ) =~= with_status(rows, id, Status::Removed, removed_at));
}

/// With a retention window of zero days (or a negative setting, which counts
/// as zero) a done task expires exactly when its `done_at` is strictly
/// earlier than the time of the purge: one stamped at that very instant stays.
pub proof fn lemma_zero_window_is_strict(row: TaskView, now: Timestamp, lifecycle: TaskLifeCycle)
    requires
        row.status == Status::Done,
        row.done_at is Some,
        lifecycle.keep_done_tasks <= 0,
    ensures
        expired(row, now, lifecycle) <==> row.done_at->Some_0.earlier_than(now),
        row.done_at->Some_0.same_instant(now) ==> !expired(row, now, lifecycle),
{
}

/// Whatever the windows, a task whose `done_at` is exactly the cutoff of its
/// window has not expired: the boundary is strict.
pub proof fn lemma_cutoff_is_retained(row: TaskView, now: Timestamp, lifecycle: TaskLifeCycle)
    requires
        row.done_at is Some,
        row.done_at->Some_0.nanos == now.nanos,
        row.status == Status::Done ==> row.done_at->Some_0.secs == now.secs
            - lifecycle.done_window() * DAY_SECS,
        row.status == Status::Removed ==> row.done_at->Some_0.secs == now.secs
            - lifecycle.removed_window() * DAY_SECS,
    ensures
        !expired(row, now, lifecycle),
{
}

/// The retention purge keeps exactly the rows that have not expired: no row
/// that is left has expired, every row that has not expired is left, and
/// active rows never expire.
pub proof fn lemma_purge_keeps_unexpired(
    rows: Seq<TaskView>,
    now: Timestamp,
    lifecycle: TaskLifeCycle,
)
    ensures
        forall|k: int|
            0 <= k < survivors(rows, DeleteRule::Expired { now, lifecycle }).len() ==> !expired(
                #[trigger] survivors(rows, DeleteRule::Expired { now, lifecycle })[k],
                now,
                lifecycle,
            ) && rows.contains(survivors(rows, DeleteRule::Expired { now, lifecycle })[k]),
        forall|i: int|
            0 <= i < rows.len() && !expired(#[trigger] rows[i], now, lifecycle) ==> survivors(
                rows,
                DeleteRule::Expired { now, lifecycle },
            ).contains(rows[i]),
        forall|i: int|
            0 <= i < rows.len() && (#[trigger] rows[i]).status == Status::Active ==> survivors(
                rows,
                DeleteRule::Expired { now, lifecycle },
            ).contains(rows[i]),
{
    let rule = DeleteRule::Expired { now, lifecycle };
    lemma_survivors(rows, rule);
}

/// A purge of all terminal tasks leaves exactly the active rows: every row
/// that is left is active and was there before, and every active row is left,
/// whatever the age of the others.
pub proof fn lemma_clean_all_leaves_active(rows: Seq<TaskView>)
    ensures
        forall|k: int|
            0 <= k < survivors(rows, DeleteRule::AllTerminal).len() ==> (#[trigger] survivors(
                rows,
                DeleteRule::AllTerminal,
            )[k]).status == Status::Active && rows.contains(
                survivors(rows, DeleteRule::AllTerminal)[k],
            ),
        forall|i: int|
            0 <= i < rows.len() && (#[trigger] rows[i]).status == Status::Active ==> survivors(
                rows,
                DeleteRule::AllTerminal,
            ).contains(rows[i]),
{
    lemma_survivors(rows, DeleteRule::AllTerminal);
}

/// A bulk delete leaves the rows that its rule does not take, and no others.
pub proof fn lemma_survivors(rows: Seq<TaskView>, rule: DeleteRule)
    ensures
        forall|k: int|
            0 <= k < survivors(rows, rule).len() ==> !doomed(rule, #[trigger] survivors(rows, rule)[k])
                && rows.contains(survivors(rows, rule)[k]),
        forall|i: int|
            0 <= i < rows.len() && !doomed(rule, #[trigger] rows[i]) ==> survivors(
                rows,
                rule,
            ).contains(rows[i]),
        survivors(rows, rule).len() <= rows.len(),
{
    let keep = spared_by(rule);
    let left = rows.filter(keep);
    rows.lemma_filter_len(keep);
    assert forall|k: int| 0 <= k < left.len() implies !doomed(rule, #[trigger] left[k])
        && rows.contains(left[k]) by {
        rows.lemma_filter_pred(keep, k);
        assert(keep(left[k]));
        rows.lemma_filter_contains_rev(keep, left[k]);
    }
    assert forall|i: int| 0 <= i < rows.len() && !doomed(rule, #[trigger] rows[i]) implies left.contains(
        rows[i],
    ) by {
        assert(keep(rows[i]));
        rows.lemma_filter_contains(keep, i);
    }
}

} // verus!
