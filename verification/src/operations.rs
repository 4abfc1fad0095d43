//! The user-facing operations: each purges what has expired, changes the
//! table, and returns the listing to show.

use crate::config::{Config, TaskLifeCycle};
use crate::laws::lemma_clean_all_leaves_active;
use crate::store::{
    fresh_task, is_listing_of, survivors, with_fields, with_status, DeleteRule, StoreError,
    TaskStore, MAX_ID,
};
use crate::task::{name_verdict, rows_of, validate_name, NameError, Status, Task, TaskView};
use crate::timestamp::Timestamp;
use vstd::prelude::*;

verus! {

/// Why an operation changed nothing.
#[derive(Clone, Copy, Debug, PartialEq, Eq, Structural)]
pub enum OperationError {
    /// The chosen position is not one of the listing shown.
    OutOfRange,
    /// The task name is not acceptable.
    InvalidName(NameError),
    /// The table takes no more tasks.
    Full,
    /// The time of the change is not a well-formed timestamp.
    InvalidTimestamp,
}

/// The bulk-delete rule of the retention policy at `now`.
pub open spec fn expiry_rule(now: Timestamp, lifecycle: TaskLifeCycle) -> DeleteRule {
    DeleteRule::Expired { now, lifecycle }
}

/// The rows that the retention policy keeps at `now`.
pub open spec fn retained(rows: Seq<TaskView>, now: Timestamp, lifecycle: TaskLifeCycle) -> Seq<
    TaskView,
> {
    survivors(rows, expiry_rule(now, lifecycle))
}

/// Positions count from 1 up to the length of the listing shown.
pub open spec fn valid_position(len: nat, position: usize) -> bool {
    1 <= position <= len
}

/// The id of the task shown at a position, where the listing has one.
pub fn select(shown: &Vec<Task>, position: usize) -> (id: Option<i32>)
    ensures
        valid_position(shown@.len(), position) ==> id == Some(shown@[position - 1].id),
        !valid_position(shown@.len(), position) ==> id is None,
{
    if position >= 1 && position <= shown.len() {
        Some(shown[position - 1].id)
    } else {
        None
    }
}

/// Purges the done and removed tasks that are older than their retention
/// windows at `now`, and returns how many they were.
pub fn clean_by_datetime(store: &mut TaskStore, cfg: &Config, now: Timestamp) -> (count: usize)
    requires
        old(store).wf(),
    ensures
        final(store).wf(),
        final(store)@.next_id == old(store)@.next_id,
        final(store)@.rows == retained(old(store)@.rows, now, cfg.task_life_cycle),
        count == old(store)@.rows.len() - final(store)@.rows.len(),
{
    let rule = DeleteRule::Expired { now, lifecycle: cfg.task_life_cycle };
    store.delete_where(&rule)
}

/// Deletes every done and removed task, whatever its age, and returns how
/// many they were. Active tasks stay.
pub fn clean_all(store: &mut TaskStore) -> (count: usize)
    requires
        old(store).wf(),
    ensures
        final(store).wf(),
        final(store)@.next_id == old(store)@.next_id,
        final(store)@.rows == survivors(old(store)@.rows, DeleteRule::AllTerminal),
        count == old(store)@.rows.len() - final(store)@.rows.len(),
        forall|k: int|
            0 <= k < final(store)@.rows.len() ==> (#[trigger] final(store)@.rows[k]).status
                == Status::Active,
        forall|i: int|
            0 <= i < old(store)@.rows.len() && (#[trigger] old(store)@.rows[i]).status
                == Status::Active ==> final(store)@.rows.contains(old(store)@.rows[i]),
{
    proof {
        lemma_clean_all_leaves_active(store@.rows);
    }
    store.delete_where(&DeleteRule::AllTerminal)
}

/// Purges what has expired at `now`, then returns the rows that are left in
/// listing order.
pub fn get_list(store: &mut TaskStore, cfg: &Config, now: Timestamp) -> (listing: Vec<Task>)
    requires
        old(store).wf(),
    ensures
        final(store).wf(),
        final(store)@.next_id == old(store)@.next_id,
        final(store)@.rows == retained(old(store)@.rows, now, cfg.task_life_cycle),
        is_listing_of(rows_of(listing@), final(store)@.rows),
{
    let _ = clean_by_datetime(store, cfg, now);
    store.select_all()
}

/// The listing to show: position `k` of the display is its entry `k - 1`.
pub fn list(store: &mut TaskStore, cfg: &Config, now: Timestamp) -> (listing: Vec<Task>)
    requires
        old(store).wf(),
    ensures
        final(store).wf(),
        final(store)@.next_id == old(store)@.next_id,
        final(store)@.rows == retained(old(store)@.rows, now, cfg.task_life_cycle),
        is_listing_of(rows_of(listing@), final(store)@.rows),
{
    get_list(store, cfg, now)
}

/// Adds an active task, then lists. A refused name, or a full table, changes
/// nothing.
pub fn add(
    store: &mut TaskStore,
    cfg: &Config,
    name: &str,
    description: &str,
    now: Timestamp,
) -> (listing: Result<Vec<Task>, OperationError>)
    requires
        old(store).wf(),
    ensures
        final(store).wf(),
        name_verdict(name@) matches Err(e) ==> listing is Err && listing->Err_0
            == OperationError::InvalidName(e) && final(store)@ == old(store)@,
        name_verdict(name@) is Ok && old(store)@.next_id == MAX_ID ==> listing is Err
            && listing->Err_0 == OperationError::Full && final(store)@ == old(store)@,
        name_verdict(name@) is Ok && old(store)@.next_id < MAX_ID ==> {
            &&& listing is Ok
            &&& final(store)@.next_id == old(store)@.next_id + 1
            &&& final(store)@.rows == retained(
                old(store)@.rows.push(fresh_task(old(store)@.next_id, name@, description@)),
                now,
                cfg.task_life_cycle,
            )
            &&& is_listing_of(rows_of(listing->Ok_0@), final(store)@.rows)
        },
{
    match store.insert(name, description) {
        Err(StoreError::InvalidName(e)) => Err(OperationError::InvalidName(e)),
        Err(_) => Err(OperationError::Full),
        Ok(_) => Ok(get_list(store, cfg, now)),
    }
}

/// Renames the task shown at `position` and replaces its description, then
/// lists. A position outside the listing shown, or a refused name, changes
/// nothing.
pub fn edit(
    store: &mut TaskStore,
    cfg: &Config,
    shown: &Vec<Task>,
    position: usize,
    name: &str,
    description: &str,
    now: Timestamp,
) -> (listing: Result<Vec<Task>, OperationError>)
    requires
        old(store).wf(),
    ensures
        final(store).wf(),
        final(store)@.next_id == old(store)@.next_id,
        !valid_position(shown@.len(), position) ==> listing is Err && listing->Err_0
            == OperationError::OutOfRange && final(store)@ == old(store)@,
        valid_position(shown@.len(), position) ==> (name_verdict(name@) matches Err(e)
            ==> listing is Err && listing->Err_0 == OperationError::InvalidName(e) 
            && final(store)@ == old(store)@),
        valid_position(shown@.len(), position) && name_verdict(name@) is Ok ==> {
            &&& listing is Ok
            &&& final(store)@.rows == retained(
                with_fields(old(store)@.rows, shown@[position - 1].id as int, name@, description@),
                now,
                cfg.task_life_cycle,
            )
            &&& is_listing_of(rows_of(listing->Ok_0@), final(store)@.rows)
        },
{
    match select(shown, position) {
        None => Err(OperationError::OutOfRange),
        Some(id) => match validate_name(name) {
            Err(e) => Err(OperationError::InvalidName(e)),
            Ok(()) => {
                let _ = store.update_fields(id, name, description);
                Ok(get_list(store, cfg, now))
            },
        },
    }
}

/// Marks the task shown at `position` as done at `now`, then lists. A
/// position outside the listing shown changes nothing, nor does a time that
/// is no well-formed timestamp.
pub fn done(
    store: &mut TaskStore,
    cfg: &Config,
    shown: &Vec<Task>,
    position: usize,
    now: Timestamp,
) -> (listing: Result<Vec<Task>, OperationError>)
    requires
        old(store).wf(),
    ensures
        final(store).wf(),
        final(store)@.next_id == old(store)@.next_id,
        !valid_position(shown@.len(), position) ==> listing is Err && listing->Err_0
            == OperationError::OutOfRange && final(store)@ == old(store)@,
        valid_position(shown@.len(), position) && !now.wf() ==> listing is Err && listing->Err_0
            == OperationError::InvalidTimestamp && final(store)@ == old(store)@,
        valid_position(shown@.len(), position) && now.wf() ==> {
            &&& listing is Ok
            &&& final(store)@.rows == retained(
                with_status(old(store)@.rows, shown@[position - 1].id as int, Status::Done, now),
                now,
                cfg.task_life_cycle,
            )
            &&& is_listing_of(rows_of(listing->Ok_0@), final(store)@.rows)
        },
{
    match select(shown, position) {
        None => Err(OperationError::OutOfRange),
        Some(id) => match store.set_status(id, Status::Done, now) {
            Err(_) => Err(OperationError::InvalidTimestamp),
            Ok(_) => Ok(get_list(store, cfg, now)),
        },
    }
}

/// Marks the task shown at `position` as removed at `now`, whether it was
/// active or done, then lists. A position outside the listing shown changes
/// nothing, nor does a time that is no well-formed timestamp.
pub fn delete(
    store: &mut TaskStore,
    cfg: &Config,
    shown: &Vec<Task>,
    position: usize,
    now: Timestamp,
) -> (listing: Result<Vec<Task>, OperationError>)
    requires
        old(store).wf(),
    ensures
        final(store).wf(),
        final(store)@.next_id == old(store)@.next_id,
        !valid_position(shown@.len(), position) ==> listing is Err && listing->Err_0
            == OperationError::OutOfRange && final(store)@ == old(store)@,
        valid_position(shown@.len(), position) && !now.wf() ==> listing is Err && listing->Err_0
            == OperationError::InvalidTimestamp && final(store)@ == old(store)@,
        valid_position(shown@.len(), position) && now.wf() ==> {
            &&& listing is Ok
            &&& final(store)@.rows == retained(
                with_status(old(store)@.rows, shown@[position - 1].id as int, Status::Removed, now),
                now,
                cfg.task_life_cycle,
            )
            &&& is_listing_of(rows_of(listing->Ok_0@), final(store)@.rows)
        },
{
    match select(shown, position) {
        None => Err(OperationError::OutOfRange),
        Some(id) => match store.set_status(id, Status::Removed, now) {
            Err(_) => Err(OperationError::InvalidTimestamp),
            Ok(_) => Ok(get_list(store, cfg, now)),
        },
    }
}

} // verus!
