//! The task table: rows in id order, and the id that the next task gets.

use crate::config::TaskLifeCycle;
use crate::laws::{
    lemma_listed_before_total, lemma_listed_before_transitive, lemma_survivors_keep_table,
};
use crate::task::{
    listed_before, name_verdict, rows_of, validate_name, NameError, Status, Task, TaskView,
};
use crate::timestamp::Timestamp;
use vstd::prelude::*;

verus! {

/// The largest id; a table whose next id is this one takes no more tasks.
pub const MAX_ID: i32 = 2_147_483_647;

/// Seconds in a day.
pub const DAY_SECS: i64 = 86_400;

/// Why the table refused an operation.
#[derive(Clone, Copy, Debug, PartialEq, Eq, Structural)]
pub enum StoreError {
    /// The task name is not acceptable.
    InvalidName(NameError),
    /// Every id has been handed out.
    Full,
    /// A task cannot be set back to active.
    NotTerminal,
    /// The timestamp is not well-formed.
    InvalidTimestamp,
    /// The rows do not make a valid table.
    Corrupt,
}

/// Which rows a bulk delete takes.
#[derive(Clone, Copy, Debug, PartialEq, Eq, Structural)]
pub enum DeleteRule {
    /// Every task that is not active, whatever its age.
    AllTerminal,
    /// Done and removed tasks older than their retention windows at `now`.
    Expired { now: Timestamp, lifecycle: TaskLifeCycle },
}

/// The task table.
pub struct TaskStore {
    tasks: Vec<Task>,
    next_id: i32,
}

/// The mathematical value of a [`TaskStore`].
pub struct TableView {
    /// The rows, in the order in which they were inserted.
    pub rows: Seq<TaskView>,
    /// The id that the next inserted task gets.
    pub next_id: int,
}

impl View for TaskStore {
    type V = TableView;

    closed spec fn view(&self) -> TableView {
        TableView { rows: rows_of(self.tasks@), next_id: self.next_id as int }
    }
}

/// Every row is a valid task, ids grow along the rows, and all of them lie
/// below the next id.
pub open spec fn table_wf(rows: Seq<TaskView>, next_id: int) -> bool {
    &&& 1 <= next_id <= MAX_ID
    &&& forall|i: int| 0 <= i < rows.len() ==> (#[trigger] rows[i]).valid() && rows[i].id < next_id
    &&& forall|i: int, j: int|
        0 <= i < j < rows.len() ==> (#[trigger] rows[i]).id < (#[trigger] rows[j]).id
}

/// Whether some row has the id.
pub open spec fn has_id(rows: Seq<TaskView>, id: int) -> bool {
    exists|i: int| 0 <= i < rows.len() && (#[trigger] rows[i]).id == id
}

/// A newly added task: active, with no `done_at`.
pub open spec fn fresh_task(id: int, name: Seq<char>, description: Seq<char>) -> TaskView {
    TaskView { id, name, description, status: Status::Active, done_at: None }
}

/// The rows after the task `id` got a new name and description.
pub open spec fn with_fields(
    rows: Seq<TaskView>,
    id: int,
    name: Seq<char>,
    description: Seq<char>,
) -> Seq<TaskView> {
    Seq::new(
        rows.len(),
        |i: int|
            if rows[i].id == id {
                TaskView {
                    id: rows[i].id,
                    name,
                    description,
                    status: rows[i].status,
                    done_at: rows[i].done_at,
                }
            } else {
                rows[i]
            },
    )
}

/// The rows after the task `id` got a status and the time of the change,
/// whatever its status was before.
pub open spec fn with_status(
    rows: Seq<TaskView>,
    id: int,
    status: Status,
    stamp: Timestamp,
) -> Seq<TaskView> {
    Seq::new(
        rows.len(),
        |i: int|
            if rows[i].id == id {
                TaskView {
                    id: rows[i].id,
                    name: rows[i].name,
                    description: rows[i].description,
                    status,
                    done_at: Some(stamp),
                }
            } else {
                rows[i]
            },
    )
}

/// Strictly earlier than `now` minus `days` whole days.
pub open spec fn before_cutoff(stamp: Timestamp, now: Timestamp, days: int) -> bool {
    let cutoff = now.secs - days * DAY_SECS;
    stamp.secs < cutoff || (stamp.secs == cutoff && stamp.nanos < now.nanos)
}

/// A done or removed task whose `done_at` lies before the cutoff of its
/// retention window.
pub open spec fn expired(row: TaskView, now: Timestamp, lifecycle: TaskLifeCycle) -> bool {
    match row.done_at {
        Some(stamp) => {
            ||| (row.status == Status::Done && before_cutoff(stamp, now, lifecycle.done_window()))
            ||| (row.status == Status::Removed && before_cutoff(
                stamp,
                now,
                lifecycle.removed_window(),
            ))
        },
        None => false,
    }
}

/// Whether a bulk delete under `rule` takes the row.
pub open spec fn doomed(rule: DeleteRule, row: TaskView) -> bool {
    match rule {
        DeleteRule::AllTerminal => row.status != Status::Active,
        DeleteRule::Expired { now, lifecycle } => expired(row, now, lifecycle),
    }
}

/// The rows that a bulk delete under `rule` leaves, in their order.
pub open spec fn survivors(rows: Seq<TaskView>, rule: DeleteRule) -> Seq<TaskView> {
    rows.filter(spared_by(rule))
}

/// The test that a row passes when a bulk delete under `rule` leaves it.
pub open spec fn spared_by(rule: DeleteRule) -> spec_fn(TaskView) -> bool {
    |row: TaskView| !doomed(rule, row)
}

/// `listing` holds exactly the rows, each once, in listing order.
pub open spec fn is_listing_of(listing: Seq<TaskView>, rows: Seq<TaskView>) -> bool {
    &&& listing.len() == rows.len()
    &&& forall|k: int| 0 <= k < listing.len() ==> rows.contains(#[trigger] listing[k])
    &&& forall|j: int| 0 <= j < rows.len() ==> listing.contains(#[trigger] rows[j])
    &&& in_listing_order(listing)
}

/// Every entry is listed before every later one.
pub open spec fn in_listing_order(listing: Seq<TaskView>) -> bool {
    forall|a: int, b: int|
        0 <= a < b < listing.len() ==> listed_before(#[trigger] listing[a], #[trigger] listing[b])
}

/// A row put at the first position whose entry is not listed before it keeps
/// a listing in order.
proof fn lemma_insert_keeps_order(before: Seq<TaskView>, row: TaskView, p: int)
    requires
        in_listing_order(before),
        0 <= p <= before.len(),
        forall|k: int| 0 <= k < p ==> listed_before(#[trigger] before[k], row),
        p < before.len() ==> !listed_before(before[p], row),
        forall|k: int| 0 <= k < before.len() ==> (#[trigger] before[k]).id != row.id,
    ensures
        in_listing_order(before.insert(p, row)),
{
    let after = before.insert(p, row);
    assert forall|k: int| p <= k < before.len() implies listed_before(row, #[trigger] before[k]) by {
        lemma_listed_before_total(before[p], row);
        if p < k {
            lemma_listed_before_transitive(row, before[p], before[k]);
        }
    }
    assert forall|a: int, b: int| 0 <= a < b < after.len() implies listed_before(
        #[trigger] after[a],
        #[trigger] after[b],
    ) by {
        if a < p {
            assert(after[a] == before[a]);
        } else if a > p {
            assert(after[a] == before[a - 1]);
        }
        if b < p {
            assert(after[b] == before[b]);
        } else if b > p {
            assert(after[b] == before[b - 1]);
        }
    }
}

/// After row `i` is put into a listing of the rows before it, the listing
/// holds the rows up to `i`, and nothing else.
proof fn lemma_insert_keeps_rows(before: Seq<TaskView>, rows: Seq<TaskView>, i: int, p: int)
    requires
        0 <= i < rows.len(),
        0 <= p <= before.len(),
        forall|k: int| 0 <= k < before.len() ==> rows.contains(#[trigger] before[k]),
        forall|j: int| 0 <= j < i ==> before.contains(#[trigger] rows[j]),
    ensures
        forall|k: int|
            0 <= k < before.insert(p, rows[i]).len() ==> rows.contains(
                #[trigger] before.insert(p, rows[i])[k],
            ),
        forall|j: int| 0 <= j < i + 1 ==> before.insert(p, rows[i]).contains(#[trigger] rows[j]),
{
    let after = before.insert(p, rows[i]);
    assert forall|k: int| 0 <= k < after.len() implies rows.contains(#[trigger] after[k]) by {
        if k < p {
            assert(after[k] == before[k]);
        } else if k == p {
            assert(rows[i] == after[k]);
        } else {
            assert(after[k] == before[k - 1]);
        }
    }
    assert forall|j: int| 0 <= j < i + 1 implies after.contains(#[trigger] rows[j]) by {
        if j < i {
            assert(before.contains(rows[j]));
            let k = choose|k: int| 0 <= k < before.len() && before[k] == rows[j];
            if k < p {
                assert(after[k] == rows[j]);
            } else {
                assert(after[k + 1] == rows[j]);
            }
        } else {
            assert(after[p] == rows[j]);
        }
    }
}

impl DeleteRule {
    /// Exec form of [`doomed`].
    pub fn takes(&self, task: &Task) -> (b: bool)
        ensures
            b == doomed(*self, task@),
    {
        match self {
            DeleteRule::AllTerminal => task.status != Status::Active,
            DeleteRule::Expired { now, lifecycle } => {
                match task.done_at {
                    None => false,
                    Some(stamp) => {
                        let days: i64 = match task.status {
                            Status::Active => 0,
                            Status::Done => lifecycle.done_window_days(),
                            Status::Removed => lifecycle.removed_window_days(),
                        };
                        let cutoff: i128 = (now.secs as i128) - (days as i128) * (DAY_SECS as i128);
                        let left: i128 = stamp.secs as i128;
                        task.status != Status::Active && (left < cutoff || (left == cutoff
                            && stamp.nanos < now.nanos))
                    },
                }
            },
        }
    }
}

impl TaskStore {
    /// The table's invariant.
    pub open spec fn wf(&self) -> bool {
        table_wf(self@.rows, self@.next_id)
    }

    /// An empty table, whose first task will get id 1.
    pub fn new() -> (store: TaskStore)
        ensures
            store.wf(),
            store@.rows == Seq::<TaskView>::empty(),
            store@.next_id == 1,
    {
        let store = TaskStore { tasks: Vec::new(), next_id: 1 };
        assert(store@.rows =~= Seq::<TaskView>::empty());
        store
    }

    /// A table from rows in id order and the next id, as they were persisted.
    pub fn from_rows(rows: Vec<Task>, next_id: i32) -> (made: Result<TaskStore, StoreError>)
        ensures
            table_wf(rows_of(rows@), next_id as int) ==> made is Ok && made->Ok_0.wf()
                && made->Ok_0@.rows == rows_of(rows@) && made->Ok_0@.next_id == next_id,
            !table_wf(rows_of(rows@), next_id as int) ==> made is Err && made->Err_0
                == StoreError::Corrupt,
    {
        if next_id < 1 {
            return Err(StoreError::Corrupt);
        }
        let ghost views = rows_of(rows@);
        let n: usize = rows.len();
        let mut i: usize = 0;
        let mut last: i32 = 0;
        while i < n
            invariant
                n == rows.len(),
                i <= n,
                views == rows_of(rows@),
                1 <= next_id,
                0 <= last < next_id,
                i == 0 ==> last == 0,
                i > 0 ==> last == views[i - 1].id,
                forall|k: int| 0 <= k < i ==> (#[trigger] views[k]).valid() && views[k].id <= last,
                forall|k: int, j: int|
                    0 <= k < j < i ==> (#[trigger] views[k]).id < (#[trigger] views[j]).id,
            decreases n - i,
        {
            let ok = rows[i].is_valid() && rows[i].id > last && rows[i].id < next_id;
            if !ok {
                proof {
                    let bad = views[i as int];
                    assert(bad == rows@[i as int]@);
                    if bad.valid() && bad.id < next_id {
                        assert(i > 0);
                        assert(views[i - 1].id >= bad.id);
                    }
                }
                return Err(StoreError::Corrupt);
            }
            last = rows[i].id;
            i = i + 1;
        }
        Ok(TaskStore { tasks: rows, next_id })
    }

    /// The id that the next inserted task gets.
    pub fn next_id(&self) -> (id: i32)
        ensures
            id == self@.next_id,
    {
        self.next_id
    }

    /// The number of rows.
    pub fn len(&self) -> (n: usize)
        ensures
            n == self@.rows.len(),
    {
        self.tasks.len()
    }

    /// Where the task `id` stands among the rows.
    fn position_of(&self, id: i32) -> (found: Option<usize>)
        ensures
            found matches Some(i) ==> i < self@.rows.len() && self@.rows[i as int].id == id,
            found is None ==> !has_id(self@.rows, id as int),
    {
        let n: usize = self.tasks.len();
        let mut i: usize = 0;
        while i < n
            invariant
                n == self.tasks.len(),
                i <= n,
                forall|k: int| 0 <= k < i ==> (#[trigger] self@.rows[k]).id != id,
            decreases n - i,
        {
            if self.tasks[i].id == id {
                return Some(i);
            }
            i = i + 1;
        }
        None
    }

    /// Appends a new active task and returns the id it was given.
    pub fn insert(&mut self, name: &str, description: &str) -> (added: Result<i32, StoreError>)
        requires
            old(self).wf(),
        ensures
            final(self).wf(),
            name_verdict(name@) matches Err(e) ==> added == Err::<i32, StoreError>(
                StoreError::InvalidName(e),
            ) && final(self)@ == old(self)@,
            name_verdict(name@) is Ok && old(self)@.next_id == MAX_ID ==> added == Err::<
                i32,
                StoreError,
            >(StoreError::Full) && final(self)@ == old(self)@,
            name_verdict(name@) is Ok && old(self)@.next_id < MAX_ID ==> {
                &&& added is Ok && added->Ok_0 == old(self)@.next_id
                &&& final(self)@.next_id == old(self)@.next_id + 1
                &&& final(self)@.rows == old(self)@.rows.push(
                    fresh_task(old(self)@.next_id, name@, description@),
                )
            },
    {
        match validate_name(name) {
            Err(e) => Err(StoreError::InvalidName(e)),
            Ok(()) => {
                if self.next_id == MAX_ID {
                    Err(StoreError::Full)
                } else {
                    let id: i32 = self.next_id;
                    let task = Task {
                        id,
                        name: name.to_owned(),
                        description: description.to_owned(),
                        status: Status::Active,
                        done_at: None,
                    };
                    self.tasks.push(task);
                    self.next_id = id + 1;
                    assert(self@.rows =~= old(self)@.rows.push(
                        fresh_task(id as int, name@, description@),
                    ));
                    Ok(id)
                }
            },
        }
    }

    /// Gives the task `id` a new name and description; its status and
    /// `done_at` stay. Says whether there was such a task; where there was
    /// none, nothing changes.
    pub fn update_fields(&mut self, id: i32, name: &str, description: &str) -> (changed: Result<
        bool,
        StoreError,
    >)
        requires
            old(self).wf(),
        ensures
            final(self).wf(),
            final(self)@.next_id == old(self)@.next_id,
            name_verdict(name@) matches Err(e) ==> changed == Err::<bool, StoreError>(
                StoreError::InvalidName(e),
            ) && final(self)@ == old(self)@,
            name_verdict(name@) is Ok ==> changed == Ok::<bool, StoreError>(
                has_id(old(self)@.rows, id as int),
            ) && final(self)@.rows == with_fields(old(self)@.rows, id as int, name@, description@),
    {
        match validate_name(name) {
            Err(e) => Err(StoreError::InvalidName(e)),
            Ok(()) => {
                match self.position_of(id) {
                    None => {
                        assert(self@.rows =~= with_fields(
                            old(self)@.rows,
                            id as int,
                            name@,
                            description@,
                        ));
                        Ok(false)
                    },
                    Some(i) => {
                        let task = Task {
                            id,
                            name: name.to_owned(),
                            description: description.to_owned(),
                            status: self.tasks[i].status,
                            done_at: self.tasks[i].done_at,
                        };
                        self.tasks.set(i, task);
                        assert(self@.rows =~= with_fields(
                            old(self)@.rows,
                            id as int,
                            name@,
                            description@,
                        ));
                        Ok(true)
                    },
                }
            },
        }
    }

    /// Moves the task `id` to a terminal status and stamps `done_at`,
    /// whatever its status was. Says whether there was such a task; where
    /// there was none, nothing changes.
    pub fn set_status(&mut self, id: i32, status: Status, timestamp: Timestamp) -> (changed: Result<
        bool,
        StoreError,
    >)
        requires
            old(self).wf(),
        ensures
            final(self).wf(),
            final(self)@.next_id == old(self)@.next_id,
            status == Status::Active ==> changed == Err::<bool, StoreError>(
                StoreError::NotTerminal,
            ) && final(self)@ == old(self)@,
            status != Status::Active && !timestamp.wf() ==> changed == Err::<bool, StoreError>(
                StoreError::InvalidTimestamp,
            ) && final(self)@ == old(self)@,
            status != Status::Active && timestamp.wf() ==> changed == Ok::<bool, StoreError>(
                has_id(old(self)@.rows, id as int),
            ) && final(self)@.rows == with_status(old(self)@.rows, id as int, status, timestamp),
    {
        if status == Status::Active {
            return Err(StoreError::NotTerminal);
        }
        if !timestamp.is_valid() {
            return Err(StoreError::InvalidTimestamp);
        }
        match self.position_of(id) {
            None => {
                assert(self@.rows =~= with_status(old(self)@.rows, id as int, status, timestamp));
                Ok(false)
            },
            Some(i) => {
                let task = Task {
                    id,
                    name: self.tasks[i].name.clone(),
                    description: self.tasks[i].description.clone(),
                    status,
                    done_at: Some(timestamp),
                };
                self.tasks.set(i, task);
                assert(self@.rows =~= with_status(old(self)@.rows, id as int, status, timestamp));
                Ok(true)
            },
        }
    }
}

impl TaskStore {
    /// Deletes the rows that `rule` takes and returns how many they were.
    pub fn delete_where(&mut self, rule: &DeleteRule) -> (count: usize)
        requires
            old(self).wf(),
        ensures
            final(self).wf(),
            final(self)@.next_id == old(self)@.next_id,
            final(self)@.rows == survivors(old(self)@.rows, *rule),
            count == old(self)@.rows.len() - final(self)@.rows.len(),
    {
        let ghost rows = self@.rows;
        let ghost keep = spared_by(*rule);
        let n: usize = self.tasks.len();
        let mut kept: Vec<Task> = Vec::new();
        let mut i: usize = 0;
        assert(rows.subrange(0, 0) =~= Seq::<TaskView>::empty());
        assert(rows_of(kept@) =~= rows.subrange(0, 0).filter(keep)) by {
            reveal(Seq::filter);
        }
        while i < n
            invariant
                self.wf(),
                rows == self@.rows,
                n == self.tasks.len(),
                i <= n,
                keep == spared_by(*rule),
                rows_of(kept@) == rows.subrange(0, i as int).filter(keep),
                kept.len() <= i,
            decreases n - i,
        {
            let ghost before = rows_of(kept@);
            let ghost head = rows.subrange(0, i as int);
            let ghost next = rows.subrange(0, i + 1);
            assert(rows[i as int] == self.tasks@[i as int]@);
            let spare = !rule.takes(&self.tasks[i]);
            if spare {
                let copy = self.tasks[i].duplicate();
                kept.push(copy);
                assert(rows_of(kept@) =~= before.push(rows[i as int]));
            }
            proof {
                reveal(Seq::filter);
                assert(next.drop_last() =~= head);
                assert(next.last() == rows[i as int]);
                assert(keep(rows[i as int]) == spare);
                assert(rows_of(kept@) == next.filter(keep));
            }
            i = i + 1;
        }
        assert(rows.subrange(0, n as int) =~= rows);
        let count: usize = n - kept.len();
        proof {
            lemma_survivors_keep_table(rows, self@.next_id, *rule);
        }
        self.tasks = kept;
        count
    }

    /// Every row, in listing order: active tasks first, then done, then
    /// removed; within a status by `done_at`, oldest first, then by id.
    pub fn select_all(&self) -> (listing: Vec<Task>)
        requires
            self.wf(),
        ensures
            is_listing_of(rows_of(listing@), self@.rows),
    {
        let ghost rows = self@.rows;
        let n: usize = self.tasks.len();
        let mut out: Vec<Task> = Vec::new();
        let mut i: usize = 0;
        while i < n
            invariant
                self.wf(),
                rows == self@.rows,
                n == self.tasks.len(),
                i <= n,
                out.len() == i,
                forall|k: int| 0 <= k < out.len() ==> rows.contains(#[trigger] rows_of(out@)[k]),
                forall|k: int|
                    0 <= k < out.len() && i < n ==> (#[trigger] rows_of(out@)[k]).id
                        < rows[i as int].id,
                forall|j: int| 0 <= j < i ==> rows_of(out@).contains(#[trigger] rows[j]),
                in_listing_order(rows_of(out@)),
            decreases n - i,
        {
            let ghost before = rows_of(out@);
            let ghost row = rows[i as int];
            assert(row == self.tasks@[i as int]@);
            let m: usize = out.len();
            let mut p: usize = 0;
            while p < m && out[p].goes_before(&self.tasks[i])
                invariant
                    m == out.len(),
                    p <= m,
                    i < n,
                    n == self.tasks.len(),
                    row == self.tasks@[i as int]@,
                    before == rows_of(out@),
                    forall|k: int| 0 <= k < p ==> listed_before(#[trigger] before[k], row),
                decreases m - p,
            {
                assert(before[p as int] == out@[p as int]@);
                p = p + 1;
            }
            let ghost prior = out@;
            let copy = self.tasks[i].duplicate();
            out.insert(p, copy);
            proof {
                let after = rows_of(out@);
                assert(after =~= before.insert(p as int, row));
                if p < m {
                    assert(before[p as int] == prior[p as int]@);
                }
                lemma_insert_keeps_order(before, row, p as int);
                lemma_insert_keeps_rows(before, rows, i as int, p as int);
                assert forall|k: int| 0 <= k < after.len() && i + 1 < n implies (
                #[trigger] after[k]).id < rows[i + 1].id by {
                    if k < p {
                        assert(after[k] == before[k]);
                    } else if k > p {
                        assert(after[k] == before[k - 1]);
                    }
                }
            }
            i = i + 1;
        }
        out
    }
}

} // verus!
