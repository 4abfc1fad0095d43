//! The task, its status, and the order in which tasks are listed.

use crate::timestamp::{datetime_to_display_string, rfc2822_text, Timestamp};
use vstd::prelude::*;
use vstd::string::*;

verus! {

/// Shortest accepted task name, in characters.
pub const MIN_NAME_LEN: usize = 4;

/// Longest accepted task name, in characters.
pub const MAX_NAME_LEN: usize = 49;

/// Where a task stands in its lifecycle.
#[derive(Clone, Copy, Debug, PartialEq, Eq, Structural)]
pub enum Status {
    Active,
    Done,
    Removed,
}

/// Why a task name is refused.
#[derive(Clone, Copy, Debug, PartialEq, Eq, Structural)]
pub enum NameError {
    TooShort,
    TooLong,
}

/// One row of the task table.
#[derive(Clone, Debug, PartialEq, Eq)]
pub struct Task {
    pub id: i32,
    pub name: String,
    pub description: String,
    pub status: Status,
    /// When the task left the active state, whether it was done or removed.
    pub done_at: Option<Timestamp>,
}

/// The mathematical value of a [`Task`].
pub struct TaskView {
    pub id: int,
    pub name: Seq<char>,
    pub description: Seq<char>,
    pub status: Status,
    pub done_at: Option<Timestamp>,
}

impl View for Task {
    type V = TaskView;

    open spec fn view(&self) -> TaskView {
        TaskView {
            id: self.id as int,
            name: self.name@,
            description: self.description@,
            status: self.status,
            done_at: self.done_at,
        }
    }
}

/// The views of a sequence of tasks, in the same order.
pub open spec fn rows_of(tasks: Seq<Task>) -> Seq<TaskView> {
    Seq::new(tasks.len(), |i: int| tasks[i]@)
}

/// The verdict on a proposed task name: too long from 50 characters on, too
/// short up to 3.
pub open spec fn name_verdict(name: Seq<char>) -> Result<(), NameError> {
    if name.len() > MAX_NAME_LEN {
        Err(NameError::TooLong)
    } else if name.len() < MIN_NAME_LEN {
        Err(NameError::TooShort)
    } else {
        Ok(())
    }
}

/// Checks a proposed task name.
pub fn validate_name(name: &str) -> (verdict: Result<(), NameError>)
    ensures
        verdict == name_verdict(name@),
{
    let n: usize = name.unicode_len();
    if n > MAX_NAME_LEN {
        Err(NameError::TooLong)
    } else if n < MIN_NAME_LEN {
        Err(NameError::TooShort)
    } else {
        Ok(())
    }
}

impl Status {
    /// The stored number of a status.
    pub open spec fn code(self) -> int {
        match self {
            Status::Active => 0,
            Status::Done => 1,
            Status::Removed => 2,
        }
    }

    /// Exec form of [`Status::code`].
    pub fn to_code(self) -> (code: i32)
        ensures
            code == self.code(),
    {
        match self {
            Status::Active => 0,
            Status::Done => 1,
            Status::Removed => 2,
        }
    }

    /// The status that a stored number stands for.
    pub fn from_code(code: i32) -> (status: Option<Status>)
        ensures
            0 <= code <= 2 ==> status is Some && status->Some_0.code() == code,
            !(0 <= code <= 2) ==> status is None,
    {
        if code == 0 {
            Some(Status::Active)
        } else if code == 1 {
            Some(Status::Done)
        } else if code == 2 {
            Some(Status::Removed)
        } else {
            None
        }
    }
}

/// Absent sorts before present; two present stamps sort as instants.
pub open spec fn stamp_before(a: Option<Timestamp>, b: Option<Timestamp>) -> bool {
    match (a, b) {
        (None, Some(_)) => true,
        (Some(x), Some(y)) => x.earlier_than(y),
        _ => false,
    }
}

/// Both absent, or the same instant.
pub open spec fn stamp_level(a: Option<Timestamp>, b: Option<Timestamp>) -> bool {
    match (a, b) {
        (None, None) => true,
        (Some(x), Some(y)) => x.same_instant(y),
        _ => false,
    }
}

/// The listing order: by status, then by the time the task left the active
/// state, then by id.
pub open spec fn listed_before(a: TaskView, b: TaskView) -> bool {
    ||| a.status.code() < b.status.code()
    ||| (a.status == b.status && stamp_before(a.done_at, b.done_at))
    ||| (a.status == b.status && stamp_level(a.done_at, b.done_at) && a.id < b.id)
}

impl TaskView {
    /// A task is active exactly while it has no `done_at`; its name is
    /// acceptable, its id positive and its stamp well-formed.
    pub open spec fn valid(self) -> bool {
        &&& self.id >= 1
        &&& name_verdict(self.name) is Ok
        &&& (self.status == Status::Active <==> self.done_at is None)
        &&& (self.done_at is Some ==> self.done_at->Some_0.wf())
    }
}

impl Task {
    /// Exec form of [`TaskView::valid`].
    pub fn is_valid(&self) -> (ok: bool)
        ensures
            ok == self@.valid(),
    {
        let name_ok = validate_name(self.name.as_str()).is_ok();
        let stamp_ok = match self.done_at {
            None => self.status == Status::Active,
            Some(t) => self.status != Status::Active && t.is_valid(),
        };
        self.id >= 1 && name_ok && stamp_ok
    }

    /// The text shown beside a done or removed task: the time it left the
    /// active state. An active task has none.
    pub fn stamp_text(&self) -> (text: Option<String>)
        requires
            self@.valid(),
        ensures
            self.done_at is None ==> text is None,
            self.done_at matches Some(t) ==> text is Some && text->Some_0@ == rfc2822_text(
                t.secs as int,
                t.nanos as int,
                t.offset as int,
            ),
    {
        match self.done_at {
            None => None,
            Some(t) => Some(datetime_to_display_string(t)),
        }
    }

    /// A copy with the same value.
    pub fn duplicate(&self) -> (copy: Task)
        ensures
            copy@ == self@,
    {
        Task {
            id: self.id,
            name: self.name.clone(),
            description: self.description.clone(),
            status: self.status,
            done_at: self.done_at,
        }
    }

    /// Whether `self` is listed before `other`.
    pub fn goes_before(&self, other: &Task) -> (b: bool)
        ensures
            b == listed_before(self@, other@),
    {
        let sa: i32 = self.status.to_code();
        let sb: i32 = other.status.to_code();
        if sa != sb {
            sa < sb
        } else {
            match (self.done_at, other.done_at) {
                (None, Some(_)) => true,
                (Some(_), None) => false,
                (None, None) => self.id < other.id,
                (Some(x), Some(y)) => x.is_earlier_than(&y) || (x.secs == y.secs && x.nanos
                    == y.nanos && self.id < other.id),
            }
        }
    }
}

} // verus!
