//! Retention settings.

use vstd::prelude::*;

verus! {

/// For how many days terminal tasks are kept before a listing purges them.
#[derive(Clone, Copy, Debug, PartialEq, Eq, Structural)]
pub struct TaskLifeCycle {
    pub keep_deleted_tasks: i32,
    pub keep_done_tasks: i32,
}

/// The settings of one invocation.
#[derive(Clone, Copy, Debug, PartialEq, Eq, Structural)]
pub struct Config {
    pub task_life_cycle: TaskLifeCycle,
}

/// A retention window in days: a negative setting counts as zero.
pub open spec fn window_days(setting: i32) -> int {
    if setting < 0 {
        0
    } else {
        setting as int
    }
}

impl TaskLifeCycle {
    /// Days for which a done task is kept.
    pub open spec fn done_window(self) -> int {
        window_days(self.keep_done_tasks)
    }

    /// Days for which a removed task is kept.
    pub open spec fn removed_window(self) -> int {
        window_days(self.keep_deleted_tasks)
    }

    /// Exec form of [`TaskLifeCycle::done_window`].
    pub fn done_window_days(&self) -> (days: i64)
        ensures
            days == self.done_window(),
    {
        if self.keep_done_tasks < 0 {
            0
        } else {
            self.keep_done_tasks as i64
        }
    }

    /// Exec form of [`TaskLifeCycle::removed_window`].
    pub fn removed_window_days(&self) -> (days: i64)
        ensures
            days == self.removed_window(),
    {
        if self.keep_deleted_tasks < 0 {
            0
        } else {
            self.keep_deleted_tasks as i64
        }
    }
}

impl Default for TaskLifeCycle {
    fn default() -> (made: Self)
        ensures
            made.keep_deleted_tasks == 3,
            made.keep_done_tasks == 3,
    {
        Self { keep_deleted_tasks: 3, keep_done_tasks: 3 }
    }
}

impl Default for Config {
    fn default() -> (made: Self)
        ensures
            made.task_life_cycle.keep_deleted_tasks == 3,
            made.task_life_cycle.keep_done_tasks == 3,
    {
        Self { task_life_cycle: TaskLifeCycle { keep_deleted_tasks: 3, keep_done_tasks: 3 } }
    }
}

} // verus!
