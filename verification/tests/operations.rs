use tasklist::config::{Config, TaskLifeCycle};
use tasklist::operations::{
    add, clean_all, clean_by_datetime, delete, done, edit, get_list, list, select, OperationError,
};
use tasklist::store::TaskStore;
use tasklist::task::{NameError, Status, Task};
use tasklist::timestamp::Timestamp;

const DAY: i64 = 86_400;
const NOON: i64 = 1_714_564_800;

fn at(secs: i64) -> Timestamp {
    Timestamp::new(secs, 0, 0).expect("well-formed timestamp")
}

fn keep(done: i32, removed: i32) -> Config {
    Config { task_life_cycle: TaskLifeCycle { keep_deleted_tasks: removed, keep_done_tasks: done } }
}

fn ids(listing: &Vec<Task>) -> Vec<i32> {
    listing.iter().map(|t| t.id).collect()
}

fn four_tasks() -> TaskStore {
    let mut store = TaskStore::new();
    let cfg = Config::default();
    for name in ["task A", "task B", "task C", "task D"] {
        add(&mut store, &cfg, name, "", at(NOON)).expect("added");
    }
    store
}

#[test]
fn add_returns_the_listing_with_the_new_task() {
    let mut store = TaskStore::new();
    let cfg = Config::default();
    let listing = add(&mut store, &cfg, "buy milk", "two litres", at(NOON)).expect("added");
    assert_eq!(
        listing,
        vec![Task {
            id: 1,
            name: String::from("buy milk"),
            description: String::from("two litres"),
            status: Status::Active,
            done_at: None,
        }]
    );
}

#[test]
fn add_refuses_a_bad_name() {
    let mut store = TaskStore::new();
    let cfg = Config::default();
    assert_eq!(
        add(&mut store, &cfg, "abc", "", at(NOON)),
        Err(OperationError::InvalidName(NameError::TooShort))
    );
    assert_eq!(
        add(&mut store, &cfg, &"a".repeat(50), "", at(NOON)),
        Err(OperationError::InvalidName(NameError::TooLong))
    );
    assert_eq!(store.len(), 0);
}

#[test]
fn add_to_a_full_table_is_refused() {
    let mut store = TaskStore::from_rows(Vec::new(), i32::MAX).expect("valid table");
    let cfg = Config::default();
    assert_eq!(add(&mut store, &cfg, "one more", "", at(NOON)), Err(OperationError::Full));
}

#[test]
fn select_maps_positions_from_one() {
    let mut store = four_tasks();
    let shown = store.select_all();
    assert_eq!(select(&shown, 1), Some(1));
    assert_eq!(select(&shown, 4), Some(4));
    assert_eq!(select(&shown, 0), None);
    assert_eq!(select(&shown, 5), None);
    assert_eq!(select(&shown, usize::MAX), None);
    assert_eq!(select(&Vec::new(), 1), None);
}

#[test]
fn listing_groups_active_then_done_then_removed() {
    let mut store = four_tasks();
    let cfg = Config::default();
    let shown = list(&mut store, &cfg, at(NOON));
    assert_eq!(ids(&shown), vec![1, 2, 3, 4]);
    let shown = done(&mut store, &cfg, &shown, 2, at(NOON + 10)).expect("in range");
    assert_eq!(ids(&shown), vec![1, 3, 4, 2]);
    let shown = delete(&mut store, &cfg, &shown, 2, at(NOON + 20)).expect("in range");
    assert_eq!(ids(&shown), vec![1, 4, 2, 3]);
    assert_eq!(shown[2].status, Status::Done);
    assert_eq!(shown[2].done_at, Some(at(NOON + 10)));
    assert_eq!(shown[3].status, Status::Removed);
    assert_eq!(shown[3].done_at, Some(at(NOON + 20)));
}

#[test]
fn deleting_a_done_task_overwrites_its_stamp() {
    let mut store = four_tasks();
    let cfg = Config::default();
    let shown = list(&mut store, &cfg, at(NOON));
    let shown = done(&mut store, &cfg, &shown, 1, at(NOON + 10)).expect("in range");
    assert_eq!(ids(&shown), vec![2, 3, 4, 1]);
    let shown = delete(&mut store, &cfg, &shown, 4, at(NOON + 500)).expect("in range");
    let task = shown.iter().find(|t| t.id == 1).expect("still listed");
    assert_eq!(task.status, Status::Removed);
    assert_eq!(task.done_at, Some(at(NOON + 500)));
}

#[test]
fn out_of_range_positions_change_nothing() {
    let mut store = four_tasks();
    let cfg = keep(0, 0);
    let shown = list(&mut store, &cfg, at(NOON));
    let shown = done(&mut store, &cfg, &shown, 3, at(NOON)).expect("in range");
    let before = store.select_all();
    for position in [0usize, 5, 6, usize::MAX] {
        assert_eq!(
            done(&mut store, &cfg, &shown, position, at(NOON + DAY)),
            Err(OperationError::OutOfRange)
        );
        assert_eq!(
            delete(&mut store, &cfg, &shown, position, at(NOON + DAY)),
            Err(OperationError::OutOfRange)
        );
        assert_eq!(
            edit(&mut store, &cfg, &shown, position, "new name", "d", at(NOON + DAY)),
            Err(OperationError::OutOfRange)
        );
        assert_eq!(store.select_all(), before);
        assert_eq!(store.next_id(), 5);
    }
}

#[test]
fn edit_changes_the_chosen_task_only() {
    let mut store = four_tasks();
    let cfg = Config::default();
    let shown = list(&mut store, &cfg, at(NOON));
    let shown = done(&mut store, &cfg, &shown, 1, at(NOON)).expect("in range");
    let shown = edit(&mut store, &cfg, &shown, 4, "task A again", "why", at(NOON)).expect("edited");
    assert_eq!(ids(&shown), vec![2, 3, 4, 1]);
    assert_eq!(shown[3].name, "task A again");
    assert_eq!(shown[3].description, "why");
    assert_eq!(shown[3].status, Status::Done);
    assert_eq!(shown[3].done_at, Some(at(NOON)));
    assert_eq!(shown[0].name, "task B");
}

#[test]
fn edit_refuses_a_bad_name_and_changes_nothing() {
    let mut store = four_tasks();
    let cfg = Config::default();
    let shown = list(&mut store, &cfg, at(NOON));
    assert_eq!(
        edit(&mut store, &cfg, &shown, 1, "abc", "d", at(NOON)),
        Err(OperationError::InvalidName(NameError::TooShort))
    );
    assert_eq!(
        edit(&mut store, &cfg, &shown, 1, &"b".repeat(50), "d", at(NOON)),
        Err(OperationError::InvalidName(NameError::TooLong))
    );
    assert_eq!(
        edit(&mut store, &cfg, &shown, 9, "abc", "d", at(NOON)),
        Err(OperationError::OutOfRange)
    );
    assert_eq!(store.select_all(), shown);
}

#[test]
fn zero_day_window_purges_on_the_next_listing_after_the_stamp() {
    let mut store = four_tasks();
    let cfg = keep(0, 3);
    let shown = list(&mut store, &cfg, at(NOON));
    let shown = done(&mut store, &cfg, &shown, 2, at(NOON + 5)).expect("in range");
    assert_eq!(ids(&shown), vec![1, 3, 4, 2]);
    assert_eq!(ids(&list(&mut store, &cfg, at(NOON + 5))), vec![1, 3, 4, 2]);
    assert_eq!(ids(&list(&mut store, &cfg, at(NOON + 6))), vec![1, 3, 4]);
    assert_eq!(store.len(), 3);
}

#[test]
fn default_windows_keep_terminal_tasks_for_three_days() {
    let mut store = four_tasks();
    let cfg = Config::default();
    let shown = list(&mut store, &cfg, at(NOON));
    let shown = done(&mut store, &cfg, &shown, 1, at(NOON)).expect("in range");
    let shown = delete(&mut store, &cfg, &shown, 1, at(NOON + DAY)).expect("in range");
    assert_eq!(ids(&shown), vec![3, 4, 1, 2]);
    assert_eq!(ids(&get_list(&mut store, &cfg, at(NOON + 3 * DAY))), vec![3, 4, 1, 2]);
    assert_eq!(ids(&get_list(&mut store, &cfg, at(NOON + 3 * DAY + 1))), vec![3, 4, 2]);
    assert_eq!(clean_by_datetime(&mut store, &cfg, at(NOON + 4 * DAY)), 0);
    assert_eq!(clean_by_datetime(&mut store, &cfg, at(NOON + 4 * DAY + 1)), 1);
    assert_eq!(ids(&store.select_all()), vec![3, 4]);
}

#[test]
fn clean_all_removes_every_terminal_task_whatever_its_age() {
    let mut store = four_tasks();
    let cfg = keep(1000, 1000);
    let shown = list(&mut store, &cfg, at(NOON));
    let shown = done(&mut store, &cfg, &shown, 1, at(NOON)).expect("in range");
    let _ = delete(&mut store, &cfg, &shown, 1, at(NOON)).expect("in range");
    assert_eq!(clean_all(&mut store), 2);
    let left = store.select_all();
    assert_eq!(ids(&left), vec![3, 4]);
    assert!(left.iter().all(|t| t.status == Status::Active && t.done_at.is_none()));
    assert_eq!(clean_all(&mut store), 0);
    assert_eq!(store.next_id(), 5);
}

#[test]
fn a_malformed_time_changes_nothing() {
    let mut store = four_tasks();
    let cfg = Config::default();
    let shown = list(&mut store, &cfg, at(NOON));
    let bad = Timestamp { secs: NOON, nanos: 1_000_000_000, offset: 0 };
    assert_eq!(done(&mut store, &cfg, &shown, 1, bad), Err(OperationError::InvalidTimestamp));
    assert_eq!(delete(&mut store, &cfg, &shown, 1, bad), Err(OperationError::InvalidTimestamp));
    assert_eq!(delete(&mut store, &cfg, &shown, 0, bad), Err(OperationError::OutOfRange));
    assert_eq!(store.select_all(), shown);
}

#[test]
fn deleting_a_vanished_task_is_a_silent_no_op() {
    let mut store = four_tasks();
    let cfg = keep(0, 0);
    let shown = list(&mut store, &cfg, at(NOON));
    let after = done(&mut store, &cfg, &shown, 1, at(NOON)).expect("in range");
    assert_eq!(ids(&after), vec![2, 3, 4, 1]);
    let later = list(&mut store, &cfg, at(NOON + 1));
    assert_eq!(ids(&later), vec![2, 3, 4]);
    let stale = delete(&mut store, &cfg, &after, 4, at(NOON + 2)).expect("in range");
    assert_eq!(stale, later);
}
