use tasklist::task::{Status, Task};
use tasklist::timestamp::Timestamp;

fn task(id: i32, status: Status, done_at: Option<Timestamp>) -> Task {
    Task {
        id,
        name: String::from("some task"),
        description: String::from("details"),
        status,
        done_at,
    }
}

fn at(secs: i64, nanos: u32) -> Timestamp {
    Timestamp::new(secs, nanos, 0).expect("well-formed timestamp")
}

#[test]
fn status_codes_are_zero_one_two() {
    assert_eq!(Status::Active.to_code(), 0);
    assert_eq!(Status::Done.to_code(), 1);
    assert_eq!(Status::Removed.to_code(), 2);
    assert_eq!(Status::from_code(0), Some(Status::Active));
    assert_eq!(Status::from_code(1), Some(Status::Done));
    assert_eq!(Status::from_code(2), Some(Status::Removed));
    assert_eq!(Status::from_code(3), None);
    assert_eq!(Status::from_code(-1), None);
}

#[test]
fn task_validity_ties_status_to_done_at() {
    assert!(task(1, Status::Active, None).is_valid());
    assert!(task(1, Status::Done, Some(at(5, 0))).is_valid());
    assert!(task(1, Status::Removed, Some(at(5, 0))).is_valid());
    assert!(!task(1, Status::Active, Some(at(5, 0))).is_valid());
    assert!(!task(1, Status::Done, None).is_valid());
    assert!(!task(0, Status::Active, None).is_valid());
    assert!(!task(-1, Status::Active, None).is_valid());
}

#[test]
fn duplicate_is_equal() {
    let t = task(4, Status::Done, Some(at(5, 6)));
    assert_eq!(t.duplicate(), t);
}

#[test]
fn goes_before_orders_by_status_time_and_id() {
    let active = task(9, Status::Active, None);
    let done_early = task(3, Status::Done, Some(at(10, 0)));
    let done_late = task(2, Status::Done, Some(at(10, 1)));
    let removed = task(1, Status::Removed, Some(at(1, 0)));
    assert!(active.goes_before(&done_early));
    assert!(done_early.goes_before(&done_late));
    assert!(done_late.goes_before(&removed));
    assert!(!removed.goes_before(&active));
    assert!(!done_late.goes_before(&done_early));
    assert!(!active.goes_before(&active));
    assert!(task(1, Status::Active, None).goes_before(&task(2, Status::Active, None)));
    assert!(!task(2, Status::Active, None).goes_before(&task(1, Status::Active, None)));
    let same_a = task(5, Status::Done, Some(at(10, 0)));
    assert!(done_early.goes_before(&same_a));
    assert!(!same_a.goes_before(&done_early));
}

#[test]
fn stamp_text_is_there_for_terminal_tasks_only() {
    assert_eq!(task(1, Status::Active, None).stamp_text(), None);
    let shown = Timestamp::new(1_057_049_557, 0, 7200).unwrap();
    assert_eq!(
        task(1, Status::Done, Some(shown)).stamp_text(),
        Some(String::from("Tue, 1 Jul 2003 10:52:37 +0200"))
    );
}
