use chrono::{NaiveDate, NaiveDateTime};
use rbm::commands::CommandQueue;
use rbm::types::Command;
use rbm::Error;

fn moment(day: u32) -> NaiveDateTime {
    NaiveDate::from_ymd_opt(2021, 3, day).unwrap().and_hms_opt(12, 30, 0).unwrap()
}

fn command(id: u64, serial: &str, completed_at: Option<NaiveDateTime>) -> Command {
    Command { id, serial: String::from(serial), completed_at }
}

fn serial(s: &str) -> String {
    String::from(s)
}

fn not_found<T: std::fmt::Debug>(r: Result<T, Error>) -> bool {
    matches!(r, Err(Error::NotFound))
}

fn already_completed<T: std::fmt::Debug>(r: Result<T, Error>) -> bool {
    matches!(r, Err(Error::CommandAlreadyCompleted))
}

#[test]
fn a_new_queue_is_empty() {
    let queue = CommandQueue::new();
    assert!(queue.rows().is_empty());
    assert!(not_found(queue.get_stalest(&serial("dev-1"))));
}

#[test]
fn created_commands_are_pending_and_numbered_from_one() {
    let mut queue = CommandQueue::new();
    let first = queue.create(serial("dev-1")).unwrap();
    let second = queue.create(serial("dev-2")).unwrap();
    let third = queue.create(serial("dev-1")).unwrap();
    assert_eq!((first.id, first.serial.as_str(), first.completed_at), (1, "dev-1", None));
    assert_eq!((second.id, second.serial.as_str(), second.completed_at), (2, "dev-2", None));
    assert_eq!((third.id, third.serial.as_str(), third.completed_at), (3, "dev-1", None));
    assert_eq!(queue.rows().len(), 3);
    assert_eq!(queue.rows()[2].id, 3);
}

#[test]
fn the_stalest_command_has_the_smallest_identifier() {
    let rows = vec![
        command(3, "dev-2", None),
        command(5, "dev-1", Some(moment(1))),
        command(8, "dev-1", None),
        command(9, "dev-2", None),
        command(12, "dev-1", None),
    ];
    let queue = CommandQueue::from_rows(rows).unwrap();
    assert_eq!(queue.get_stalest(&serial("dev-1")).unwrap().id, 8);
    assert_eq!(queue.get_stalest(&serial("dev-2")).unwrap().id, 3);
    assert!(not_found(queue.get_stalest(&serial("dev-3"))));
    assert!(not_found(queue.get_stalest(&serial("dev"))));
}

#[test]
fn a_completed_command_is_never_handed_out() {
    let rows = vec![command(1, "dev-1", Some(moment(1))), command(2, "dev-1", Some(moment(2)))];
    let queue = CommandQueue::from_rows(rows).unwrap();
    assert!(not_found(queue.get_stalest(&serial("dev-1"))));
}

#[test]
fn completing_sets_the_moment_once() {
    let mut queue = CommandQueue::new();
    let id = queue.create(serial("dev-1")).unwrap().id;
    let done = queue.complete_at(id, moment(4)).unwrap();
    assert_eq!(done.id, id);
    assert_eq!(done.serial, "dev-1");
    assert_eq!(done.completed_at, Some(moment(4)));
    assert_eq!(queue.rows()[0].completed_at, Some(moment(4)));
    assert!(already_completed(queue.complete_at(id, moment(5))));
    assert_eq!(queue.rows()[0].completed_at, Some(moment(4)));
    assert!(already_completed(queue.complete(id)));
    assert_eq!(queue.rows()[0].completed_at, Some(moment(4)));
}

#[test]
fn completing_an_unknown_command_changes_nothing() {
    let mut queue = CommandQueue::new();
    assert!(not_found(queue.complete_at(1, moment(1))));
    queue.create(serial("dev-1")).unwrap();
    assert!(not_found(queue.complete_at(2, moment(1))));
    assert!(not_found(queue.complete(0)));
    assert_eq!(queue.rows().len(), 1);
    assert_eq!(queue.rows()[0].completed_at, None);
}

#[test]
fn completing_leaves_the_other_commands_alone() {
    let mut queue = CommandQueue::new();
    queue.create(serial("dev-1")).unwrap();
    queue.create(serial("dev-1")).unwrap();
    queue.create(serial("dev-2")).unwrap();
    queue.complete_at(2, moment(9)).unwrap();
    let state: Vec<(u64, Option<NaiveDateTime>)> =
        queue.rows().iter().map(|c| (c.id, c.completed_at)).collect();
    assert_eq!(state, vec![(1, None), (2, Some(moment(9))), (3, None)]);
}

#[test]
fn completing_now_sets_a_moment() {
    let mut queue = CommandQueue::new();
    let id = queue.create(serial("dev-1")).unwrap().id;
    let before = chrono::Utc::now().naive_utc();
    let done = queue.complete(id).unwrap();
    let after = chrono::Utc::now().naive_utc();
    let at = done.completed_at.unwrap();
    assert!(before <= at && at <= after);
    assert_eq!(queue.rows()[0].completed_at, Some(at));
}

#[test]
fn rows_must_come_in_the_order_of_their_identifiers() {
    assert!(CommandQueue::from_rows(Vec::new()).is_some());
    assert!(CommandQueue::from_rows(vec![command(4, "a", None)]).is_some());
    assert!(CommandQueue::from_rows(vec![command(4, "a", None), command(7, "b", None)]).is_some());
    assert!(CommandQueue::from_rows(vec![command(7, "a", None), command(4, "b", None)]).is_none());
    assert!(CommandQueue::from_rows(vec![command(4, "a", None), command(4, "b", None)]).is_none());
    let rows = vec![command(1, "a", None), command(3, "a", None), command(2, "a", None)];
    assert!(CommandQueue::from_rows(rows).is_none());
}

#[test]
fn the_next_identifier_follows_the_last() {
    let mut queue = CommandQueue::from_rows(vec![command(41, "a", None)]).unwrap();
    assert_eq!(queue.create(serial("b")).unwrap().id, 42);
}

#[test]
fn storage_refuses_when_identifiers_run_out() {
    let mut queue = CommandQueue::from_rows(vec![command(u64::MAX, "a", None)]).unwrap();
    let refused = queue.create(serial("b")).unwrap_err();
    assert!(matches!(refused, Error::MysqlError(_)));
    assert_eq!(refused.status_code(), 500);
    assert_eq!(queue.rows().len(), 1);
}

#[test]
fn a_copy_of_a_command_keeps_its_moment() {
    let done = command(3, "dev-1", Some(moment(2)));
    let copy = done.duplicate();
    assert_eq!(copy.id, 3);
    assert_eq!(copy.serial, "dev-1");
    assert_eq!(copy.completed_at, Some(moment(2)));
    assert!(!copy.is_pending());
    assert!(command(4, "dev-1", None).is_pending());
}
