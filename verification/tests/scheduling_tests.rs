use reminders::clock::local_now;
use reminders::datetime::DateTime;
use reminders::notification::{
    prepare_notification_sending_task, NotificationContent, SchedulingError,
};

fn chars(s: &str) -> Vec<char> {
    s.chars().collect()
}

fn content(date: DateTime) -> NotificationContent {
    NotificationContent { title: chars("t"), body: chars("b"), date }
}

fn dt(year: u32, month: u32, day: u32, hour: u32, minute: u32, second: u32) -> DateTime {
    DateTime { year, month, day, hour, minute, second }
}

#[test]
fn a_future_reminder_becomes_a_task() {
    let now = dt(2023, 7, 16, 12, 59, 59);
    let task = prepare_notification_sending_task(content(dt(2023, 7, 16, 13, 0, 0)), now, 7)
        .unwrap();
    assert_eq!(task.handle, 7);
    assert_eq!(task.content.title, chars("t"));
    assert_eq!(task.content.date, dt(2023, 7, 16, 13, 0, 0));
}

#[test]
fn an_already_due_reminder_is_refused() {
    let now = dt(2023, 7, 16, 13, 0, 0);
    // exactly due and past both fail; strictly later succeeds
    let due = prepare_notification_sending_task(content(now), now, 0);
    assert_eq!(due.err(), Some(SchedulingError::AlreadyDue));
    let past = prepare_notification_sending_task(content(dt(2023, 7, 16, 12, 0, 0)), now, 0);
    assert_eq!(past.err(), Some(SchedulingError::AlreadyDue));
    assert!(prepare_notification_sending_task(content(dt(2023, 7, 16, 13, 0, 1)), now, 0).is_ok());
}

#[test]
fn the_clock_reads_a_well_formed_timestamp() {
    let t = local_now().unwrap();
    assert!(t.year <= 9999);
    assert!((1..=12).contains(&t.month));
    assert!((1..=31).contains(&t.day));
    assert!(t.hour <= 23);
    assert!(t.minute <= 59);
    assert!(t.second <= 59);
}
