use reminders::datetime::{month_length, DateTime};

fn dt(year: u32, month: u32, day: u32, hour: u32, minute: u32, second: u32) -> DateTime {
    DateTime { year, month, day, hour, minute, second }
}

#[test]
fn comparison_orders_chronologically() {
    let a = dt(2023, 7, 16, 13, 0, 0);
    let b = dt(2023, 7, 16, 13, 0, 1);
    let c = dt(2024, 1, 1, 0, 0, 0);
    assert!(a.lt(&b));
    assert!(b.lt(&c));
    assert!(a.lt(&c));
    assert!(!b.lt(&a));
    assert!(a.le(&a));
    assert!(!a.lt(&a));
}

#[test]
fn comparison_is_field_by_field() {
    let base = dt(2023, 6, 15, 12, 30, 30);
    assert!(base.lt(&dt(2023, 6, 15, 12, 31, 0)));
    assert!(base.lt(&dt(2023, 6, 16, 0, 0, 0)));
    assert!(base.lt(&dt(2023, 7, 1, 0, 0, 0)));
    assert!(dt(2022, 12, 31, 23, 59, 59).lt(&base));
}

#[test]
fn from_fields_accepts_valid_dates() {
    let t = DateTime::from_fields(2024, 2, 29, 23, 59, 59).unwrap();
    assert_eq!(t.year, 2024);
    assert_eq!(t.month, 2);
    assert_eq!(t.day, 29);
}

#[test]
fn from_fields_rejects_invalid_dates() {
    assert!(DateTime::from_fields(2023, 2, 29, 0, 0, 0).is_none());
    assert!(DateTime::from_fields(2023, 13, 1, 0, 0, 0).is_none());
    assert!(DateTime::from_fields(2023, 0, 1, 0, 0, 0).is_none());
    assert!(DateTime::from_fields(2023, 4, 31, 0, 0, 0).is_none());
    assert!(DateTime::from_fields(2023, 1, 1, 24, 0, 0).is_none());
    assert!(DateTime::from_fields(2023, 1, 1, 0, 60, 0).is_none());
    assert!(DateTime::from_fields(2023, 1, 1, 0, 0, 60).is_none());
    assert!(DateTime::from_fields(10000, 1, 1, 0, 0, 0).is_none());
}

#[test]
fn month_lengths_follow_the_calendar() {
    assert_eq!(month_length(2023, 1), 31);
    assert_eq!(month_length(2023, 2), 28);
    assert_eq!(month_length(2024, 2), 29);
    assert_eq!(month_length(1900, 2), 28);
    assert_eq!(month_length(2000, 2), 29);
    assert_eq!(month_length(2023, 4), 30);
    assert_eq!(month_length(2023, 12), 31);
}
