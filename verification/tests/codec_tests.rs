use reminders::codec::{format_stored, parse_draft, parse_stored};
use reminders::datetime::DateTime;

fn chars(s: &str) -> Vec<char> {
    s.chars().collect()
}

fn text(v: &[char]) -> String {
    v.iter().collect()
}

#[test]
fn draft_parses_the_documented_example() {
    let t = parse_draft(&chars("13:54 31/12/1970")).unwrap();
    assert_eq!(t.hour, 13);
    assert_eq!(t.minute, 54);
    assert_eq!(t.day, 31);
    assert_eq!(t.month, 12);
    assert_eq!(t.year, 1970);
    assert_eq!(t.second, 0);
}

#[test]
fn draft_rejects_out_of_range_fields() {
    // the hour, the minute and the day are each out of range here
    assert!(parse_draft(&chars("25:99 31/02/2023")).is_none());
    assert!(parse_draft(&chars("24:00 01/01/2023")).is_none());
    assert!(parse_draft(&chars("00:60 01/01/2023")).is_none());
    assert!(parse_draft(&chars("12:00 32/01/2023")).is_none());
    assert!(parse_draft(&chars("12:00 00/01/2023")).is_none());
    assert!(parse_draft(&chars("12:00 01/13/2023")).is_none());
}

#[test]
fn draft_respects_month_lengths() {
    assert!(parse_draft(&chars("12:00 29/02/2020")).is_some());
    assert!(parse_draft(&chars("12:00 29/02/2023")).is_none());
    assert!(parse_draft(&chars("12:00 30/04/2023")).is_some());
    assert!(parse_draft(&chars("12:00 31/04/2023")).is_none());
}

#[test]
fn draft_rejects_malformed_text() {
    assert!(parse_draft(&chars("")).is_none());
    assert!(parse_draft(&chars("13:54")).is_none());
    assert!(parse_draft(&chars("13-54 31/12/1970")).is_none());
    assert!(parse_draft(&chars("13:54 31-12-1970")).is_none());
    assert!(parse_draft(&chars("13:54 31/12/197O")).is_none());
    assert!(parse_draft(&chars("13:54 31/12/19700")).is_none());
    assert!(parse_draft(&chars("a3:54 31/12/1970")).is_none());
}

#[test]
fn stored_format_is_the_sortable_text() {
    let t = DateTime { year: 2023, month: 7, day: 16, hour: 13, minute: 0, second: 0 };
    assert_eq!(text(&format_stored(&t)), "2023-07-16 13:00:00");
    let early = DateTime { year: 970, month: 1, day: 2, hour: 3, minute: 4, second: 5 };
    assert_eq!(text(&format_stored(&early)), "0970-01-02 03:04:05");
}

#[test]
fn stored_round_trip_returns_the_value() {
    let t = DateTime { year: 2024, month: 2, day: 29, hour: 23, minute: 59, second: 58 };
    let written = format_stored(&t);
    let back = parse_stored(&written).unwrap();
    assert_eq!(back, t);
}

#[test]
fn stored_texts_sort_like_their_times() {
    let times = [
        DateTime { year: 999, month: 12, day: 31, hour: 23, minute: 59, second: 59 },
        DateTime { year: 2023, month: 7, day: 16, hour: 12, minute: 59, second: 59 },
        DateTime { year: 2023, month: 7, day: 16, hour: 13, minute: 0, second: 0 },
        DateTime { year: 2023, month: 12, day: 1, hour: 0, minute: 0, second: 0 },
        DateTime { year: 2024, month: 1, day: 1, hour: 0, minute: 0, second: 0 },
    ];
    for a in &times {
        for b in &times {
            let ta = text(&format_stored(a));
            let tb = text(&format_stored(b));
            assert_eq!(ta < tb, a.lt(b));
            assert_eq!(ta == tb, a == b);
        }
    }
}

#[test]
fn stored_parses_and_validates() {
    let t = parse_stored(&chars("2023-07-16 13:00:00")).unwrap();
    assert_eq!((t.year, t.month, t.day), (2023, 7, 16));
    assert_eq!((t.hour, t.minute, t.second), (13, 0, 0));
    assert!(parse_stored(&chars("2023-07-16 13:00:61")).is_none());
    assert!(parse_stored(&chars("2023-02-30 13:00:00")).is_none());
    assert!(parse_stored(&chars("2023-07-16T13:00:00")).is_none());
    assert!(parse_stored(&chars("2023-07-16 13:00")).is_none());
}
