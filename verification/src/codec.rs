//! The two textual timestamp formats the library speaks: the draft format a
//! user types (`HH:MM DD/MM/YYYY`) and the sortable stored format the durable
//! store keeps (`YYYY-MM-DD HH:MM:SS`). Both are specified character by
//! character, and formatting is proved to round-trip through parsing.
use vstd::prelude::*;

use crate::datetime::DateTime;

verus! {

pub open spec fn is_digit(c: char) -> bool {
    48 <= c as u32 <= 57
}

/// The numeric value of a digit character.
pub open spec fn digit_val(c: char) -> int {
    c as u32 - 48
}

/// The value of the two digit characters at positions `i`, `i + 1`.
pub open spec fn two_digits(s: Seq<char>, i: int) -> int {
    digit_val(s[i]) * 10 + digit_val(s[i + 1])
}

/// The value of the four digit characters starting at position `i`.
pub open spec fn four_digits(s: Seq<char>, i: int) -> int {
    two_digits(s, i) * 100 + two_digits(s, i + 2)
}

/// Character-level grammar of the draft format: `HH:MM DD/MM/YYYY`.
pub open spec fn draft_shape(s: Seq<char>) -> bool {
    &&& s.len() == 16
    &&& is_digit(s[0]) && is_digit(s[1])
    &&& s[2] == ':'
    &&& is_digit(s[3]) && is_digit(s[4])
    &&& s[5] == ' '
    &&& is_digit(s[6]) && is_digit(s[7])
    &&& s[8] == '/'
    &&& is_digit(s[9]) && is_digit(s[10])
    &&& s[11] == '/'
    &&& is_digit(s[12]) && is_digit(s[13]) && is_digit(s[14]) && is_digit(s[15])
}

/// The timestamp denoted by a draft-shaped text; seconds are not written
/// in this format and read as zero.
pub open spec fn draft_datetime(s: Seq<char>) -> DateTime {
    DateTime {
        year: four_digits(s, 12) as u32,
        month: two_digits(s, 9) as u32,
        day: two_digits(s, 6) as u32,
        hour: two_digits(s, 0) as u32,
        minute: two_digits(s, 3) as u32,
        second: 0,
    }
}

/// What parsing a draft buffer yields: the denoted timestamp when the text
/// has the draft shape and the fields are within calendar ranges, nothing
/// otherwise.
pub open spec fn parse_draft_spec(s: Seq<char>) -> Option<DateTime> {
    if draft_shape(s) && draft_datetime(s).wf() {
        Some(draft_datetime(s))
    } else {
        None
    }
}

/// Character-level grammar of the stored format: `YYYY-MM-DD HH:MM:SS`.
pub open spec fn stored_shape(s: Seq<char>) -> bool {
    &&& s.len() == 19
    &&& is_digit(s[0]) && is_digit(s[1]) && is_digit(s[2]) && is_digit(s[3])
    &&& s[4] == '-'
    &&& is_digit(s[5]) && is_digit(s[6])
    &&& s[7] == '-'
    &&& is_digit(s[8]) && is_digit(s[9])
    &&& s[10] == ' '
    &&& is_digit(s[11]) && is_digit(s[12])
    &&& s[13] == ':'
    &&& is_digit(s[14]) && is_digit(s[15])
    &&& s[16] == ':'
    &&& is_digit(s[17]) && is_digit(s[18])
}

/// The timestamp denoted by a stored-shaped text.
pub open spec fn stored_datetime(s: Seq<char>) -> DateTime {
    DateTime {
        year: four_digits(s, 0) as u32,
        month: two_digits(s, 5) as u32,
        day: two_digits(s, 8) as u32,
        hour: two_digits(s, 11) as u32,
        minute: two_digits(s, 14) as u32,
        second: two_digits(s, 17) as u32,
    }
}

/// What parsing a stored record field yields.
pub open spec fn parse_stored_spec(s: Seq<char>) -> Option<DateTime> {
    if stored_shape(s) && stored_datetime(s).wf() {
        Some(stored_datetime(s))
    } else {
        None
    }
}

fn check_digit(c: char) -> (r: bool)
    ensures
        r == is_digit(c),
{
    let u = c as u32;
    48 <= u && u <= 57
}

fn read_two(s: &Vec<char>, i: usize) -> (r: u32)
    requires
        i + 2 <= s.len(),
        is_digit(s[i as int]),
        is_digit(s[i + 1]),
    ensures
        r == two_digits(s@, i as int),
        r <= 99,
{
    let hi = s[i] as u32 - 48;
    let lo = s[i + 1] as u32 - 48;
    hi * 10 + lo
}

/// Parses a draft buffer (`HH:MM DD/MM/YYYY`).
pub fn parse_draft(s: &Vec<char>) -> (r: Option<DateTime>)
    ensures
        r == parse_draft_spec(s@),
{
    if s.len() != 16 {
        return None;
    }
    if s[2] != ':' || s[5] != ' ' || s[8] != '/' || s[11] != '/' {
        return None;
    }
    if !(check_digit(s[0]) && check_digit(s[1]) && check_digit(s[3]) && check_digit(s[4])
        && check_digit(s[6]) && check_digit(s[7]) && check_digit(s[9]) && check_digit(s[10])
        && check_digit(s[12]) && check_digit(s[13]) && check_digit(s[14]) && check_digit(s[15])) {
        return None;
    }
    let hour = read_two(s, 0);
    let minute = read_two(s, 3);
    let day = read_two(s, 6);
    let month = read_two(s, 9);
    let year = read_two(s, 12) * 100 + read_two(s, 14);
    DateTime::from_fields(year, month, day, hour, minute, 0)
}

/// Parses a stored record field (`YYYY-MM-DD HH:MM:SS`).
pub fn parse_stored(s: &Vec<char>) -> (r: Option<DateTime>)
    ensures
        r == parse_stored_spec(s@),
{
    if s.len() != 19 {
        return None;
    }
    if s[4] != '-' || s[7] != '-' || s[10] != ' ' || s[13] != ':' || s[16] != ':' {
        return None;
    }
    if !(check_digit(s[0]) && check_digit(s[1]) && check_digit(s[2]) && check_digit(s[3])
        && check_digit(s[5]) && check_digit(s[6]) && check_digit(s[8]) && check_digit(s[9])
        && check_digit(s[11]) && check_digit(s[12]) && check_digit(s[14]) && check_digit(s[15])
        && check_digit(s[17]) && check_digit(s[18])) {
        return None;
    }
    let year = read_two(s, 0) * 100 + read_two(s, 2);
    let month = read_two(s, 5);
    let day = read_two(s, 8);
    let hour = read_two(s, 11);
    let minute = read_two(s, 14);
    let second = read_two(s, 17);
    DateTime::from_fields(year, month, day, hour, minute, second)
}

fn push_two(v: &mut Vec<char>, d: u32)
    requires
        d <= 99,
    ensures
        final(v)@.len() == old(v)@.len() + 2,
        forall|k: int| 0 <= k < old(v)@.len() ==> final(v)@[k] == old(v)@[k],
        is_digit(final(v)@[old(v)@.len() as int]),
        is_digit(final(v)@[old(v)@.len() as int + 1]),
        two_digits(final(v)@, old(v)@.len() as int) == d,
{
    let hi: char = (48 + d / 10) as u8 as char;
    let lo: char = (48 + d % 10) as u8 as char;
    v.push(hi);
    v.push(lo);
    assert(d / 10 * 10 + d % 10 == d);
}

/// Strict lexicographic order on equal-length texts: some position holds a
/// smaller character while everything before it agrees.
pub open spec fn lex_lt(a: Seq<char>, b: Seq<char>) -> bool {
    exists|i: int|
        0 <= i < a.len() && i < b.len() && (a[i] as u32) < (b[i] as u32) && (forall|j: int|
            0 <= j < i ==> a[j] == b[j])
}

/// The position where two distinct equal-length texts first disagree.
proof fn lemma_first_diff(a: Seq<char>, b: Seq<char>) -> (i: int)
    requires
        a.len() == b.len(),
        a != b,
    ensures
        0 <= i < a.len(),
        a[i] != b[i],
        forall|j: int| 0 <= j < i ==> a[j] == b[j],
    decreases a.len(),
{
    if a.len() == 0 {
        assert(a =~= b);
        0
    } else if a[0] != b[0] {
        0
    } else {
        if a.drop_first() == b.drop_first() {
            assert forall|j: int| 0 <= j < a.len() implies a[j] == b[j] by {
                if j >= 1 {
                    assert(a.drop_first()[j - 1] == b.drop_first()[j - 1]);
                }
            }
            assert(a =~= b);
        }
        let sub = lemma_first_diff(a.drop_first(), b.drop_first());
        assert forall|j: int| 0 <= j < sub + 1 implies a[j] == b[j] by {
            if j >= 1 {
                assert(a.drop_first()[j - 1] == b.drop_first()[j - 1]);
            }
        }
        sub + 1
    }
}

/// Two texts cannot each order strictly below the other.
proof fn lemma_lex_lt_asymmetric(a: Seq<char>, b: Seq<char>)
    requires
        lex_lt(a, b),
    ensures
        !lex_lt(b, a),
{
    let i = choose|i: int|
        0 <= i < a.len() && i < b.len() && (a[i] as u32) < (b[i] as u32) && (forall|j: int|
            0 <= j < i ==> a[j] == b[j]);
    if lex_lt(b, a) {
        let k = choose|k: int|
            0 <= k < b.len() && k < a.len() && (b[k] as u32) < (a[k] as u32) && (forall|j: int|
                0 <= j < k ==> b[j] == a[j]);
        if i < k {
            assert(b[i] == a[i]);
        } else if k < i {
            assert(a[k] == b[k]);
        }
    }
}

/// The stored format sorts by time: on stored-shaped texts, lexicographic
/// text order and chronological order of the denoted timestamps agree.
/// Fields stand most significant first in fixed-width digits, so the first
/// differing character decides both orders the same way.
pub proof fn lemma_stored_text_orders_by_time(s1: Seq<char>, s2: Seq<char>)
    requires
        stored_shape(s1),
        stored_shape(s2),
    ensures
        lex_lt(s1, s2) <==> stored_datetime(s1).spec_lt(stored_datetime(s2)),
{
    if s1 == s2 {
        if lex_lt(s1, s2) {
            lemma_lex_lt_asymmetric(s1, s2);
        }
    } else {
        let i = lemma_first_diff(s1, s2);
        assert(i != 4 && i != 7 && i != 10 && i != 13 && i != 16);
        if (s1[i] as u32) == (s2[i] as u32) {
            vstd::utf8::char_u32_cast(s1[i], s1[i] as u32);
            vstd::utf8::char_u32_cast(s2[i], s2[i] as u32);
            assert(false);
        }
        if (s1[i] as u32) < (s2[i] as u32) {
            assert(lex_lt(s1, s2));
            lemma_first_smaller_digit_orders(s1, s2, i);
        } else {
            assert(lex_lt(s2, s1));
            lemma_first_smaller_digit_orders(s2, s1, i);
            lemma_lex_lt_asymmetric(s2, s1);
            assert(!stored_datetime(s1).spec_lt(stored_datetime(s2)));
        }
    }
}

/// With everything before position `i` equal and a smaller digit at `i`,
/// the first text denotes the strictly earlier timestamp.
proof fn lemma_first_smaller_digit_orders(s1: Seq<char>, s2: Seq<char>, i: int)
    requires
        stored_shape(s1),
        stored_shape(s2),
        0 <= i < 19,
        i != 4 && i != 7 && i != 10 && i != 13 && i != 16,
        (s1[i] as u32) < (s2[i] as u32),
        forall|j: int| 0 <= j < i ==> s1[j] == s2[j],
    ensures
        stored_datetime(s1).spec_lt(stored_datetime(s2)),
{
    let d1 = stored_datetime(s1);
    let d2 = stored_datetime(s2);
    if i <= 3 {
        assert(d1.year < d2.year);
    } else if i <= 6 {
        assert(d1.year == d2.year);
        assert(d1.month < d2.month);
    } else if i <= 9 {
        assert(d1.year == d2.year && d1.month == d2.month);
        assert(d1.day < d2.day);
    } else if i <= 12 {
        assert(d1.year == d2.year && d1.month == d2.month && d1.day == d2.day);
        assert(d1.hour < d2.hour);
    } else if i <= 15 {
        assert(d1.year == d2.year && d1.month == d2.month && d1.day == d2.day && d1.hour
            == d2.hour);
        assert(d1.minute < d2.minute);
    } else {
        assert(d1.year == d2.year && d1.month == d2.month && d1.day == d2.day && d1.hour
            == d2.hour && d1.minute == d2.minute);
        assert(d1.second < d2.second);
    }
}

/// The stored format is canonical: two stored-shaped texts denoting the
/// same timestamp are the same text, so a reminder survives a write and a
/// read of the store as the same value.
pub proof fn lemma_stored_text_canonical(s1: Seq<char>, s2: Seq<char>)
    requires
        stored_shape(s1),
        stored_shape(s2),
        stored_datetime(s1) == stored_datetime(s2),
    ensures
        s1 == s2,
{
    if s1 != s2 {
        let i = lemma_first_diff(s1, s2);
        assert(i != 4 && i != 7 && i != 10 && i != 13 && i != 16);
        if (s1[i] as u32) == (s2[i] as u32) {
            vstd::utf8::char_u32_cast(s1[i], s1[i] as u32);
            vstd::utf8::char_u32_cast(s2[i], s2[i] as u32);
            assert(false);
        }
        if (s1[i] as u32) < (s2[i] as u32) {
            lemma_first_smaller_digit_orders(s1, s2, i);
        } else {
            lemma_first_smaller_digit_orders(s2, s1, i);
        }
    }
}

/// Writes a timestamp in the stored format, and is exact: parsing the text
/// it produces yields the timestamp back.
pub fn format_stored(t: &DateTime) -> (r: Vec<char>)
    requires
        t.wf(),
    ensures
        stored_shape(r@),
        stored_datetime(r@) == *t,
        parse_stored_spec(r@) == Some(*t),
{
    let mut v: Vec<char> = Vec::new();
    push_two(&mut v, t.year / 100);
    push_two(&mut v, t.year % 100);
    v.push('-');
    push_two(&mut v, t.month);
    v.push('-');
    push_two(&mut v, t.day);
    v.push(' ');
    push_two(&mut v, t.hour);
    v.push(':');
    push_two(&mut v, t.minute);
    v.push(':');
    push_two(&mut v, t.second);
    assert(t.year / 100 * 100 + t.year % 100 == t.year);
    v
}

} // verus!
