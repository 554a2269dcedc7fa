//! Calendar timestamps with second-level precision and a fractional-second
//! component, read from and rendered to the fixed textual form
//! `YYYY-MM-DD HH:MM:SS.ffffff`.

use vstd::prelude::*;

use crate::num::{
    all_digits, check_digit, dec_pad, dec_val, fixed_val, is_digit, lemma_dec_val_bounds, pow10,
    u32_to_padded,
};

verus! {

/// A calendar timestamp, decoded into plain fields.
#[derive(Clone, Copy, PartialEq, Eq, Structural, Debug)]
pub struct DateTime {
    pub year: u16,
    pub month: u8,
    pub day: u8,
    pub hour: u8,
    pub minute: u8,
    pub second: u8,
    pub microsecond: u32,
}

/// Whether a year is a leap year in the Gregorian calendar.
pub open spec fn leap_year(y: int) -> bool {
    y % 4 == 0 && (y % 100 != 0 || y % 400 == 0)
}

/// How many days the given month of the given year has.
pub open spec fn days_in_month(y: int, m: int) -> int {
    if m == 2 {
        if leap_year(y) {
            29
        } else {
            28
        }
    } else if m == 4 || m == 6 || m == 9 || m == 11 {
        30
    } else {
        31
    }
}

impl DateTime {
    /// A timestamp is valid when every field lies in its calendar range.
    pub open spec fn valid(self) -> bool {
        &&& self.year <= 9999
        &&& 1 <= self.month <= 12
        &&& 1 <= self.day <= days_in_month(self.year as int, self.month as int)
        &&& self.hour < 24
        &&& self.minute < 60
        &&& self.second < 60
        &&& self.microsecond < 1000000
    }
}

/// Whether a string has the exact shape `YYYY-MM-DD HH:MM:SS.ffffff`:
/// fixed separators, digits everywhere else, six fractional digits.
pub open spec fn timestamp_shape(s: Seq<char>) -> bool {
    &&& s.len() == 26
    &&& s[4] == '-'
    &&& s[7] == '-'
    &&& s[10] == ' '
    &&& s[13] == ':'
    &&& s[16] == ':'
    &&& s[19] == '.'
    &&& all_digits(s.subrange(0, 4))
    &&& all_digits(s.subrange(5, 7))
    &&& all_digits(s.subrange(8, 10))
    &&& all_digits(s.subrange(11, 13))
    &&& all_digits(s.subrange(14, 16))
    &&& all_digits(s.subrange(17, 19))
    &&& all_digits(s.subrange(20, 26))
}

/// The fields a well-shaped timestamp string denotes.
pub open spec fn timestamp_fields(s: Seq<char>) -> DateTime
    recommends
        timestamp_shape(s),
{
    DateTime {
        year: dec_val(s.subrange(0, 4)) as u16,
        month: dec_val(s.subrange(5, 7)) as u8,
        day: dec_val(s.subrange(8, 10)) as u8,
        hour: dec_val(s.subrange(11, 13)) as u8,
        minute: dec_val(s.subrange(14, 16)) as u8,
        second: dec_val(s.subrange(17, 19)) as u8,
        microsecond: dec_val(s.subrange(20, 26)) as u32,
    }
}

/// What parsing a timestamp yields: the decoded fields when the string has
/// the fixed shape and the fields lie in their calendar ranges, nothing
/// otherwise.
pub open spec fn spec_parse_timestamp(s: Seq<char>) -> Option<DateTime> {
    if timestamp_shape(s) && timestamp_fields(s).valid() {
        Some(timestamp_fields(s))
    } else {
        None
    }
}

/// The canonical text of a timestamp: the same fixed form it was read from,
/// each field zero-padded to its width.
pub open spec fn timestamp_text(d: DateTime) -> Seq<char> {
    dec_pad(d.year as int, 4) + seq!['-'] + dec_pad(d.month as int, 2) + seq!['-'] + dec_pad(
        d.day as int,
        2,
    ) + seq![' '] + dec_pad(d.hour as int, 2) + seq![':'] + dec_pad(d.minute as int, 2) + seq![':']
        + dec_pad(d.second as int, 2) + seq!['.'] + dec_pad(d.microsecond as int, 6)
}

/// Whether a year is a leap year, decided executably.
pub fn is_leap_year(y: u16) -> (r: bool)
    ensures
        r == leap_year(y as int),
{
    y % 4 == 0 && (y % 100 != 0 || y % 400 == 0)
}

/// How many days a month has, computed executably.
pub fn month_days(y: u16, m: u8) -> (r: u8)
    ensures
        r == days_in_month(y as int, m as int),
{
    if m == 2 {
        if is_leap_year(y) {
            29
        } else {
            28
        }
    } else if m == 4 || m == 6 || m == 9 || m == 11 {
        30
    } else {
        31
    }
}

/// Checks that `s[start..end]` consists of digits only.
fn check_digit_run(s: &str, start: usize, end: usize) -> (r: bool)
    requires
        start <= end <= s@.len(),
    ensures
        r == all_digits(s@.subrange(start as int, end as int)),
{
    let mut i: usize = start;
    while i < end
        invariant
            start <= i <= end <= s@.len(),
            all_digits(s@.subrange(start as int, i as int)),
        decreases end - i,
    {
        let c = s.get_char(i);
        if !check_digit(c) {
            proof {
                assert(s@.subrange(start as int, end as int)[i - start] == s@[i as int]);
            }
            return false;
        }
        proof {
            assert(s@.subrange(start as int, i + 1).drop_last() =~= s@.subrange(
                start as int,
                i as int,
            ));
            assert(s@.subrange(start as int, i + 1).last() == s@[i as int]);
        }
        i += 1;
    }
    proof {
        assert(s@.subrange(start as int, end as int) =~= s@.subrange(start as int, i as int));
    }
    true
}

/// Parses the fixed textual form `YYYY-MM-DD HH:MM:SS.ffffff` and validates
/// the calendar ranges of every field.
pub fn parse_timestamp(s: &str) -> (r: Option<DateTime>)
    ensures
        r == spec_parse_timestamp(s@),
{
    let len: usize = s.unicode_len();
    if len != 26 {
        return None;
    }
    if !(s.get_char(4) == '-' && s.get_char(7) == '-' && s.get_char(10) == ' ' && s.get_char(13)
        == ':' && s.get_char(16) == ':' && s.get_char(19) == '.') {
        return None;
    }
    if !(check_digit_run(s, 0, 4) && check_digit_run(s, 5, 7) && check_digit_run(s, 8, 10)
        && check_digit_run(s, 11, 13) && check_digit_run(s, 14, 16) && check_digit_run(s, 17, 19)
        && check_digit_run(s, 20, 26)) {
        return None;
    }
    proof {
        lemma_dec_val_bounds(s@.subrange(0, 4));
        lemma_dec_val_bounds(s@.subrange(5, 7));
        lemma_dec_val_bounds(s@.subrange(8, 10));
        lemma_dec_val_bounds(s@.subrange(11, 13));
        lemma_dec_val_bounds(s@.subrange(14, 16));
        lemma_dec_val_bounds(s@.subrange(17, 19));
        lemma_dec_val_bounds(s@.subrange(20, 26));
        assert(pow10(4) == 10000 && pow10(2) == 100 && pow10(6) == 1000000) by {
            reveal_with_fuel(pow10, 7);
        }
    }
    let year = fixed_val(s, 0, 4) as u16;
    let month = fixed_val(s, 5, 7) as u8;
    let day = fixed_val(s, 8, 10) as u8;
    let hour = fixed_val(s, 11, 13) as u8;
    let minute = fixed_val(s, 14, 16) as u8;
    let second = fixed_val(s, 17, 19) as u8;
    let microsecond = fixed_val(s, 20, 26);
    let d = DateTime { year, month, day, hour, minute, second, microsecond };
    if month < 1 || month > 12 {
        return None;
    }
    if day < 1 || day > month_days(year, month) {
        return None;
    }
    if hour >= 24 || minute >= 60 || second >= 60 {
        return None;
    }
    Some(d)
}

/// Renders a timestamp in its canonical textual form.
pub fn render_timestamp(d: &DateTime) -> (r: String)
    ensures
        r@ == timestamp_text(*d),
{
    proof {
        reveal_strlit("-");
        reveal_strlit(" ");
        reveal_strlit(":");
        reveal_strlit(".");
    }
    let mut s = u32_to_padded(d.year as u32, 4);
    s.append("-");
    s.append(u32_to_padded(d.month as u32, 2).as_str());
    s.append("-");
    s.append(u32_to_padded(d.day as u32, 2).as_str());
    s.append(" ");
    s.append(u32_to_padded(d.hour as u32, 2).as_str());
    s.append(":");
    s.append(u32_to_padded(d.minute as u32, 2).as_str());
    s.append(":");
    s.append(u32_to_padded(d.second as u32, 2).as_str());
    s.append(".");
    s.append(u32_to_padded(d.microsecond, 6).as_str());
    proof {
        assert(s@ =~= timestamp_text(*d));
    }
    s
}

} // verus!
