//! The embedded date-time literal `DD/Mon/YYYY:HH:MM:SS.mmm`.
//!
//! [`parse_date_split`] does the fixed-offset structural decoding and returns
//! the seven numeric components; calendar validation is the caller's step,
//! done by constructing a [`DateTime`] through [`DateTime::new`].

use vstd::prelude::*;

use crate::digits::spec_parse_dec;
use crate::scan::{spec_find, window};

verus! {

/// A calendar date and time of day with millisecond precision.
#[derive(Clone, Copy, Debug, PartialEq, Eq, Structural)]
pub struct DateTime {
    pub year: u32,
    pub month: u32,
    pub day: u32,
    pub hour: u32,
    pub minute: u32,
    pub second: u32,
    pub millisecond: u32,
}

/// Leap years in the proleptic Gregorian calendar.
pub open spec fn is_leap_year(y: nat) -> bool {
    y % 4 == 0 && (y % 100 != 0 || y % 400 == 0)
}

/// Number of days of month `m` of year `y`.
pub open spec fn days_in_month(y: nat, m: nat) -> nat {
    if m == 2 {
        if is_leap_year(y) {
            29
        } else {
            28
        }
    } else if m == 4 || m == 6 || m == 9 || m == 11 {
        30
    } else {
        31
    }
}

/// `y`-`m`-`d` is a calendar date.
pub open spec fn valid_ymd(y: nat, m: nat, d: nat) -> bool {
    1 <= m <= 12 && 1 <= d <= days_in_month(y, m)
}

/// `h`:`mi`:`s`.`ms` is a time of day with millisecond precision.
pub open spec fn valid_hmsm(h: nat, mi: nat, s: nat, ms: nat) -> bool {
    h < 24 && mi < 60 && s < 60 && ms < 1000
}

impl DateTime {
    /// The components form a calendar date and a time of day.
    pub open spec fn wf(self) -> bool {
        valid_ymd(self.year as nat, self.month as nat, self.day as nat) && valid_hmsm(
            self.hour as nat,
            self.minute as nat,
            self.second as nat,
            self.millisecond as nat,
        )
    }

    /// Builds a date-time value, rejecting components that violate calendar
    /// or time-of-day ranges.
    pub fn new(
        year: u32,
        month: u32,
        day: u32,
        hour: u32,
        minute: u32,
        second: u32,
        millisecond: u32,
    ) -> (out: Option<DateTime>)
        ensures
            ({
                let dt = DateTime { year, month, day, hour, minute, second, millisecond };
                match out {
                    Some(v) => v == dt && dt.wf(),
                    None => !dt.wf(),
                }
            }),
    {
        if month < 1 || month > 12 {
            return None;
        }
        let leap: bool = year % 4 == 0 && (year % 100 != 0 || year % 400 == 0);
        let dim: u32 = if month == 2 {
            if leap {
                29
            } else {
                28
            }
        } else if month == 4 || month == 6 || month == 9 || month == 11 {
            30
        } else {
            31
        };
        if day < 1 || day > dim {
            return None;
        }
        if hour >= 24 || minute >= 60 || second >= 60 || millisecond >= 1000 {
            return None;
        }
        Some(DateTime { year, month, day, hour, minute, second, millisecond })
    }
}

/// Month number of a three-letter English month abbreviation, case-sensitive.
pub open spec fn spec_month_num(a: u8, b: u8, c: u8) -> Option<u32> {
    if a == 74u8 && b == 97u8 && c == 110u8 {
        Some(1u32)
    } else if a == 70u8 && b == 101u8 && c == 98u8 {
        Some(2u32)
    } else if a == 77u8 && b == 97u8 && c == 114u8 {
        Some(3u32)
    } else if a == 65u8 && b == 112u8 && c == 114u8 {
        Some(4u32)
    } else if a == 77u8 && b == 97u8 && c == 121u8 {
        Some(5u32)
    } else if a == 74u8 && b == 117u8 && c == 110u8 {
        Some(6u32)
    } else if a == 74u8 && b == 117u8 && c == 108u8 {
        Some(7u32)
    } else if a == 65u8 && b == 117u8 && c == 103u8 {
        Some(8u32)
    } else if a == 83u8 && b == 101u8 && c == 112u8 {
        Some(9u32)
    } else if a == 79u8 && b == 99u8 && c == 116u8 {
        Some(10u32)
    } else if a == 78u8 && b == 111u8 && c == 118u8 {
        Some(11u32)
    } else if a == 68u8 && b == 101u8 && c == 99u8 {
        Some(12u32)
    } else {
        None
    }
}

/// Looks up a three-letter month abbreviation.
pub fn month_num(a: u8, b: u8, c: u8) -> (out: Option<u32>)
    ensures
        out == spec_month_num(a, b, c),
{
    if a == 74u8 && b == 97u8 && c == 110u8 {
        Some(1u32)
    } else if a == 70u8 && b == 101u8 && c == 98u8 {
        Some(2u32)
    } else if a == 77u8 && b == 97u8 && c == 114u8 {
        Some(3u32)
    } else if a == 65u8 && b == 112u8 && c == 114u8 {
        Some(4u32)
    } else if a == 77u8 && b == 97u8 && c == 121u8 {
        Some(5u32)
    } else if a == 74u8 && b == 117u8 && c == 110u8 {
        Some(6u32)
    } else if a == 74u8 && b == 117u8 && c == 108u8 {
        Some(7u32)
    } else if a == 65u8 && b == 117u8 && c == 103u8 {
        Some(8u32)
    } else if a == 83u8 && b == 101u8 && c == 112u8 {
        Some(9u32)
    } else if a == 79u8 && b == 99u8 && c == 116u8 {
        Some(10u32)
    } else if a == 78u8 && b == 111u8 && c == 118u8 {
        Some(11u32)
    } else if a == 68u8 && b == 101u8 && c == 99u8 {
        Some(12u32)
    } else {
        None
    }
}

/// The date-time literal grammar, structurally: a two-digit day, a skipped
/// separator byte, a three-letter month, a skipped byte, the year up to the
/// first colon found within six bytes, then two-digit hour, minute and
/// second each followed by one skipped byte, and the millisecond as every
/// remaining byte. Inputs too short for this shape yield `None`.
pub open spec fn spec_parse_date(s: Seq<u8>) -> Option<Seq<u32>> {
    if s.len() < 7 {
        None
    } else {
        match (spec_parse_dec(s.subrange(0, 2), 0xffff_ffff), spec_month_num(s[3], s[4], s[5])) {
            (Some(day), Some(month)) => {
                let rest = s.subrange(7, s.len() as int);
                match spec_find(window(rest, 6), 58u8) {
                    None => None,
                    Some(yi) => {
                        match spec_parse_dec(rest.subrange(0, yi), 0xffff_ffff) {
                            None => None,
                            Some(year) => {
                                let t = rest.subrange(yi + 1, rest.len() as int);
                                if t.len() < 9 {
                                    None
                                } else {
                                    match (
                                        spec_parse_dec(t.subrange(0, 2), 0xffff_ffff),
                                        spec_parse_dec(t.subrange(3, 5), 0xffff_ffff),
                                        spec_parse_dec(t.subrange(6, 8), 0xffff_ffff),
                                        spec_parse_dec(t.subrange(9, t.len() as int), 0xffff_ffff),
                                    ) {
                                        (Some(h), Some(mi), Some(sec), Some(ms)) => Some(
                                            seq![
                                                day as u32,
                                                month,
                                                year as u32,
                                                h as u32,
                                                mi as u32,
                                                sec as u32,
                                                ms as u32,
                                            ],
                                        ),
                                        _ => None,
                                    }
                                }
                            },
                        }
                    },
                }
            },
            _ => None,
        }
    }
}

/// Splits the date-time literal into its seven numeric components: day,
/// month, year, hour, minute, second, millisecond.
pub fn parse_date_split(date: &[u8]) -> (out: Option<[u32; 7]>)
    ensures
        match out {
            Some(a) => spec_parse_date(date@) == Some(a@),
            None => spec_parse_date(date@) is None,
        },
{
    if date.len() < 7 {
        return None;
    }
    let n = date.len();
    let day_s = vstd::slice::slice_subrange(date, 0, 2);
    let day = match crate::digits::parse_u32(day_s) {
        Some(v) => v,
        None => {
            return None;
        },
    };
    let month = match month_num(date[3], date[4], date[5]) {
        Some(v) => v,
        None => {
            return None;
        },
    };
    let rest = vstd::slice::slice_subrange(date, 7, n);
    let w = crate::scan::split_max(rest, 6);
    let yi = match crate::scan::find_byte(w, 58u8) {
        Some(i) => i,
        None => {
            return None;
        },
    };
    proof {
        crate::scan::lemma_spec_find(w@, 58u8);
    }
    let rn = rest.len();
    let year_s = vstd::slice::slice_subrange(rest, 0, yi);
    let year = match crate::digits::parse_u32(year_s) {
        Some(v) => v,
        None => {
            return None;
        },
    };
    let t = vstd::slice::slice_subrange(rest, yi + 1, rn);
    if t.len() < 9 {
        return None;
    }
    let tn = t.len();
    let hour = match crate::digits::parse_u32(vstd::slice::slice_subrange(t, 0, 2)) {
        Some(v) => v,
        None => {
            return None;
        },
    };
    let minute = match crate::digits::parse_u32(vstd::slice::slice_subrange(t, 3, 5)) {
        Some(v) => v,
        None => {
            return None;
        },
    };
    let second = match crate::digits::parse_u32(vstd::slice::slice_subrange(t, 6, 8)) {
        Some(v) => v,
        None => {
            return None;
        },
    };
    let ms = match crate::digits::parse_u32(vstd::slice::slice_subrange(t, 9, tn)) {
        Some(v) => v,
        None => {
            return None;
        },
    };
    let out: [u32; 7] = [day, month, year, hour, minute, second, ms];
    proof {
        assert(out@ =~= seq![day, month, year, hour, minute, second, ms]);
    }
    Some(out)
}

} // verus!
