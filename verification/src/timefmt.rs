//! Listing timestamps: a modification time is shown as `"Mon DD HH:MM"`
//! when it lies within six 30-day months of now, and as `"Mon DD  YYYY"`
//! otherwise. The split of a Unix time into local calendar fields is the
//! one outside call; everything built from those fields is verified.

use vstd::prelude::*;
use vstd::string::StringExecFns;
use chrono::{Datelike, TimeZone, Timelike};
use crate::numfmt::{dec_digit, dec_seq};
use crate::strutil::string_from_chars;

verus! {

/// A moment of local calendar time, reduced to the fields the listing shows.
pub struct TimeParts {
    pub year: i32,
    pub month: u8,
    pub day: u8,
    pub hour: u8,
    pub minute: u8,
}

/// The field ranges the calendar guarantees.
pub open spec fn time_parts_wf(p: TimeParts) -> bool {
    &&& 1 <= p.month <= 12
    &&& 1 <= p.day <= 31
    &&& p.hour < 24
    &&& p.minute < 60
}

/// Relies on chrono: `Local.timestamp_opt` maps a Unix time to local
/// calendar time, and the `Datelike`/`Timelike` accessors document month
/// in 1..=12, day in 1..=31, hour in 0..=23 and minute in 0..=59. The
/// result depends on the machine's time zone, so nothing more is promised.
#[verifier::external_body]
pub fn local_time_parts(secs: i64) -> (p: TimeParts)
    ensures
        time_parts_wf(p),
{
    match chrono::Local.timestamp_opt(secs, 0) {
        chrono::MappedLocalTime::Single(dt) | chrono::MappedLocalTime::Ambiguous(dt, _) => {
            TimeParts {
                year: dt.year(),
                month: dt.month() as u8,
                day: dt.day() as u8,
                hour: dt.hour() as u8,
                minute: dt.minute() as u8,
            }
        },
        chrono::MappedLocalTime::None => {
            TimeParts { year: 1970, month: 1, day: 1, hour: 0, minute: 0 }
        },
    }
}

/// Six 30-day months, in seconds.
pub open spec fn six_months_secs() -> int {
    15552000
}

/// A time is shown in the short clock form when it is no older than six
/// 30-day months; times in the future count as recent.
pub open spec fn is_recent(mtime: int, now: int) -> bool {
    now - mtime <= six_months_secs()
}

/// The English three-letter month abbreviation.
pub open spec fn month_abbrev(m: int) -> Seq<char> {
    if m == 1 {
        "Jan"@
    } else if m == 2 {
        "Feb"@
    } else if m == 3 {
        "Mar"@
    } else if m == 4 {
        "Apr"@
    } else if m == 5 {
        "May"@
    } else if m == 6 {
        "Jun"@
    } else if m == 7 {
        "Jul"@
    } else if m == 8 {
        "Aug"@
    } else if m == 9 {
        "Sep"@
    } else if m == 10 {
        "Oct"@
    } else if m == 11 {
        "Nov"@
    } else {
        "Dec"@
    }
}

/// A number below 100 as two digits, zero-padded.
pub open spec fn two_digits(n: int) -> Seq<char> {
    seq![dec_digit(n / 10), dec_digit(n % 10)]
}

/// A year, zero-padded to four digits, with a leading minus when negative.
pub open spec fn year_digits(y: int) -> Seq<char> {
    if y < 0 {
        seq!['-'] + zero_pad(dec_seq((-y) as nat), 4)
    } else {
        zero_pad(dec_seq(y as nat), 4)
    }
}

/// `s` padded on the left with zeros to width `w`.
pub open spec fn zero_pad(s: Seq<char>, w: nat) -> Seq<char> {
    if s.len() >= w {
        s
    } else {
        Seq::new((w - s.len()) as nat, |i: int| '0') + s
    }
}

/// The timestamp field of one listing line: `"Mon DD HH:MM"` for recent
/// times, `"Mon DD  YYYY"` otherwise.
pub open spec fn time_string(p: TimeParts, recent: bool) -> Seq<char> {
    month_abbrev(p.month as int) + " "@ + two_digits(p.day as int) + (if recent {
        " "@ + two_digits(p.hour as int) + ":"@ + two_digits(p.minute as int)
    } else {
        "  "@ + year_digits(p.year as int)
    })
}

/// The month's name in English, abbreviated to three letters.
pub fn month_name(m: u8) -> (r: &'static str)
    requires
        1 <= m <= 12,
    ensures
        r@ == month_abbrev(m as int),
{
    if m == 1 {
        "Jan"
    } else if m == 2 {
        "Feb"
    } else if m == 3 {
        "Mar"
    } else if m == 4 {
        "Apr"
    } else if m == 5 {
        "May"
    } else if m == 6 {
        "Jun"
    } else if m == 7 {
        "Jul"
    } else if m == 8 {
        "Aug"
    } else if m == 9 {
        "Sep"
    } else if m == 10 {
        "Oct"
    } else if m == 11 {
        "Nov"
    } else {
        "Dec"
    }
}

/// A number below 100 as two zero-padded digits.
pub fn two_digit_string(n: u8) -> (s: String)
    requires
        n < 100,
    ensures
        s@ == two_digits(n as int),
{
    let hi: char = (48 + n / 10) as char;
    let lo: char = (48 + n % 10) as char;
    let v: Vec<char> = vec![hi, lo];
    proof {
        assert(v@ =~= two_digits(n as int));
    }
    string_from_chars(&v)
}

/// A year as `year_digits` spells it.
pub fn year_string(y: i32) -> (s: String)
    ensures
        s@ == year_digits(y as int),
{
    let neg = y < 0;
    let mag: u64 = if y >= 0 {
        y as u64
    } else {
        let wide: i64 = y as i64;
        (-wide) as u64
    };
    let digits = crate::numfmt::u64_to_string(mag);
    let dn = digits.unicode_len();
    let mut v: Vec<char> = Vec::new();
    if neg {
        v.push('-');
    }
    let pad: usize = if dn >= 4 {
        0
    } else {
        4 - dn
    };
    let mut k: usize = 0;
    while k < pad
        invariant
            k <= pad,
            v@ =~= (if neg {
                seq!['-']
            } else {
                Seq::<char>::empty()
            }) + Seq::new(k as nat, |i: int| '0'),
        decreases pad - k,
    {
        v.push('0');
        k = k + 1;
        proof {
            assert(v@ =~= (if neg {
                seq!['-']
            } else {
                Seq::<char>::empty()
            }) + Seq::new(k as nat, |i: int| '0'));
        }
    }
    let mut s = string_from_chars(&v);
    s.append(digits.as_str());
    proof {
        assert(s@ =~= year_digits(y as int));
    }
    s
}

/// The timestamp field, from calendar fields and the recency decision.
pub fn render_time(p: &TimeParts, recent: bool) -> (s: String)
    requires
        time_parts_wf(*p),
    ensures
        s@ == time_string(*p, recent),
{
    let mut s = String::new();
    let mon = month_name(p.month);
    s.append(mon);
    s.append(" ");
    let day = two_digit_string(p.day);
    s.append(day.as_str());
    if recent {
        s.append(" ");
        let hh = two_digit_string(p.hour);
        s.append(hh.as_str());
        s.append(":");
        let mm = two_digit_string(p.minute);
        s.append(mm.as_str());
    } else {
        s.append("  ");
        let yy = year_string(p.year);
        s.append(yy.as_str());
    }
    proof {
        assert(s@ =~= time_string(*p, recent));
    }
    s
}

} // verus!
