//! Capture timestamps and their text forms in the destination tree.
use chrono::{Datelike, Timelike};
use vstd::prelude::*;

verus! {

/// Layout of the capture-date tag of embedded image metadata.
pub const EXIF_DATE_LAYOUT: &'static str = "%Y:%m:%d %H:%M:%S";

/// Earliest and latest calendar years that a capture time can hold.
pub const MIN_YEAR: i32 = -262143;

pub const MAX_YEAR: i32 = 262142;

/// A naive (zone-less) calendar date and time of day, to the second.
/// `second` is 60 only on a leap second.
#[derive(Clone, Copy, Debug, PartialEq, Eq, Structural)]
pub struct CaptureTime {
    pub year: i32,
    pub month: u8,
    pub day: u8,
    pub hour: u8,
    pub minute: u8,
    pub second: u8,
}

/// Calendar fields as the date library hands them out:
/// (year, month, day, hour, minute, second, nanosecond).
pub type CalendarFields = (i32, u32, u32, u32, u32, u32, u32);

impl CaptureTime {
    pub open spec fn wf(&self) -> bool {
        &&& MIN_YEAR <= self.year <= MAX_YEAR
        &&& 1 <= self.month <= 12
        &&& 1 <= self.day <= 31
        &&& self.hour <= 23
        &&& self.minute <= 59
        &&& self.second <= 60
    }
}

/// The range of every field of a date and time that the date library produces.
pub open spec fn fields_in_range(f: CalendarFields) -> bool {
    &&& MIN_YEAR <= f.0 <= MAX_YEAR
    &&& 1 <= f.1 <= 12
    &&& 1 <= f.2 <= 31
    &&& f.3 <= 23
    &&& f.4 <= 59
    &&& f.5 <= 59
    &&& f.6 < 2_000_000_000
}

/// The capture time that calendar fields denote; a nanosecond count of a
/// second or more marks a leap second.
pub open spec fn time_of_fields(f: CalendarFields) -> CaptureTime {
    CaptureTime {
        year: f.0,
        month: f.1 as u8,
        day: f.2 as u8,
        hour: f.3 as u8,
        minute: f.4 as u8,
        second: (if f.6 >= 1_000_000_000 { f.5 + 1 } else { f.5 as int }) as u8,
    }
}

/// What the date library parses from `text` read with `layout`.
pub uninterp spec fn parsed_datetime_of(text: Seq<char>, layout: Seq<char>) -> Option<CalendarFields>;

/// What the date library gives as the UTC calendar time of a count of
/// seconds since the Unix epoch.
pub uninterp spec fn utc_datetime_of(secs: i64) -> Option<CalendarFields>;

/// Relies on chrono's `NaiveDateTime::parse_from_str`: the result depends on the
/// text and the layout alone, and a parsed value lies in chrono's calendar range.
#[verifier::external_body]
fn parse_datetime(text: &str, layout: &str) -> (r: Option<CalendarFields>)
    ensures
        r == parsed_datetime_of(text@, layout@),
        r matches Some(f) ==> fields_in_range(f),
{
    let d = chrono::NaiveDateTime::parse_from_str(text, layout).ok()?;
    Some((d.year(), d.month(), d.day(), d.hour(), d.minute(), d.second(), d.nanosecond()))
}

/// Relies on chrono's `DateTime::from_timestamp` (with no sub-second part) and
/// `naive_utc`: the result depends on the count alone, and lies in chrono's range.
#[verifier::external_body]
fn utc_from_unix(secs: i64) -> (r: Option<CalendarFields>)
    ensures
        r == utc_datetime_of(secs),
        r matches Some(f) ==> fields_in_range(f),
{
    let d = chrono::DateTime::from_timestamp(secs, 0)?.naive_utc();
    Some((d.year(), d.month(), d.day(), d.hour(), d.minute(), d.second(), d.nanosecond()))
}

/// The capture time that calendar fields denote.
pub fn from_fields(f: CalendarFields) -> (r: CaptureTime)
    requires
        fields_in_range(f),
    ensures
        r == time_of_fields(f),
        r.wf(),
{
    let second = if f.6 >= 1_000_000_000 {
        f.5 + 1
    } else {
        f.5
    };
    CaptureTime {
        year: f.0,
        month: f.1 as u8,
        day: f.2 as u8,
        hour: f.3 as u8,
        minute: f.4 as u8,
        second: second as u8,
    }
}

/// The capture time written in a metadata tag as `YYYY:MM:DD HH:MM:SS`;
/// `None` when the text does not parse.
pub open spec fn exif_time_of(text: Seq<char>) -> Option<CaptureTime> {
    match parsed_datetime_of(text, EXIF_DATE_LAYOUT@) {
        Some(f) => Some(time_of_fields(f)),
        None => None,
    }
}

/// Reads the capture time from the text of a metadata date tag.
pub fn parse_exif_date(text: &str) -> (r: Option<CaptureTime>)
    ensures
        r == exif_time_of(text@),
        r matches Some(t) ==> t.wf(),
{
    match parse_datetime(text, EXIF_DATE_LAYOUT) {
        Some(f) => Some(from_fields(f)),
        None => None,
    }
}

/// The UTC calendar time of a count of seconds since the Unix epoch.
pub open spec fn unix_time_of(secs: i64) -> Option<CaptureTime> {
    match utc_datetime_of(secs) {
        Some(f) => Some(time_of_fields(f)),
        None => None,
    }
}

/// Converts a file-system time, in seconds since the Unix epoch, to a
/// zone-less calendar time in UTC.
pub fn time_from_unix(secs: i64) -> (r: Option<CaptureTime>)
    ensures
        r == unix_time_of(secs),
        r matches Some(t) ==> t.wf(),
{
    match utc_from_unix(secs) {
        Some(f) => Some(from_fields(f)),
        None => None,
    }
}

// ---- text forms ----

pub open spec fn hex_char(d: int) -> char {
    if d == 0 { '0' } else if d == 1 { '1' } else if d == 2 { '2' } else if d == 3 { '3' }
    else if d == 4 { '4' } else if d == 5 { '5' } else if d == 6 { '6' } else if d == 7 { '7' }
    else if d == 8 { '8' } else if d == 9 { '9' } else if d == 10 { 'A' } else if d == 11 { 'B' }
    else if d == 12 { 'C' } else if d == 13 { 'D' } else if d == 14 { 'E' } else { 'F' }
}

/// `n` in decimal, zero-padded on the left to at least `width` digits.
pub open spec fn decimal(n: nat, width: nat) -> Seq<char>
    decreases n + width,
{
    if n < 10 && width <= 1 {
        seq![hex_char(n as int)]
    } else {
        decimal(n / 10, if width > 0 { (width - 1) as nat } else { 0 }) + seq![hex_char(
            (n % 10) as int,
        )]
    }
}

/// The last `width` hexadecimal digits of `n`, upper case.
pub open spec fn hex_digits(n: nat, width: nat) -> Seq<char>
    decreases width,
{
    if width == 0 {
        Seq::empty()
    } else {
        hex_digits(n / 16, (width - 1) as nat) + seq![hex_char((n % 16) as int)]
    }
}

/// A year with at least four digits; a year outside 0 to 9999 carries its sign.
pub open spec fn year_text(y: int) -> Seq<char> {
    if 0 <= y <= 9999 {
        decimal(y as nat, 4)
    } else if y < 0 {
        seq!['-'] + decimal((-y) as nat, 4)
    } else {
        seq!['+'] + decimal(y as nat, 4)
    }
}

/// `YYYY/MM/DD`: the directories that hold what was captured on that day.
pub open spec fn day_directory(t: CaptureTime) -> Seq<char> {
    year_text(t.year as int) + seq!['/'] + decimal(t.month as nat, 2) + seq!['/'] + decimal(
        t.day as nat,
        2,
    )
}

/// `YYYYMMDD_HHMMSS`.
pub open spec fn stamp_text(t: CaptureTime) -> Seq<char> {
    year_text(t.year as int) + decimal(t.month as nat, 2) + decimal(t.day as nat, 2) + seq!['_']
        + decimal(t.hour as nat, 2) + decimal(t.minute as nat, 2) + decimal(t.second as nat, 2)
}

/// A content hash as eight upper-case hexadecimal digits.
pub open spec fn hash_text(h: u32) -> Seq<char> {
    hex_digits(h as nat, 8)
}

fn digit_str(d: u32) -> (r: &'static str)
    requires
        d < 16,
    ensures
        r@ == seq![hex_char(d as int)],
{
    proof {
        reveal_strlit("0");
        reveal_strlit("1");
        reveal_strlit("2");
        reveal_strlit("3");
        reveal_strlit("4");
        reveal_strlit("5");
        reveal_strlit("6");
        reveal_strlit("7");
        reveal_strlit("8");
        reveal_strlit("9");
        reveal_strlit("A");
        reveal_strlit("B");
        reveal_strlit("C");
        reveal_strlit("D");
        reveal_strlit("E");
        reveal_strlit("F");
    }
    let r = if d == 0 { "0" } else if d == 1 { "1" } else if d == 2 { "2" } else if d == 3 { "3" }
    else if d == 4 { "4" } else if d == 5 { "5" } else if d == 6 { "6" } else if d == 7 { "7" }
    else if d == 8 { "8" } else if d == 9 { "9" } else if d == 10 { "A" } else if d == 11 { "B" }
    else if d == 12 { "C" } else if d == 13 { "D" } else if d == 14 { "E" } else { "F" };
    assert(r@ =~= seq![hex_char(d as int)]);
    r
}

/// `n` in decimal, zero-padded to at least `width` digits.
pub fn decimal_text(n: u32, width: u32) -> (r: String)
    ensures
        r@ == decimal(n as nat, width as nat),
    decreases n + width,
{
    if n < 10 && width <= 1 {
        String::from_str(digit_str(n))
    } else {
        let w = if width > 0 {
            width - 1
        } else {
            0
        };
        let mut s = decimal_text(n / 10, w);
        s.append(digit_str(n % 10));
        s
    }
}

/// The last `width` hexadecimal digits of `n`.
pub fn hex_text(n: u32, width: u32) -> (r: String)
    ensures
        r@ == hex_digits(n as nat, width as nat),
    decreases width,
{
    if width == 0 {
        String::new()
    } else {
        let mut s = hex_text(n / 16, width - 1);
        s.append(digit_str(n % 16));
        s
    }
}

fn year_string(y: i32) -> (r: String)
    requires
        MIN_YEAR <= y <= MAX_YEAR,
    ensures
        r@ == year_text(y as int),
{
    if 0 <= y && y <= 9999 {
        decimal_text(y as u32, 4)
    } else if y < 0 {
        let mut s = String::from_str("-");
        let digits = decimal_text((-y) as u32, 4);
        s.append(digits.as_str());
        proof {
            reveal_strlit("-");
        }
        s
    } else {
        let mut s = String::from_str("+");
        let digits = decimal_text(y as u32, 4);
        s.append(digits.as_str());
        proof {
            reveal_strlit("+");
        }
        s
    }
}

impl CaptureTime {
    /// The `YYYY/MM/DD` directories of this time.
    pub fn day_directory(&self) -> (r: String)
        requires
            self.wf(),
        ensures
            r@ == day_directory(*self),
    {
        let mut s = year_string(self.year);
        s.append("/");
        s.append(decimal_text(self.month as u32, 2).as_str());
        s.append("/");
        s.append(decimal_text(self.day as u32, 2).as_str());
        proof {
            reveal_strlit("/");
        }
        s
    }

    /// The `YYYYMMDD_HHMMSS` stamp of this time.
    pub fn stamp(&self) -> (r: String)
        requires
            self.wf(),
        ensures
            r@ == stamp_text(*self),
    {
        let mut s = year_string(self.year);
        s.append(decimal_text(self.month as u32, 2).as_str());
        s.append(decimal_text(self.day as u32, 2).as_str());
        s.append("_");
        s.append(decimal_text(self.hour as u32, 2).as_str());
        s.append(decimal_text(self.minute as u32, 2).as_str());
        s.append(decimal_text(self.second as u32, 2).as_str());
        proof {
            reveal_strlit("_");
        }
        s
    }
}

/// A content hash as eight upper-case hexadecimal digits.
pub fn hash_string(h: u32) -> (r: String)
    ensures
        r@ == hash_text(h),
{
    hex_text(h, 8)
}

} // verus!
