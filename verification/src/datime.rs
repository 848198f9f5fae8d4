use vstd::prelude::*;
use crate::push_char;

verus! {

/// Whether a point in time is expressed in universal or in local time.
#[derive(PartialEq, Eq, Structural, Copy, Clone, Debug)]
pub enum Region {
    Utc,
    Local,
}

/// A broken-down point in time: a unix timestamp together with its calendar
/// fields in some region. The fields are taken as given at construction;
/// only the region and the timestamp relate them.
#[derive(Copy, Clone)]
pub struct DateTime {
    region: Region,
    tstamp: i64,
    year: u16,
    month: u8,
    day: u8,
    hour: u8,
    min: u8,
    sec: u8,
    wday: u8,
    yday: u16,
}

/// The mathematical content of a `DateTime`: all of its fields.
pub ghost struct DateTimeView {
    pub region: Region,
    pub tstamp: i64,
    pub year: u16,
    pub month: u8,
    pub day: u8,
    pub hour: u8,
    pub min: u8,
    pub sec: u8,
    pub wday: u8,
    pub yday: u16,
}

impl View for DateTime {
    type V = DateTimeView;

    closed spec fn view(&self) -> DateTimeView {
        DateTimeView {
            region: self.region,
            tstamp: self.tstamp,
            year: self.year,
            month: self.month,
            day: self.day,
            hour: self.hour,
            min: self.min,
            sec: self.sec,
            wday: self.wday,
            yday: self.yday,
        }
    }
}

// ---------------------------------------------------------------------------
// Decimal numerals
// ---------------------------------------------------------------------------

/// The decimal digit character for `d`.
pub open spec fn digit_char(d: nat) -> char {
    if d == 0 {
        '0'
    } else if d == 1 {
        '1'
    } else if d == 2 {
        '2'
    } else if d == 3 {
        '3'
    } else if d == 4 {
        '4'
    } else if d == 5 {
        '5'
    } else if d == 6 {
        '6'
    } else if d == 7 {
        '7'
    } else if d == 8 {
        '8'
    } else {
        '9'
    }
}

/// The decimal numeral of `n`, without leading zeros (`0` itself included).
pub open spec fn dec_rep(n: nat) -> Seq<char>
    decreases n,
{
    if n < 10 {
        seq![digit_char(n)]
    } else {
        dec_rep(n / 10).push(digit_char(n % 10))
    }
}

/// The decimal numeral of `n`, padded with a leading zero to at least
/// two digits.
pub open spec fn dec_rep2(n: nat) -> Seq<char> {
    if n < 10 {
        seq!['0', digit_char(n)]
    } else {
        dec_rep(n)
    }
}

/// The `year/month/day hour:minute:second` rendering of a point in time,
/// the year unpadded, every other field padded to two digits.
pub open spec fn spec_date_string(v: DateTimeView) -> Seq<char> {
    dec_rep(v.year as nat) + seq!['/'] + dec_rep2(v.month as nat) + seq!['/'] + dec_rep2(
        v.day as nat,
    ) + seq![' '] + dec_rep2(v.hour as nat) + seq![':'] + dec_rep2(v.min as nat) + seq![':']
        + dec_rep2(v.sec as nat)
}

fn digit_char_of(d: u16) -> (c: char)
    requires
        d < 10,
    ensures
        c == digit_char(d as nat),
{
    match d {
        0 => '0',
        1 => '1',
        2 => '2',
        3 => '3',
        4 => '4',
        5 => '5',
        6 => '6',
        7 => '7',
        8 => '8',
        _ => '9',
    }
}

/// Appends the decimal numeral of `n`.
fn push_dec(s: &mut String, n: u16)
    ensures
        final(s)@ == old(s)@ + dec_rep(n as nat),
    decreases n,
{
    if n < 10 {
        push_char(s, digit_char_of(n));
        proof {
            assert(s@ =~= old(s)@ + dec_rep(n as nat));
        }
    } else {
        push_dec(s, n / 10);
        push_char(s, digit_char_of(n % 10));
        proof {
            assert(s@ =~= old(s)@ + dec_rep(n as nat));
        }
    }
}

/// Appends the decimal numeral of `n`, zero-padded to at least two digits.
fn push_dec2(s: &mut String, n: u8)
    ensures
        final(s)@ == old(s)@ + dec_rep2(n as nat),
{
    if n < 10 {
        push_char(s, '0');
        push_char(s, digit_char_of(n as u16));
        proof {
            assert(s@ =~= old(s)@ + dec_rep2(n as nat));
        }
    } else {
        push_dec(s, n as u16);
    }
}

// ---------------------------------------------------------------------------
// Methods
// ---------------------------------------------------------------------------

impl DateTime {
    /// Builds a `DateTime` from its already broken-down fields.
    pub fn from_parts(
        region: Region,
        tstamp: i64,
        year: u16,
        month: u8,
        day: u8,
        hour: u8,
        min: u8,
        sec: u8,
        wday: u8,
        yday: u16,
    ) -> (dt: DateTime)
        ensures
            dt@ == (DateTimeView { region, tstamp, year, month, day, hour, min, sec, wday, yday }),
    {
        DateTime { region, tstamp, year, month, day, hour, min, sec, wday, yday }
    }

    /// The unix timestamp this value was built from.
    pub fn timestamp(&self) -> (ts: i64)
        ensures
            ts == self@.tstamp,
    {
        self.tstamp
    }

    /// The day's number within the week, `1` for Monday through `7` for
    /// Sunday; a stored week day of `0` means Sunday.
    pub fn day_of_week(&self) -> (d: isize)
        ensures
            d == if self@.wday == 0 {
                7int
            } else {
                self@.wday as int
            },
    {
        if self.wday == 0 {
            return 7;
        }
        self.wday as isize
    }

    /// The day's number within the year, counted from `1`.
    pub fn day_of_year(&self) -> (d: isize)
        ensures
            d == self@.yday as int + 1,
    {
        (self.yday as isize) + 1
    }

    /// The calendar year.
    pub fn year(&self) -> (y: isize)
        ensures
            y == self@.year as int,
    {
        self.year as isize
    }

    /// The week number derived from the day of the year: the count of whole
    /// seven-day stretches, raised by one when it does not fall on a
    /// seven-week boundary.
    pub fn week_of_year(&self) -> (w: isize)
        ensures
            w == spec_week_of_year(self@),
    {
        let n: u32 = (self.yday as u32 + 1) / 7;
        if n % 7 != 0 {
            return (n + 1) as isize;
        }
        n as isize
    }

    /// Whether this value is expressed in universal time.
    pub fn is_utc(&self) -> (b: bool)
        ensures
            b == (self@.region == Region::Utc),
    {
        self.region == Region::Utc
    }

    /// Whether this value is expressed in local time.
    pub fn is_local(&self) -> (b: bool)
        ensures
            b == (self@.region == Region::Local),
    {
        self.region == Region::Local
    }

    /// The timestamp `n` seconds after this value's, where it fits.
    pub fn timestamp_plus_seconds(&self, n: i64) -> (r: Option<i64>)
        ensures
            r == if i64::MIN <= self@.tstamp + n <= i64::MAX {
                Some((self@.tstamp + n) as i64)
            } else {
                None::<i64>
            },
    {
        self.tstamp.checked_add(n)
    }

    /// The timestamp `n` minutes after this value's, where it fits.
    pub fn timestamp_plus_minutes(&self, n: i64) -> (r: Option<i64>)
        ensures
            r == if i64::MIN <= n * SECONDS_IN_MINUTE <= i64::MAX && i64::MIN <= self@.tstamp + n
                * SECONDS_IN_MINUTE <= i64::MAX {
                Some((self@.tstamp + n * SECONDS_IN_MINUTE) as i64)
            } else {
                None::<i64>
            },
    {
        match n.checked_mul(SECONDS_IN_MINUTE) {
            Some(shift) => self.tstamp.checked_add(shift),
            None => None,
        }
    }

    /// The timestamp `n` days after this value's, where it fits.
    pub fn timestamp_plus_days(&self, n: i64) -> (r: Option<i64>)
        ensures
            r == if i64::MIN <= n * SECONDS_IN_DAY <= i64::MAX && i64::MIN <= self@.tstamp + n
                * SECONDS_IN_DAY <= i64::MAX {
                Some((self@.tstamp + n * SECONDS_IN_DAY) as i64)
            } else {
                None::<i64>
            },
    {
        match n.checked_mul(SECONDS_IN_DAY) {
            Some(shift) => self.tstamp.checked_add(shift),
            None => None,
        }
    }

    /// Renders the calendar fields as `year/month/day hour:minute:second`,
    /// every field but the year zero-padded to two digits.
    pub fn as_string(&self) -> (s: String)
        ensures
            s@ == spec_date_string(self@),
    {
        let mut s = String::new();
        push_dec(&mut s, self.year);
        push_char(&mut s, '/');
        push_dec2(&mut s, self.month);
        push_char(&mut s, '/');
        push_dec2(&mut s, self.day);
        push_char(&mut s, ' ');
        push_dec2(&mut s, self.hour);
        push_char(&mut s, ':');
        push_dec2(&mut s, self.min);
        push_char(&mut s, ':');
        push_dec2(&mut s, self.sec);
        proof {
            assert(s@ =~= spec_date_string(self@));
        }
        s
    }
}

pub const SECONDS_IN_MINUTE: i64 = 60;

pub const SECONDS_IN_HOUR: i64 = 60 * SECONDS_IN_MINUTE;

pub const SECONDS_IN_DAY: i64 = 24 * SECONDS_IN_HOUR;

/// The week number that `week_of_year` computes from the day of the year.
pub open spec fn spec_week_of_year(v: DateTimeView) -> int {
    let n = (v.yday + 1) / 7;
    if n % 7 != 0 {
        n + 1
    } else {
        n as int
    }
}

} // verus!
