use chrono::{Datelike, Timelike};
use vstd::prelude::*;
use crate::text::{padded, push_char, push_padded, push_year, year_text};

verus! {

/// A local wall-clock reading, held as plain calendar fields.
#[derive(Clone, Copy, Debug, PartialEq, Eq, Structural)]
pub struct LocalDateTime {
    pub year: i32,
    pub month: u32,
    pub day: u32,
    pub hour: u32,
    pub minute: u32,
    pub second: u32,
    /// Seconds since the Unix epoch.
    pub unix_secs: i64,
}

impl LocalDateTime {
    /// The fields lie in their calendar ranges.
    pub open spec fn wf(&self) -> bool {
        &&& 1 <= self.month <= 12
        &&& 1 <= self.day <= 31
        &&& self.hour <= 23
        &&& self.minute <= 59
        &&& self.second <= 59
    }

    /// `YYYY-MM-DD`.
    pub open spec fn date_text(&self) -> Seq<char> {
        year_text(self.year as int) + seq!['-'] + padded(self.month as nat, 2) + seq!['-']
            + padded(self.day as nat, 2)
    }

    /// `YYYYMMDD_HHMMSS`.
    pub open spec fn stamp_text(&self) -> Seq<char> {
        year_text(self.year as int) + padded(self.month as nat, 2) + padded(self.day as nat, 2)
            + seq!['_'] + padded(self.hour as nat, 2) + padded(self.minute as nat, 2) + padded(
            self.second as nat,
            2,
        )
    }

    /// Builds a reading from its fields; `None` when a field is out of range.
    pub fn new(
        year: i32,
        month: u32,
        day: u32,
        hour: u32,
        minute: u32,
        second: u32,
        unix_secs: i64,
    ) -> (r: Option<LocalDateTime>)
        ensures
            r is Some <==> (LocalDateTime { year, month, day, hour, minute, second, unix_secs }).wf(),
            r is Some ==> r->0 == (LocalDateTime { year, month, day, hour, minute, second, unix_secs }),
    {
        let t = LocalDateTime { year, month, day, hour, minute, second, unix_secs };
        if 1 <= month && month <= 12 && 1 <= day && day <= 31 && hour <= 23 && minute <= 59 && second
            <= 59 {
            Some(t)
        } else {
            None
        }
    }

    /// The date as `YYYY-MM-DD`, the name of a daily directory.
    pub fn date_string(&self) -> (r: String)
        ensures
            r@ == self.date_text(),
    {
        let mut s = String::new();
        push_year(&mut s, self.year);
        push_char(&mut s, '-');
        push_padded(&mut s, self.month as u64, 2);
        push_char(&mut s, '-');
        push_padded(&mut s, self.day as u64, 2);
        assert(s@ =~= self.date_text());
        s
    }

    /// The reading as `YYYYMMDD_HHMMSS`.
    pub fn stamp_string(&self) -> (r: String)
        ensures
            r@ == self.stamp_text(),
    {
        let mut s = String::new();
        push_year(&mut s, self.year);
        push_padded(&mut s, self.month as u64, 2);
        push_padded(&mut s, self.day as u64, 2);
        push_char(&mut s, '_');
        push_padded(&mut s, self.hour as u64, 2);
        push_padded(&mut s, self.minute as u64, 2);
        push_padded(&mut s, self.second as u64, 2);
        assert(s@ =~= self.stamp_text());
        s
    }
}

/// Relies on chrono::Local::now with the Datelike and Timelike accessors:
/// month in 1..=12, day in 1..=31, hour in 0..=23, minute and second in 0..=59.
#[verifier::external_body]
pub(crate) fn local_now() -> (r: LocalDateTime)
    ensures
        r.wf(),
{
    let t = chrono::Local::now();
    LocalDateTime {
        year: t.year(),
        month: t.month(),
        day: t.day(),
        hour: t.hour(),
        minute: t.minute(),
        second: t.second(),
        unix_secs: t.timestamp(),
    }
}

} // verus!
