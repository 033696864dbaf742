//! Days that are run by hand.

use vstd::prelude::*;
use crate::calendar::Date;

verus! {

/// The days that are listed for manual operation.
#[derive(Debug)]
pub struct ManualDates {
    pub dates: Vec<Date>,
}

/// `date` is among `dates`.
pub open spec fn listed(dates: Seq<Date>, date: Date) -> bool {
    exists|i: int| 0 <= i < dates.len() && dates[i] == date
}

/// Whether `date` is among `dates`.
pub fn is_listed(dates: &Vec<Date>, date: Date) -> (r: bool)
    ensures
        r == listed(dates@, date),
{
    let n = dates.len();
    let mut i: usize = 0;
    while i < n
        invariant
            n == dates.len(),
            i <= n,
            forall|j: int| 0 <= j < i ==> dates@[j] != date,
        decreases n - i,
    {
        if dates[i] == date {
            return true;
        }
        i += 1;
    }
    false
}

/// Whether the day is run by hand: the file of manual days is there and
/// lists the day.
pub open spec fn manual_today(manual: Option<ManualDates>, date: Date) -> bool {
    manual matches Some(m) && listed(m.dates@, date)
}

/// Checks whether the day `date` is run by hand, given what the file of
/// manual days holds, if it is there, and whether manual mode was on so far.
/// Returns whether manual mode is on from now, and the new mode if it has
/// changed.
pub fn check_manual(manual: &Option<ManualDates>, date: Date, was_manual: bool) -> (r: (
    bool,
    Option<bool>,
))
    ensures
        r.0 == manual_today(*manual, date),
        r.1 == (if r.0 == was_manual {
            None
        } else {
            Some(r.0)
        }),
{
    let now_manual = match manual {
        Some(m) => is_listed(&m.dates, date),
        None => false,
    };
    if now_manual == was_manual {
        (now_manual, None)
    } else {
        (now_manual, Some(now_manual))
    }
}

} // verus!
