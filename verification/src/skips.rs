//! Days on which the schedule is skipped.

use vstd::prelude::*;
use crate::calendar::Date;
use crate::manual::{is_listed, listed};

verus! {

/// The days that are listed for skipping.
#[derive(Debug)]
pub struct SkipDates {
    pub dates: Vec<Date>,
}

/// Checks whether the day `date` is skipped, given what the skip file
/// holds, if it is there, and whether skip mode was on so far. Returns
/// whether skip mode is on from now, and the new mode if it has changed.
pub fn check_skip(skip: &Option<SkipDates>, date: Date, was_skip: bool) -> (r: (bool, Option<bool>))
    ensures
        r.0 == (*skip matches Some(s) && listed(s.dates@, date)),
        r.1 == (if r.0 == was_skip {
            None
        } else {
            Some(r.0)
        }),
{
    let now_skip = match skip {
        Some(s) => is_listed(&s.dates, date),
        None => false,
    };
    if now_skip == was_skip {
        (now_skip, None)
    } else {
        (now_skip, Some(now_skip))
    }
}

} // verus!
