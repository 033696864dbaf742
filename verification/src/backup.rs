//! What is kept on disk, and when it still holds. Reading and writing the
//! files is not part of the library.

use vstd::prelude::*;
use vstd::string::StrSliceExecFns;
use crate::calendar::{ordinal0_at, parse_second_stamp, second_stamp, utc_ordinal0};
use crate::charge::{last_charge_is_fresh, LastCharge, LAST_CHARGE_MAX_AGE};
use crate::scheduler::Block;
use crate::time::{truncate_to_unit, truncated, UNIT_SECONDS};

verus! {

/// Seconds for which a dated copy of the base data is kept.
pub const RETENTION_SECONDS: u64 = 172_800;

/// The day of the year, from 0, that holds `t`, in UTC; none where the
/// calendar has no date for it.
pub open spec fn day_of(t: u64) -> Option<int> {
    if t <= i64::MAX {
        utc_ordinal0(t as int)
    } else {
        None
    }
}

/// The block covers the day of the year `day`, in UTC: it begins or ends
/// on that day.
pub open spec fn covers_day(b: Block, day: int) -> bool {
    day_of(b.start_time) == Some(day) || day_of(b.end_time) == Some(day)
}

/// Some block of `blocks` covers the day of the year that holds `now`.
pub open spec fn blocks_for_day(blocks: Seq<Block>, now: u64) -> bool {
    day_of(now) matches Some(day) && exists|i: int|
        0 <= i < blocks.len() && covers_day(#[trigger] blocks[i], day)
}

/// Finds the day of the year that holds `t`.
pub fn ordinal0_of(t: u64) -> (r: Option<u32>)
    ensures
        match r {
            Some(d) => day_of(t) == Some(d as int),
            None => day_of(t).is_none(),
        },
{
    if t > i64::MAX as u64 {
        None
    } else {
        ordinal0_at(t as i64)
    }
}

/// Whether a day of the year, as found for a time, is one of the days on
/// which the blocks begin or end, as found for each block.
pub fn day_is_among(day: Option<u32>, spans: &Vec<(Option<u32>, Option<u32>)>) -> (r: bool)
    ensures
        r == (day matches Some(d) && exists|i: int|
            0 <= i < spans.len() && ((#[trigger] spans@[i]).0 == Some(d) || spans@[i].1 == Some(d))),
{
    let d = match day {
        Some(d) => d,
        None => {
            return false;
        },
    };
    let n = spans.len();
    let mut i: usize = 0;
    while i < n
        invariant
            n == spans.len(),
            i <= n,
            day == Some(d),
            forall|j: int|
                0 <= j < i ==> (#[trigger] spans@[j]).0 != Some(d) && spans@[j].1 != Some(d),
        decreases n - i,
    {
        let (first, last) = spans[i];
        let on_first = match first {
            Some(s) => s == d,
            None => false,
        };
        let on_last = match last {
            Some(s) => s == d,
            None => false,
        };
        if on_first || on_last {
            assert(spans@[i as int].0 == Some(d) || spans@[i as int].1 == Some(d));
            return true;
        }
        i += 1;
    }
    false
}

/// Decides whether the blocks that were loaded from the schedule file can
/// be gone by at `date_time`: some block has to cover the day of the year
/// that holds it.
pub fn load_schedule_blocks(blocks: Vec<Block>, date_time: u64) -> (r: Option<Vec<Block>>)
    ensures
        match r {
            Some(b) => b == blocks && blocks_for_day(blocks@, date_time),
            None => !blocks_for_day(blocks@, date_time),
        },
{
    let day = ordinal0_of(date_time);
    let mut spans: Vec<(Option<u32>, Option<u32>)> = Vec::new();
    let n = blocks.len();
    let mut i: usize = 0;
    while i < n
        invariant
            n == blocks.len(),
            i <= n,
            spans@.len() == i,
            forall|k: int|
                0 <= k < i ==> same_day((#[trigger] spans@[k]).0, day_of(blocks@[k].start_time))
                    && same_day(spans@[k].1, day_of(blocks@[k].end_time)),
        decreases n - i,
    {
        spans.push((ordinal0_of(blocks[i].start_time), ordinal0_of(blocks[i].end_time)));
        i += 1;
    }
    let found = day_is_among(day, &spans);
    proof {
        if found {
            let d = day.unwrap();
            let k = choose|k: int|
                0 <= k < spans.len() && ((#[trigger] spans@[k]).0 == Some(d) || spans@[k].1
                    == Some(d));
            assert(covers_day(blocks@[k], d as int));
        } else if day.is_some() {
            let d = day.unwrap();
            assert forall|k: int| 0 <= k < blocks.len() implies !covers_day(
                #[trigger] blocks@[k],
                d as int,
            ) by {
                assert(spans@[k].0 != Some(d) && spans@[k].1 != Some(d));
            }
        }
    }
    if found {
        Some(blocks)
    } else {
        None
    }
}

/// The day as it was found is the day as it is.
pub open spec fn same_day(found: Option<u32>, day: Option<int>) -> bool {
    match found {
        Some(d) => day == Some(d as int),
        None => day.is_none(),
    }
}

/// Decides whether the record of the last charge that was loaded can be
/// gone by at `now`: it must be no older than 23 hours.
pub fn load_last_charge(last_charge: Option<LastCharge>, now: u64) -> (r: Option<LastCharge>)
    ensures
        r == match last_charge {
            Some(l) => if now - l.date_time_end <= LAST_CHARGE_MAX_AGE {
                Some(l)
            } else {
                None
            },
            None => None,
        },
{
    match last_charge {
        Some(l) => if last_charge_is_fresh(&l, now) {
            Some(l)
        } else {
            None
        },
        None => None,
    }
}

/// Decides whether the active block that was loaded can be gone by at
/// `now`: the present time has to lie within it.
pub fn load_active_block(active_block: Option<Block>, now: u64) -> (r: Option<Block>)
    ensures
        r == match active_block {
            Some(b) => if b.covers(truncated(now as int, UNIT_SECONDS as int)) {
                Some(b)
            } else {
                None
            },
            None => None,
        },
{
    match active_block {
        Some(b) => if b.is_covering(truncate_to_unit(now)) {
            Some(b)
        } else {
            None
        },
        None => None,
    }
}

/// Number of characters in the name of a dated copy of the base data:
/// fourteen digits and `_base_data.json`.
pub const BASE_DATA_NAME_LEN: usize = 29;

/// What the name of a dated copy of the base data ends with.
pub open spec fn base_data_suffix() -> Seq<char> {
    "_base_data.json"@
}

/// The name is that of a dated copy of the base data, as far as its shape goes.
pub open spec fn base_data_shape(file_name: Seq<char>) -> bool {
    &&& vstd::utf8::is_ascii_chars(file_name)
    &&& file_name.len() == BASE_DATA_NAME_LEN
    &&& file_name.subrange(14, BASE_DATA_NAME_LEN as int) == base_data_suffix()
}

/// The time at which a dated copy of the base data was written, which its
/// name holds; none where the name is not that of such a copy, or the time
/// cannot be read or lies before the epoch.
pub open spec fn base_data_time(file_name: Seq<char>) -> Option<u64> {
    if base_data_shape(file_name) {
        match second_stamp(file_name.subrange(0, 14)) {
            Some(t) => if t >= 0 {
                Some(t as u64)
            } else {
                None
            },
            None => None,
        }
    } else {
        None
    }
}

/// Whether the text from position 14 on is what the name of a dated copy
/// of the base data ends with.
fn has_base_data_suffix(file_name: &str) -> (r: bool)
    requires
        file_name@.len() == BASE_DATA_NAME_LEN,
    ensures
        r == (file_name@.subrange(14, BASE_DATA_NAME_LEN as int) == base_data_suffix()),
{
    let suffix = "_base_data.json";
    proof {
        reveal_strlit("_base_data.json");
    }
    let mut i: usize = 0;
    while i < 15
        invariant
            i <= 15,
            file_name@.len() == BASE_DATA_NAME_LEN,
            suffix@ == base_data_suffix(),
            suffix@.len() == 15,
            forall|j: int| 0 <= j < i ==> file_name@[14 + j] == suffix@[j],
        decreases 15 - i,
    {
        if file_name.get_char(14 + i) != suffix.get_char(i) {
            assert(file_name@.subrange(14, 29)[i as int] != suffix@[i as int]);
            return false;
        }
        i += 1;
    }
    assert(file_name@.subrange(14, 29) =~= suffix@);
    true
}

/// Reads the time at which a dated copy of the base data was written from
/// the name of its file.
pub fn get_base_data_time(file_name: &str) -> (r: Option<u64>)
    ensures
        r == base_data_time(file_name@),
{
    if !file_name.is_ascii() || file_name.unicode_len() != BASE_DATA_NAME_LEN {
        return None;
    }
    if !has_base_data_suffix(file_name) {
        return None;
    }
    match parse_second_stamp(file_name.substring_ascii(0, 14)) {
        Ok(t) => if t >= 0 {
            Some(t as u64)
        } else {
            None
        },
        Err(_) => None,
    }
}

/// `r` lists, in order, the positions of the copies that are past their
/// keeping at `now`, among the first `n`.
pub open spec fn expired_upto(written: Seq<Option<u64>>, now: u64, n: int) -> Seq<usize>
    decreases n,
{
    if n <= 0 {
        Seq::empty()
    } else {
        let before = expired_upto(written, now, n - 1);
        match written[n - 1] {
            Some(t) => if now - t > RETENTION_SECONDS {
                before.push((n - 1) as usize)
            } else {
                before
            },
            None => before,
        }
    }
}

/// Lists the dated copies of the base data that are to be removed at `now`:
/// those that were written more than 48 hours before, given the time of each
/// file where its name gave one.
pub fn sweep_base_data(written: &Vec<Option<u64>>, now: u64) -> (r: Vec<usize>)
    ensures
        r@ == expired_upto(written@, now, written@.len() as int),
{
    let mut r: Vec<usize> = Vec::new();
    let n = written.len();
    let mut i: usize = 0;
    while i < n
        invariant
            n == written@.len(),
            i <= n,
            r@ == expired_upto(written@, now, i as int),
        decreases n - i,
    {
        match written[i] {
            Some(t) => {
                if is_expired(t, now) {
                    r.push(i);
                }
            },
            None => {},
        }
        i += 1;
    }
    r
}

/// Whether a dated copy of the base data, written at `written`, is past
/// its keeping at `now`.
pub fn is_expired(written: u64, now: u64) -> (r: bool)
    ensures
        r == (now - written > RETENTION_SECONDS),
{
    now > written && now - written > RETENTION_SECONDS
}

} // verus!
