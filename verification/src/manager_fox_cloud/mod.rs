//! What is said to the inverter's cloud service: the requests, their
//! signature, and the schedule for charging from grid. Sending them is not
//! part of the library.

pub mod errors;

use vstd::prelude::*;
use vstd::string::{StrSliceExecFns, StringExecFns};
use md5::{Digest, Md5};
use crate::calendar::{local_time, LocalTime};
use crate::manager_fox_cloud::errors::FoxError;
use crate::models::charging_time_schedule::{ChargingTime, ChargingTimeSchedule};
use crate::models::fox_soc_settings::SetSoc;
use crate::models::soc_settings::RequestCurrentSoc;
use crate::text::{decimal, decimal_text, hex, hex_text};
use crate::time::MAX_TIME;

verus! {

/// Address of the cloud service.
pub const REQUEST_DOMAIN: &'static str = "https://www.foxesscloud.com";

/// What the cloud service needs to know of the inverter and its owner.
#[derive(Debug)]
pub struct Fox {
    pub api_key: String,
    pub sn: String,
}

/// What is wrong with the times of a charge schedule.
#[derive(Clone, Copy, PartialEq, Eq, Structural, Debug)]
pub enum TimeFault {
    Start1,
    End1,
    Order1,
    Start2,
    End2,
    Order2,
    Overlap,
}

/// The message of a fault.
pub open spec fn time_fault_text(f: TimeFault) -> Seq<char> {
    match f {
        TimeFault::Start1 => "charge schedule 1 start time error"@,
        TimeFault::End1 => "charge schedule 1 end time error"@,
        TimeFault::Order1 => "charge schedule 1 start time is after end time"@,
        TimeFault::Start2 => "charge schedule 2 start time error"@,
        TimeFault::End2 => "charge schedule 2 end time error"@,
        TimeFault::Order2 => "charge schedule 2 start time is after end time"@,
        TimeFault::Overlap => "overlapping charge schedules"@,
    }
}

/// The error that reports a fault.
fn time_fault_error(f: TimeFault) -> (e: FoxError)
    ensures
        e.0@ == time_fault_text(f),
{
    let text = match f {
        TimeFault::Start1 => "charge schedule 1 start time error",
        TimeFault::End1 => "charge schedule 1 end time error",
        TimeFault::Order1 => "charge schedule 1 start time is after end time",
        TimeFault::Start2 => "charge schedule 2 start time error",
        TimeFault::End2 => "charge schedule 2 end time error",
        TimeFault::Order2 => "charge schedule 2 start time is after end time",
        TimeFault::Overlap => "overlapping charge schedules",
    };
    FoxError(String::from_str(text))
}

/// The hour and the minute make a time of day.
pub open spec fn time_valid(hour: u8, minute: u8) -> bool {
    hour <= 23 && minute <= 59
}

/// Minutes since midnight.
pub open spec fn minute_of_day(hour: u8, minute: u8) -> int {
    hour * 60 + minute
}

/// The two times of one span of a charge schedule.
#[derive(Clone, Copy, PartialEq, Eq, Structural, Debug)]
pub struct TimeSpan {
    pub enable: bool,
    pub start_hour: u8,
    pub start_minute: u8,
    pub end_hour: u8,
    pub end_minute: u8,
}

impl TimeSpan {
    /// Minute of the day at which the span starts.
    pub open spec fn start(&self) -> int {
        minute_of_day(self.start_hour, self.start_minute)
    }

    /// Minute of the day at which the span ends.
    pub open spec fn end(&self) -> int {
        minute_of_day(self.end_hour, self.end_minute)
    }

    /// The span is switched on and has a length.
    pub open spec fn in_force(&self) -> bool {
        self.enable && self.start() < self.end()
    }

    /// The span as it is sent: a span that is not in force is sent as
    /// switched off, from midnight to midnight.
    pub open spec fn sent(&self) -> TimeSpan {
        if self.in_force() {
            *self
        } else {
            TimeSpan { enable: false, start_hour: 0, start_minute: 0, end_hour: 0, end_minute: 0 }
        }
    }
}

/// The first fault of a charge schedule, if any. The times of both spans
/// have to be times of day with the start no later than the end, whether the
/// span is switched on or not; two spans that are in force must not share a
/// minute, their ends included.
pub open spec fn schedule_fault(one: TimeSpan, two: TimeSpan) -> Option<TimeFault> {
    if !time_valid(one.start_hour, one.start_minute) {
        Some(TimeFault::Start1)
    } else if !time_valid(one.end_hour, one.end_minute) {
        Some(TimeFault::End1)
    } else if one.end() < one.start() {
        Some(TimeFault::Order1)
    } else if !time_valid(two.start_hour, two.start_minute) {
        Some(TimeFault::Start2)
    } else if !time_valid(two.end_hour, two.end_minute) {
        Some(TimeFault::End2)
    } else if two.end() < two.start() {
        Some(TimeFault::Order2)
    } else if one.in_force() && two.in_force() && two.start() <= one.end() && one.start()
        <= two.end() {
        Some(TimeFault::Overlap)
    } else {
        None
    }
}

/// The charge schedule that is sent for two spans without a fault.
pub open spec fn schedule_sent(one: TimeSpan, two: TimeSpan) -> ChargingTimeSchedule {
    let a = one.sent();
    let b = two.sent();
    ChargingTimeSchedule {
        enable_1: a.enable,
        start_time_1: ChargingTime { hour: a.start_hour, minute: a.start_minute },
        end_time_1: ChargingTime { hour: a.end_hour, minute: a.end_minute },
        enable_2: b.enable,
        start_time_2: ChargingTime { hour: b.start_hour, minute: b.start_minute },
        end_time_2: ChargingTime { hour: b.end_hour, minute: b.end_minute },
    }
}

/// Minutes since midnight.
fn minutes(hour: u8, minute: u8) -> (m: u32)
    ensures
        m == minute_of_day(hour, minute),
{
    hour as u32 * 60 + minute as u32
}

/// The span as it is sent.
fn as_sent(s: TimeSpan) -> (r: TimeSpan)
    requires
        time_valid(s.start_hour, s.start_minute),
        time_valid(s.end_hour, s.end_minute),
    ensures
        r == s.sent(),
{
    if s.enable && minutes(s.start_hour, s.start_minute) < minutes(s.end_hour, s.end_minute) {
        s
    } else {
        TimeSpan { enable: false, start_hour: 0, start_minute: 0, end_hour: 0, end_minute: 0 }
    }
}

/// The span for charging from the time of day of `from` to that of `to`.
pub open spec fn window_span(from: LocalTime, to: LocalTime) -> TimeSpan {
    TimeSpan {
        enable: true,
        start_hour: from.hour as u8,
        start_minute: from.minute as u8,
        end_hour: to.hour as u8,
        end_minute: to.minute as u8,
    }
}

/// `r` is what comes of the charge schedule with the one span from `from`
/// to `to`: the schedule as it is sent, or the error that reports the
/// span's first fault.
pub open spec fn window_outcome(
    from: LocalTime,
    to: LocalTime,
    r: Result<ChargingTimeSchedule, FoxError>,
) -> bool {
    match r {
        Ok(s) => schedule_fault(window_span(from, to), Fox::off()).is_none() && s == schedule_sent(
            window_span(from, to),
            Fox::off(),
        ),
        Err(e) => schedule_fault(window_span(from, to), Fox::off()) matches Some(f) && e.0@
            == time_fault_text(f),
    }
}

/// The two times can stand for a span of charging: both are times that the
/// library computes with, and the end leaves room for the minute before it.
pub open spec fn window_in_range(start: u64, end: u64) -> bool {
    start <= MAX_TIME && 60 <= end <= MAX_TIME
}

/// The two seconds whose times of day make the charge schedule for charging
/// from `start` up to `end`: the start, and the start of the last minute
/// before the end. None where the times are out of range.
pub fn window_seconds(start: u64, end: u64) -> (r: Option<(i64, i64)>)
    ensures
        r == (if window_in_range(start, end) {
            Some((start as i64, (end - 60) as i64))
        } else {
            None
        }),
{
    if start > MAX_TIME || end > MAX_TIME || end < 60 {
        None
    } else {
        Some((start as i64, (end - 60) as i64))
    }
}

impl Fox {
    /// Returns a new instance of the Fox struct.
    pub fn new(api_key: &str, inverter_sn: &str) -> (f: Fox)
        ensures
            f.api_key@ == api_key@,
            f.sn@ == inverter_sn@,
    {
        Fox { api_key: String::from_str(api_key), sn: String::from_str(inverter_sn) }
    }

    /// Builds a charge time schedule after checking it for faults. A span
    /// that is switched off, or that starts and ends at the same minute, is
    /// sent as switched off from midnight to midnight.
    pub fn build_charge_time_schedule(one: TimeSpan, two: TimeSpan) -> (r: Result<
        ChargingTimeSchedule,
        FoxError,
    >)
        ensures
            match r {
                Ok(s) => schedule_fault(one, two).is_none() && s == schedule_sent(one, two),
                Err(e) => schedule_fault(one, two) matches Some(f) && e.0@ == time_fault_text(f),
            },
    {
        if one.start_hour > 23 || one.start_minute > 59 {
            return Err(time_fault_error(TimeFault::Start1));
        }
        if one.end_hour > 23 || one.end_minute > 59 {
            return Err(time_fault_error(TimeFault::End1));
        }
        let start_1 = minutes(one.start_hour, one.start_minute);
        let end_1 = minutes(one.end_hour, one.end_minute);
        if end_1 < start_1 {
            return Err(time_fault_error(TimeFault::Order1));
        }
        if two.start_hour > 23 || two.start_minute > 59 {
            return Err(time_fault_error(TimeFault::Start2));
        }
        if two.end_hour > 23 || two.end_minute > 59 {
            return Err(time_fault_error(TimeFault::End2));
        }
        let start_2 = minutes(two.start_hour, two.start_minute);
        let end_2 = minutes(two.end_hour, two.end_minute);
        if end_2 < start_2 {
            return Err(time_fault_error(TimeFault::Order2));
        }
        let a = as_sent(one);
        let b = as_sent(two);
        if a.enable && b.enable && start_2 <= end_1 && start_1 <= end_2 {
            return Err(time_fault_error(TimeFault::Overlap));
        }
        Ok(
            ChargingTimeSchedule {
                enable_1: a.enable,
                start_time_1: ChargingTime { hour: a.start_hour, minute: a.start_minute },
                end_time_1: ChargingTime { hour: a.end_hour, minute: a.end_minute },
                enable_2: b.enable,
                start_time_2: ChargingTime { hour: b.start_hour, minute: b.start_minute },
                end_time_2: ChargingTime { hour: b.end_hour, minute: b.end_minute },
            },
        )
    }

    /// The schedule that switches charging from grid off.
    pub open spec fn no_charging() -> ChargingTimeSchedule {
        ChargingTimeSchedule {
            enable_1: false,
            start_time_1: ChargingTime { hour: 0, minute: 0 },
            end_time_1: ChargingTime { hour: 0, minute: 0 },
            enable_2: false,
            start_time_2: ChargingTime { hour: 0, minute: 0 },
            end_time_2: ChargingTime { hour: 0, minute: 0 },
        }
    }

    /// The charge schedule for charging from `start` up to `end`, which the
    /// inverter takes as times of day on the local clock, the end being the
    /// last minute of the charging. Where `enable` is not set the schedule
    /// switches charging off, whatever the times. Else the times have to be
    /// within the range of [`window_seconds`]; the local clock is then asked
    /// for the two seconds that it gives, and the schedule is the one that
    /// [`Fox::charge_window`] makes of its two answers. The local clock is
    /// the machine's, so the contract holds for whatever it says.
    pub fn set_battery_charging_time_schedule(enable: bool, start: u64, end: u64) -> (r: Result<
        ChargingTimeSchedule,
        FoxError,
    >)
        ensures
            !enable ==> r == Ok::<ChargingTimeSchedule, FoxError>(Fox::no_charging()),
            enable && !window_in_range(start, end) ==> (r matches Err(e) && e.0@
                == "charge schedule time out of range"@),
            enable && window_in_range(start, end) ==> exists|from: LocalTime, to: LocalTime|
                from.wf() && to.wf() && #[trigger] window_outcome(from, to, r),
    {
        if !enable {
            return Ok(Fox::disable_charge_schedule());
        }
        match window_seconds(start, end) {
            Some((first, last)) => {
                let from = local_time(first).unwrap();
                let to = local_time(last).unwrap();
                let r = Fox::charge_window(from, to);
                assert(window_outcome(from, to, r));
                r
            },
            None => Err(FoxError(String::from_str("charge schedule time out of range"))),
        }
    }

    /// The charge schedule for charging from the time of day of `from` to
    /// that of `to`, the latter being the last minute of the charging, with
    /// no second span. It is an error where the span ends before it starts,
    /// as it does across midnight.
    pub fn charge_window(from: LocalTime, to: LocalTime) -> (r: Result<
        ChargingTimeSchedule,
        FoxError,
    >)
        requires
            from.wf(),
            to.wf(),
        ensures
            window_outcome(from, to, r),
    {
        let one = TimeSpan {
            enable: true,
            start_hour: from.hour as u8,
            start_minute: from.minute as u8,
            end_hour: to.hour as u8,
            end_minute: to.minute as u8,
        };
        let off = TimeSpan {
            enable: false,
            start_hour: 0,
            start_minute: 0,
            end_hour: 0,
            end_minute: 0,
        };
        assert(one == window_span(from, to));
        assert(off == Fox::off());
        Fox::build_charge_time_schedule(one, off)
    }

    /// A span that is switched off.
    pub open spec fn off() -> TimeSpan {
        TimeSpan { enable: false, start_hour: 0, start_minute: 0, end_hour: 0, end_minute: 0 }
    }

    /// The schedule that disables any ongoing charging from grid.
    pub fn disable_charge_schedule() -> (s: ChargingTimeSchedule)
        ensures
            s == Fox::no_charging(),
    {
        ChargingTimeSchedule {
            enable_1: false,
            start_time_1: ChargingTime { hour: 0, minute: 0 },
            end_time_1: ChargingTime { hour: 0, minute: 0 },
            enable_2: false,
            start_time_2: ChargingTime { hour: 0, minute: 0 },
            end_time_2: ChargingTime { hour: 0, minute: 0 },
        }
    }

    /// The request for the present state of charge.
    pub fn get_current_soc(&self) -> (r: RequestCurrentSoc)
        ensures
            r.sn@ == self.sn@,
            r.variables@.len() == 1,
            r.variables@[0]@ == "SoC"@,
    {
        let mut variables: Vec<String> = Vec::new();
        variables.push(String::from_str("SoC"));
        RequestCurrentSoc { sn: self.sn.clone(), variables }
    }

    /// The request that sets the state of charge below which the battery is
    /// not used while the grid is there.
    pub fn set_min_soc_on_grid(&self, soc: u8) -> (r: SetSoc)
        ensures
            r.sn@ == self.sn@,
            r.key@ == "MinSocOnGrid"@,
            r.value@ == decimal_text(soc as nat),
    {
        SetSoc { sn: self.sn.clone(), key: String::from_str("MinSocOnGrid"), value: decimal(soc as u64) }
    }

    /// The request that sets the state of charge above which the battery is
    /// not charged.
    pub fn set_max_soc(&self, soc: u8) -> (r: SetSoc)
        ensures
            r.sn@ == self.sn@,
            r.key@ == "MaxSoc"@,
            r.value@ == decimal_text(soc as nat),
    {
        SetSoc { sn: self.sn.clone(), key: String::from_str("MaxSoc"), value: decimal(soc as u64) }
    }

    /// The signature that goes with a request: the digest of the path, the
    /// key and the time of the request, written to base sixteen.
    pub fn generate_signature(&self, path: &str, timestamp: u64) -> (r: String)
        ensures
            r@ == hex_text(md5_of(signed_text(path@, self.api_key@, timestamp))),
    {
        let text = String::from_str(path).concat("\\r\\n").concat(self.api_key.as_str()).concat(
            "\\r\\n",
        ).concat(decimal(timestamp).as_str());
        let bytes = text.as_str().as_bytes_vec();
        let digest = md5_digest(&bytes);
        hex(&digest)
    }
}

/// The text that is signed: path, key and time, with a backslash, an `r`, a
/// backslash and an `n` between them, as bytes.
pub open spec fn signed_text(path: Seq<char>, api_key: Seq<char>, timestamp: u64) -> Seq<u8> {
    vstd::utf8::encode_utf8(
        path + "\\r\\n"@ + api_key + "\\r\\n"@ + decimal_text(timestamp as nat),
    )
}

/// The MD5 digest of the bytes.
pub uninterp spec fn md5_of(data: Seq<u8>) -> Seq<u8>;

/// `md5::Digest::digest` of `md5::Md5`: the digest of the bytes, which is
/// sixteen bytes long. The contract names the result and states its length.
#[verifier::external_body]
fn md5_digest(data: &Vec<u8>) -> (r: Vec<u8>)
    ensures
        r@ == md5_of(data@),
        r@.len() == 16,
{
    Md5::digest(data).to_vec()
}

/// The state of charge, in percent, that a reading in thousandths of a
/// percent stands for: the nearest whole percent, within the range of a byte.
pub open spec fn soc_of_reading(value: i64) -> int {
    if value < 0 {
        0
    } else if (value + 500) / 1000 > 255 {
        255
    } else {
        (value + 500) / 1000
    }
}

/// Rounds a reading of the state of charge to whole percent.
pub fn soc_from_reading(value: i64) -> (soc: u8)
    ensures
        soc == soc_of_reading(value),
{
    if value < 0 {
        0
    } else if value >= 255_000 {
        255
    } else {
        ((value + 500) / 1000) as u8
    }
}

/// Checks the answer of the cloud service: an error number other than zero
/// is an error, which carries the number and the message.
pub fn check_response(errno: u32, msg: &str) -> (r: Result<(), FoxError>)
    ensures
        r.is_ok() == (errno == 0),
        r matches Err(e) ==> e.0@ == "fox cloud errno: "@ + decimal_text(errno as nat) + ", msg: "@
            + msg@,
{
    if errno == 0 {
        Ok(())
    } else {
        let text = String::from_str("fox cloud errno: ").concat(decimal(errno as u64).as_str()).concat(
            ", msg: ",
        ).concat(msg);
        Err(FoxError(text))
    }
}

} // verus!
