//! Estimates of what the panels produce, hour by hour, from the forecast of
//! the clouds, the course of the sun and the curve that the panels follow
//! over a clear day. The course of the sun is given minute by minute; working
//! it out is not part of the library.

use vstd::prelude::*;
use crate::calendar::{local_answer, local_time_of, Date, LocalTime};
use crate::config::GeoRef;
use crate::grouping::{group_on_time, grouped};
use crate::spline::{points_ok, MonotonicCubicSpline, MAX_COORD};
use crate::manager_nordpool::{round_div, rounded_div};
use crate::models::smhi_forecast::ForecastValues;

verus! {

/// Minutes of a day.
pub const DAY_MINUTES: usize = 1440;

/// Last position of the curve of a clear day.
pub const CURVE_END: i64 = 1439;

/// One whole, in millionths.
pub const WHOLE: i64 = 1_000_000;

/// Largest power of the panels, in W.
pub const MAX_POWER: u64 = 100_000_000;

/// Half a turn, in thousandths of a degree: the azimuth of the south.
pub const SOUTH: i32 = 180_000;

/// A full turn, in thousandths of a degree.
pub const FULL_TURN: i32 = 360_000;

/// Elevation over which the sun comes clear of what stands around, in
/// thousandths of a degree.
pub const CLEARING: i64 = 2000;

/// Share of the light that reaches the panels while the sun is behind what
/// stands around, in millionths.
pub const OBSCURED: i64 = 150_000;

/// Share of the light that is lost for each thousandth of a degree that
/// the sun has yet to rise to come clear, in millionths.
pub const CLEARING_SLOPE: i64 = 425;

/// Estimated production of one hour.
#[derive(Clone, Copy, Debug)]
pub struct ProductionValues {
    /// Start of the hour.
    pub valid_time: u64,
    /// Energy produced in the hour, in Wh.
    pub power: u64,
}

/// The course of the sun over one day, minute by minute on the local clock,
/// in thousandths of a degree.
#[derive(Debug)]
pub struct SunDay {
    pub date: Date,
    /// Elevation above the horizon; negative below it.
    pub elevation: Vec<i32>,
    /// Azimuth, clockwise from north.
    pub azimuth: Vec<i32>,
}

impl SunDay {
    /// The day has an elevation and an azimuth for every minute.
    pub open spec fn wf(&self) -> bool {
        self.elevation@.len() == DAY_MINUTES && self.azimuth@.len() == DAY_MINUTES
    }

    /// Checks that the day has an elevation and an azimuth for every minute.
    pub fn is_valid(&self) -> (r: bool)
        ensures
            r == self.wf(),
    {
        self.elevation.len() == DAY_MINUTES && self.azimuth.len() == DAY_MINUTES
    }
}

/// What the estimator is set up with.
#[derive(Debug)]
pub struct ProductionParameters {
    /// Peak power of the panels on the shortest and on the longest day, in W.
    pub min_pv_power: u64,
    pub max_pv_power: u64,
    /// Weight of the clouds, in thousandths.
    pub cloud_impact_factor: u64,
    /// Elevation from which the sun counts as risen, and as not yet set,
    /// in thousandths of a degree.
    pub sunrise_angle: i32,
    pub sunset_angle: i32,
    /// Elevation below which the sun is behind what stands around.
    pub visibility_alt: i32,
    /// Azimuth at which the panels get nothing and at which they get
    /// everything, before noon.
    pub am_zero_azimuth: i32,
    pub am_full_azimuth: i32,
    /// Azimuth up to which the panels get everything and from which they
    /// get nothing, after noon.
    pub pm_full_azimuth: i32,
    pub pm_zero_azimuth: i32,
    /// The power of the panels over a clear day, from sunrise to sunset in
    /// 1440 steps, in millionths of the day's peak.
    pub diagram: Vec<u64>,
}

impl ProductionParameters {
    /// The parameters are within the limits that the estimator computes with.
    pub open spec fn wf(&self) -> bool {
        &&& self.min_pv_power <= self.max_pv_power <= MAX_POWER
        &&& self.cloud_impact_factor <= 1000
        &&& self.am_zero_azimuth < self.am_full_azimuth
        &&& self.pm_full_azimuth < self.pm_zero_azimuth
        &&& self.diagram@.len() == DAY_MINUTES
        &&& forall|i: int| 0 <= i < DAY_MINUTES ==> (#[trigger] self.diagram@[i]) <= WHOLE
    }

    /// Checks the parameters against the limits.
    pub fn is_valid(&self) -> (r: bool)
        ensures
            r == self.wf(),
    {
        if !(self.min_pv_power <= self.max_pv_power && self.max_pv_power <= MAX_POWER
            && self.cloud_impact_factor <= 1000 && self.am_zero_azimuth < self.am_full_azimuth
            && self.pm_full_azimuth < self.pm_zero_azimuth && self.diagram.len() == DAY_MINUTES) {
            return false;
        }
        let mut i: usize = 0;
        while i < DAY_MINUTES
            invariant
                self.diagram@.len() == DAY_MINUTES,
                i <= DAY_MINUTES,
                forall|j: int| 0 <= j < i ==> (#[trigger] self.diagram@[j]) <= WHOLE,
            decreases DAY_MINUTES - i,
        {
            if self.diagram[i] > WHOLE as u64 {
                return false;
            }
            i += 1;
        }
        true
    }
}

/// `x` held to the range from `lo` to `hi`.
pub open spec fn clamped(x: int, lo: int, hi: int) -> int {
    if x < lo {
        lo
    } else if x > hi {
        hi
    } else {
        x
    }
}

/// Holds a value to a range.
pub fn clamp(x: i64, lo: i64, hi: i64) -> (r: i64)
    requires
        lo <= hi,
    ensures
        r == clamped(x as int, lo as int, hi as int),
        lo <= r <= hi,
{
    if x < lo {
        lo
    } else if x > hi {
        hi
    } else {
        x
    }
}

/// The sun is up at minute `m`, as far as the angle `angle` goes.
pub open spec fn sun_above(day: SunDay, angle: i32, m: int) -> bool {
    day.elevation@[m] > angle
}

/// `e` is the highest elevation of the day, or nothing where the sun stays
/// below the horizon.
pub open spec fn is_peak_elevation(day: SunDay, e: int) -> bool {
    &&& e >= 0
    &&& forall|m: int| 0 <= m < DAY_MINUTES ==> (#[trigger] day.elevation@[m]) <= e
    &&& e > 0 ==> exists|m: int| 0 <= m < DAY_MINUTES && #[trigger] day.elevation@[m] == e
}

/// `r` is the minute of sunrise: the first of the minutes at which the sun
/// is above `angle` with the least azimuth; midnight where there is no such
/// minute with an azimuth below a full turn.
pub open spec fn is_sunrise(day: SunDay, angle: i32, r: int) -> bool {
    &&& 0 <= r < DAY_MINUTES
    &&& if exists|m: int|
        0 <= m < DAY_MINUTES && sun_above(day, angle, m) && (#[trigger] day.azimuth@[m])
            < FULL_TURN {
        &&& sun_above(day, angle, r)
        &&& day.azimuth@[r] < FULL_TURN
        &&& forall|m: int|
            0 <= m < DAY_MINUTES && sun_above(day, angle, m) ==> (#[trigger] day.azimuth@[m])
                >= day.azimuth@[r]
        &&& forall|m: int|
            0 <= m < r && sun_above(day, angle, m) ==> (#[trigger] day.azimuth@[m])
                > day.azimuth@[r]
    } else {
        r == 0
    }
}

/// `r` is the minute of sunset: the first of the minutes at which the sun
/// is above `angle` with the greatest azimuth; midnight where there is no
/// such minute with an azimuth above nothing.
pub open spec fn is_sunset(day: SunDay, angle: i32, r: int) -> bool {
    &&& 0 <= r < DAY_MINUTES
    &&& if exists|m: int|
        0 <= m < DAY_MINUTES && sun_above(day, angle, m) && (#[trigger] day.azimuth@[m]) > 0 {
        &&& sun_above(day, angle, r)
        &&& day.azimuth@[r] > 0
        &&& forall|m: int|
            0 <= m < DAY_MINUTES && sun_above(day, angle, m) ==> (#[trigger] day.azimuth@[m])
                <= day.azimuth@[r]
        &&& forall|m: int|
            0 <= m < r && sun_above(day, angle, m) ==> (#[trigger] day.azimuth@[m])
                < day.azimuth@[r]
    } else {
        r == 0
    }
}

/// The extremes of the sun over a day: the highest elevation, in
/// thousandths of a degree, and the minutes of sunrise and of sunset.
#[derive(Clone, Copy, PartialEq, Eq, Structural, Debug)]
pub struct SunExtremes {
    pub peak_elevation: i32,
    pub sunrise: u32,
    pub sunset: u32,
}

/// Finds the extremes of the sun over a day, by going through its minutes.
pub fn get_sun_extremes(day: &SunDay, sunrise_angle: i32, sunset_angle: i32) -> (r: SunExtremes)
    requires
        day.wf(),
    ensures
        is_peak_elevation(*day, r.peak_elevation as int),
        is_sunrise(*day, sunrise_angle, r.sunrise as int),
        is_sunset(*day, sunset_angle, r.sunset as int),
{
    let mut max_elevation: i32 = 0;
    let mut min_azimuth: i32 = FULL_TURN;
    let mut max_azimuth: i32 = 0;
    let mut sunrise: u32 = 0;
    let mut sunset: u32 = 0;
    let mut m: usize = 0;
    while m < DAY_MINUTES
        invariant
            day.wf(),
            m <= DAY_MINUTES,
            max_elevation >= 0,
            forall|k: int| 0 <= k < m ==> (#[trigger] day.elevation@[k]) <= max_elevation,
            max_elevation > 0 ==> exists|k: int|
                0 <= k < m && #[trigger] day.elevation@[k] == max_elevation,
            sunrise < DAY_MINUTES,
            sunset < DAY_MINUTES,
            min_azimuth <= FULL_TURN,
            max_azimuth >= 0,
            forall|k: int|
                0 <= k < m && sun_above(*day, sunrise_angle, k) ==> (#[trigger] day.azimuth@[k])
                    >= min_azimuth,
            forall|k: int|
                0 <= k < m && sun_above(*day, sunset_angle, k) ==> (#[trigger] day.azimuth@[k])
                    <= max_azimuth,
            if min_azimuth < FULL_TURN {
                &&& sunrise < m
                &&& sun_above(*day, sunrise_angle, sunrise as int)
                &&& day.azimuth@[sunrise as int] == min_azimuth
                &&& forall|k: int|
                    0 <= k < sunrise && sun_above(*day, sunrise_angle, k) ==> (
                    #[trigger] day.azimuth@[k]) > min_azimuth
            } else {
                sunrise == 0
            },
            if max_azimuth > 0 {
                &&& sunset < m
                &&& sun_above(*day, sunset_angle, sunset as int)
                &&& day.azimuth@[sunset as int] == max_azimuth
                &&& forall|k: int|
                    0 <= k < sunset && sun_above(*day, sunset_angle, k) ==> (
                    #[trigger] day.azimuth@[k]) < max_azimuth
            } else {
                sunset == 0
            },
        decreases DAY_MINUTES - m,
    {
        let elevation = day.elevation[m];
        let azimuth = day.azimuth[m];
        if elevation > max_elevation {
            max_elevation = elevation;
        }
        if elevation > sunrise_angle && azimuth < min_azimuth {
            min_azimuth = azimuth;
            sunrise = m as u32;
        }
        if elevation > sunset_angle && azimuth > max_azimuth {
            max_azimuth = azimuth;
            sunset = m as u32;
        }
        m += 1;
    }
    SunExtremes { peak_elevation: max_elevation, sunrise, sunset }
}

/// `e` is the highest elevation at the full hours of the day, or nothing
/// where the sun is below the horizon at each of them.
pub open spec fn is_hourly_peak(day: SunDay, e: int) -> bool {
    &&& e >= 0
    &&& forall|h: int| 0 <= h < 24 ==> (#[trigger] day.elevation@[h * 60]) <= e
    &&& e > 0 ==> exists|h: int| 0 <= h < 24 && #[trigger] day.elevation@[h * 60] == e
}

/// Finds the highest elevation of the sun at the full hours of a day.
pub fn get_max_sun_elevation(day: &SunDay) -> (r: i32)
    requires
        day.wf(),
    ensures
        is_hourly_peak(*day, r as int),
{
    let mut max_elevation: i32 = 0;
    let mut h: usize = 0;
    while h < 24
        invariant
            day.wf(),
            h <= 24,
            max_elevation >= 0,
            forall|k: int| 0 <= k < h ==> (#[trigger] day.elevation@[k * 60]) <= max_elevation,
            max_elevation > 0 ==> exists|k: int|
                0 <= k < h && #[trigger] day.elevation@[k * 60] == max_elevation,
        decreases 24 - h,
    {
        let elevation = day.elevation[h * 60];
        if elevation > max_elevation {
            max_elevation = elevation;
        }
        h += 1;
    }
    max_elevation
}

/// Peak power of the panels, in W, on a day on which the sun rises to
/// `day_elev`: between the peak of the shortest day, on which the sun rises
/// to `winter_elev`, and that of the longest, on which it rises to
/// `summer_elev`, in proportion to the elevation, and never outside them.
pub open spec fn day_power(
    min_pv: u64,
    max_pv: u64,
    day_elev: int,
    winter_elev: int,
    summer_elev: int,
) -> int {
    if summer_elev <= winter_elev || day_elev <= winter_elev {
        min_pv as int
    } else if day_elev >= summer_elev {
        max_pv as int
    } else {
        min_pv + ((max_pv - min_pv) * (day_elev - winter_elev)) / (summer_elev - winter_elev)
    }
}

/// Calculates the peak power of the panels for a day, given the highest
/// elevation of the sun on it, on the shortest and on the longest day.
pub fn get_max_day_power(
    min_pv: u64,
    max_pv: u64,
    day_south_elev: i32,
    min_south_elev: i32,
    max_south_elev: i32,
) -> (r: u64)
    requires
        min_pv <= max_pv <= MAX_POWER,
    ensures
        r == day_power(
            min_pv,
            max_pv,
            day_south_elev as int,
            min_south_elev as int,
            max_south_elev as int,
        ),
        min_pv <= r <= max_pv,
{
    if max_south_elev <= min_south_elev || day_south_elev <= min_south_elev {
        min_pv
    } else if day_south_elev >= max_south_elev {
        max_pv
    } else {
        let span: u64 = max_pv - min_pv;
        let risen: u64 = (day_south_elev as i64 - min_south_elev as i64) as u64;
        let range: u64 = (max_south_elev as i64 - min_south_elev as i64) as u64;
        assert(span * risen <= 100_000_000 * 4_294_967_296) by (nonlinear_arith)
            requires
                span <= 100_000_000,
                risen <= 4_294_967_296,
        ;
        assert((span * risen) / (range as int) <= span) by (nonlinear_arith)
            requires
                0 <= risen < range,
                0 <= span,
        ;
        min_pv + (span * risen) / range
    }
}

/// Share of the light that reaches the panels when the sun stands at the
/// elevation `alt` and the azimuth `azi`, in millionths. Before noon the
/// share grows with the azimuth from nothing to everything, and is cut
/// while the sun is behind what stands around or just coming clear of it;
/// after noon it falls with the azimuth from everything to nothing.
pub open spec fn visibility_of(p: ProductionParameters, alt: i32, azi: i32) -> int {
    if azi < SOUTH {
        let azf = clamped(
            ((azi - p.am_zero_azimuth) * WHOLE) / (p.am_full_azimuth - p.am_zero_azimuth),
            0,
            WHOLE as int,
        );
        let done = p.visibility_alt + CLEARING;
        let obf = if alt < p.visibility_alt {
            OBSCURED as int
        } else if alt <= done {
            WHOLE - (done - alt) * CLEARING_SLOPE
        } else {
            WHOLE as int
        };
        (azf * obf) / (WHOLE as int)
    } else {
        clamped(
            ((p.pm_zero_azimuth - azi) * WHOLE) / (p.pm_zero_azimuth - p.pm_full_azimuth),
            0,
            WHOLE as int,
        )
    }
}

/// `a / b` for a positive `b`, rounded towards the lower whole number.
fn floor_div(a: i64, b: i64) -> (r: i64)
    requires
        b > 0,
        -1_000_000_000_000_000_000 <= a <= 1_000_000_000_000_000_000,
    ensures
        r == a as int / b as int,
{
    if a >= 0 {
        a / b
    } else {
        let q = (-a) / b;
        let rem = (-a) % b;
        assert((a as int) / (b as int) == (if rem == 0 {
            -q
        } else {
            -q - 1
        })) by (nonlinear_arith)
            requires
                b > 0,
                a < 0,
                q == (-a) / (b as int),
                rem == (-a) % (b as int),
        ;
        if rem == 0 {
            -q
        } else {
            -q - 1
        }
    }
}

impl ProductionParameters {
    /// Returns the share of the light that reaches the panels with the sun
    /// at the given elevation and azimuth.
    pub fn visibility(&self, alt: i32, azi: i32) -> (r: u64)
        requires
            self.wf(),
        ensures
            r == visibility_of(*self, alt, azi),
            r <= WHOLE,
    {
        if azi < SOUTH {
            let rise: i64 = self.am_full_azimuth as i64 - self.am_zero_azimuth as i64;
            let turned: i64 = azi as i64 - self.am_zero_azimuth as i64;
            assert(-5_000_000_000_000_000 <= turned * WHOLE <= 5_000_000_000_000_000)
                by (nonlinear_arith)
                requires
                    -5_000_000_000 <= turned <= 5_000_000_000,
            ;
            let azf = clamp(floor_div(turned * WHOLE, rise), 0, WHOLE);
            let done: i64 = self.visibility_alt as i64 + CLEARING;
            let obf: i64 = if alt < self.visibility_alt {
                OBSCURED
            } else if alt as i64 <= done {
                WHOLE - (done - alt as i64) * CLEARING_SLOPE
            } else {
                WHOLE
            };
            assert(0 <= azf * obf <= 1_000_000 * 1_000_000 && (azf * obf) / 1_000_000int
                <= 1_000_000) by (nonlinear_arith)
                requires
                    0 <= azf <= 1_000_000,
                    0 <= obf <= 1_000_000,
            ;
            ((azf * obf) / WHOLE) as u64
        } else {
            let fall: i64 = self.pm_zero_azimuth as i64 - self.pm_full_azimuth as i64;
            let left: i64 = self.pm_zero_azimuth as i64 - azi as i64;
            assert(-5_000_000_000_000_000 <= left * WHOLE <= 5_000_000_000_000_000)
                by (nonlinear_arith)
                requires
                    -5_000_000_000 <= left <= 5_000_000_000,
            ;
            clamp(floor_div(left * WHOLE, fall), 0, WHOLE) as u64
        }
    }
}

/// Share of the light that the clouds leave, in millionths, weighted by the
/// impact that the clouds are given.
pub open spec fn cloud_share(impact: u64, cloud_factor: u64) -> int {
    let cf = if cloud_factor > WHOLE {
        WHOLE as int
    } else {
        cloud_factor as int
    };
    (cf * impact) / 1000 + (1000 - impact) * 1000
}

/// Position on the curve of a clear day that the minute `minute` of the
/// day falls on, the curve running from sunrise to sunset.
pub open spec fn curve_index(minute: int, sunrise: int, sunset: int) -> int {
    rounded_div((minute - sunrise) * CURVE_END, sunset - sunrise)
}

/// Minute of the day that the position `idx` on the curve stands for.
pub open spec fn curve_minute(idx: int, sunrise: int, sunset: int) -> int {
    clamped(sunrise + rounded_div(idx * (sunset - sunrise), CURVE_END as int), 0, CURVE_END as int)
}

/// The part of the curve that an hour covers, and the share of the hour
/// that lies between sunrise and sunset, in millionths.
pub struct HourSpan {
    pub start_idx: int,
    pub end_idx: int,
    pub border: int,
}

/// The part of the curve that the hour `hour` covers. There is none where
/// the hour lies outside the day or covers no step of the curve.
pub open spec fn hour_span(hour: int, sunrise: int, sunset: int) -> Option<HourSpan> {
    let first = hour * 60;
    let last = first + 59;
    if sunset <= sunrise || last < sunrise || first > sunset {
        None
    } else {
        let (border_am, start) = if sunrise > first {
            (((last - sunrise) * WHOLE) / 59, sunrise)
        } else {
            (WHOLE as int, first)
        };
        let (border, end) = if sunset < last {
            (
                if last > start {
                    ((sunset - start) * WHOLE) / (last - start)
                } else {
                    0
                },
                sunset,
            )
        } else {
            (border_am, last)
        };
        let start_idx = clamped(curve_index(start, sunrise, sunset), 0, CURVE_END as int);
        let end_idx = clamped(curve_index(end, sunrise, sunset), 0, CURVE_END as int);
        if start_idx >= end_idx {
            None
        } else {
            Some(HourSpan { start_idx, end_idx, border })
        }
    }
}

/// Power of the panels, in W, at the position `idx` of the curve: the
/// curve's share of the day's peak, cut by what reaches the panels.
pub open spec fn minute_power(
    p: ProductionParameters,
    day: SunDay,
    peak: u64,
    idx: int,
    sunrise: int,
    sunset: int,
) -> int {
    let m = curve_minute(idx, sunrise, sunset);
    let vis = visibility_of(p, day.elevation@[m], day.azimuth@[m]);
    (((p.diagram@[idx] * peak) / (WHOLE as int)) * vis) / (WHOLE as int)
}

/// Sum of the power at the positions from `from` up to `to` of the curve.
pub open spec fn power_sum(
    p: ProductionParameters,
    day: SunDay,
    peak: u64,
    sunrise: int,
    sunset: int,
    from: int,
    to: int,
) -> int
    decreases to - from,
{
    if to <= from {
        0
    } else {
        power_sum(p, day, peak, sunrise, sunset, from, to - 1) + minute_power(
            p,
            day,
            peak,
            to - 1,
            sunrise,
            sunset,
        )
    }
}

/// Energy that the panels give in the hour `hour` of a day, in Wh: the
/// mean power over the part of the curve that the hour covers, for the
/// share of the hour that lies in the day, under the clouds.
pub open spec fn hour_energy(
    p: ProductionParameters,
    day: SunDay,
    peak: u64,
    sunrise: int,
    sunset: int,
    hour: int,
    cloud_factor: u64,
) -> int {
    match hour_span(hour, sunrise, sunset) {
        None => 0,
        Some(s) => {
            let mean = power_sum(p, day, peak, sunrise, sunset, s.start_idx, s.end_idx) / (s.end_idx
                - s.start_idx);
            (((mean * s.border) / (WHOLE as int)) * cloud_share(
                p.cloud_impact_factor,
                cloud_factor,
            )) / (WHOLE as int)
        },
    }
}

/// The power at the position `idx` of the curve, stamped with the time
/// that the position stands for on the day that began at `midnight`.
pub open spec fn series_value(
    p: ProductionParameters,
    day: SunDay,
    peak: u64,
    sunrise: int,
    sunset: int,
    midnight: u64,
    idx: int,
) -> ProductionValues {
    ProductionValues {
        valid_time: (midnight + curve_minute(idx, sunrise, sunset) * 60) as u64,
        power: minute_power(p, day, peak, idx, sunrise, sunset) as u64,
    }
}

/// The power over the hour `hour` of a day, one value for each position of
/// the curve that the hour covers; or one value of no power, stamped with
/// `valid_time`, where the hour covers none.
pub open spec fn minute_series(
    p: ProductionParameters,
    day: SunDay,
    peak: u64,
    sunrise: int,
    sunset: int,
    hour: int,
    midnight: u64,
    valid_time: u64,
) -> Seq<ProductionValues> {
    match hour_span(hour, sunrise, sunset) {
        None => seq![ProductionValues { valid_time, power: 0 }],
        Some(s) => Seq::new(
            (s.end_idx - s.start_idx) as nat,
            |k: int| series_value(p, day, peak, sunrise, sunset, midnight, s.start_idx + k),
        ),
    }
}

/// The power at a position of the curve is no more than the day's peak.
proof fn lemma_minute_power_bounded(
    p: ProductionParameters,
    day: SunDay,
    peak: u64,
    idx: int,
    sunrise: int,
    sunset: int,
)
    requires
        p.wf(),
        day.wf(),
        peak <= MAX_POWER,
        0 <= idx < DAY_MINUTES,
    ensures
        0 <= minute_power(p, day, peak, idx, sunrise, sunset) <= MAX_POWER,
{
    let m = curve_minute(idx, sunrise, sunset);
    let vis = visibility_of(p, day.elevation@[m], day.azimuth@[m]);
    lemma_visibility_bounded(p, day.elevation@[m], day.azimuth@[m]);
    let d = p.diagram@[idx] as int;
    let k = peak as int;
    assert(0 <= (d * k) / 1_000_000 <= k) by (nonlinear_arith)
        requires
            0 <= d <= 1_000_000,
            0 <= k,
    ;
    let x = (d * k) / 1_000_000;
    assert(0 <= (x * vis) / 1_000_000 <= x) by (nonlinear_arith)
        requires
            0 <= vis <= 1_000_000,
            0 <= x,
    ;
}

/// The share of the light that reaches the panels lies between nothing
/// and the whole.
proof fn lemma_visibility_bounded(p: ProductionParameters, alt: i32, azi: i32)
    requires
        p.wf(),
    ensures
        0 <= visibility_of(p, alt, azi) <= WHOLE,
{
    if azi < SOUTH {
        let azf = clamped(
            ((azi - p.am_zero_azimuth) * WHOLE) / (p.am_full_azimuth - p.am_zero_azimuth),
            0,
            WHOLE as int,
        );
        let done = p.visibility_alt + CLEARING;
        let obf = if alt < p.visibility_alt {
            OBSCURED as int
        } else if alt <= done {
            WHOLE - (done - alt) * CLEARING_SLOPE
        } else {
            WHOLE as int
        };
        assert(0 <= (azf * obf) / 1_000_000 <= 1_000_000) by (nonlinear_arith)
            requires
                0 <= azf <= 1_000_000,
                0 <= obf <= 1_000_000,
        ;
    }
}

/// The power summed over positions of the curve is no more than as many
/// times the peak.
proof fn lemma_power_sum_bounded(
    p: ProductionParameters,
    day: SunDay,
    peak: u64,
    sunrise: int,
    sunset: int,
    from: int,
    to: int,
)
    requires
        p.wf(),
        day.wf(),
        peak <= MAX_POWER,
        0 <= from <= to <= DAY_MINUTES,
    ensures
        0 <= power_sum(p, day, peak, sunrise, sunset, from, to) <= (to - from) * MAX_POWER,
    decreases to - from,
{
    if to > from {
        lemma_power_sum_bounded(p, day, peak, sunrise, sunset, from, to - 1);
        lemma_minute_power_bounded(p, day, peak, to - 1, sunrise, sunset);
        assert((to - 1 - from) * MAX_POWER + MAX_POWER == (to - from) * MAX_POWER)
            by (nonlinear_arith);
    }
}

impl ProductionParameters {
    /// Works out the power of the panels at a position of the curve, and
    /// the minute of the day that the position stands for.
    pub fn power_at(&self, day: &SunDay, peak: u64, sunrise: u32, sunset: u32, idx: usize) -> (r: (
        u64,
        u32,
    ))
        requires
            self.wf(),
            day.wf(),
            peak <= MAX_POWER,
            sunrise < sunset < DAY_MINUTES,
            idx < DAY_MINUTES,
        ensures
            r.0 == minute_power(*self, *day, peak, idx as int, sunrise as int, sunset as int),
            r.1 == curve_minute(idx as int, sunrise as int, sunset as int),
            r.0 <= MAX_POWER,
            r.1 < DAY_MINUTES,
    {
        let length: i128 = sunset as i128 - sunrise as i128;
        proof {
            lemma_minute_power_bounded(*self, *day, peak, idx as int, sunrise as int, sunset as int);
        }
        assert(0 <= (idx as int) * (length as int) <= 1440 * 1440) by (nonlinear_arith)
            requires
                0 <= idx <= 1440,
                0 <= length <= 1440,
        ;
        let offset = round_div(idx as i128 * length, CURVE_END as i128);
        let m = clamp((sunrise as i128 + offset) as i64, 0, CURVE_END) as usize;
        let vis = self.visibility(day.elevation[m], day.azimuth[m]);
        let d: u64 = self.diagram[idx];
        assert(0 <= d * peak <= 1_000_000 * 100_000_000 && (d * peak) / 1_000_000 <= peak)
            by (nonlinear_arith)
            requires
                0 <= d <= 1_000_000,
                0 <= peak <= 100_000_000,
        ;
        let clear: u64 = (d * peak) / (WHOLE as u64);
        assert(0 <= clear * vis <= 100_000_000 * 1_000_000) by (nonlinear_arith)
            requires
                0 <= clear <= 100_000_000,
                0 <= vis <= 1_000_000,
        ;
        ((clear * vis) / (WHOLE as u64), m as u32)
    }

    /// Lists the power of the panels over the hour `hour` of a day, one
    /// value for each position of the curve that the hour covers, stamped
    /// with the time that the position stands for; or one value of no power,
    /// stamped with `valid_time`, where the hour covers none.
    pub fn minute_powers(
        &self,
        day: &SunDay,
        peak: u64,
        sunrise: u32,
        sunset: u32,
        hour: u32,
        midnight: u64,
        valid_time: u64,
    ) -> (r: Vec<ProductionValues>)
        requires
            self.wf(),
            day.wf(),
            peak <= MAX_POWER,
            sunrise < DAY_MINUTES,
            sunset < DAY_MINUTES,
            hour < 24,
            midnight <= u64::MAX - 86_400,
        ensures
            r@ == minute_series(
                *self,
                *day,
                peak,
                sunrise as int,
                sunset as int,
                hour as int,
                midnight,
                valid_time,
            ),
    {
        let mut r: Vec<ProductionValues> = Vec::new();
        match hour_curve_span(sunrise, sunset, hour) {
            None => {
                r.push(ProductionValues { valid_time, power: 0 });
                assert(r@ =~= seq![ProductionValues { valid_time, power: 0 }]);
            },
            Some((from, to, _)) => {
                let mut i: usize = from;
                while i < to
                    invariant
                        self.wf(),
                        day.wf(),
                        peak <= MAX_POWER,
                        sunrise < sunset < DAY_MINUTES,
                        midnight <= u64::MAX - 86_400,
                        from <= i <= to <= CURVE_END,
                        r@.len() == i - from,
                        forall|k: int|
                            0 <= k < i - from ==> (#[trigger] r@[k]) == series_value(
                                *self,
                                *day,
                                peak,
                                sunrise as int,
                                sunset as int,
                                midnight,
                                from + k,
                            ),
                    decreases to - i,
                {
                    let (power, minute) = self.power_at(day, peak, sunrise, sunset, i);
                    r.push(ProductionValues { valid_time: midnight + minute as u64 * 60, power });
                    i += 1;
                }
                assert(r@ =~= minute_series(
                    *self,
                    *day,
                    peak,
                    sunrise as int,
                    sunset as int,
                    hour as int,
                    midnight,
                    valid_time,
                ));
            },
        }
        r
    }

    /// Sums the power of the panels over a part of the curve.
    fn sum_power(&self, day: &SunDay, peak: u64, sunrise: u32, sunset: u32, from: usize, to: usize) -> (r:
        u64)
        requires
            self.wf(),
            day.wf(),
            peak <= MAX_POWER,
            sunrise < sunset < DAY_MINUTES,
            from <= to <= DAY_MINUTES,
        ensures
            r == power_sum(*self, *day, peak, sunrise as int, sunset as int, from as int, to as int),
            r <= (to - from) * MAX_POWER,
    {
        let mut sum: u64 = 0;
        let mut i: usize = from;
        let length: i128 = sunset as i128 - sunrise as i128;
        while i < to
            invariant
                self.wf(),
                day.wf(),
                peak <= MAX_POWER,
                sunrise < sunset < DAY_MINUTES,
                length == sunset - sunrise,
                from <= i <= to <= DAY_MINUTES,
                sum == power_sum(
                    *self,
                    *day,
                    peak,
                    sunrise as int,
                    sunset as int,
                    from as int,
                    i as int,
                ),
                sum <= (i - from) * MAX_POWER,
            decreases to - i,
        {
            proof {
                lemma_power_sum_bounded(
                    *self,
                    *day,
                    peak,
                    sunrise as int,
                    sunset as int,
                    from as int,
                    i + 1,
                );
                lemma_minute_power_bounded(*self, *day, peak, i as int, sunrise as int, sunset as int);
                assert((i + 1 - from) * MAX_POWER <= 1440 * MAX_POWER) by (nonlinear_arith)
                    requires
                        0 <= i + 1 - from <= 1440,
                ;
                assert((i - from) * MAX_POWER + MAX_POWER == (i + 1 - from) * MAX_POWER)
                    by (nonlinear_arith);
            }
            let (power, _) = self.power_at(day, peak, sunrise, sunset, i);
            sum = sum + power;
            i += 1;
        }
        sum
    }

    /// Calculates the energy that the panels give in the hour `hour` of a
    /// day, in Wh, given the course of the sun over the day, the day's peak
    /// power, the minutes of sunrise and sunset, and what the clouds let
    /// through.
    pub fn calculate_hour_pv_production(
        &self,
        day: &SunDay,
        peak: u64,
        sunrise: u32,
        sunset: u32,
        hour: u32,
        cloud_factor: u64,
    ) -> (r: u64)
        requires
            self.wf(),
            day.wf(),
            peak <= MAX_POWER,
            sunrise < DAY_MINUTES,
            sunset < DAY_MINUTES,
            hour < 24,
        ensures
            r == hour_energy(
                *self,
                *day,
                peak,
                sunrise as int,
                sunset as int,
                hour as int,
                cloud_factor,
            ),
            r <= MAX_POWER,
    {
        let (start_idx, end_idx, border) = match hour_curve_span(sunrise, sunset, hour) {
            Some(s) => s,
            None => {
                return 0;
            },
        };
        let sum = self.sum_power(day, peak, sunrise, sunset, start_idx, end_idx);
        let steps: u64 = (end_idx - start_idx) as u64;
        assert(sum / steps <= MAX_POWER) by (nonlinear_arith)
            requires
                sum <= steps * MAX_POWER,
                steps > 0,
        ;
        let mean: u64 = sum / steps;
        let b: u64 = border;
        assert(0 <= mean * b <= 100_000_000 * 1_000_000 && (mean * b) / 1_000_000 <= mean)
            by (nonlinear_arith)
            requires
                0 <= mean <= 100_000_000,
                0 <= b <= 1_000_000,
        ;
        let lit: u64 = (mean * b) / (WHOLE as u64);
        let share = cloud_share_of(self.cloud_impact_factor, cloud_factor);
        assert(0 <= lit * share <= 100_000_000 * 1_000_000 && (lit * share) / 1_000_000 <= lit)
            by (nonlinear_arith)
            requires
                0 <= lit <= 100_000_000,
                0 <= share <= 1_000_000,
        ;
        (lit * share) / (WHOLE as u64)
    }
}

/// Finds the part of the curve that an hour covers: the first position,
/// the position after the last, and the share of the hour that lies between
/// sunrise and sunset, in millionths.
pub fn hour_curve_span(sunrise: u32, sunset: u32, hour: u32) -> (r: Option<(usize, usize, u64)>)
    requires
        sunrise < DAY_MINUTES,
        sunset < DAY_MINUTES,
        hour < 24,
    ensures
        match r {
            Some(s) => hour_span(hour as int, sunrise as int, sunset as int) matches Some(h)
                && s.0 == h.start_idx && s.1 == h.end_idx && s.2 == h.border && s.0 < s.1
                <= CURVE_END && s.2 <= WHOLE && sunrise < sunset,
            None => hour_span(hour as int, sunrise as int, sunset as int).is_none(),
        },
{
    let first: i64 = hour as i64 * 60;
    let last: i64 = first + 59;
    let rise: i64 = sunrise as i64;
    let set: i64 = sunset as i64;
    if set <= rise || last < rise || first > set {
        return None;
    }
    let mut border: i64 = WHOLE;
    let mut start: i64 = first;
    if rise > first {
        assert(0 <= ((last - rise) * WHOLE) / 59 <= WHOLE) by (nonlinear_arith)
            requires
                0 <= last - rise <= 59,
        ;
        border = ((last - rise) * WHOLE) / 59;
        start = rise;
    }
    let mut end: i64 = last;
    if set < last {
        border = if last > start {
            assert(0 <= ((set - start) * WHOLE) / (last - start) <= WHOLE) by (nonlinear_arith)
                requires
                    0 <= set - start <= last - start,
                    last - start > 0,
            ;
            ((set - start) * WHOLE) / (last - start)
        } else {
            0
        };
        end = set;
    }
    let length: i128 = (set - rise) as i128;
    let start_idx = clamp(
        round_div((start - rise) as i128 * (CURVE_END as i128), length) as i64,
        0,
        CURVE_END,
    ) as usize;
    let end_idx = clamp(
        round_div((end - rise) as i128 * (CURVE_END as i128), length) as i64,
        0,
        CURVE_END,
    ) as usize;
    if start_idx >= end_idx {
        return None;
    }
    Some((start_idx, end_idx, border as u64))
}

/// Works out what the clouds leave of the light, weighted by their impact.
pub fn cloud_share_of(impact: u64, cloud_factor: u64) -> (r: u64)
    requires
        impact <= 1000,
    ensures
        r == cloud_share(impact, cloud_factor),
        r <= WHOLE,
{
    let cf: u64 = if cloud_factor > WHOLE as u64 {
        WHOLE as u64
    } else {
        cloud_factor
    };
    assert(0 <= cf * impact <= 1_000_000 * 1000 && (cf * impact) / 1000 <= impact * 1000)
        by (nonlinear_arith)
        requires
            0 <= cf <= 1_000_000,
            0 <= impact <= 1000,
    ;
    (cf * impact) / 1000 + (1000 - impact) * 1000
}

/// Seconds from `base` to `t`, negative where `t` lies before; no further
/// than a second beyond what a spline can be made for.
pub open spec fn rel_time(t: u64, base: u64) -> int {
    if t >= base {
        if t - base > MAX_COORD {
            MAX_COORD + 1
        } else {
            t - base
        }
    } else {
        if base - t > MAX_COORD {
            -MAX_COORD - 1
        } else {
            -(base - t)
        }
    }
}

/// The times of the forecast, counted from its first.
pub open spec fn cloud_xs(forecast: Seq<ForecastValues>) -> Seq<i64> {
    Seq::new(forecast.len(), |i: int| rel_time(forecast[i].valid_time, forecast[0].valid_time) as i64)
}

/// What the clouds leave of the light at the times of the forecast.
pub open spec fn cloud_ys(impact: u64, forecast: Seq<ForecastValues>) -> Seq<i64> {
    Seq::new(forecast.len(), |i: int| cloud_share(impact, forecast[i].cloud_factor) as i64)
}

/// The power `power` under clouds that leave the share `share` of the
/// light, in millionths; a share below nothing counts as nothing, one above
/// the whole as the whole.
pub open spec fn scaled_power(power: u64, share: int) -> int {
    (power * clamped(share, 0, WHOLE as int)) / (WHOLE as int)
}

/// `r` is the value `d` under the clouds, whose share of the light the
/// spline `s` gives for the time of the value, counted from `base`.
pub open spec fn clouded_value(
    s: MonotonicCubicSpline,
    base: u64,
    d: ProductionValues,
    r: ProductionValues,
) -> bool {
    &&& r.valid_time == d.valid_time
    &&& exists|share: int|
        s.value_at(rel_time(d.valid_time, base) as i64, share) && r.power
            == #[trigger] scaled_power(d.power, share)
}

/// `r` holds the values of `data` under the clouds of the forecast, which
/// a spline carries from hour to hour so that the values run smoothly.
/// There are no values where the forecast cannot carry a spline.
pub open spec fn cloud_factored(
    impact: u64,
    forecast: Seq<ForecastValues>,
    data: Seq<ProductionValues>,
    r: Seq<ProductionValues>,
) -> bool {
    let xs = cloud_xs(forecast);
    let ys = cloud_ys(impact, forecast);
    if !points_ok(xs, ys) {
        r.len() == 0
    } else {
        exists|s: MonotonicCubicSpline|
            {
                &&& #[trigger] s.wf()
                &&& s.x@ == xs
                &&& s.y@ == ys
                &&& r.len() == data.len()
                &&& forall|i: int|
                    0 <= i < data.len() ==> clouded_value(
                        s,
                        forecast[0].valid_time,
                        data[i],
                        #[trigger] r[i],
                    )
            }
    }
}

/// Counts the seconds from `base` to `t`.
pub fn relative_time(t: u64, base: u64) -> (r: i64)
    ensures
        r == rel_time(t, base),
{
    if t >= base {
        if t - base > MAX_COORD as u64 {
            MAX_COORD + 1
        } else {
            (t - base) as i64
        }
    } else {
        if base - t > MAX_COORD as u64 {
            -MAX_COORD - 1
        } else {
            -((base - t) as i64)
        }
    }
}

/// Factors in the clouds of the forecast on values of power, with a
/// spline through the forecast so that the values run smoothly from hour to
/// hour.
pub fn factor_in_cloud(data: &Vec<ProductionValues>, forecast: &Vec<ForecastValues>, impact: u64) -> (r:
    Vec<ProductionValues>)
    requires
        impact <= 1000,
    ensures
        cloud_factored(impact, forecast@, data@, r@),
{
    let mut xs: Vec<i64> = Vec::new();
    let mut ys: Vec<i64> = Vec::new();
    let n = forecast.len();
    let mut i: usize = 0;
    while i < n
        invariant
            impact <= 1000,
            n == forecast@.len(),
            i <= n,
            xs@.len() == i,
            ys@.len() == i,
            forall|k: int| 0 <= k < i ==> (#[trigger] xs@[k]) == cloud_xs(forecast@)[k],
            forall|k: int| 0 <= k < i ==> (#[trigger] ys@[k]) == cloud_ys(impact, forecast@)[k],
        decreases n - i,
    {
        xs.push(relative_time(forecast[i].valid_time, forecast[0].valid_time));
        ys.push(cloud_share_of(impact, forecast[i].cloud_factor) as i64);
        i += 1;
    }
    assert(xs@ =~= cloud_xs(forecast@));
    assert(ys@ =~= cloud_ys(impact, forecast@));
    let mut r: Vec<ProductionValues> = Vec::new();
    let spline = match MonotonicCubicSpline::new(&xs, &ys) {
        Ok(s) => s,
        Err(_) => {
            return r;
        },
    };
    let base = forecast[0].valid_time;
    let m = data.len();
    let mut j: usize = 0;
    while j < m
        invariant
            spline.wf(),
            m == data@.len(),
            j <= m,
            r@.len() == j,
            forall|k: int|
                0 <= k < j ==> clouded_value(spline, base, data@[k], #[trigger] r@[k]),
        decreases m - j,
    {
        let d = data[j];
        let share = spline.interpolate(relative_time(d.valid_time, base));
        let held: u128 = clamp(share, 0, WHOLE) as u128;
        assert((d.power as int) * (held as int) <= u64::MAX * 1_000_000 && ((d.power as int) * (
        held as int)) / 1_000_000 <= u64::MAX) by (nonlinear_arith)
            requires
                0 <= held <= 1_000_000,
                0 <= d.power <= u64::MAX,
        ;
        let power: u64 = ((d.power as u128 * held) / (WHOLE as u128)) as u64;
        let v = ProductionValues { valid_time: d.valid_time, power };
        assert(v.power == scaled_power(d.power, share as int));
        assert(clouded_value(spline, base, data@[j as int], v));
        r.push(v);
        j += 1;
    }
    assert(spline.wf());
    r
}

/// Struct for calculating and holding what the panels produce per hour,
/// given a weather forecast.
#[derive(Debug)]
pub struct PVProduction {
    /// The latest estimates.
    pub production: Vec<ProductionValues>,
    /// The power behind the latest estimates, in W, every five minutes.
    pub production_kw: Vec<ProductionValues>,
    /// Where the panels stand, in millionths of a degree.
    pub lat: i64,
    pub long: i64,
    pub params: ProductionParameters,
}

/// `power` is what the panels give in the hour `hour` of the day `day`,
/// with the peak power that the day's highest elevation of the sun gives
/// between those of the shortest and the longest day.
pub open spec fn hour_estimate(
    p: ProductionParameters,
    day: SunDay,
    min_south: i32,
    max_south: i32,
    hour: int,
    cloud_factor: u64,
    power: u64,
) -> bool {
    exists|e: SunExtremes|
        {
            &&& is_peak_elevation(day, e.peak_elevation as int)
            &&& is_sunrise(day, p.sunrise_angle, e.sunrise as int)
            &&& is_sunset(day, p.sunset_angle, e.sunset as int)
            &&& power == #[trigger] hour_energy(
                p,
                day,
                day_power(
                    p.min_pv_power,
                    p.max_pv_power,
                    e.peak_elevation as int,
                    min_south as int,
                    max_south as int,
                ) as u64,
                e.sunrise as int,
                e.sunset as int,
                hour,
                cloud_factor,
            )
        }
}

/// `i` is the first position in `days` of a day with the date `date` that
/// has an elevation and an azimuth for every minute.
pub open spec fn first_day_for(days: Seq<SunDay>, date: Date, i: int) -> bool {
    &&& 0 <= i < days.len()
    &&& days[i].date == date && days[i].wf()
    &&& forall|j: int| 0 <= j < i ==> !((#[trigger] days[j]).date == date && days[j].wf())
}

/// No day of `days` has the date `date` and an elevation and an azimuth for
/// every minute.
pub open spec fn no_day_for(days: Seq<SunDay>, date: Date) -> bool {
    forall|j: int| 0 <= j < days.len() ==> !((#[trigger] days[j]).date == date && days[j].wf())
}

/// `r` is the estimate for the hour of `v`, which is `local` on the local
/// clock: nothing where the local time is not known or the course of the
/// sun is not given for its day.
pub open spec fn sample_estimate(
    p: ProductionParameters,
    v: ForecastValues,
    local: Option<LocalTime>,
    days: Seq<SunDay>,
    min_south: i32,
    max_south: i32,
    r: ProductionValues,
) -> bool {
    &&& r.valid_time == v.valid_time
    &&& match local {
        None => r.power == 0,
        Some(l) => if no_day_for(days, l.date()) {
            r.power == 0
        } else {
            exists|i: int|
                first_day_for(days, l.date(), i) && hour_estimate(
                    p,
                    #[trigger] days[i],
                    min_south,
                    max_south,
                    l.hour as int,
                    v.cloud_factor,
                    r.power,
                )
        },
    }
}

/// `r` is the estimate for the forecast `v`, for some answer of the local
/// clock for the time of the forecast.
pub open spec fn estimate_for(
    p: ProductionParameters,
    v: ForecastValues,
    days: Seq<SunDay>,
    min_south: i32,
    max_south: i32,
    r: ProductionValues,
) -> bool {
    exists|local: Option<LocalTime>|
        local_answer(v.valid_time, local) && #[trigger] sample_estimate(
            p,
            v,
            local,
            days,
            min_south,
            max_south,
            r,
        )
}

/// `part` is the power behind the estimate for the forecast `v`, position
/// by position of the curve, for some answer of the local clock for the
/// time of the forecast.
pub open spec fn series_for(
    p: ProductionParameters,
    v: ForecastValues,
    days: Seq<SunDay>,
    min_south: i32,
    max_south: i32,
    part: Seq<ProductionValues>,
) -> bool {
    exists|local: Option<LocalTime>|
        local_answer(v.valid_time, local) && #[trigger] sample_series(
            p,
            v,
            local,
            days,
            min_south,
            max_south,
            part,
        )
}

/// Each of `parts` is the power behind the estimate for the forecast at its
/// position, for some answer of the local clock.
pub open spec fn series_parts(
    p: ProductionParameters,
    forecast: Seq<ForecastValues>,
    days: Seq<SunDay>,
    min_south: i32,
    max_south: i32,
    parts: Seq<Seq<ProductionValues>>,
) -> bool {
    &&& parts.len() == forecast.len()
    &&& forall|i: int|
        0 <= i < forecast.len() ==> series_for(
            p,
            forecast[i],
            days,
            min_south,
            max_south,
            #[trigger] parts[i],
        )
}

/// Start of the local day of a value stamped `valid_time`, at which the
/// local clock shows `l`; none where the machine's integers cannot hold the
/// day.
pub open spec fn day_start(valid_time: u64, l: LocalTime) -> Option<u64> {
    let since = l.hour * 3600 + l.minute * 60;
    let start = if valid_time >= since {
        valid_time - since
    } else {
        0
    };
    if start <= u64::MAX - 86_400 {
        Some(start as u64)
    } else {
        None
    }
}

/// `r` is the power behind the estimate for the hour of `v`, position by
/// position of the curve: one value of no power where there is no estimate.
pub open spec fn sample_series(
    p: ProductionParameters,
    v: ForecastValues,
    local: Option<LocalTime>,
    days: Seq<SunDay>,
    min_south: i32,
    max_south: i32,
    r: Seq<ProductionValues>,
) -> bool {
    let nothing = seq![ProductionValues { valid_time: v.valid_time, power: 0 }];
    match local {
        None => r == nothing,
        Some(l) => if no_day_for(days, l.date()) || day_start(v.valid_time, l).is_none() {
            r == nothing
        } else {
            exists|i: int, e: SunExtremes|
                {
                    &&& first_day_for(days, l.date(), i)
                    &&& is_peak_elevation(days[i], e.peak_elevation as int)
                    &&& is_sunrise(days[i], p.sunrise_angle, e.sunrise as int)
                    &&& is_sunset(days[i], p.sunset_angle, e.sunset as int)
                    &&& r == #[trigger] minute_series(
                        p,
                        days[i],
                        day_power(
                            p.min_pv_power,
                            p.max_pv_power,
                            e.peak_elevation as int,
                            min_south as int,
                            max_south as int,
                        ) as u64,
                        e.sunrise as int,
                        e.sunset as int,
                        l.hour as int,
                        day_start(v.valid_time, l).unwrap(),
                        v.valid_time,
                    )
                }
        },
    }
}

/// Each of `production` is the estimate for the forecast at its position,
/// for some answer of the local clock.
pub open spec fn estimates_for(
    p: ProductionParameters,
    forecast: Seq<ForecastValues>,
    days: Seq<SunDay>,
    min_south: i32,
    max_south: i32,
    production: Seq<ProductionValues>,
) -> bool {
    &&& production.len() == forecast.len()
    &&& forall|i: int|
        0 <= i < forecast.len() ==> estimate_for(
            p,
            forecast[i],
            days,
            min_south,
            max_south,
            #[trigger] production[i],
        )
}

/// Finds the course of the sun for a date.
pub fn find_sun_day(days: &Vec<SunDay>, date: Date) -> (r: Option<usize>)
    ensures
        match r {
            Some(i) => first_day_for(days@, date, i as int),
            None => no_day_for(days@, date),
        },
{
    let n = days.len();
    let mut i: usize = 0;
    while i < n
        invariant
            n == days.len(),
            i <= n,
            forall|j: int| 0 <= j < i ==> !((#[trigger] days@[j]).date == date && days@[j].wf()),
        decreases n - i,
    {
        if days[i].date == date && days[i].is_valid() {
            return Some(i);
        }
        i += 1;
    }
    None
}

impl PVProduction {
    /// Returns a new PVProduction struct.
    pub fn new(config: ProductionParameters, location: &GeoRef) -> (r: PVProduction)
        ensures
            r.production@.len() == 0,
            r.production_kw@.len() == 0,
            r.lat == location.lat,
            r.long == location.long,
            r.params == config,
    {
        PVProduction {
            production: Vec::new(),
            production_kw: Vec::new(),
            lat: location.lat,
            long: location.long,
            params: config,
        }
    }

    /// Estimates what the panels give in the hour of the forecast `v`,
    /// whose time on the local clock is `local`. Returns the estimate, and
    /// the power behind it position by position of the curve.
    pub fn estimate_hour(
        &self,
        v: &ForecastValues,
        local: Option<LocalTime>,
        sun_days: &Vec<SunDay>,
        min_south: i32,
        max_south: i32,
    ) -> (r: (ProductionValues, Vec<ProductionValues>))
        requires
            self.params.wf(),
            local matches Some(l) ==> l.wf(),
        ensures
            sample_estimate(self.params, *v, local, sun_days@, min_south, max_south, r.0),
            sample_series(self.params, *v, local, sun_days@, min_south, max_south, r.1@),
    {
        let mut nothing: Vec<ProductionValues> = Vec::new();
        nothing.push(ProductionValues { valid_time: v.valid_time, power: 0 });
        assert(nothing@ =~= seq![ProductionValues { valid_time: v.valid_time, power: 0 }]);
        let l = match local {
            Some(l) => l,
            None => {
                return (ProductionValues { valid_time: v.valid_time, power: 0 }, nothing);
            },
        };
        let date = Date { year: l.year, month: l.month, day: l.day };
        let i = match find_sun_day(sun_days, date) {
            Some(i) => i,
            None => {
                return (ProductionValues { valid_time: v.valid_time, power: 0 }, nothing);
            },
        };
        let day = &sun_days[i];
        let e = get_sun_extremes(day, self.params.sunrise_angle, self.params.sunset_angle);
        let peak = get_max_day_power(
            self.params.min_pv_power,
            self.params.max_pv_power,
            e.peak_elevation,
            min_south,
            max_south,
        );
        let power = self.params.calculate_hour_pv_production(
            day,
            peak,
            e.sunrise,
            e.sunset,
            l.hour,
            v.cloud_factor,
        );
        proof {
            assert(power == hour_energy(
                self.params,
                *day,
                day_power(
                    self.params.min_pv_power,
                    self.params.max_pv_power,
                    e.peak_elevation as int,
                    min_south as int,
                    max_south as int,
                ) as u64,
                e.sunrise as int,
                e.sunset as int,
                l.hour as int,
                v.cloud_factor,
            ));
            assert(hour_estimate(
                self.params,
                sun_days@[i as int],
                min_south,
                max_south,
                l.hour as int,
                v.cloud_factor,
                power,
            ));
        }
        let since: u64 = l.hour as u64 * 3600 + l.minute as u64 * 60;
        let start: u64 = if v.valid_time >= since {
            v.valid_time - since
        } else {
            0
        };
        let series = if start <= u64::MAX - 86_400 {
            let s = self.params.minute_powers(
                day,
                peak,
                e.sunrise,
                e.sunset,
                l.hour,
                start,
                v.valid_time,
            );
            proof {
                assert(s@ == minute_series(
                    self.params,
                    sun_days@[i as int],
                    day_power(
                        self.params.min_pv_power,
                        self.params.max_pv_power,
                        e.peak_elevation as int,
                        min_south as int,
                        max_south as int,
                    ) as u64,
                    e.sunrise as int,
                    e.sunset as int,
                    l.hour as int,
                    day_start(v.valid_time, l).unwrap(),
                    v.valid_time,
                ));
            }
            s
        } else {
            nothing
        };
        (ProductionValues { valid_time: v.valid_time, power }, series)
    }

    /// Calculates new estimates of what the panels give, hour by hour of
    /// the forecast. `sun_days` holds the course of the sun for the days of
    /// the forecast, `summer` and `winter` for the longest and the shortest
    /// day of the year. The hour and the day of each forecast are those of
    /// the machine's local clock: whatever it says, each estimate is the
    /// one that [`PVProduction::estimate_hour`] gives for its answer, and
    /// the clock has an answer for every time up to the end of the year
    /// 9999. The power by five minutes is that behind the estimates, one
    /// hour after the other, grouped by time and with the clouds taken in.
    pub fn new_estimates(
        &mut self,
        forecast: &Vec<ForecastValues>,
        sun_days: &Vec<SunDay>,
        summer: &SunDay,
        winter: &SunDay,
    )
        requires
            old(self).params.wf(),
            summer.wf(),
            winter.wf(),
        ensures
            final(self).params == old(self).params,
            final(self).lat == old(self).lat,
            final(self).long == old(self).long,
            exists|lo: i32, hi: i32|
                is_hourly_peak(*winter, lo as int) && is_hourly_peak(*summer, hi as int)
                    && #[trigger] estimates_for(
                    final(self).params,
                    forecast@,
                    sun_days@,
                    lo,
                    hi,
                    final(self).production@,
                ),
            exists|lo: i32, hi: i32, parts: Seq<Seq<ProductionValues>>, groups: Seq<ProductionValues>|
                #![trigger series_parts(final(self).params, forecast@, sun_days@, lo, hi, parts), grouped(parts.flatten(), groups)]
                {
                    &&& is_hourly_peak(*winter, lo as int)
                    &&& is_hourly_peak(*summer, hi as int)
                    &&& series_parts(final(self).params, forecast@, sun_days@, lo, hi, parts)
                    &&& grouped(parts.flatten(), groups)
                    &&& cloud_factored(
                        final(self).params.cloud_impact_factor,
                        forecast@,
                        groups,
                        final(self).production_kw@,
                    )
                },
    {
        let max_south = get_max_sun_elevation(summer);
        let min_south = get_max_sun_elevation(winter);
        let mut estimates: Vec<ProductionValues> = Vec::new();
        let mut powers: Vec<ProductionValues> = Vec::new();
        let ghost mut parts: Seq<Seq<ProductionValues>> = Seq::empty();
        let n = forecast.len();
        let mut i: usize = 0;
        while i < n
            invariant
                self.params.wf(),
                n == forecast.len(),
                i <= n,
                estimates@.len() == i,
                parts.len() == i,
                powers@ == parts.flatten(),
                is_hourly_peak(*winter, min_south as int),
                is_hourly_peak(*summer, max_south as int),
                forall|k: int|
                    0 <= k < i ==> estimate_for(
                        self.params,
                        forecast@[k],
                        sun_days@,
                        min_south,
                        max_south,
                        #[trigger] estimates@[k],
                    ),
                forall|k: int|
                    0 <= k < i ==> series_for(
                        self.params,
                        forecast@[k],
                        sun_days@,
                        min_south,
                        max_south,
                        #[trigger] parts[k],
                    ),
            decreases n - i,
        {
            let v = forecast[i];
            let local = local_time_of(v.valid_time);
            let (e, mut series) = self.estimate_hour(&v, local, sun_days, min_south, max_south);
            proof {
                assert(sample_estimate(
                    self.params,
                    forecast@[i as int],
                    local,
                    sun_days@,
                    min_south,
                    max_south,
                    e,
                ));
                assert(sample_series(
                    self.params,
                    forecast@[i as int],
                    local,
                    sun_days@,
                    min_south,
                    max_south,
                    series@,
                ));
                parts.lemma_flatten_push(series@);
                parts = parts.push(series@);
            }
            estimates.push(e);
            powers.append(&mut series);
            i += 1;
        }
        let groups = group_on_time(&powers);
        self.production_kw = factor_in_cloud(&groups, forecast, self.params.cloud_impact_factor);
        self.production = estimates;
        assert(estimates_for(
            self.params,
            forecast@,
            sun_days@,
            min_south,
            max_south,
            self.production@,
        ));
        assert(series_parts(self.params, forecast@, sun_days@, min_south, max_south, parts));
        assert(grouped(parts.flatten(), groups@));
    }
}

} // verus!
