//! Estimates of what the household consumes, hour by hour, from the
//! forecast of the temperature and what is usual for the hour of the week.

use vstd::prelude::*;
use crate::calendar::{local_answer, local_time_of, LocalTime};
use crate::errors::SplineError;
use crate::models::smhi_forecast::ForecastValues;
use crate::spline::{points_ok, MonotonicCubicSpline, MAX_COORD};

verus! {

/// One whole, in millionths: the curve's value for the highest load.
pub const FULL_LOAD: i64 = 1_000_000;

/// Largest load, in W.
pub const MAX_LOAD: u64 = 100_000_000;

/// Estimated consumption of one hour.
#[derive(Clone, Copy, Debug)]
pub struct ConsumptionValues {
    /// Start of the hour.
    pub valid_time: u64,
    /// Energy consumed in the hour, in Wh.
    pub power: u64,
}

/// What the estimator is set up with.
#[derive(Debug)]
pub struct ConsumptionParameters {
    /// Lowest and highest load that the temperature accounts for, in W.
    pub min_avg_load: u64,
    pub max_avg_load: u64,
    /// Points of the curve from temperature, in thousandths of a degree
    /// Celsius, to the share of the way from the lowest to the highest
    /// load, in millionths.
    pub curve: Vec<(i64, i64)>,
    /// What is usual for each hour of each day of the week, from Monday,
    /// in Wh.
    pub diagram: [[u64; 24]; 7],
}

/// Struct for calculating and holding the load per hour, given a weather
/// forecast.
#[derive(Debug)]
pub struct Consumption {
    /// The latest estimates.
    pub consumption: Vec<ConsumptionValues>,
    pub min_avg_load: u64,
    pub max_avg_load: u64,
    pub diagram: [[u64; 24]; 7],
    pub curve: MonotonicCubicSpline,
}

/// What the estimates are worked out from.
pub struct LoadModel {
    pub curve: MonotonicCubicSpline,
    pub min_avg_load: u64,
    pub max_avg_load: u64,
    pub diagram: [[u64; 24]; 7],
}

/// `r` is the estimate for the hour of `v`, which is `local` on the local
/// clock: the load that the temperature accounts for, and what is usual for
/// the hour of the week; without the latter where the local time is not
/// known.
pub open spec fn sample_estimate(
    m: LoadModel,
    v: ForecastValues,
    local: Option<LocalTime>,
    r: ConsumptionValues,
) -> bool {
    &&& r.valid_time == v.valid_time
    &&& exists|share: int|
        {
            &&& m.curve.value_at(held_temp(v.temp), share)
            &&& r.power == #[trigger] load_of(m.min_avg_load, m.max_avg_load, share) + (match local {
                Some(l) => m.diagram[l.weekday as int][l.hour as int] as int,
                None => 0,
            })
        }
}

/// `r` is the estimate for the forecast `v`, for some answer of the local
/// clock for the time of the forecast.
pub open spec fn estimate_for(m: LoadModel, v: ForecastValues, r: ConsumptionValues) -> bool {
    exists|local: Option<LocalTime>|
        local_answer(v.valid_time, local) && #[trigger] sample_estimate(m, v, local, r)
}

/// Each of `consumption` is the estimate for the forecast at its position,
/// for some answer of the local clock.
pub open spec fn estimates_for(
    m: LoadModel,
    forecast: Seq<ForecastValues>,
    consumption: Seq<ConsumptionValues>,
) -> bool {
    &&& consumption.len() == forecast.len()
    &&& forall|i: int|
        0 <= i < forecast.len() ==> estimate_for(m, forecast[i], #[trigger] consumption[i])
}

/// The load, in W, that the curve's value `share` stands for: that share,
/// held to the range from nothing to the whole, of the way from the lowest
/// to the highest load.
pub open spec fn load_of(min_avg_load: u64, max_avg_load: u64, share: int) -> int {
    let s = if share < 0 {
        0
    } else if share > FULL_LOAD {
        FULL_LOAD as int
    } else {
        share
    };
    min_avg_load + (s * (max_avg_load - min_avg_load)) / (FULL_LOAD as int)
}

/// The temperatures of the curve's points, in their order.
pub open spec fn curve_temps(points: Seq<(i64, i64)>) -> Seq<i64> {
    Seq::new(points.len(), |i: int| points[i].0)
}

/// The shares of the curve's points, in their order.
pub open spec fn curve_shares(points: Seq<(i64, i64)>) -> Seq<i64> {
    Seq::new(points.len(), |i: int| points[i].1)
}

/// The points of the curve can carry a spline.
pub open spec fn curve_ok(points: Seq<(i64, i64)>) -> bool {
    points_ok(curve_temps(points), curve_shares(points))
}

impl Consumption {
    /// The estimator is set up soundly.
    pub open spec fn wf(&self) -> bool {
        &&& self.curve.wf()
        &&& self.min_avg_load <= self.max_avg_load <= MAX_LOAD
        &&& forall|d: int, h: int|
            0 <= d < 7 && 0 <= h < 24 ==> (#[trigger] self.diagram[d][h]) <= MAX_LOAD
    }

    /// Checks that the estimator is set up soundly.
    pub fn is_valid(&self) -> (r: bool)
        ensures
            r == self.wf(),
    {
        if !self.curve.is_valid() || self.min_avg_load > self.max_avg_load || self.max_avg_load
            > MAX_LOAD {
            return false;
        }
        let mut d: usize = 0;
        while d < 7
            invariant
                d <= 7,
                forall|i: int, h: int|
                    0 <= i < d && 0 <= h < 24 ==> (#[trigger] self.diagram[i][h]) <= MAX_LOAD,
            decreases 7 - d,
        {
            let mut h: usize = 0;
            while h < 24
                invariant
                    d < 7,
                    h <= 24,
                    forall|i: int, k: int|
                        0 <= i < d && 0 <= k < 24 ==> (#[trigger] self.diagram[i][k]) <= MAX_LOAD,
                    forall|k: int| 0 <= k < h ==> (#[trigger] self.diagram[d as int][k]) <= MAX_LOAD,
                decreases 24 - h,
            {
                if self.diagram[d][h] > MAX_LOAD {
                    return false;
                }
                h += 1;
            }
            d += 1;
        }
        true
    }

    /// What the estimates are worked out from.
    pub open spec fn model(&self) -> LoadModel {
        LoadModel {
            curve: self.curve,
            min_avg_load: self.min_avg_load,
            max_avg_load: self.max_avg_load,
            diagram: self.diagram,
        }
    }

    /// Returns a new Consumption struct, with the curve through the points
    /// of the configuration and no estimates yet. It is made exactly where
    /// the points can carry a spline: at least two of them, at rising
    /// temperatures, all within the limits. Where they cannot, the error
    /// says so.
    pub fn new(config: &ConsumptionParameters) -> (r: Result<Consumption, SplineError>)
        ensures
            match r {
                Ok(c) => {
                    &&& curve_ok(config.curve@)
                    &&& c.curve.wf()
                    &&& c.curve.x@ == curve_temps(config.curve@)
                    &&& c.curve.y@ == curve_shares(config.curve@)
                    &&& c.min_avg_load == config.min_avg_load
                    &&& c.max_avg_load == config.max_avg_load
                    &&& c.diagram == config.diagram
                    &&& c.consumption@.len() == 0
                },
                Err(e) => !curve_ok(config.curve@) && e.0@ == "points cannot carry a spline"@,
            },
    {
        let mut curve_x: Vec<i64> = Vec::new();
        let mut curve_y: Vec<i64> = Vec::new();
        let n = config.curve.len();
        let mut i: usize = 0;
        while i < n
            invariant
                n == config.curve.len(),
                i <= n,
                curve_x@.len() == i,
                curve_y@.len() == i,
                forall|j: int|
                    0 <= j < i ==> curve_x@[j] == (#[trigger] config.curve@[j]).0 && curve_y@[j]
                        == config.curve@[j].1,
            decreases n - i,
        {
            let p = config.curve[i];
            curve_x.push(p.0);
            curve_y.push(p.1);
            i += 1;
        }
        assert(curve_x@ =~= curve_temps(config.curve@));
        assert(curve_y@ =~= curve_shares(config.curve@));
        match MonotonicCubicSpline::new(&curve_x, &curve_y) {
            Ok(curve) => Ok(
                Consumption {
                    consumption: Vec::new(),
                    min_avg_load: config.min_avg_load,
                    max_avg_load: config.max_avg_load,
                    diagram: config.diagram,
                    curve,
                },
            ),
            Err(e) => Err(e),
        }
    }

    /// Calculates the load that the temperature accounts for, in W, over
    /// the curve. The curve is such that it gives the load of the house
    /// within a range of temperatures; outside of it the load is taken not
    /// to change.
    pub fn consumption_curve(&self, temp: i64) -> (r: u64)
        requires
            self.wf(),
        ensures
            exists|share: int|
                self.curve.value_at(held_temp(temp), share) && r == #[trigger] load_of(
                    self.min_avg_load,
                    self.max_avg_load,
                    share,
                ),
            self.min_avg_load <= r <= self.max_avg_load,
    {
        let held: i64 = if temp < -MAX_COORD {
            -MAX_COORD
        } else if temp > MAX_COORD {
            MAX_COORD
        } else {
            temp
        };
        let share = self.curve.interpolate(held);
        let s: u64 = if share < 0 {
            0
        } else if share > FULL_LOAD {
            FULL_LOAD as u64
        } else {
            share as u64
        };
        let span: u64 = self.max_avg_load - self.min_avg_load;
        assert(0 <= s * span <= 1_000_000 * 100_000_000 && (s * span) / 1_000_000 <= span)
            by (nonlinear_arith)
            requires
                0 <= s <= 1_000_000,
                0 <= span <= 100_000_000,
        ;
        let r = self.min_avg_load + (s * span) / (FULL_LOAD as u64);
        assert(r == load_of(self.min_avg_load, self.max_avg_load, share as int));
        r
    }

    /// Estimates the load in the hour of the forecast `v`, whose time on
    /// the local clock is `local`.
    pub fn estimate_hour(&self, v: &ForecastValues, local: Option<LocalTime>) -> (r:
        ConsumptionValues)
        requires
            self.wf(),
            local matches Some(l) ==> l.wf(),
        ensures
            sample_estimate(self.model(), *v, local, r),
    {
        let by_temp = self.consumption_curve(v.temp);
        let usual: u64 = match local {
            Some(l) => {
                assert(self.diagram[l.weekday as int][l.hour as int] <= MAX_LOAD);
                self.diagram[l.weekday as usize][l.hour as usize]
            },
            None => 0,
        };
        let r = ConsumptionValues { valid_time: v.valid_time, power: by_temp + usual };
        proof {
            let m = self.model();
            let share = choose|share: int|
                self.curve.value_at(held_temp(v.temp), share) && by_temp == #[trigger] load_of(
                    self.min_avg_load,
                    self.max_avg_load,
                    share,
                );
            assert(m.curve.value_at(held_temp(v.temp), share));
            assert(r.power == load_of(m.min_avg_load, m.max_avg_load, share) + (match local {
                Some(l) => m.diagram[l.weekday as int][l.hour as int] as int,
                None => 0,
            }));
        }
        r
    }

    /// Calculates new estimates of the load, hour by hour of the forecast.
    /// The hour and the day of the week of each forecast are those of the
    /// machine's local clock: whatever it says, each estimate is the one
    /// that [`Consumption::estimate_hour`] gives for its answer, and the
    /// clock has an answer for every time up to the end of the year 9999,
    /// so that each such estimate holds what is usual for an hour of the
    /// week.
    pub fn new_estimates(&mut self, forecast: &Vec<ForecastValues>)
        requires
            old(self).wf(),
        ensures
            final(self).wf(),
            final(self).curve == old(self).curve,
            final(self).min_avg_load == old(self).min_avg_load,
            final(self).max_avg_load == old(self).max_avg_load,
            final(self).diagram == old(self).diagram,
            estimates_for(old(self).model(), forecast@, final(self).consumption@),
    {
        let mut estimates: Vec<ConsumptionValues> = Vec::new();
        let n = forecast.len();
        let mut i: usize = 0;
        let ghost m = self.model();
        while i < n
            invariant
                self.wf(),
                m == self.model(),
                n == forecast.len(),
                i <= n,
                estimates@.len() == i,
                forall|k: int|
                    0 <= k < i ==> estimate_for(m, forecast@[k], #[trigger] estimates@[k]),
            decreases n - i,
        {
            let v = forecast[i];
            let local = local_time_of(v.valid_time);
            let e = self.estimate_hour(&v, local);
            assert(sample_estimate(m, forecast@[i as int], local, e));
            assert(estimate_for(m, forecast@[i as int], e));
            estimates.push(e);
            i += 1;
        }
        self.consumption = estimates;
        assert(estimates_for(m, forecast@, self.consumption@));
    }
}

/// The temperature held to what the curve can be asked for.
pub open spec fn held_temp(temp: i64) -> i64 {
    if temp < -MAX_COORD {
        (-MAX_COORD) as i64
    } else if temp > MAX_COORD {
        MAX_COORD
    } else {
        temp
    }
}

} // verus!
