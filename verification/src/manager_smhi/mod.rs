//! From the weather service's forecast to the hours that the estimators
//! take. Fetching the forecast is not part of the library.

pub mod errors;

use vstd::prelude::*;
use vstd::string::StringExecFns;
use crate::config::GeoRef;
use crate::manager_smhi::errors::SMHIError;
use crate::models::smhi_forecast::{ForecastValues, FullTimeSeries};
use crate::time::{truncate_to_hour, truncated, HOUR_SECONDS, MAX_TIME};

verus! {

/// Full cloud cover, in thousandths of an eighth.
pub const FULL_COVER: u64 = 8000;

/// One whole, in millionths.
pub const MILLION: u64 = 1_000_000;

/// Most hours that a forecast is topped up with.
pub const MAX_TOP_UP: u64 = 48;

/// Where the forecast is for, and how much each layer of clouds dims the light.
#[derive(Clone, Copy, Debug)]
pub struct SMHI {
    /// Latitude and longitude, in millionths of a degree.
    pub lat: i64,
    pub long: i64,
    /// Share of the light that a full cover of the layer takes, in thousandths.
    pub high_clouds_factor: u64,
    pub mid_clouds_factor: u64,
    pub low_clouds_factor: u64,
}

/// Share of the light that one layer lets through, in millionths, at the
/// cover `cover`, of which a full cover takes `weight` thousandths. A cover
/// above full counts as full, a weight above the whole as the whole.
pub open spec fn layer_factor(cover: u64, weight: u64) -> int {
    let c = if cover > FULL_COVER {
        FULL_COVER as int
    } else {
        cover as int
    };
    let w = if weight > 1000 {
        1000
    } else {
        weight as int
    };
    MILLION - (c * w) / 8
}

/// Share of the light that the three layers let through, in millionths:
/// the product of what each lets through.
pub open spec fn cloud_factor_of(s: SMHI, low: u64, mid: u64, high: u64) -> int {
    ((layer_factor(high, s.high_clouds_factor) * layer_factor(mid, s.mid_clouds_factor))
        / (MILLION as int) * layer_factor(low, s.low_clouds_factor)) / (MILLION as int)
}

/// Works out the share of the light that one layer lets through.
fn layer(cover: u64, weight: u64) -> (f: u64)
    ensures
        f == layer_factor(cover, weight),
        f <= MILLION,
{
    let c: u64 = if cover > FULL_COVER {
        FULL_COVER
    } else {
        cover
    };
    let w: u64 = if weight > 1000 {
        1000
    } else {
        weight
    };
    assert(0 <= (c * w) / 8 <= 1_000_000) by (nonlinear_arith)
        requires
            0 <= c <= 8000,
            0 <= w <= 1000,
    ;
    assert(c * w <= 8_000_000) by (nonlinear_arith)
        requires
            0 <= c <= 8000,
            0 <= w <= 1000,
    ;
    MILLION - (c * w) / 8
}

/// The hour of a forecast as the estimators take it.
pub open spec fn forecast_of(s: SMHI, ts: FullTimeSeries) -> ForecastValues {
    ForecastValues {
        valid_time: ts.time,
        temp: ts.data.air_temperature,
        lcc_mean: ts.data.low_type_cloud_area_fraction,
        mcc_mean: ts.data.medium_type_cloud_area_fraction,
        hcc_mean: ts.data.high_type_cloud_area_fraction,
        cloud_factor: cloud_factor_of(
            s,
            ts.data.low_type_cloud_area_fraction,
            ts.data.medium_type_cloud_area_fraction,
            ts.data.high_type_cloud_area_fraction,
        ) as u64,
    }
}

/// The hours among the first `n` of `series` that lie from `from` up to
/// `to`, as the estimators take them.
pub open spec fn forecast_in_scope(s: SMHI, series: Seq<FullTimeSeries>, from: u64, to: u64, n: int) -> Seq<
    ForecastValues,
>
    decreases n,
{
    if n <= 0 {
        Seq::empty()
    } else if from <= series[n - 1].time < to {
        forecast_in_scope(s, series, from, to, n - 1).push(forecast_of(s, series[n - 1]))
    } else {
        forecast_in_scope(s, series, from, to, n - 1)
    }
}

/// Number of hours that are missing before the first hour of a forecast,
/// counted from the hour of `date_time`; no more than [`MAX_TOP_UP`].
pub open spec fn missing_hours(date_time: u64, first: u64) -> int {
    let from = truncated(date_time as int, HOUR_SECONDS as int);
    let to = truncated(first as int, HOUR_SECONDS as int);
    if to <= from {
        0
    } else if (to - from) / (HOUR_SECONDS as int) > MAX_TOP_UP {
        MAX_TOP_UP as int
    } else {
        (to - from) / (HOUR_SECONDS as int)
    }
}

/// The forecast with the hours that are missing before its first hour filled
/// in: each has the values of the first hour.
pub open spec fn topped_up(date_time: u64, forecast: Seq<ForecastValues>) -> Seq<ForecastValues> {
    if forecast.len() == 0 {
        forecast
    } else {
        let from = truncated(date_time as int, HOUR_SECONDS as int);
        Seq::new(
            missing_hours(date_time, forecast[0].valid_time) as nat,
            |h: int|
                ForecastValues { valid_time: (from + h * HOUR_SECONDS) as u64, ..forecast[0] },
        ) + forecast
    }
}

impl SMHI {
    /// Returns a SMHI struct for the place and the weights of the layers
    /// of clouds.
    pub fn new(location: &GeoRef, high_clouds_factor: u64, mid_clouds_factor: u64, low_clouds_factor: u64) -> (r:
        SMHI)
        ensures
            r == (SMHI {
                lat: location.lat,
                long: location.long,
                high_clouds_factor,
                mid_clouds_factor,
                low_clouds_factor,
            }),
    {
        SMHI {
            lat: location.lat,
            long: location.long,
            high_clouds_factor,
            mid_clouds_factor,
            low_clouds_factor,
        }
    }

    /// Share of the light that the clouds let through, in millionths, given
    /// the cover of the low, the medium and the high layer.
    pub fn cloud_factor(&self, low: u64, mid: u64, high: u64) -> (f: u64)
        ensures
            f == cloud_factor_of(*self, low, mid, high),
            f <= MILLION,
    {
        let h = layer(high, self.high_clouds_factor);
        let m = layer(mid, self.mid_clouds_factor);
        let l = layer(low, self.low_clouds_factor);
        assert(h * m <= 1_000_000 * 1_000_000 && (h * m) / 1_000_000 <= 1_000_000)
            by (nonlinear_arith)
            requires
                0 <= h <= 1_000_000,
                0 <= m <= 1_000_000,
        ;
        let hm: u64 = (h * m) / MILLION;
        assert(hm * l <= 1_000_000 * 1_000_000 && (hm * l) / 1_000_000 <= 1_000_000)
            by (nonlinear_arith)
            requires
                0 <= hm <= 1_000_000,
                0 <= l <= 1_000_000,
        ;
        (hm * l) / MILLION
    }

    /// Picks the hours of the forecast that lie from `from` up to `to`, and
    /// works out for each what the clouds let through. The hours that are
    /// missing before the first, counted from the hour of `date_time`, are
    /// filled in with the values of the first. It is an error if no hour of
    /// the forecast lies in the span.
    pub fn new_forecast(&self, series: &Vec<FullTimeSeries>, from: u64, to: u64, date_time: u64) -> (r:
        Result<Vec<ForecastValues>, SMHIError>)
        requires
            date_time <= MAX_TIME,
        ensures
            ({
                let picked = forecast_in_scope(*self, series@, from, to, series@.len() as int);
                match r {
                    Ok(f) => picked.len() > 0 && f@ == topped_up(date_time, picked),
                    Err(SMHIError::SMHI(e)) => picked.len() == 0 && e@ == "No forecast found"@,
                    Err(SMHIError::Document(_)) => false,
                }
            }),
    {
        let mut picked: Vec<ForecastValues> = Vec::new();
        let n = series.len();
        let mut i: usize = 0;
        while i < n
            invariant
                n == series.len(),
                i <= n,
                picked@ == forecast_in_scope(*self, series@, from, to, i as int),
            decreases n - i,
        {
            let ts = series[i];
            if from <= ts.time && ts.time < to {
                let d = ts.data;
                picked.push(
                    ForecastValues {
                        valid_time: ts.time,
                        temp: d.air_temperature,
                        lcc_mean: d.low_type_cloud_area_fraction,
                        mcc_mean: d.medium_type_cloud_area_fraction,
                        hcc_mean: d.high_type_cloud_area_fraction,
                        cloud_factor: self.cloud_factor(
                            d.low_type_cloud_area_fraction,
                            d.medium_type_cloud_area_fraction,
                            d.high_type_cloud_area_fraction,
                        ),
                    },
                );
            }
            i += 1;
        }
        if picked.len() == 0 {
            Err(SMHIError::SMHI(String::from_str("No forecast found")))
        } else {
            Ok(top_up_forecast(date_time, picked))
        }
    }
}

/// Makes sure that the forecast begins with the hour of `date_time`: the
/// hours that are missing before its first hour are filled in with the
/// values of the first hour.
pub fn top_up_forecast(date_time: u64, forecast: Vec<ForecastValues>) -> (r: Vec<ForecastValues>)
    requires
        date_time <= MAX_TIME,
    ensures
        r@ == topped_up(date_time, forecast@),
{
    if forecast.len() == 0 {
        return forecast;
    }
    let first = forecast[0];
    let from = truncate_to_hour(date_time);
    let to = truncate_to_hour(first.valid_time);
    let missing: u64 = if to <= from {
        0
    } else if (to - from) / HOUR_SECONDS > MAX_TOP_UP {
        MAX_TOP_UP
    } else {
        (to - from) / HOUR_SECONDS
    };
    let mut result: Vec<ForecastValues> = Vec::new();
    let mut h: u64 = 0;
    while h < missing
        invariant
            h <= missing <= MAX_TOP_UP,
            from <= MAX_TIME,
            result@.len() == h,
            forall|k: int|
                0 <= k < h ==> result@[k] == (ForecastValues {
                    valid_time: (from + k * HOUR_SECONDS) as u64,
                    ..first
                }),
        decreases missing - h,
    {
        result.push(
            ForecastValues {
                valid_time: from + h * HOUR_SECONDS,
                temp: first.temp,
                lcc_mean: first.lcc_mean,
                mcc_mean: first.mcc_mean,
                hcc_mean: first.hcc_mean,
                cloud_factor: first.cloud_factor,
            },
        );
        h += 1;
    }
    let mut rest = forecast;
    result.append(&mut rest);
    assert(result@ =~= topped_up(date_time, forecast@));
    result
}

} // verus!
