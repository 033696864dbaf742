use mygrid::calendar::{Date, LocalTime};
use mygrid::charge_level::{calculate_spare_capacity, get_charge_level};
use mygrid::config::GeoRef;
use mygrid::consumption::{Consumption, ConsumptionParameters};
use mygrid::models::smhi_forecast::ForecastValues;
use mygrid::grouping::group_on_time;
use mygrid::production::{
    cloud_share_of, factor_in_cloud, find_sun_day, get_max_day_power, get_max_sun_elevation,
    get_sun_extremes, hour_curve_span, relative_time, PVProduction, ProductionParameters,
    ProductionValues, SunDay,
};
use mygrid::spline::{check_points, MonotonicCubicSpline};

fn date() -> Date {
    Date { year: 2024, month: 6, day: 21 }
}

/// A day on which the sun rises at 06:00 in the east, stands in the south
/// at noon and sets at 18:00 in the west.
fn sun_day(peak: i32) -> SunDay {
    let mut elevation = Vec::new();
    let mut azimuth = Vec::new();
    for m in 0..1440i32 {
        let from_noon = (m - 720).abs();
        elevation.push(peak - peak * from_noon / 360);
        azimuth.push(m * 250);
    }
    SunDay { date: date(), elevation, azimuth }
}

fn params() -> ProductionParameters {
    ProductionParameters {
        min_pv_power: 1000,
        max_pv_power: 5000,
        cloud_impact_factor: 500,
        sunrise_angle: 0,
        sunset_angle: 0,
        visibility_alt: -90_000,
        am_zero_azimuth: 0,
        am_full_azimuth: 1,
        pm_full_azimuth: 359_999,
        pm_zero_azimuth: 360_000,
        diagram: vec![1_000_000; 1440],
    }
}

fn forecast(time: u64, cloud_factor: u64) -> ForecastValues {
    ForecastValues { valid_time: time, temp: 10_000, lcc_mean: 0, mcc_mean: 0, hcc_mean: 0, cloud_factor }
}

fn local(hour: u32, weekday: u32) -> LocalTime {
    LocalTime { year: 2024, month: 6, day: 21, ordinal0: 172, weekday, hour, minute: 0 }
}

#[test]
fn sun_extremes_are_found() {
    let day = sun_day(50_000);
    let e = get_sun_extremes(&day, 0, 0);
    assert_eq!(e.peak_elevation, 50_000);
    assert_eq!(e.sunrise, 361);
    assert_eq!(e.sunset, 1079);
    let e = get_sun_extremes(&day, 25_000, 40_000);
    assert_eq!(e.sunrise, 541);
    assert_eq!(e.sunset, 791);
    assert_eq!(get_max_sun_elevation(&day), 50_000);
}

#[test]
fn night_has_no_sunrise() {
    let day = SunDay { date: date(), elevation: vec![-5000; 1440], azimuth: vec![100_000; 1440] };
    let e = get_sun_extremes(&day, 0, 0);
    assert_eq!((e.peak_elevation, e.sunrise, e.sunset), (0, 0, 0));
    assert_eq!(get_max_sun_elevation(&day), 0);
}

#[test]
fn day_power_lies_between_winter_and_summer() {
    assert_eq!(get_max_day_power(1000, 5000, 10_000, 10_000, 58_000), 1000);
    assert_eq!(get_max_day_power(1000, 5000, 58_000, 10_000, 58_000), 5000);
    assert_eq!(get_max_day_power(1000, 5000, 34_000, 10_000, 58_000), 3000);
    assert_eq!(get_max_day_power(1000, 5000, 5000, 10_000, 58_000), 1000);
    assert_eq!(get_max_day_power(1000, 5000, 70_000, 10_000, 58_000), 5000);
    assert_eq!(get_max_day_power(1000, 5000, 22_000, 10_000, 58_000), 2000);
    assert_eq!(get_max_day_power(1000, 5000, 22_000, 58_000, 58_000), 1000);
}

#[test]
fn visibility_follows_azimuth_and_elevation() {
    let mut p = params();
    p.am_zero_azimuth = 0;
    p.am_full_azimuth = 100_000;
    p.pm_full_azimuth = 245_000;
    p.pm_zero_azimuth = 360_000;
    p.visibility_alt = 10_000;
    // before noon, sun well clear of the surroundings
    assert_eq!(p.visibility(30_000, 50_000), 500_000);
    assert_eq!(p.visibility(30_000, 100_000), 1_000_000);
    assert_eq!(p.visibility(30_000, 150_000), 1_000_000);
    // behind the surroundings
    assert_eq!(p.visibility(9_999, 100_000), 150_000);
    // coming clear: one degree to go
    assert_eq!(p.visibility(11_000, 100_000), 575_000);
    assert_eq!(p.visibility(12_000, 100_000), 1_000_000);
    assert_eq!(p.visibility(11_000, 50_000), 287_500);
    // after noon
    assert_eq!(p.visibility(1000, 200_000), 1_000_000);
    assert_eq!(p.visibility(1000, 245_000), 1_000_000);
    assert_eq!(p.visibility(1000, 302_500), 500_000);
    assert_eq!(p.visibility(1000, 360_000), 0);
    assert_eq!(p.visibility(1000, -5), 0);
}

#[test]
fn clouds_are_weighted() {
    assert_eq!(cloud_share_of(500, 1_000_000), 1_000_000);
    assert_eq!(cloud_share_of(500, 0), 500_000);
    assert_eq!(cloud_share_of(1000, 192_000), 192_000);
    assert_eq!(cloud_share_of(0, 192_000), 1_000_000);
    assert_eq!(cloud_share_of(250, 2_000_000), 1_000_000);
}

#[test]
fn hour_in_full_daylight_gives_peak_power() {
    let p = params();
    let day = sun_day(50_000);
    assert_eq!(p.calculate_hour_pv_production(&day, 4000, 361, 1079, 12, 1_000_000), 4000);
    // clouds that let nothing through take half, at half impact
    assert_eq!(p.calculate_hour_pv_production(&day, 4000, 361, 1079, 12, 0), 2000);
}

#[test]
fn hours_of_night_give_nothing() {
    let p = params();
    let day = sun_day(50_000);
    assert_eq!(p.calculate_hour_pv_production(&day, 4000, 361, 1079, 3, 1_000_000), 0);
    assert_eq!(p.calculate_hour_pv_production(&day, 4000, 361, 1079, 18, 1_000_000), 0);
    assert_eq!(p.calculate_hour_pv_production(&day, 4000, 361, 1079, 23, 1_000_000), 0);
    assert_eq!(p.calculate_hour_pv_production(&day, 4000, 1079, 361, 12, 1_000_000), 0);
    assert_eq!(p.calculate_hour_pv_production(&day, 4000, 0, 0, 0, 1_000_000), 0);
}

#[test]
fn hour_of_sunrise_gives_its_share() {
    let p = params();
    let day = sun_day(50_000);
    // the sun rises at minute 390 of the hour from 360 to 419: 29 of 59 minutes
    let e = p.calculate_hour_pv_production(&day, 5900, 390, 1079, 6, 1_000_000);
    assert_eq!(e, 5900 * (29_000_000 / 59) / 1_000_000);
    // sunset at minute 1050 of the hour from 1020 to 1079: 30 of 59 minutes
    let e = p.calculate_hour_pv_production(&day, 5900, 361, 1050, 17, 1_000_000);
    assert_eq!(e, 5900 * (30_000_000 / 59) / 1_000_000);
}

#[test]
fn curve_of_the_day_is_followed() {
    let mut p = params();
    // a curve that is up in its second half only
    let mut diagram = vec![0u64; 720];
    diagram.extend(vec![1_000_000u64; 720]);
    p.diagram = diagram;
    let day = sun_day(50_000);
    // sunrise at 00:00 and sunset at 23:59: one step of the curve per minute
    assert_eq!(p.calculate_hour_pv_production(&day, 3000, 0, 1439, 11, 1_000_000), 0);
    assert_eq!(p.calculate_hour_pv_production(&day, 3000, 0, 1439, 12, 1_000_000), 3000);
}

#[test]
fn estimate_takes_day_and_hour_from_local_time() {
    let pv = PVProduction::new(params(), &GeoRef { lat: 55_600_000, long: 13_000_000 });
    let days = vec![sun_day(34_000)];
    let v = forecast(1_718_964_000, 1_000_000);
    let (e, series) = pv.estimate_hour(&v, Some(local(12, 4)), &days, 10_000, 58_000);
    assert_eq!(e.valid_time, 1_718_964_000);
    assert_eq!(e.power, 3000);
    // the hour from 12:00 covers the curve from position 720 up to 838; the sun rose at 06:01
    assert_eq!(series.len(), 838 - 720);
    assert!(series.iter().all(|p| p.power == 3000));
    let midnight = 1_718_964_000 - 12 * 3600;
    assert_eq!(series[0].valid_time, midnight + 720 * 60);
    assert_eq!(series[117].valid_time, midnight + 779 * 60);
    let (night, dark) = pv.estimate_hour(&v, Some(local(2, 4)), &days, 10_000, 58_000);
    assert_eq!(night.power, 0);
    assert_eq!(dark.len(), 1);
    assert_eq!((dark[0].valid_time, dark[0].power), (1_718_964_000, 0));
    assert_eq!(pv.estimate_hour(&v, None, &days, 10_000, 58_000).0.power, 0);
    let mut other = local(12, 4);
    other.day = 22;
    assert_eq!(pv.estimate_hour(&v, Some(other), &days, 10_000, 58_000).0.power, 0);
    assert_eq!(find_sun_day(&days, date()), Some(0));
    assert_eq!(find_sun_day(&days, Date { year: 2024, month: 6, day: 22 }), None);
    let short = vec![SunDay { date: date(), elevation: vec![0; 3], azimuth: vec![0; 3] }];
    assert_eq!(find_sun_day(&short, date()), None);
}

#[test]
fn estimates_keep_the_times_of_the_forecast() {
    let mut pv = PVProduction::new(params(), &GeoRef { lat: 55_600_000, long: 13_000_000 });
    let f = vec![forecast(1_718_964_000, 1_000_000), forecast(1_718_967_600, 500_000)];
    pv.new_estimates(&f, &Vec::new(), &sun_day(58_000), &sun_day(10_000));
    assert_eq!(pv.production.len(), 2);
    assert_eq!(pv.production[0].valid_time, 1_718_964_000);
    assert_eq!(pv.production[1].valid_time, 1_718_967_600);
    // without the course of the sun for the day there is no production
    assert_eq!(pv.production[0].power, 0);
    assert_eq!(pv.production_kw.len(), 2);
    assert_eq!(pv.production_kw[0].valid_time, 1_718_964_000);
    assert_eq!(pv.production_kw[1].power, 0);
    assert!(params().is_valid());
    let mut bad = params();
    bad.diagram[7] = 1_000_001;
    assert!(!bad.is_valid());
    assert!(sun_day(1).is_valid());
}

#[test]
fn spline_hits_its_points() {
    let x = vec![-10_000i64, 0, 10_000, 20_000];
    let y = vec![1_000_000i64, 700_000, 200_000, 0];
    let s = MonotonicCubicSpline::new(&x, &y).ok().unwrap();
    for i in 0..4 {
        assert_eq!(s.interpolate(x[i]), y[i]);
    }
    assert_eq!(s.interpolate(-50_000), 1_000_000);
    assert_eq!(s.interpolate(50_000), 0);
    assert_eq!(s.m.len(), 4);
    // slopes: -30 and -50 per unit at the ends of the second segment's neighbours
    assert_eq!(s.m[0], -30_000_000);
    assert_eq!(s.m[1], -37_500_000);
    assert_eq!(s.m[3], -20_000_000);
}

#[test]
fn spline_does_not_overshoot() {
    let x = vec![0i64, 10, 20, 30, 40];
    let y = vec![0i64, 0, 1_000_000, 1_000_000, 500_000];
    let s = MonotonicCubicSpline::new(&x, &y).ok().unwrap();
    let mut last = 0;
    for q in 0..=30 {
        let v = s.interpolate(q);
        assert!(0 <= v && v <= 1_000_000);
        assert!(v >= last);
        last = v;
    }
    for q in 0..=10 {
        assert_eq!(s.interpolate(q), 0);
    }
    for q in 20..=30 {
        assert_eq!(s.interpolate(q), 1_000_000);
    }
    assert_eq!(s.interpolate(15), 500_000);
    for q in 30..=40 {
        let v = s.interpolate(q);
        assert!(500_000 <= v && v <= 1_000_000);
    }
}

#[test]
fn spline_needs_rising_positions() {
    assert!(check_points(&vec![0, 1], &vec![5, 5]));
    assert!(!check_points(&vec![0], &vec![5]));
    assert!(!check_points(&vec![0, 1], &vec![5]));
    assert!(!check_points(&vec![0, 0], &vec![5, 6]));
    assert!(!check_points(&vec![1, 0], &vec![5, 6]));
    assert!(!check_points(&vec![0, 1_000_000_001], &vec![5, 6]));
    assert!(!check_points(&vec![0, 1], &vec![5, -1_000_000_001]));
    let e = MonotonicCubicSpline::new(&vec![1, 0], &vec![5, 6]).err().unwrap();
    assert_eq!(e.0, "points cannot carry a spline");
}

fn load_estimator() -> Consumption {
    let mut diagram = [[0u64; 24]; 7];
    diagram[4][12] = 250;
    diagram[0][0] = 40;
    Consumption::new(&ConsumptionParameters {
        min_avg_load: 300,
        max_avg_load: 3300,
        curve: vec![(-4000, 1_000_000), (8000, 500_000), (20_000, 0)],
        diagram,
    })
    .ok()
    .unwrap()
}

#[test]
fn load_follows_temperature() {
    let c = load_estimator();
    assert_eq!(c.consumption_curve(-4000), 3300);
    assert_eq!(c.consumption_curve(-30_000), 3300);
    assert_eq!(c.consumption_curve(8000), 1800);
    assert_eq!(c.consumption_curve(20_000), 300);
    assert_eq!(c.consumption_curve(i64::MAX), 300);
    assert_eq!(c.consumption_curve(i64::MIN), 3300);
    let warm = c.consumption_curve(14_000);
    assert!(300 < warm && warm < 1800);
}

#[test]
fn load_adds_what_is_usual_for_the_hour() {
    let c = load_estimator();
    let v = forecast(1_718_964_000, 0);
    let mut cold = v;
    cold.temp = 8000;
    assert_eq!(c.estimate_hour(&cold, Some(local(12, 4))).power, 2050);
    assert_eq!(c.estimate_hour(&cold, Some(local(0, 0))).power, 1840);
    assert_eq!(c.estimate_hour(&cold, Some(local(13, 4))).power, 1800);
    assert_eq!(c.estimate_hour(&cold, None).power, 1800);
    assert_eq!(c.estimate_hour(&cold, None).valid_time, 1_718_964_000);
}

#[test]
fn load_estimates_keep_the_times_of_the_forecast() {
    let mut c = load_estimator();
    let mut f = vec![forecast(1_718_964_000, 0), forecast(1_718_967_600, 0)];
    f[0].temp = 20_000;
    f[1].temp = -4000;
    c.new_estimates(&f);
    assert_eq!(c.consumption.len(), 2);
    assert_eq!(c.consumption[1].valid_time, 1_718_967_600);
    // the hour of the week is the local clock's; the diagram adds at most 250
    assert!(300 <= c.consumption[0].power && c.consumption[0].power <= 550);
    assert!(3300 <= c.consumption[1].power && c.consumption[1].power <= 3550);
}

#[test]
fn load_estimates_hold_what_is_usual_whatever_the_local_hour() {
    // the same is usual for every hour of the week, so the estimate does
    // not depend on where the machine stands
    let mut c = Consumption::new(&ConsumptionParameters {
        min_avg_load: 300,
        max_avg_load: 3300,
        curve: vec![(-4000, 1_000_000), (8000, 500_000), (20_000, 0)],
        diagram: [[77u64; 24]; 7],
    })
    .ok()
    .unwrap();
    let mut f = vec![forecast(0, 0), forecast(1_718_964_000, 0), forecast(253_402_300_799, 0)];
    f[0].temp = 8000;
    f[1].temp = 20_000;
    f[2].temp = -4000;
    c.new_estimates(&f);
    assert_eq!(c.consumption.len(), 3);
    assert_eq!((c.consumption[0].valid_time, c.consumption[0].power), (0, 1877));
    assert_eq!((c.consumption[1].valid_time, c.consumption[1].power), (1_718_964_000, 377));
    assert_eq!((c.consumption[2].valid_time, c.consumption[2].power), (253_402_300_799, 3377));
    // a time that the clock cannot be asked for has nothing usual
    let mut far = vec![forecast(u64::MAX, 0)];
    far[0].temp = 8000;
    c.new_estimates(&far);
    assert_eq!(c.consumption[0].power, 1800);
}

/// A day on which the sun stands at one height all day and night.
fn bright_day(day: u32) -> SunDay {
    SunDay {
        date: Date { year: 2024, month: 6, day },
        elevation: vec![30_000; 1440],
        azimuth: (0..1440i32).map(|m| m * 250).collect(),
    }
}

#[test]
fn estimates_take_the_day_from_the_local_clock() {
    // the sun is given for the day of the forecast in UTC and for the days
    // around it, so that there is a day for every local clock
    let mut pv = PVProduction::new(params(), &GeoRef { lat: 55_600_000, long: 13_000_000 });
    let days = vec![bright_day(20), bright_day(21), bright_day(22)];
    let noon: u64 = 1_718_971_200;
    let f = vec![
        forecast(noon - 3 * 3600, 1_000_000),
        forecast(noon, 1_000_000),
        forecast(noon + 3 * 3600, 1_000_000),
    ];
    pv.new_estimates(&f, &days, &sun_day(58_000), &sun_day(10_000));
    assert_eq!(pv.production.len(), 3);
    for (e, v) in pv.production.iter().zip(f.iter()) {
        assert_eq!(e.valid_time, v.valid_time);
        assert!(e.power > 0);
    }
    assert!(pv.production_kw.iter().any(|p| p.power > 0));
}

#[test]
fn bad_curve_is_an_error() {
    let r = Consumption::new(&ConsumptionParameters {
        min_avg_load: 300,
        max_avg_load: 3300,
        curve: vec![(0, 0)],
        diagram: [[0u64; 24]; 7],
    });
    assert_eq!(r.err().unwrap().0, "points cannot carry a spline");
    let falling = Consumption::new(&ConsumptionParameters {
        min_avg_load: 300,
        max_avg_load: 3300,
        curve: vec![(8000, 500_000), (-4000, 1_000_000)],
        diagram: [[0u64; 24]; 7],
    });
    assert_eq!(falling.err().unwrap().0, "points cannot carry a spline");
}

#[test]
fn sound_curve_makes_an_estimator() {
    let mut diagram = [[0u64; 24]; 7];
    diagram[6][23] = 75;
    let c = Consumption::new(&ConsumptionParameters {
        min_avg_load: 300,
        max_avg_load: 3300,
        curve: vec![(-4000, 1_000_000), (8000, 500_000), (20_000, 0)],
        diagram,
    })
    .ok()
    .unwrap();
    assert_eq!(c.curve.x, vec![-4000, 8000, 20_000]);
    assert_eq!(c.curve.y, vec![1_000_000, 500_000, 0]);
    assert_eq!(c.min_avg_load, 300);
    assert_eq!(c.max_avg_load, 3300);
    assert_eq!(c.diagram, diagram);
    assert!(c.consumption.is_empty());
    assert!(c.curve.is_valid());
}

#[test]
fn spare_capacity_of_an_hour() {
    assert_eq!(calculate_spare_capacity(3000, 1000, 300), 2000);
    assert_eq!(calculate_spare_capacity(1000, 1000, 300), 0);
    assert_eq!(calculate_spare_capacity(900, 1000, 300), 300);
    assert_eq!(calculate_spare_capacity(200, 1000, 300), 0);
}

#[test]
fn charge_level_leaves_room() {
    let production = vec![0u64, 3000, 5000, 900];
    let load = vec![500u64, 1000, 1000, 1000];
    // 0 + 2000 + 4000 + 300 Wh of room: 6300 / 165.9 = 37.97..., so 62 percent
    assert_eq!(get_charge_level(&vec![0, 1, 2, 3], &production, &load, 300), Some(62));
    assert_eq!(get_charge_level(&vec![1], &production, &load, 300), Some(87));
    assert_eq!(get_charge_level(&vec![], &production, &load, 300), Some(100));
    assert_eq!(get_charge_level(&vec![7], &production, &load, 300), Some(100));
    assert_eq!(get_charge_level(&vec![2, 2], &production, &load, 300), Some(75));
    assert_eq!(get_charge_level(&vec![0], &vec![100_000], &vec![0], 0), Some(0));
    assert_eq!(get_charge_level(&vec![0], &production, &vec![1], 300), None);
    assert_eq!(get_charge_level(&vec![0], &vec![100_000_001], &vec![1], 300), None);
    assert_eq!(get_charge_level(&vec![0], &vec![1; 49], &vec![1; 49], 300), None);
}

fn value(valid_time: u64, power: u64) -> ProductionValues {
    ProductionValues { valid_time, power }
}

fn pairs(values: &Vec<ProductionValues>) -> Vec<(u64, u64)> {
    values.iter().map(|v| (v.valid_time, v.power)).collect()
}

#[test]
fn samples_are_grouped_by_five_minutes() {
    let data = vec![
        value(660, 9),
        value(0, 10),
        value(60, 20),
        value(300, 7),
        value(299, 31),
        value(599, 8),
        value(900, 0),
    ];
    assert_eq!(pairs(&group_on_time(&data)), vec![(0, 20), (300, 7), (600, 9), (900, 0)]);
    assert!(group_on_time(&Vec::new()).is_empty());
    assert_eq!(pairs(&group_on_time(&vec![value(u64::MAX, u64::MAX), value(u64::MAX, u64::MAX)])),
        vec![(u64::MAX - u64::MAX % 300, u64::MAX)]);
}

#[test]
fn clouds_are_factored_in_smoothly() {
    let f = vec![forecast(3600, 1_000_000), forecast(7200, 0), forecast(10_800, 0)];
    let data = vec![value(0, 1000), value(3600, 1000), value(5400, 1000), value(7200, 1000), value(9000, 1000), value(20_000, 1000)];
    let r = factor_in_cloud(&data, &f, 1000);
    assert_eq!(r.len(), 6);
    assert_eq!(pairs(&r)[0], (0, 1000));
    assert_eq!(pairs(&r)[1], (3600, 1000));
    assert_eq!(pairs(&r)[3], (7200, 0));
    assert_eq!(pairs(&r)[4], (9000, 0));
    assert_eq!(pairs(&r)[5], (20_000, 0));
    assert!(0 < r[2].power && r[2].power < 1000);
    // at half the impact of the clouds, half of the light is left at least
    let half = factor_in_cloud(&data, &f, 500);
    assert_eq!(half[3].power, 500);
    // a forecast of one hour cannot carry a spline
    assert!(factor_in_cloud(&data, &vec![forecast(3600, 0)], 1000).is_empty());
    assert!(factor_in_cloud(&data, &Vec::new(), 1000).is_empty());
    assert!(factor_in_cloud(&data, &vec![forecast(7200, 0), forecast(3600, 0)], 1000).is_empty());
    assert_eq!(relative_time(10, 4), 6);
    assert_eq!(relative_time(4, 10), -6);
    assert_eq!(relative_time(u64::MAX, 0), 1_000_000_001);
    assert_eq!(relative_time(0, u64::MAX), -1_000_000_001);
}

#[test]
fn hour_covers_its_part_of_the_curve() {
    assert_eq!(hour_curve_span(0, 1439, 12), Some((720, 779, 1_000_000)));
    assert_eq!(hour_curve_span(361, 1079, 12), Some((720, 838, 1_000_000)));
    assert_eq!(hour_curve_span(390, 1079, 6), Some((0, 61, 29_000_000 / 59)));
    assert_eq!(hour_curve_span(361, 1079, 3), None);
    assert_eq!(hour_curve_span(1079, 361, 12), None);
}
