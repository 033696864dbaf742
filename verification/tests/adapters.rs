use md5::{Digest, Md5};
use mygrid::calendar::LocalTime;
use mygrid::manager_fox_cloud::{
    check_response, soc_from_reading, window_seconds, Fox, TimeSpan,
};
use mygrid::manager_mail::{Mail, MailError};
use mygrid::config::GeoRef;
use mygrid::manager_nordpool::{
    check_status, round_div, round_to_two_decimals, NordPool, NordPoolError,
};
use mygrid::manager_smhi::errors::SMHIError;
use mygrid::manager_smhi::{top_up_forecast, SMHI};
use mygrid::models::charging_time_schedule::{ChargingTime, ChargingTimeSchedule};
use mygrid::models::nordpool_tariffs::{EntryPerArea, MultiAreaEntries, TariffValues, Tariffs};
use mygrid::models::sendgrid::Address;
use mygrid::models::smhi_forecast::{Data, ForecastValues, FullTimeSeries};
use mygrid::text::{decimal, hex};

fn span(enable: bool, sh: u8, sm: u8, eh: u8, em: u8) -> TimeSpan {
    TimeSpan { enable, start_hour: sh, start_minute: sm, end_hour: eh, end_minute: em }
}

fn off() -> TimeSpan {
    span(false, 0, 0, 0, 0)
}

fn sent(s: &ChargingTimeSchedule) -> (bool, (u8, u8, u8, u8), bool, (u8, u8, u8, u8)) {
    (
        s.enable_1,
        (s.start_time_1.hour, s.start_time_1.minute, s.end_time_1.hour, s.end_time_1.minute),
        s.enable_2,
        (s.start_time_2.hour, s.start_time_2.minute, s.end_time_2.hour, s.end_time_2.minute),
    )
}

#[test]
fn charge_schedule_is_built() {
    let s = Fox::build_charge_time_schedule(span(true, 2, 0, 4, 59), off()).ok().unwrap();
    assert_eq!(sent(&s), (true, (2, 0, 4, 59), false, (0, 0, 0, 0)));
    let s = Fox::build_charge_time_schedule(span(true, 2, 0, 4, 59), span(true, 5, 0, 6, 0))
        .ok()
        .unwrap();
    assert_eq!(sent(&s), (true, (2, 0, 4, 59), true, (5, 0, 6, 0)));
}

#[test]
fn span_without_length_is_switched_off() {
    let s = Fox::build_charge_time_schedule(span(true, 2, 30, 2, 30), span(false, 7, 0, 8, 0))
        .ok()
        .unwrap();
    assert_eq!(sent(&s), (false, (0, 0, 0, 0), false, (0, 0, 0, 0)));
}

#[test]
fn charge_schedule_faults() {
    let text = |one, two| Fox::build_charge_time_schedule(one, two).err().unwrap().0;
    assert_eq!(text(span(true, 24, 0, 4, 0), off()), "charge schedule 1 start time error");
    assert_eq!(text(span(true, 2, 60, 4, 0), off()), "charge schedule 1 start time error");
    assert_eq!(text(span(true, 2, 0, 4, 60), off()), "charge schedule 1 end time error");
    assert_eq!(
        text(span(false, 5, 0, 4, 0), off()),
        "charge schedule 1 start time is after end time"
    );
    assert_eq!(text(off(), span(true, 25, 0, 4, 0)), "charge schedule 2 start time error");
    assert_eq!(text(off(), span(true, 2, 0, 24, 0)), "charge schedule 2 end time error");
    assert_eq!(
        text(off(), span(true, 5, 0, 4, 59)),
        "charge schedule 2 start time is after end time"
    );
    assert_eq!(
        text(span(true, 2, 0, 4, 0), span(true, 4, 0, 5, 0)),
        "overlapping charge schedules"
    );
    assert_eq!(
        text(span(true, 2, 0, 4, 0), span(true, 1, 0, 2, 0)),
        "overlapping charge schedules"
    );
    assert_eq!(
        text(span(true, 2, 0, 4, 0), span(true, 1, 0, 5, 0)),
        "overlapping charge schedules"
    );
    assert!(Fox::build_charge_time_schedule(span(true, 2, 0, 4, 0), span(false, 3, 0, 5, 0)).is_ok());
}

#[test]
fn disabled_schedule_is_all_zero() {
    let s = Fox::disable_charge_schedule();
    assert_eq!(sent(&s), (false, (0, 0, 0, 0), false, (0, 0, 0, 0)));
    assert_eq!(s.start_time_1, ChargingTime { hour: 0, minute: 0 });
    let s = Fox::set_battery_charging_time_schedule(false, 5, 0).ok().unwrap();
    assert_eq!(sent(&s), (false, (0, 0, 0, 0), false, (0, 0, 0, 0)));
}

#[test]
fn enabled_schedule_has_times_of_day() {
    let start = 1_709_251_200 + 2 * 3600;
    let r = Fox::set_battery_charging_time_schedule(true, start, start + 3 * 3600);
    // the local clock decides whether the span crosses midnight
    if let Ok(s) = r {
        assert!(s.enable_1);
        assert!(!s.enable_2);
        assert!(s.start_time_1.hour <= 23 && s.start_time_1.minute <= 59);
        assert!(s.end_time_1.hour <= 23 && s.end_time_1.minute <= 59);
        let from = s.start_time_1.hour as u32 * 60 + s.start_time_1.minute as u32;
        let to = s.end_time_1.hour as u32 * 60 + s.end_time_1.minute as u32;
        assert_eq!(to - from, 179);
    }
    assert!(Fox::set_battery_charging_time_schedule(true, u64::MAX, u64::MAX).is_err());
}

#[test]
fn charge_times_out_of_range_are_an_error() {
    let text = |start, end| Fox::set_battery_charging_time_schedule(true, start, end).err().unwrap().0;
    assert_eq!(text(0, 59), "charge schedule time out of range");
    assert_eq!(text(253_402_300_800, 253_402_300_799), "charge schedule time out of range");
    assert_eq!(text(0, 253_402_300_800), "charge schedule time out of range");
    assert_eq!(text(u64::MAX, u64::MAX), "charge schedule time out of range");
    // within the range the local clock has an answer, and one minute is a span
    let r = Fox::set_battery_charging_time_schedule(true, 0, 253_402_300_799);
    if let Err(e) = r {
        assert_eq!(e.0, "charge schedule 1 start time is after end time");
    }
}

#[test]
fn clock_is_asked_for_start_and_last_minute() {
    assert_eq!(window_seconds(7200, 18_000), Some((7200, 17_940)));
    assert_eq!(window_seconds(0, 60), Some((0, 0)));
    assert_eq!(window_seconds(253_402_300_799, 253_402_300_799), Some((253_402_300_799, 253_402_300_739)));
    assert_eq!(window_seconds(0, 59), None);
    assert_eq!(window_seconds(253_402_300_800, 3600), None);
    assert_eq!(window_seconds(3600, 253_402_300_800), None);
}

fn clock(hour: u32, minute: u32) -> LocalTime {
    LocalTime { year: 2024, month: 3, day: 1, ordinal0: 60, weekday: 4, hour, minute }
}

#[test]
fn charge_window_is_made_of_two_local_times() {
    let s = Fox::charge_window(clock(2, 0), clock(4, 59)).ok().unwrap();
    assert_eq!(sent(&s), (true, (2, 0, 4, 59), false, (0, 0, 0, 0)));
    let s = Fox::charge_window(clock(23, 15), clock(23, 59)).ok().unwrap();
    assert_eq!(sent(&s), (true, (23, 15, 23, 59), false, (0, 0, 0, 0)));
    // a span of no length is sent as switched off
    let s = Fox::charge_window(clock(2, 0), clock(2, 0)).ok().unwrap();
    assert_eq!(sent(&s), (false, (0, 0, 0, 0), false, (0, 0, 0, 0)));
    // across midnight the end comes before the start
    let e = Fox::charge_window(clock(23, 0), clock(1, 59)).err().unwrap();
    assert_eq!(e.0, "charge schedule 1 start time is after end time");
}

#[test]
fn requests_carry_serial_number_and_value() {
    let fox = Fox::new("key", "SN123");
    let r = fox.set_min_soc_on_grid(85);
    assert_eq!((r.sn.as_str(), r.key.as_str(), r.value.as_str()), ("SN123", "MinSocOnGrid", "85"));
    let r = fox.set_max_soc(100);
    assert_eq!((r.sn.as_str(), r.key.as_str(), r.value.as_str()), ("SN123", "MaxSoc", "100"));
    let r = fox.get_current_soc();
    assert_eq!(r.sn, "SN123");
    assert_eq!(r.variables, vec!["SoC".to_string()]);
}

#[test]
fn signature_is_md5_in_hex() {
    let fox = Fox::new("", "SN");
    // digest of the text `\r\n\r\n0`, the separators written out as backslash and letter
    let s = fox.generate_signature("", 0);
    assert_eq!(s.len(), 32);
    assert!(s.chars().all(|c| c.is_ascii_hexdigit() && !c.is_ascii_uppercase()));
    let other = Fox::new("key", "SN").generate_signature("/op/v0/device/real/query", 1_700_000_000_000);
    assert_eq!(other.len(), 32);
    assert_ne!(s, other);
    assert_eq!(other, Fox::new("key", "SN").generate_signature("/op/v0/device/real/query", 1_700_000_000_000));
    assert_eq!(
        Fox::new("abc", "SN").generate_signature("/p", 12),
        md5_hex_reference()
    );
}

// md5 of `/p\r\nabc\r\n12` with literal backslashes
fn md5_hex_reference() -> String {
    let mut h = Md5::new();
    h.update(b"/p\\r\\nabc\\r\\n12");
    h.finalize().iter().map(|b| format!("{:02x}", b)).collect()
}

#[test]
fn text_is_written_out() {
    assert_eq!(decimal(0), "0");
    assert_eq!(decimal(7), "7");
    assert_eq!(decimal(10), "10");
    assert_eq!(decimal(1_700_000_000_000), "1700000000000");
    assert_eq!(decimal(u64::MAX), "18446744073709551615");
    assert_eq!(hex(&vec![0x00, 0x0f, 0xa5, 0xff]), "000fa5ff");
    assert_eq!(hex(&Vec::new()), "");
}

#[test]
fn soc_reading_is_rounded() {
    assert_eq!(soc_from_reading(85_499), 85);
    assert_eq!(soc_from_reading(85_500), 86);
    assert_eq!(soc_from_reading(0), 0);
    assert_eq!(soc_from_reading(-3), 0);
    assert_eq!(soc_from_reading(254_500), 255);
    assert_eq!(soc_from_reading(i64::MAX), 255);
}

#[test]
fn cloud_answer_is_checked() {
    assert!(check_response(0, "ok").is_ok());
    assert_eq!(
        check_response(40257, "Parameter does not meet expectations").err().unwrap().0,
        "fox cloud errno: 40257, msg: Parameter does not meet expectations"
    );
}

fn fees() -> NordPool {
    NordPool::new()
}

#[test]
fn markup_is_added_to_spot_price() {
    // spot price 0.50 per kWh
    let t = fees().add_vat_markup(500_000, 1_709_251_200 + 1234);
    assert_eq!(t.valid_time, 1_709_251_200);
    assert_eq!(t.price, 500_000);
    // 0.31625 + 0.54875 + (0.077 * 0.5 + 0.5 + 0.07696 + 0.024) / 0.8 = 1.6643...
    assert_eq!(t.buy, 1_660_000);
    assert_eq!(t.sell, 580_000);
}

#[test]
fn markup_of_negative_spot_price() {
    let t = fees().add_vat_markup(-100_000, 0);
    assert_eq!(t.price, -100_000);
    // 0.865 + (-0.0077 - 0.1 + 0.10096) / 0.8 = 0.8565...
    assert_eq!(t.buy, 860_000);
    assert_eq!(t.sell, -30_000);
    let t = fees().add_vat_markup(-75_000, 0);
    assert_eq!(t.price, -80_000);
    assert_eq!(t.sell, 0);
}

#[test]
fn rounding_is_half_away_from_zero() {
    assert_eq!(round_to_two_decimals(14_999), 10_000);
    assert_eq!(round_to_two_decimals(15_000), 20_000);
    assert_eq!(round_to_two_decimals(-15_000), -20_000);
    assert_eq!(round_to_two_decimals(-14_999), -10_000);
    assert_eq!(round_to_two_decimals(0), 0);
    assert_eq!(round_div(7, 2), 4);
    assert_eq!(round_div(-7, 2), -4);
    assert_eq!(round_div(6, 4), 2);
    assert_eq!(round_div(5, 4), 1);
}

fn entries(n: usize) -> Tariffs {
    let mut v = Vec::new();
    for i in 0..n {
        v.push(MultiAreaEntries {
            delivery_start: 1_709_251_200 + 3600 * i as u64,
            entry_per_area: EntryPerArea { se4: 100_000 * i as i64 },
        });
    }
    Tariffs { multi_area_entries: v }
}

#[test]
fn day_of_tariffs_needs_24_prices() {
    let v = fees().tariffs_to_vec(&entries(24)).ok().unwrap();
    assert_eq!(v.len(), 24);
    assert_eq!(v[5].valid_time, 1_709_251_200 + 5 * 3600);
    assert_eq!(v[5].price, 500_000);
    assert_eq!(v[5].buy, 1_660_000);
    match fees().tariffs_to_vec(&entries(23)) {
        Err(NordPoolError::Document(e)) => assert_eq!(e, "number of day tariffs not equal to 24"),
        _ => panic!("23 prices are not a day"),
    }
    let mut wild = entries(24);
    wild.multi_area_entries[3].entry_per_area.se4 = 2_000_000_000;
    match fees().tariffs_to_vec(&wild) {
        Err(NordPoolError::Document(e)) => assert_eq!(e, "spot price outside limits"),
        _ => panic!("price outside limits"),
    }
}

#[test]
fn no_content_is_an_error() {
    assert!(check_status(200).is_ok());
    assert!(matches!(check_status(204), Err(NordPoolError::NoContent)));
}

#[test]
fn next_day_is_added_when_there() {
    let t = |time| TariffValues { valid_time: time, price: 0, buy: 1, sell: 0 };
    assert_eq!(NordPool::get_tariffs(vec![t(1), t(2)], Some(vec![t(3)])).len(), 3);
    assert_eq!(NordPool::get_tariffs(vec![t(1), t(2)], None).len(), 2);
    assert_eq!(NordPool::get_tariffs(vec![t(1)], Some(vec![t(3)]))[1].valid_time, 3);
}

fn smhi() -> SMHI {
    SMHI::new(&GeoRef { lat: 55_600_000, long: 13_000_000 }, 200, 400, 600)
}

#[test]
fn cloud_factor_is_product_of_layers() {
    assert_eq!(smhi().cloud_factor(0, 0, 0), 1_000_000);
    // full cover everywhere: 0.8 * 0.6 * 0.4
    assert_eq!(smhi().cloud_factor(8000, 8000, 8000), 192_000);
    // half cover of the low layer only: 1 - 0.5 * 0.6
    assert_eq!(smhi().cloud_factor(4000, 0, 0), 700_000);
    assert_eq!(smhi().cloud_factor(0, 4000, 0), 800_000);
    assert_eq!(smhi().cloud_factor(0, 0, 4000), 900_000);
    assert_eq!(smhi().cloud_factor(9000, 0, 0), 400_000);
}

fn series(times: &[u64]) -> Vec<FullTimeSeries> {
    times
        .iter()
        .map(|t| FullTimeSeries {
            time: *t,
            data: Data {
                air_temperature: 5000 + *t as i64,
                low_type_cloud_area_fraction: 4000,
                medium_type_cloud_area_fraction: 0,
                high_type_cloud_area_fraction: 0,
            },
        })
        .collect()
}

#[test]
fn forecast_is_picked_and_topped_up() {
    let s = series(&[3600, 3 * 3600, 4 * 3600, 90_000, 200_000]);
    let f = smhi().new_forecast(&s, 7200, 7200 + 2 * 86_400, 3600 + 10).ok().unwrap();
    // the hours 1 and 2 are missing before the first hour in scope, which is hour 3
    assert_eq!(f.len(), 5);
    let times: Vec<u64> = f.iter().map(|v| v.valid_time).collect();
    assert_eq!(times, vec![3600, 7200, 3 * 3600, 4 * 3600, 90_000]);
    assert_eq!(f[0].temp, 5000 + 3 * 3600);
    assert_eq!(f[1].temp, 5000 + 3 * 3600);
    assert_eq!(f[2].temp, 5000 + 3 * 3600);
    assert_eq!(f[3].temp, 5000 + 4 * 3600);
    assert_eq!(f[0].cloud_factor, 700_000);
    assert_eq!(f[4].lcc_mean, 4000);
}

#[test]
fn empty_forecast_is_an_error() {
    let s = series(&[3600]);
    match smhi().new_forecast(&s, 7200, 9000, 0) {
        Err(SMHIError::SMHI(e)) => assert_eq!(e, "No forecast found"),
        _ => panic!("nothing in scope"),
    }
}

#[test]
fn top_up_leaves_complete_forecast() {
    let v = |t| ForecastValues {
        valid_time: t,
        temp: 1,
        lcc_mean: 0,
        mcc_mean: 0,
        hcc_mean: 0,
        cloud_factor: 5,
    };
    assert_eq!(top_up_forecast(3600 + 5, vec![v(3600), v(7200)]).len(), 2);
    assert_eq!(top_up_forecast(0, vec![v(3600 * 5 + 7)]).len(), 6);
    assert_eq!(top_up_forecast(0, vec![v(3600 * 500)]).len(), 49);
    assert!(top_up_forecast(0, Vec::new()).is_empty());
    assert_eq!(top_up_forecast(7200, vec![v(3600)]).len(), 1);
}

#[test]
fn plain_address_gets_name_from_local_part() {
    let a = Address::from_str("john.doe@example.com").ok().unwrap();
    assert_eq!(a.email, "john.doe@example.com");
    assert_eq!(a.name, " John Doe");
    let a = Address::from_str("x@y").ok().unwrap();
    assert_eq!(a.name, " X");
    let a = Address::from_str("a..b@y").ok().unwrap();
    assert_eq!(a.name, " A  B");
    let a = Address::from_str("\u{df}eta@y").ok().unwrap();
    assert_eq!(a.name, " SSeta");
}

#[test]
fn named_address_is_split_at_bracket() {
    let a = Address::from_str("  John Doe  < john@example.com> ").ok().unwrap();
    assert_eq!(a.email, "john@example.com");
    assert_eq!(a.name, "John Doe");
    let a = Address::from_str("<a@b>").ok().unwrap();
    assert_eq!((a.email.as_str(), a.name.as_str()), ("a@b", ""));
}

#[test]
fn other_text_is_no_address() {
    for text in ["", "john", "a@b@c", "a <b> <c>", "a<<b"] {
        match Address::from_str(text) {
            Err(MailError::InvalidEmailAddress(e)) => assert_eq!(e, text),
            _ => panic!("no address"),
        }
    }
}

#[test]
fn mail_is_made() {
    let m = Mail::new("key".to_string(), "my.grid@example.com", "Owner <owner@example.com>")
        .ok()
        .unwrap();
    let e = m.send_mail("Error caught".to_string(), "the body".to_string());
    assert_eq!(e.subject, "Error caught");
    assert_eq!(e.from.email, "my.grid@example.com");
    assert_eq!(e.from.name, " My Grid");
    assert_eq!(e.personalizations.len(), 1);
    assert_eq!(e.personalizations[0].to[0].email, "owner@example.com");
    assert_eq!(e.personalizations[0].to[0].name, "Owner");
    assert_eq!(e.content.len(), 1);
    assert_eq!(e.content[0].content_type, "text/plain");
    assert_eq!(e.content[0].value, "the body");
    assert!(Mail::new("key".to_string(), "nobody", "a@b").is_err());
    assert!(Mail::new("key".to_string(), "a@b", "nobody").is_err());
}
