use mygrid::calendar::Date;
use mygrid::config::{Charge, Config, Files, FoxESS, General, MailParameters};
use mygrid::errors::{ConfigError, LoggingError, MyGridInitError, MyGridWorkerError, SchedulingError, SkipError, SplineError};
use mygrid::initialization::{config_path, init, is_config_arg, override_credentials};
use mygrid::manager_fox_cloud::errors::FoxError;
use mygrid::manager_mail::MailError;
use mygrid::manager_smhi::errors::SMHIError;
use mygrid::charge::LastCharge;
use mygrid::scheduler::{Block, BlockType, Status};
use mygrid::manager_mail::Mail;
use mygrid::manual::{check_manual, is_listed, ManualDates};
use mygrid::skips::{check_skip, SkipDates};
use mygrid::time::{truncate_to_day, truncate_to_hour, truncate_to_unit};
use mygrid::units::{clamp_soc, soc_to_available_charge};

fn args(list: &[&str]) -> Vec<String> {
    list.iter().map(|s| s.to_string()).collect()
}

#[test]
fn config_argument_is_found() {
    assert_eq!(config_path(&args(&["mygrid", "--config=/etc/mygrid.toml"])).ok().unwrap(), "/etc/mygrid.toml");
    assert_eq!(config_path(&args(&["--config=a=b", "--config=c"])).ok().unwrap(), "a=b");
    assert_eq!(config_path(&args(&["--config="])).ok().unwrap(), "");
    assert_eq!(config_path(&args(&["--config=\u{e5}.toml"])).ok().unwrap(), "\u{e5}.toml");
}

#[test]
fn missing_config_argument_is_an_error() {
    for list in [&[][..], &["mygrid"][..], &["--config", "x"][..], &["-config=x"][..], &[" --config=x"][..]] {
        assert_eq!(
            config_path(&args(list)).err().unwrap().0,
            "config file argument should be present"
        );
    }
    assert!(is_config_arg("--config=x"));
    assert!(!is_config_arg("--confix=x"));
    assert!(!is_config_arg("--config"));
}

fn whole_config() -> Config {
    Config {
        charge: Charge {
            soc_wh: 166,
            bat_capacity: 16_590,
            bat_wh: 14_931,
            charge_wh_hour: 6000,
            charge_efficiency: 900,
            discharge_efficiency: 900,
            sell_priority: 1000,
            min_use_tariff: 500_000,
        },
        fox_ess: FoxESS { api_key: "key".to_string(), inverter_sn: "SN1".to_string() },
        mail: MailParameters {
            smtp_user: String::new(),
            smtp_password: String::new(),
            smtp_endpoint: String::new(),
            from: "my.grid@example.com".to_string(),
            to: "owner@example.com".to_string(),
        },
        files: Files {
            schedule_dir: "/var/schedule/".to_string(),
            backup_dir: String::new(),
            stats_dir: String::new(),
            manual_file: String::new(),
            pv_diagram: String::new(),
            cons_diagram: String::new(),
        },
        general: General {
            debug_run_time: None,
            log_path: String::new(),
            log_level: "info".to_string(),
            log_to_stdout: true,
            debug_mode: false,
        },
    }
}

#[test]
fn managers_are_put_together() {
    let config = whole_config();
    let mail = Mail::new("k".to_string(), &config.mail.from, &config.mail.to).ok().unwrap();
    let (mgr, recovery) = init(&config, mail, None, None, None, 1_709_251_200);
    assert_eq!(mgr.fox.sn, "SN1");
    assert_eq!(mgr.fox.api_key, "key");
    assert_eq!(mgr.schedule.soc_wh, 166);
    assert_eq!(mgr.schedule.schedule_dir, "/var/schedule/");
    assert!(mgr.schedule.blocks.is_empty());
    assert_eq!(mgr.mail.to.email, "owner@example.com");
    assert!(recovery.active_block.is_none());
    assert!(recovery.last_charge.is_none());
    assert!(recovery.update);
}

fn kept_hold(start: u64, end: u64) -> Block {
    Block {
        block_id: 3,
        block_type: BlockType::Hold,
        start_time: start,
        end_time: end,
        soc_in: 55,
        soc_out: 55,
        charge_in: 7470,
        charge_out: 7470,
        charge_tariff_in: 400_000,
        charge_tariff_out: 400_000,
        price: 0,
        overflow: 0,
        overflow_price: 0,
        true_soc_in: Some(55),
        soc_wh: 166,
        status: Status::Started,
        tariffs: None,
    }
}

#[test]
fn startup_adopts_the_block_in_force() {
    // a hold block from 05:00 to 08:59 was kept, and a charge that ended at
    // 07:00 the day before; the program starts at 06:30
    let day: u64 = 1_709_251_200;
    let hold = kept_hold(day + 5 * 3600, day + 9 * 3600 - 900);
    let charge = LastCharge {
        date_time_end: day + 7 * 3600 - 86_400,
        soc_in: 10,
        soc_out: 80,
        charge_in: 0,
        charge_out: 11_620,
        charge_tariff_in: 0,
        charge_tariff_out: 400_000,
    };
    let config = whole_config();
    let mail = || Mail::new("k".to_string(), &config.mail.from, &config.mail.to).ok().unwrap();
    let now = day + 6 * 3600 + 1800;
    let (mgr, recovery) = init(&config, mail(), Some(vec![hold]), Some(hold), Some(charge), now);
    let adopted = recovery.active_block.unwrap();
    assert_eq!(adopted.block_id, 3);
    assert_eq!(adopted.block_type, BlockType::Hold);
    assert_eq!(adopted.status, Status::Started);
    assert_eq!((adopted.start_time, adopted.end_time), (hold.start_time, hold.end_time));
    assert_eq!((adopted.soc_in, adopted.soc_out, adopted.true_soc_in), (55, 55, Some(55)));
    assert_eq!((adopted.charge_in, adopted.charge_tariff_in), (7470, 400_000));
    assert!(recovery.last_charge.is_none());
    assert!(!recovery.update);
    assert_eq!(mgr.schedule.blocks.len(), 1);
    assert_eq!(mgr.schedule.blocks[0].block_id, 3);

    // at 06:00 the charge ended 23 hours ago, and is gone by still
    let (_, fresh) = init(&config, mail(), None, Some(hold), Some(charge), day + 6 * 3600);
    assert_eq!(fresh.last_charge.map(|l| l.charge_tariff_out), Some(400_000));
    assert!(fresh.active_block.is_some());
    assert!(!fresh.update);
    let (_, stale) = init(&config, mail(), None, Some(hold), Some(charge), day + 6 * 3600 + 1);
    assert!(stale.last_charge.is_none());

    // before the block begins it is not in force
    let (_, early) = init(&config, mail(), None, Some(hold), Some(charge), day + 5 * 3600 - 1);
    assert!(early.active_block.is_none());
    assert!(early.update);
    assert!(early.last_charge.is_some());

    // past the end of the block it is left behind, and a block is to be found
    let (_, late) = init(&config, mail(), None, Some(hold), None, day + 9 * 3600);
    assert!(late.active_block.is_none());
    assert!(late.update);
}

fn d(day: u32) -> Date {
    Date { year: 2024, month: 3, day }
}

#[test]
fn manual_mode_follows_the_list() {
    let listed = Some(ManualDates { dates: vec![d(1), d(5)] });
    assert_eq!(check_manual(&listed, d(5), false), (true, Some(true)));
    assert_eq!(check_manual(&listed, d(5), true), (true, None));
    assert_eq!(check_manual(&listed, d(2), true), (false, Some(false)));
    assert_eq!(check_manual(&listed, d(2), false), (false, None));
    assert_eq!(check_manual(&None, d(5), true), (false, Some(false)));
    assert_eq!(check_manual(&None, d(5), false), (false, None));
    assert!(is_listed(&vec![d(1), d(5)], d(1)));
    assert!(!is_listed(&vec![d(1), d(5)], Date { year: 2025, month: 3, day: 1 }));
}

#[test]
fn skip_mode_follows_the_list() {
    let listed = Some(SkipDates { dates: vec![d(9)] });
    assert_eq!(check_skip(&listed, d(9), false), (true, Some(true)));
    assert_eq!(check_skip(&listed, d(9), true), (true, None));
    assert_eq!(check_skip(&listed, d(8), true), (false, Some(false)));
    assert_eq!(check_skip(&None, d(9), false), (false, None));
}

#[test]
fn time_is_cut_to_units() {
    assert_eq!(truncate_to_unit(0), 0);
    assert_eq!(truncate_to_unit(899), 0);
    assert_eq!(truncate_to_unit(900), 900);
    assert_eq!(truncate_to_hour(7199), 3600);
    assert_eq!(truncate_to_day(1_709_251_200 + 86_399), 1_709_251_200);
    assert_eq!(truncate_to_unit(u64::MAX), u64::MAX - u64::MAX % 900);
}

#[test]
fn soc_is_held_to_its_range() {
    assert_eq!(clamp_soc(0), 10);
    assert_eq!(clamp_soc(10), 10);
    assert_eq!(clamp_soc(55), 55);
    assert_eq!(clamp_soc(100), 100);
    assert_eq!(clamp_soc(255), 100);
    assert_eq!(soc_to_available_charge(55, 166), 45 * 166);
    assert_eq!(soc_to_available_charge(5, 166), 0);
    assert_eq!(soc_to_available_charge(200, 166), 90 * 166);
    assert_eq!(soc_to_available_charge(100, u64::MAX), u64::MAX);
}

#[test]
fn credentials_override_configuration() {
    let mut c = whole_config();
    override_credentials(&mut c, Some("  secret\n".to_string()), None, Some("user".to_string()), Some(" \t".to_string()));
    assert_eq!(c.fox_ess.api_key, "secret");
    assert_eq!(c.fox_ess.inverter_sn, "SN1");
    assert_eq!(c.mail.smtp_user, "user");
    assert_eq!(c.mail.smtp_password, "");
    assert_eq!(c.mail.from, "my.grid@example.com");
    assert_eq!(c.charge.soc_wh, 166);
}

#[test]
fn errors_give_their_message() {
    assert_eq!(MyGridInitError("x".to_string()).message(), "error while initializing mygrid: x");
    assert_eq!(MyGridWorkerError("x".to_string()).message(), "error while running schedule: x");
    assert_eq!(ConfigError("x".to_string()).message(), "error while loading configuration: x");
    assert_eq!(LoggingError("x".to_string()).message(), "error while setting up logging: x");
    assert_eq!(
        SchedulingError("x".to_string()).message(),
        "error while managing/loading schedules: x"
    );
    assert_eq!(SkipError("x".to_string()).message(), "error while managing manual days: x");
    assert_eq!(SplineError("x".to_string()).message(), "error while making a spline: x");
    assert_eq!(
        FoxError("x".to_string()).message(),
        "error in communication with FoxESS cloud: x"
    );
    assert_eq!(
        mygrid::manager_mail::errors::MailError("x".to_string()).message(),
        "error in communication with mail provider cloud: x"
    );
    assert_eq!(
        MailError::InvalidEmailAddress("a".to_string()).message(),
        "MailError::InvalidEmailAddress: a"
    );
    assert_eq!(MailError::Document("a".to_string()).message(), "MailError::Document: a");
    assert_eq!(MailError::SendgridError("a".to_string()).message(), "MailError::SendgridError: a");
    assert_eq!(SMHIError::SMHI("a".to_string()).message(), "SMHIError::SMHI: a");
    assert_eq!(SMHIError::Document("a".to_string()).message(), "SMHIError::Document: a");
}

#[test]
fn labels_are_of_one_width() {
    assert_eq!(BlockType::Charge.label(), "Charge");
    assert_eq!(BlockType::Hold.label(), "Hold  ");
    assert_eq!(BlockType::Use.label(), "Use   ");
    assert_eq!(Status::Waiting.label(), "Waiting  ");
    assert_eq!(Status::Started.label(), "Started  ");
    assert_eq!(Status::Error.label(), "Error    ");
    assert_eq!(Status::Full(7, 0).label(), "Full:   7");
    assert_eq!(Status::Full(86, 0).label(), "Full:  86");
    assert_eq!(Status::Full(100, 0).label(), "Full: 100");
}
