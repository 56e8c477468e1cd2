use fsw_lib::checkout::{
    begin_check, burnwire_check_step, burnwire_state, coil_check_step, coil_verdict, dev,
    file_time_from_rtc, light_check_step, light_verdict, monitor_check_step, readback_matches,
    rtc_check_step, rtc_ticking, sdcard_check_step, BurnwireStage, CoilStage, CoilVerdict, Found,
    LightStage, LightVerdict, MonitorStage, Results, RtcStage, SdStage, StepOutcome, MAX_FAILURES,
    MAX_FOUND,
};
use fsw_lib::drivers::drv8235::Faults;
use fsw_lib::drivers::vl53l4cd::{read_distance_step, ReadEvent, ReadStage};

#[test]
fn results_count_each_kind_of_check() {
    let mut r = Results::new();
    r.pass("rtc");
    r.pass("lux");
    r.fail("imu");
    r.skip("radio");
    assert_eq!((r.passed(), r.failed(), r.skipped()), (2, 1, 1));
    assert_eq!(r.failures(), &vec!["imu"]);
}

#[test]
fn results_keep_only_the_first_failure_names() {
    let mut r = Results::new();
    for _ in 0..MAX_FAILURES {
        r.fail("early");
    }
    r.fail("late");
    assert_eq!(r.failed() as usize, MAX_FAILURES + 1);
    assert_eq!(r.failures().len(), MAX_FAILURES);
    assert!(r.failures().iter().all(|n| *n == "early"));
}

#[test]
fn found_keeps_scanned_addresses_in_order() {
    let mut f = Found::new();
    f.push(0x40);
    f.push(0x68);
    assert!(f.contains(0x68));
    assert!(!f.contains(0x44));
    assert_eq!(f.addrs(), &vec![0x40, 0x68]);
    for a in 0..100u8 {
        f.push(a);
    }
    assert_eq!(f.addrs().len(), MAX_FOUND);
}

#[test]
fn device_entries_keep_their_fields() {
    let d = dev(0x68, "DS3231", true);
    assert_eq!((d.addr, d.name, d.driver), (0x68, "DS3231", true));
}

#[test]
fn a_running_clock_advances_one_to_three_seconds() {
    assert!(rtc_ticking(100, 102));
    assert!(rtc_ticking(100, 101));
    assert!(rtc_ticking(100, 103));
    assert!(!rtc_ticking(100, 100));
    assert!(!rtc_ticking(100, 104));
    assert!(!rtc_ticking(100, 99));
    assert!(rtc_ticking(i64::MAX - 1, i64::MAX));
    assert!(!rtc_ticking(i64::MIN, i64::MAX));
}

#[test]
fn burnwire_state_reads_channels_off_and_chip_awake() {
    assert_eq!(burnwire_state(0x55, 0x00), (true, true));
    assert_eq!(burnwire_state(0x54, 0x10), (false, false));
    assert_eq!(burnwire_state(0x55, 0x11), (true, false));
}

#[test]
fn light_readings_must_be_in_range_and_fresh() {
    assert_eq!(light_verdict(true, 3, 4), LightVerdict::Live);
    assert_eq!(light_verdict(true, 15, 0), LightVerdict::Live);
    assert_eq!(light_verdict(true, 9, 9), LightVerdict::Stale);
    assert_eq!(light_verdict(false, 9, 9), LightVerdict::OutOfRange);
    assert_eq!(light_verdict(false, 1, 2), LightVerdict::OutOfRange);
}

#[test]
fn a_driven_coil_must_reach_its_voltage_without_faults() {
    let none = Faults::default();
    let stall = Faults { stall: true, ..Faults::default() };
    assert_eq!(coil_verdict(false, Some(none)), CoilVerdict::Driving);
    assert_eq!(coil_verdict(false, None), CoilVerdict::Driving);
    assert_eq!(coil_verdict(false, Some(stall)), CoilVerdict::FaultsWhileDriving);
    assert_eq!(coil_verdict(true, Some(stall)), CoilVerdict::NotDriving);
    assert_eq!(coil_verdict(true, None), CoilVerdict::NotDriving);
}

#[test]
fn sd_readback_compares_exactly_the_bytes_read() {
    let contents = b"argus flat sat checkout\n";
    let mut buf = [0u8; 64];
    buf[..contents.len()].copy_from_slice(contents);
    assert!(readback_matches(&buf, contents.len(), contents));
    assert!(!readback_matches(&buf, contents.len() - 1, contents));
    assert!(!readback_matches(&buf, contents.len() + 1, contents));
    buf[3] = b'X';
    assert!(!readback_matches(&buf, contents.len(), contents));
    assert!(readback_matches(&buf, 0, b""));
}

#[test]
fn file_times_come_from_an_rtc_time_after_the_epoch() {
    assert_eq!(file_time_from_rtc(Some(1_757_870_000)), Some(1_757_870_000));
    assert_eq!(file_time_from_rtc(Some(0)), None);
    assert_eq!(file_time_from_rtc(Some(-5)), None);
    assert_eq!(file_time_from_rtc(None), None);
    // Cut to the low 32 bits, as a cast does.
    assert_eq!(file_time_from_rtc(Some(0x1_0000_0005)), Some(5));
}

fn tally(r: &Results) -> (u32, u32, u32, Vec<&'static str>) {
    (r.passed(), r.failed(), r.skipped(), r.failures().to_vec())
}

#[test]
fn rtc_check_passes_a_ticking_clock() {
    let mut r = Results::new();
    let mut s = RtcStage::LostPower;
    s = rtc_check_step(s, StepOutcome::Done, &mut r);
    s = rtc_check_step(s, StepOutcome::Time(1_757_870_000), &mut r);
    assert_eq!(s, RtcStage::Datetime { first: 1_757_870_000 });
    s = rtc_check_step(s, StepOutcome::Failed, &mut r);
    assert_eq!(tally(&r), (1, 0, 0, vec![]));
    s = rtc_check_step(s, StepOutcome::Time(1_757_870_002), &mut r);
    assert_eq!(s, RtcStage::Done { time: Some(1_757_870_002) });
    assert_eq!(tally(&r), (2, 0, 0, vec![]));
}

#[test]
fn rtc_check_stops_when_the_clock_cannot_be_read_and_fails_a_stopped_clock() {
    let mut r = Results::new();
    let s = rtc_check_step(RtcStage::FirstRead, StepOutcome::Failed, &mut r);
    assert_eq!(s, RtcStage::Done { time: None });
    assert_eq!(tally(&r), (0, 1, 0, vec!["RTC readable"]));

    let mut r = Results::new();
    let s = rtc_check_step(RtcStage::SecondRead { first: 100 }, StepOutcome::Time(100), &mut r);
    assert_eq!(s, RtcStage::Done { time: Some(100) });
    assert_eq!(tally(&r), (0, 1, 0, vec!["RTC ticking"]));
}

#[test]
fn light_check_needs_two_live_readings() {
    let mut r = Results::new();
    let mut s = LightStage::Init;
    s = light_check_step(s, StepOutcome::Done, "LIGHT_XM", &mut r);
    s = light_check_step(s, StepOutcome::Light { counter: 3, in_range: true }, "LIGHT_XM", &mut r);
    assert_eq!(s, LightStage::SecondRead { counter_before: 3 });
    s = light_check_step(s, StepOutcome::Light { counter: 4, in_range: true }, "LIGHT_XM", &mut r);
    assert_eq!((s, tally(&r)), (LightStage::Done, (1, 0, 0, vec![])));

    let mut r = Results::new();
    let s = light_check_step(
        LightStage::SecondRead { counter_before: 3 },
        StepOutcome::Light { counter: 3, in_range: true },
        "LIGHT_YM",
        &mut r,
    );
    assert_eq!((s, tally(&r)), (LightStage::Done, (0, 1, 0, vec!["LIGHT_YM"])));

    let mut r = Results::new();
    let s = light_check_step(LightStage::Init, StepOutcome::Failed, "LIGHT_ZM", &mut r);
    assert_eq!((s, tally(&r)), (LightStage::Done, (0, 1, 0, vec!["LIGHT_ZM"])));
}

#[test]
fn monitor_check_passes_readings_in_range() {
    let mut r = Results::new();
    let s = monitor_check_step(MonitorStage::Config, StepOutcome::Done, "BOARD_MON", &mut r);
    assert_eq!(s, MonitorStage::Read);
    let s = monitor_check_step(s, StepOutcome::InRange(true), "BOARD_MON", &mut r);
    let s2 = monitor_check_step(MonitorStage::Read, StepOutcome::InRange(false), "GPS_MON", &mut r);
    assert_eq!((s, s2), (MonitorStage::Done, MonitorStage::Done));
    assert_eq!(tally(&r), (1, 1, 0, vec!["GPS_MON"]));
}

#[test]
fn coil_check_without_driving_passes_after_the_fault_read() {
    let mut r = Results::new();
    let mut s = coil_check_step(CoilStage::Init, StepOutcome::Done, false, "TORQUE_XM", &mut r);
    assert_eq!(s, CoilStage::StartupFaults);
    s = coil_check_step(s, StepOutcome::Failed, false, "TORQUE_XM", &mut r);
    assert_eq!((s, tally(&r)), (CoilStage::Done, (1, 0, 0, vec![])));
}

#[test]
fn a_driven_coil_is_coasted_before_its_verdict() {
    let stall = Faults { stall: true, ..Faults::default() };
    let mut r = Results::new();
    let mut s = CoilStage::StartupFaults;
    let mut seen = Vec::new();
    for outcome in [
        StepOutcome::Done,
        StepOutcome::Done,
        StepOutcome::InRange(true),
        StepOutcome::Faults(stall),
        StepOutcome::Done,
    ] {
        s = coil_check_step(s, outcome, true, "TORQUE_XP", &mut r);
        seen.push(s);
    }
    assert_eq!(
        seen,
        vec![
            CoilStage::Throttle,
            CoilStage::Measure,
            CoilStage::DrivenFaults { driven: Some(false) },
            CoilStage::Coast { driven: Some(false), faults: Some(stall) },
            CoilStage::Done,
        ]
    );
    assert_eq!(tally(&r), (0, 1, 0, vec!["TORQUE_XP"]));

    // A failed throttle write ends the check without driving.
    let mut r = Results::new();
    let s = coil_check_step(CoilStage::Throttle, StepOutcome::Failed, true, "TORQUE_YP", &mut r);
    assert_eq!((s, tally(&r)), (CoilStage::Done, (0, 1, 0, vec!["TORQUE_YP"])));
}

#[test]
fn burnwire_check_reads_back_both_registers() {
    let mut r = Results::new();
    let mut s = burnwire_check_step(BurnwireStage::Init, StepOutcome::Done, &mut r);
    s = burnwire_check_step(s, StepOutcome::Byte(0x55), &mut r);
    assert_eq!(s, BurnwireStage::ReadMode1 { ledout: Some(0x55) });
    s = burnwire_check_step(s, StepOutcome::Byte(0x01), &mut r);
    assert_eq!((s, tally(&r)), (BurnwireStage::Done, (1, 0, 0, vec![])));

    let mut r = Results::new();
    let s = burnwire_check_step(BurnwireStage::ReadLedout, StepOutcome::Failed, &mut r);
    let s = burnwire_check_step(s, StepOutcome::Byte(0x00), &mut r);
    assert_eq!((s, tally(&r)), (BurnwireStage::Done, (0, 1, 0, vec!["BURN_WIRE"])));
}

#[test]
fn sdcard_check_goes_present_time_mount_write_read_metadata() {
    let contents = b"argus flat sat checkout\n";
    let mut r = Results::new();
    let mut s = SdStage::Present;
    let mut seen = Vec::new();
    for outcome in [
        StepOutcome::Done,
        StepOutcome::Done,
        StepOutcome::Done,
        StepOutcome::Done,
        StepOutcome::Bytes(contents.to_vec()),
        StepOutcome::Done,
    ] {
        s = sdcard_check_step(s, outcome, Some(1_757_870_000), contents, &mut r);
        seen.push(s);
    }
    assert_eq!(
        seen,
        vec![
            SdStage::SetTime { unix_time: 1_757_870_000 },
            SdStage::Mount,
            SdStage::Write,
            SdStage::ReadBack,
            SdStage::Metadata,
            SdStage::Done,
        ]
    );
    assert_eq!(tally(&r), (3, 0, 0, vec![]));

    let mut r = Results::new();
    let s = sdcard_check_step(SdStage::Present, StepOutcome::Done, None, contents, &mut r);
    assert_eq!(s, SdStage::Mount);
    let s = sdcard_check_step(SdStage::ReadBack, StepOutcome::Bytes(b"argus".to_vec()), None, contents, &mut r);
    assert_eq!((s, tally(&r)), (SdStage::Done, (1, 1, 0, vec!["SD card write/read"])));
}

#[test]
fn checks_of_devices_that_did_not_answer_are_skipped() {
    let mut found = Found::new();
    found.push(0x44);
    let mut r = Results::new();
    assert!(begin_check(&found, 0x44, "LIGHT_XP", &mut r));
    assert!(!begin_check(&found, 0x45, "LIGHT_YP", &mut r));
    assert_eq!(tally(&r), (0, 0, 1, vec![]));
}

#[test]
fn a_distance_is_read_only_when_ready_and_acknowledged_first() {
    assert_eq!(
        read_distance_step(ReadStage::CheckReady, ReadEvent::Ready(false)),
        ReadStage::Done { distance_mm: None }
    );
    let s = read_distance_step(ReadStage::CheckReady, ReadEvent::Ready(true));
    assert_eq!(s, ReadStage::Measure);
    let s = read_distance_step(s, ReadEvent::Measured { distance_mm: 412 });
    assert_eq!(s, ReadStage::Acknowledge { distance_mm: 412 });
    let s = read_distance_step(s, ReadEvent::Acknowledged);
    assert_eq!(s, ReadStage::Done { distance_mm: Some(412) });
}
