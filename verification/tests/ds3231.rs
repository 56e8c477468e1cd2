// Dates and epochs checked against an independent calendar library.
use fsw_lib::bus::{Action, BusOp, Runner};
use fsw_lib::drivers::ds3231::{
    self, bcd2dec, datetime_from, dec2bcd, lost_power_from, unix_time_from, DateTime, DS3231,
};

const ADDR: u8 = 0x68;

/// Simulated clock chip: 256 registers where a write sets the register
/// pointer, and reads and writes auto-increment it.
struct FakeRegs {
    regs: [u8; 256],
}

impl FakeRegs {
    fn new(fill: u8) -> Self {
        FakeRegs { regs: [fill; 256] }
    }

    fn write(&mut self, bytes: &[u8]) -> u8 {
        let Some((&reg, data)) = bytes.split_first() else {
            return 0;
        };
        let mut ptr = reg;
        for &val in data {
            self.regs[ptr as usize] = val;
            ptr = ptr.wrapping_add(1);
        }
        ptr
    }

    fn run(&mut self, plan: Vec<BusOp>) -> Vec<u8> {
        let mut runner: Runner<()> = Runner::new(plan);
        loop {
            let data = match runner.action() {
                Action::Done => break,
                Action::Write { addr, bytes } => {
                    assert_eq!(addr, ADDR);
                    self.write(&bytes);
                    Vec::new()
                }
                Action::WriteRead { addr, bytes, len } => {
                    assert_eq!(addr, ADDR);
                    let mut ptr = self.write(&bytes);
                    let mut out = Vec::new();
                    for _ in 0..len {
                        out.push(self.regs[ptr as usize]);
                        ptr = ptr.wrapping_add(1);
                    }
                    out
                }
                Action::Read { .. } | Action::DelayMs { .. } => panic!("not used by this chip"),
            };
            runner.advance(Ok(data));
        }
        runner.finish().unwrap()
    }
}

#[test]
fn bcd_conversions() {
    assert_eq!(bcd2dec(0x59), 59);
    assert_eq!(bcd2dec(0x00), 0);
    assert_eq!(bcd2dec(0x99), 99);
    assert_eq!(dec2bcd(59), 0x59);
    assert_eq!(dec2bcd(7), 0x07);
    for x in 0..100u8 {
        assert_eq!(bcd2dec(dec2bcd(x)), x);
    }
}

#[test]
fn registers_decode_with_their_masks() {
    // Bit 7 of seconds (unused) and the century bit of the month are ignored.
    let dt = datetime_from(&[0xA0, 0x13, 0x17, 0x01, 0x14, 0x89, 0x25]);
    assert_eq!(
        dt,
        DateTime { year: 2025, month: 9, day: 14, hour: 17, minute: 13, second: 20 }
    );
}

#[test]
fn set_datetime_writes_bcd_and_clears_stop_flags() {
    let dt = DateTime { year: 2024, month: 2, day: 29, hour: 23, minute: 59, second: 58 };
    let plan = DS3231::new(ADDR).set_datetime::<()>(&dt).unwrap();
    let mut regs = FakeRegs::new(0xFF);
    regs.run(plan);
    assert_eq!(&regs.regs[0..7], &[0x58, 0x59, 0x23, 0x01, 0x29, 0x02, 0x24]);
    assert_eq!(regs.regs[0x0E], 0x7F);
    assert_eq!(regs.regs[0x0F], 0x7F);
    let read = regs.run(DS3231::new(ADDR).datetime());
    assert_eq!(datetime_from(&read), dt);
}

#[test]
fn set_datetime_refuses_dates_that_do_not_exist_or_cannot_be_stored() {
    let rtc = DS3231::new(ADDR);
    let bad = [
        DateTime { year: 2023, month: 2, day: 29, hour: 0, minute: 0, second: 0 },
        DateTime { year: 2024, month: 13, day: 1, hour: 0, minute: 0, second: 0 },
        DateTime { year: 2024, month: 1, day: 1, hour: 24, minute: 0, second: 0 },
        DateTime { year: 2024, month: 1, day: 1, hour: 0, minute: 60, second: 0 },
        DateTime { year: 1999, month: 12, day: 31, hour: 23, minute: 59, second: 59 },
        DateTime { year: 2100, month: 1, day: 1, hour: 0, minute: 0, second: 0 },
    ];
    for dt in bad {
        assert!(matches!(rtc.set_datetime::<()>(&dt), Err(ds3231::Error::InvalidTime)), "{dt:?}");
    }
}

#[test]
fn a_time_set_reads_back_as_the_same_epoch() {
    let rtc = DS3231::new(ADDR);
    for ts in [946_684_800i64, 951_782_400, 1_757_870_000, 4_102_444_799] {
        let mut regs = FakeRegs::new(0x00);
        regs.run(rtc.set_unix_time::<()>(ts).unwrap());
        let read = regs.run(rtc.unix_time());
        assert!(matches!(unix_time_from::<()>(&read), Ok(t) if t == ts), "{ts}");
    }
}

#[test]
fn lost_power_reads_the_oscillator_stop_flag() {
    let mut regs = FakeRegs::new(0x00);
    regs.regs[0x0F] = 0x88;
    let status = regs.run(DS3231::new(ADDR).lost_power());
    assert!(lost_power_from(status[0]));
    assert!(!lost_power_from(0x08));
}

#[test]
fn the_storable_times_are_exactly_the_years_2000_to_2099() {
    let rtc = DS3231::new(ADDR);
    assert!(matches!(rtc.set_unix_time::<()>(946_684_799), Err(ds3231::Error::InvalidTime)));
    assert!(rtc.set_unix_time::<()>(946_684_800).is_ok());
    assert!(rtc.set_unix_time::<()>(4_102_444_799).is_ok());
    assert!(matches!(rtc.set_unix_time::<()>(4_102_444_800), Err(ds3231::Error::InvalidTime)));
    assert!(matches!(rtc.set_unix_time::<()>(i64::MIN), Err(ds3231::Error::InvalidTime)));
}

#[test]
fn the_date_read_back_is_the_utc_date_of_the_time_set() {
    let rtc = DS3231::new(ADDR);
    let mut regs = FakeRegs::new(0x00);
    regs.run(rtc.set_unix_time::<()>(1_757_870_000).unwrap());
    let read = regs.run(rtc.datetime());
    assert_eq!(
        datetime_from(&read),
        DateTime { year: 2025, month: 9, day: 14, hour: 17, minute: 13, second: 20 }
    );
}
