// Expected values were computed independently from the CRC formula in the
// OPT4003 datasheet.
use fsw_lib::bus::{Action, BusOp, Runner};
use fsw_lib::drivers::opt4003::{
    self, adc_codes, conversion_ready, field_get, field_prep, lux_flags, parity, raw_result_from,
    InitAction, InitEvent, InitStage, WaitAction, WaitEvent, INIT_TIMEOUT_MS, OPT4003,
};

const OPT_ADDR: u8 = 0x44;

/// One expected bus transaction, with the bytes it reads back.
#[derive(Debug, Clone)]
enum Expect {
    Write(u8, Vec<u8>),
    WriteRead(u8, Vec<u8>, Vec<u8>),
}

/// A bus that checks each transaction against a list of expectations.
struct MockBus {
    expected: Vec<Expect>,
    next: usize,
}

impl MockBus {
    fn new(expected: &[Expect]) -> Self {
        MockBus { expected: expected.to_vec(), next: 0 }
    }

    fn run(&mut self, plan: Vec<BusOp>) -> Vec<u8> {
        let mut runner: Runner<()> = Runner::new(plan);
        loop {
            let action = runner.action();
            if let Action::Done = action {
                break;
            }
            let expect = self.expected.get(self.next).cloned();
            self.next += 1;
            let data = match (action, expect) {
                (Action::Write { addr, bytes }, Some(Expect::Write(a, b))) => {
                    assert_eq!((addr, bytes), (a, b));
                    Vec::new()
                }
                (Action::WriteRead { addr, bytes, len }, Some(Expect::WriteRead(a, b, resp))) => {
                    assert_eq!((addr, bytes, len), (a, b, resp.len()));
                    resp
                }
                (a, e) => panic!("unexpected transaction {:?} (expected {e:?})", describe(&a)),
            };
            runner.advance(Ok(data));
        }
        runner.finish().unwrap()
    }

    fn done(&self) {
        assert_eq!(self.next, self.expected.len(), "not every expected transaction happened");
    }
}

fn describe(a: &Action) -> String {
    match a {
        Action::Write { addr, bytes } => format!("write {addr:#x} {bytes:02X?}"),
        Action::WriteRead { addr, bytes, len } => format!("write_read {addr:#x} {bytes:02X?} {len}"),
        Action::Read { addr, len } => format!("read {addr:#x} {len}"),
        Action::DelayMs { ms } => format!("delay {ms}"),
        Action::Done => "done".to_string(),
    }
}

/// Flags register with only CONV_READY set, then the 4 result bytes.
fn opt4003_read(result: [u8; 4]) -> Vec<Expect> {
    vec![
        Expect::WriteRead(OPT_ADDR, vec![0x0C], vec![0x00, 0x04]),
        Expect::WriteRead(OPT_ADDR, vec![0x00], result.to_vec()),
    ]
}

/// `lux()`: flags checked, then a CRC-checked result scaled by 535e-6.
fn lux(bus: &mut MockBus, sensor: &OPT4003) -> Result<f32, opt4003::Error<()>> {
    let flags = bus.run(sensor.read_flags());
    lux_flags::<()>(&flags)?;
    let data = bus.run(sensor.raw_result());
    let (exponent, mantissa, _counter) = raw_result_from::<()>(&data)?;
    Ok(adc_codes(exponent, mantissa) as f32 * 535e-6)
}

#[test]
fn opt4003_opt4003_accepts_valid_crc() {
    // (result bytes, expected lux)
    let cases: [([u8; 4], f32); 3] = [
        ([0x31, 0x23, 0x45, 0x95], 319.1382), // E=3, R=0x12345, C=9, CRC=0x5
        ([0x00, 0x00, 0x01, 0x01], 0.000535), // E=0, R=0x00001, C=0, CRC=0x1
        ([0x8F, 0xFF, 0xFF, 0xFF], 143612.832), // E=8, R=0xFFFFF, C=15, CRC=0xF
    ];
    for (bytes, expected) in cases {
        let mut bus = MockBus::new(&opt4003_read(bytes));
        match lux(&mut bus, &OPT4003::new(OPT_ADDR)) {
            Ok(lux) => assert!(
                (lux - expected).abs() <= expected * 1e-4,
                "{bytes:02X?}: got {lux}, want {expected}"
            ),
            Err(e) => panic!("{bytes:02X?}: unexpected error {e:?}"),
        }
        bus.done();
    }
}

#[test]
fn opt4003_opt4003_rejects_bad_crc() {
    // Same as the first valid case, with the CRC nibble changed from 0x5 to 0x4
    let mut bus = MockBus::new(&opt4003_read([0x31, 0x23, 0x45, 0x94]));
    let lux = lux(&mut bus, &OPT4003::new(OPT_ADDR));
    assert!(matches!(lux, Err(opt4003::Error::CrcMismatch)), "got {lux:?}");
    bus.done();
}

#[test]
fn raw_result_splits_exponent_mantissa_and_counter() {
    let r = raw_result_from::<()>(&[0x31, 0x23, 0x45, 0x95]).unwrap();
    assert_eq!(r, (3, 0x12345, 9));
    assert_eq!(adc_codes(3, 0x12345), 0x12345 << 3);
    let r = raw_result_from::<()>(&[0x8F, 0xFF, 0xFF, 0xFF]).unwrap();
    assert_eq!(r, (8, 0xFFFFF, 15));
}

#[test]
fn verify_crc_matches_datasheet_formula() {
    assert!(OPT4003::verify_crc(3, 0x123, 0x45, 9, 0x5));
    assert!(!OPT4003::verify_crc(3, 0x123, 0x45, 9, 0x4));
    assert!(OPT4003::verify_crc(0, 0, 1, 0, 0x1));
    assert!(OPT4003::verify_crc(8, 0xFFF, 0xFF, 15, 0xF));
}

#[test]
fn flags_report_alerts_before_overload() {
    assert!(matches!(lux_flags::<()>(&[0x00, 0x04]), Ok(())));
    assert!(matches!(lux_flags::<()>(&[0x00, 0x0F]), Err(opt4003::Error::HighAlert)));
    assert!(matches!(lux_flags::<()>(&[0x00, 0x09]), Err(opt4003::Error::LowAlert)));
    assert!(matches!(lux_flags::<()>(&[0x00, 0x08]), Err(opt4003::Error::Overload)));
    assert!(conversion_ready(&[0x00, 0x04]));
    assert!(!conversion_ready(&[0xFF, 0xFB]));
}

#[test]
fn alert_flags_stop_lux_before_the_result_is_read() {
    let expectations = [Expect::WriteRead(OPT_ADDR, vec![0x0C], vec![0x00, 0x02])];
    let mut bus = MockBus::new(&expectations);
    let lux = lux(&mut bus, &OPT4003::new(OPT_ADDR));
    assert!(matches!(lux, Err(opt4003::Error::HighAlert)), "got {lux:?}");
    bus.done();
}

#[test]
fn field_helpers_shift_by_the_mask() {
    assert_eq!(field_get(0x3238, 0x3C00), 0x0C);
    assert_eq!(field_get(0x3238, 0x03C0), 0x08);
    assert_eq!(field_get(0x3238, 0x0030), 0x03);
    assert_eq!(field_get(0x3238, 0x0008), 0x01);
    assert_eq!(field_prep(0x3C00, 0x0C), 0x3000);
    assert_eq!(field_prep(0x3C00, 0x1F), 0x3C00);
    assert_eq!(field_prep(0x0008, 0x01), 0x0008);
    assert_eq!(parity(0), 0);
    assert_eq!(parity(0b1011), 1);
    assert_eq!(parity(0xFFFF_FFFF), 0);
}

#[test]
fn init_checks_the_id_then_configures() {
    let sensor = OPT4003::new(OPT_ADDR);
    let mut bus = MockBus::new(&[
        Expect::WriteRead(OPT_ADDR, vec![0x11], vec![0x02, 0x21]),
        Expect::Write(OPT_ADDR, vec![0x0A, 0x32, 0x38]),
    ]);
    let id = bus.run(sensor.init());
    let configure = sensor.init_step::<()>(&id).unwrap();
    bus.run(configure);
    bus.done();

    // The two top bits of the id register are not part of the id.
    assert!(sensor.init_step::<()>(&[0xC2, 0x21]).is_ok());
    assert!(matches!(sensor.init_step::<()>(&[0x01, 0x21]), Err(opt4003::Error::BadId)));
}

#[test]
fn wait_for_ready_polls_until_ready_or_timeout() {
    let t = INIT_TIMEOUT_MS;
    assert_eq!(OPT4003::wait_for_ready(t, &WaitEvent::Elapsed { elapsed_ms: 0 }), WaitAction::ReadFlags);
    assert_eq!(
        OPT4003::wait_for_ready(t, &WaitEvent::FlagsRead { bytes: vec![0x00, 0x00] }),
        WaitAction::Sleep { ms: 5 }
    );
    assert_eq!(
        OPT4003::wait_for_ready(t, &WaitEvent::FlagsRead { bytes: vec![0x00, 0x04] }),
        WaitAction::Ready
    );
    assert_eq!(OPT4003::wait_for_ready(t, &WaitEvent::Elapsed { elapsed_ms: 499 }), WaitAction::ReadFlags);
    assert_eq!(OPT4003::wait_for_ready(t, &WaitEvent::Elapsed { elapsed_ms: 500 }), WaitAction::TimedOut);
}

/// Runs `init` against the mock bus, with `elapsed` giving the time seen at
/// each time check.
fn run_init(bus: &mut MockBus, sensor: &OPT4003, elapsed: &[u64]) -> Result<(), opt4003::Error<()>> {
    let mut times = elapsed.iter();
    let mut stage = InitStage::ReadId;
    let mut event = InitEvent::Start;
    loop {
        let (next, action) = sensor.init_next(stage, event);
        event = match action {
            InitAction::Run(plan) => {
                let bytes = bus.run(plan);
                if next == InitStage::Configure {
                    InitEvent::Written
                } else {
                    InitEvent::Read { bytes }
                }
            }
            InitAction::CheckTime | InitAction::Sleep { .. } => {
                InitEvent::Elapsed { elapsed_ms: *times.next().expect("a time check") }
            }
            InitAction::Finished(r) => return r,
        };
        stage = next;
    }
}

#[test]
fn init_waits_for_the_first_conversion() {
    let mut bus = MockBus::new(&[
        Expect::WriteRead(OPT_ADDR, vec![0x11], vec![0x02, 0x21]),
        Expect::Write(OPT_ADDR, vec![0x0A, 0x32, 0x38]),
        Expect::WriteRead(OPT_ADDR, vec![0x0C], vec![0x00, 0x00]),
        Expect::WriteRead(OPT_ADDR, vec![0x0C], vec![0x00, 0x04]),
    ]);
    let r = run_init(&mut bus, &OPT4003::new(OPT_ADDR), &[0, 5]);
    assert!(matches!(r, Ok(())), "got {r:?}");
    bus.done();
}

#[test]
fn init_times_out_and_refuses_a_wrong_id() {
    let mut bus = MockBus::new(&[
        Expect::WriteRead(OPT_ADDR, vec![0x11], vec![0x02, 0x21]),
        Expect::Write(OPT_ADDR, vec![0x0A, 0x32, 0x38]),
        Expect::WriteRead(OPT_ADDR, vec![0x0C], vec![0x00, 0x00]),
    ]);
    let r = run_init(&mut bus, &OPT4003::new(OPT_ADDR), &[0, INIT_TIMEOUT_MS]);
    assert!(matches!(r, Err(opt4003::Error::Timeout)), "got {r:?}");
    bus.done();

    let mut bus = MockBus::new(&[Expect::WriteRead(OPT_ADDR, vec![0x11], vec![0x01, 0x21])]);
    let r = run_init(&mut bus, &OPT4003::new(OPT_ADDR), &[]);
    assert!(matches!(r, Err(opt4003::Error::BadId)), "got {r:?}");
    bus.done();
}
