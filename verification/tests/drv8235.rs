// Expected register writes and readings are reference values for a simulated
// register map.
use fsw_lib::bus::{Action, BusOp, Runner};
use fsw_lib::drivers::drv8235::{throttle_raw_from, BridgeControl, Faults, Sign, DRV8235};

const ADDR: u8 = 0x30;

/// Simulated I2C device: 256 registers where a write sets the register
/// pointer, and reads and writes auto-increment it. Every register write is
/// logged.
struct FakeRegs {
    regs: [u8; 256],
    log: Vec<(u8, u8)>,
}

impl FakeRegs {
    fn new(initial: &[(u8, u8)]) -> Self {
        let mut regs = [0u8; 256];
        for &(reg, val) in initial {
            regs[reg as usize] = val;
        }
        FakeRegs { regs, log: Vec::new() }
    }

    fn write(&mut self, bytes: &[u8]) -> u8 {
        let Some((&reg, data)) = bytes.split_first() else {
            return 0;
        };
        let mut ptr = reg;
        for &val in data {
            self.regs[ptr as usize] = val;
            self.log.push((ptr, val));
            ptr = ptr.wrapping_add(1);
        }
        ptr
    }

    fn read(&self, mut ptr: u8, len: usize) -> Vec<u8> {
        let mut out = Vec::new();
        for _ in 0..len {
            out.push(self.regs[ptr as usize]);
            ptr = ptr.wrapping_add(1);
        }
        out
    }

    fn run(&mut self, plan: Vec<BusOp>) -> Vec<u8> {
        let mut runner: Runner<()> = Runner::new(plan);
        loop {
            let data = match runner.action() {
                Action::Done => break,
                Action::Write { addr, bytes } => {
                    assert_eq!(addr, ADDR);
                    self.write(&bytes);
                    Vec::new()
                }
                Action::WriteRead { addr, bytes, len } => {
                    assert_eq!(addr, ADDR);
                    let ptr = self.write(&bytes);
                    self.read(ptr, len)
                }
                Action::Read { len, .. } => self.read(0, len),
                Action::DelayMs { .. } => Vec::new(),
            };
            runner.advance(Ok(data));
        }
        runner.finish().unwrap()
    }

    fn take_log(&mut self) -> Vec<(u8, u8)> {
        std::mem::take(&mut self.log)
    }
}

fn read_throttle_raw(regs: &mut FakeRegs, drv: &DRV8235) -> Option<i16> {
    let reads = regs.run(drv.throttle_raw());
    throttle_raw_from(reads[0], reads[1])
}

#[test]
fn init_matches_flight_driver() {
    let drv = DRV8235::new(ADDR);
    let mut regs = FakeRegs::new(&[]);
    regs.run(drv.init());
    assert_eq!(
        regs.take_log(),
        vec![
            (0x0D, 0x04),
            (0x0D, 0x0C),
            (0x0D, 0x0C),
            (0x0E, 0x18),
            (0x0F, 0x00),
            (0x0C, 0x10),
            (0x13, 0xC0),
            (0x14, 0x52),
            (0x09, 0x80),
            (0x09, 0x82),
        ],
        "init from all-zero registers"
    );

    // Starting from all-ones registers checks that only the intended bits change
    let ones: Vec<(u8, u8)> = (0x00..=0x19).map(|reg| (reg, 0xFF)).collect();
    let mut regs = FakeRegs::new(&ones);
    regs.run(drv.init());
    assert_eq!(
        regs.take_log(),
        vec![
            (0x0D, 0xFF),
            (0x0D, 0xFF),
            (0x0D, 0xFC),
            (0x0E, 0xFF),
            (0x0F, 0x00),
            (0x0C, 0xFF),
            (0x13, 0xFF),
            (0x14, 0x52),
            (0x09, 0xFF),
            (0x09, 0xFF),
        ],
        "init from all-ones registers"
    );
}

// The bus-side driver turns float throttles into a sign and a REG_CTRL1
// index for `drive`, and scales the index and bridge state it reads back.
// These helpers do the same arithmetic, so the cases keep their float inputs
// and expected readings.
const THROTTLE_MAX: f32 = 6.0 / 38.0;
const MAX_VOLTS: f32 = 42.7;
const VOLTS_PER_INDEX: f32 = 0.16733;
const INDEX_PER_VOLT: f32 = 5.9761;
const AMPS_PER_INDEX: f32 = 0.01451;

fn sign(x: f32) -> Sign {
    if x < 0.0 {
        Sign::Negative
    } else if x > 0.0 {
        Sign::Positive
    } else {
        Sign::Zero
    }
}

fn throttle_plan(drv: &DRV8235, throttle: Option<f32>) -> Vec<BusOp> {
    match throttle {
        None => drv.coast(),
        Some(t) => {
            let fraction = (t * THROTTLE_MAX).clamp(-THROTTLE_MAX, THROTTLE_MAX);
            drv.drive(sign(t), (fraction.abs() * 255.0) as u8)
        }
    }
}

fn volts_plan(drv: &DRV8235, volts: Option<f32>) -> Vec<BusOp> {
    match volts {
        None => drv.coast(),
        Some(v) => {
            let v = v.clamp(-MAX_VOLTS, MAX_VOLTS);
            drv.drive(sign(v), (v.abs() * INDEX_PER_VOLT + 0.5) as u8)
        }
    }
}

fn signed(magnitude: f32, config4: u8) -> Option<f32> {
    match BridgeControl::from_bits(config4) {
        BridgeControl::Coast => None,
        BridgeControl::Brake => Some(0.0),
        BridgeControl::Reverse => Some(-magnitude),
        BridgeControl::Forward => Some(magnitude),
    }
}

fn throttle(reads: &[u8]) -> Option<f32> {
    let rounded = ((reads[0] as f32 / 255.0 * 1000.0 + 0.5) as u32) as f32 / 1000.0;
    signed(rounded / THROTTLE_MAX, reads[1])
}

fn throttle_volts(reads: &[u8]) -> Option<f32> {
    signed(reads[0] as f32 * VOLTS_PER_INDEX, reads[1])
}

fn assert_close(label: &str, got: Option<f32>, want: Option<f32>) {
    match (got, want) {
        (Some(g), Some(w)) => assert!(
            (g - w).abs() <= 1e-4 * w.abs().max(1.0),
            "{label}: got {g}, want {w}"
        ),
        _ => assert_eq!(got, want, "{label}"),
    }
}

enum Setter {
    Throttle(Option<f32>),
    Volts(Option<f32>),
    Raw(Option<i16>),
}

#[test]
fn throttle_matches_flight_driver() {
    // (setter, register writes, throttle(), throttle_volts(), throttle_raw())
    let cases: [(Setter, &[(u8, u8)], Option<f32>, Option<f32>, Option<i16>); 12] = [
        (Setter::Throttle(Some(1.0)), &[(0x0F, 0x28), (0x0D, 0x0E)], Some(0.9943333), Some(6.6932), Some(40)),
        (Setter::Throttle(Some(-0.5)), &[(0x0F, 0x14), (0x0D, 0x0D)], Some(-0.494), Some(-3.3466), Some(-20)),
        (Setter::Throttle(Some(2.0)), &[(0x0F, 0x28), (0x0D, 0x0E)], Some(0.9943333), Some(6.6932), Some(40)),
        (Setter::Throttle(Some(0.0)), &[(0x0F, 0x00), (0x0D, 0x0F)], Some(0.0), Some(0.0), Some(0)),
        (Setter::Throttle(None), &[(0x0F, 0x00), (0x0D, 0x0C)], None, None, None),
        (Setter::Volts(Some(3.0)), &[(0x0F, 0x12), (0x0D, 0x0E)], Some(0.4496667), Some(3.01194), Some(18)),
        (Setter::Volts(Some(-50.0)), &[(0x0F, 0xFF), (0x0D, 0x0D)], Some(-6.3333333), Some(-42.66915), Some(-255)),
        (Setter::Volts(Some(0.1)), &[(0x0F, 0x01), (0x0D, 0x0E)], Some(0.0253333), Some(0.16733), Some(1)),
        (Setter::Volts(None), &[(0x0F, 0x00), (0x0D, 0x0C)], None, None, None),
        (Setter::Raw(Some(100)), &[(0x0F, 0x64), (0x0D, 0x0E)], Some(2.4826667), Some(16.733), Some(100)),
        // Full reverse stores index 255 (0xFF), with the reverse bridge state.
        (Setter::Raw(Some(-300)), &[(0x0F, 0xFF), (0x0D, 0x0D)], Some(-6.3333333), Some(-42.66915), Some(-255)),
        (Setter::Raw(Some(0)), &[(0x0F, 0x00), (0x0D, 0x0F)], Some(0.0), Some(0.0), Some(0)),
    ];

    let drv = DRV8235::new(ADDR);
    let mut regs = FakeRegs::new(&[]);
    regs.run(drv.init());
    regs.take_log();

    for (set, expected_writes, want_throttle, want_volts, raw) in cases {
        let (label, plan) = match set {
            Setter::Throttle(v) => (format!("set_throttle({v:?})"), throttle_plan(&drv, v)),
            Setter::Volts(v) => (format!("set_throttle_volts({v:?})"), volts_plan(&drv, v)),
            Setter::Raw(v) => (format!("set_throttle_raw({v:?})"), drv.set_throttle_raw(v)),
        };
        regs.run(plan);
        assert_eq!(regs.take_log(), expected_writes.to_vec(), "{label} writes");
        let reads = regs.run(drv.throttle_raw());
        assert_close(&format!("{label} -> throttle()"), throttle(&reads), want_throttle);
        assert_close(&format!("{label} -> throttle_volts()"), throttle_volts(&reads), want_volts);
        assert_eq!(read_throttle_raw(&mut regs, &drv), raw, "{label} -> throttle_raw()");
        assert!(regs.take_log().is_empty(), "{label}: getters must not write");
    }
}

#[test]
fn reads_voltage_and_current() {
    let drv = DRV8235::new(ADDR);
    let mut regs = FakeRegs::new(&[(0x04, 100), (0x05, 50)]);
    let reads = regs.run(drv.read_voltage_current());
    assert_eq!(reads, vec![100, 50]);
    assert_close("volts", Some(reads[0] as f32 * VOLTS_PER_INDEX), Some(16.733));
    assert_close("amps", Some(reads[1] as f32 * AMPS_PER_INDEX), Some(0.7255));
}

#[test]
fn faults_match_flight_driver_and_clear_only_when_reported() {
    // (FAULT_STATUS, expected faults, expected writes); CONFIG0 is 0x82 after init
    let cases: [(u8, Faults, &[(u8, u8)]); 3] = [
        (
            0b1011_0000,
            Faults { stall: true, overcurrent: true, ..Faults::default() },
            &[(0x09, 0x82)],
        ),
        // Flags without the FAULT bit are ignored
        (0b0011_0000, Faults::default(), &[]),
        (
            0b1000_1110,
            Faults {
                overvoltage: true,
                thermal_shutdown: true,
                undervoltage_lockout: true,
                ..Faults::default()
            },
            &[(0x09, 0x82)],
        ),
    ];
    let drv = DRV8235::new(ADDR);
    for (status, expected, expected_writes) in cases {
        let mut regs = FakeRegs::new(&[(0x00, status), (0x09, 0x82)]);
        let reads = regs.run(drv.faults());
        let (faults, then) = drv.faults_step(reads[0]);
        regs.run(then);
        assert_eq!(faults, expected, "status {status:#010b}");
        assert_eq!(faults.any(), expected != Faults::default(), "status {status:#010b} any()");
        assert_eq!(regs.take_log(), expected_writes.to_vec(), "status {status:#010b} writes");
    }
}

#[test]
fn bridge_control_decodes_both_direction_bits() {
    assert_eq!(BridgeControl::from_bits(0b1111_0000), BridgeControl::Coast);
    assert_eq!(BridgeControl::from_bits(0b0000_0101), BridgeControl::Reverse);
    assert_eq!(BridgeControl::from_bits(0b0000_1110), BridgeControl::Forward);
    assert_eq!(BridgeControl::from_bits(0xFF), BridgeControl::Brake);
    for b in [BridgeControl::Coast, BridgeControl::Reverse, BridgeControl::Forward, BridgeControl::Brake] {
        assert_eq!(BridgeControl::from_bits(b.bits()), b);
    }
}

#[test]
fn throttle_raw_reads_back_clamped_value() {
    let drv = DRV8235::new(ADDR);
    for raw in [-32768i16, -256, -255, -1, 0, 1, 254, 255, 256, 32767] {
        let mut regs = FakeRegs::new(&[]);
        regs.run(drv.set_throttle_raw(Some(raw)));
        assert_eq!(read_throttle_raw(&mut regs, &drv), Some(raw.clamp(-255, 255)), "raw {raw}");
    }
    assert_eq!(throttle_raw_from(7, 0b00), None);
    assert_eq!(throttle_raw_from(7, 0b11), Some(0));
}

#[test]
fn any_fault_flag_makes_any_true() {
    assert!(!Faults::default().any());
    assert!(Faults { stall: true, ..Faults::default() }.any());
    assert!(Faults { undervoltage_lockout: true, ..Faults::default() }.any());
}
