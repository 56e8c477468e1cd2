// Expected register writes are reference values for a simulated register map.
use fsw_lib::bus::{Action, BusOp, Runner};
use fsw_lib::drivers::pca9633::{self, PCA9633};

const ADDR: u8 = 0x60;
// Power-on MODE1, MODE2 and LEDOUT
const POWER_ON: &[(u8, u8)] = &[(0x00, 0x91), (0x01, 0x05), (0x08, 0x00)];

#[derive(Debug, Clone, Copy, PartialEq)]
enum Event {
    Write(u8, u8),
    DelayMs(u32),
}

fn writes(pairs: &[(u8, u8)]) -> Vec<Event> {
    pairs.iter().map(|&(reg, val)| Event::Write(reg, val)).collect()
}

#[derive(Debug)]
struct FakeError;

/// Simulated I2C device: 256 registers where a write sets the register
/// pointer, and reads and writes auto-increment it. Register writes and
/// delays are logged; writes to `fail_writes_to` fail.
struct FakeRegs {
    regs: [u8; 256],
    log: Vec<Event>,
    fail_writes_to: Option<u8>,
}

impl FakeRegs {
    fn new(initial: &[(u8, u8)]) -> Self {
        let mut regs = [0u8; 256];
        for &(reg, val) in initial {
            regs[reg as usize] = val;
        }
        FakeRegs { regs, log: Vec::new(), fail_writes_to: None }
    }

    fn write(&mut self, bytes: &[u8]) -> Result<u8, FakeError> {
        let Some((&reg, data)) = bytes.split_first() else {
            return Ok(0);
        };
        if !data.is_empty() && self.fail_writes_to == Some(reg) {
            return Err(FakeError);
        }
        let mut ptr = reg;
        for &val in data {
            self.regs[ptr as usize] = val;
            self.log.push(Event::Write(ptr, val));
            ptr = ptr.wrapping_add(1);
        }
        Ok(ptr)
    }

    fn read(&self, mut ptr: u8, len: usize) -> Vec<u8> {
        let mut out = Vec::new();
        for _ in 0..len {
            out.push(self.regs[ptr as usize]);
            ptr = ptr.wrapping_add(1);
        }
        out
    }

    fn run(&mut self, plan: Vec<BusOp>) -> Result<Vec<u8>, FakeError> {
        let mut runner: Runner<FakeError> = Runner::new(plan);
        loop {
            let outcome = match runner.action() {
                Action::Done => break,
                Action::Write { bytes, .. } => self.write(&bytes).map(|_| Vec::new()),
                Action::WriteRead { bytes, len, .. } => self.write(&bytes).map(|ptr| self.read(ptr, len)),
                Action::Read { len, .. } => Ok(self.read(0, len)),
                Action::DelayMs { ms } => {
                    self.log.push(Event::DelayMs(ms));
                    Ok(Vec::new())
                }
            };
            runner.advance(outcome);
        }
        runner.finish()
    }

    fn take_events(&mut self) -> Vec<Event> {
        std::mem::take(&mut self.log)
    }
}

fn ok<T>(r: Result<T, pca9633::Error<FakeError>>) -> T {
    match r {
        Ok(v) => v,
        Err(e) => panic!("unexpected {e:?}"),
    }
}

#[test]
fn matches_flight_driver_register_writes() {
    let mut regs = FakeRegs::new(POWER_ON);
    let pca = PCA9633::new(ADDR);

    regs.run(pca.init()).unwrap();
    assert_eq!(
        regs.take_events(),
        writes(&[
            (0x00, 0x81),
            (0x01, 0x05),
            (0x08, 0x80),
            (0x05, 0xFF),
            (0x08, 0x40),
            (0x08, 0x42),
            (0x02, 0xFF),
            (0x08, 0x41),
            (0x08, 0x49),
            (0x03, 0xFF),
            (0x08, 0x45),
            (0x08, 0x65),
            (0x04, 0xFF),
            (0x08, 0x55),
        ]),
        "init"
    );

    regs.run(ok(pca.set_pwm::<FakeError>(1, 200))).unwrap();
    assert_eq!(regs.take_events(), writes(&[(0x08, 0x59), (0x03, 0x37)]), "set_pwm(1, 200)");

    regs.run(pca.enable_driver()).unwrap();
    assert_eq!(
        regs.take_events(),
        writes(&[(0x08, 0x99), (0x05, 0x00), (0x00, 0x81)]),
        "enable_driver"
    );

    regs.run(pca.disable_driver()).unwrap();
    assert_eq!(
        regs.take_events(),
        writes(&[
            (0x08, 0x99),
            (0x05, 0xFF),
            (0x08, 0x9A),
            (0x02, 0xFF),
            (0x08, 0x9A),
            (0x03, 0xFF),
            (0x08, 0xAA),
            (0x04, 0xFF),
            (0x00, 0x91),
        ]),
        "disable_driver"
    );

    // burn = set_pwm + enable_driver, wait, disable_driver
    regs.run(ok(pca.burn::<FakeError>(2, 10, 1500))).unwrap();
    let mut expected = writes(&[(0x08, 0xAA), (0x04, 0xF5), (0x08, 0xAA), (0x05, 0x00), (0x00, 0x81)]);
    expected.push(Event::DelayMs(1500));
    expected.extend(writes(&[
        (0x08, 0xAA),
        (0x05, 0xFF),
        (0x08, 0xAA),
        (0x02, 0xFF),
        (0x08, 0xAA),
        (0x03, 0xFF),
        (0x08, 0xAA),
        (0x04, 0xFF),
        (0x00, 0x91),
    ]));
    assert_eq!(regs.take_events(), expected, "burn(2, 10, 1500ms)");
}

#[test]
fn burn_disables_driver_even_if_enable_fails() {
    // Chip awake with nothing burning
    let mut regs = FakeRegs::new(&[(0x00, 0x81), (0x01, 0x05), (0x08, 0x55)]);
    regs.fail_writes_to = Some(0x05); // PWM3, the supply enable channel
    let pca = PCA9633::new(ADDR);

    let result = regs.run(ok(pca.burn::<FakeError>(0, 50, 1000)));

    assert!(matches!(result, Err(FakeError)), "got {result:?}");
    assert!(
        !regs.take_events().contains(&Event::DelayMs(1000)),
        "must not wait after a failed enable"
    );
    assert_eq!(&regs.regs[0x02..=0x04], &[0xFF, 0xFF, 0xFF], "burn wire channels off");
    assert_eq!(regs.regs[0x00] & 0x10, 0x10, "chip put to sleep");
}

#[test]
fn rejects_invalid_channels_without_writing() {
    let pca = PCA9633::new(ADDR);
    let res = pca.set_pwm::<FakeError>(4, 1);
    assert!(matches!(res, Err(pca9633::Error::InvalidChannel)), "set_pwm(4): got {:?}", res.is_ok());
    // Channel 3 is the supply enable, not a burn wire
    let res = pca.burn::<FakeError>(3, 1, 1);
    assert!(matches!(res, Err(pca9633::Error::InvalidChannel)), "burn(3): got {:?}", res.is_ok());
    let res = pca.turn_off_pwm::<FakeError>(4);
    assert!(matches!(res, Err(pca9633::Error::InvalidChannel)));
}

#[test]
fn set_pwm_writes_inverted_duty() {
    let pca = PCA9633::new(ADDR);
    for (value, written) in [(0u8, 0xFFu8), (1, 0xFE), (128, 0x7F), (255, 0x00)] {
        let mut regs = FakeRegs::new(POWER_ON);
        regs.run(ok(pca.set_pwm::<FakeError>(0, value))).unwrap();
        assert_eq!(regs.regs[0x02], written, "value {value}");
        assert_eq!(regs.regs[0x08] & 0b11, 0b10, "channel 0 in PWM mode");
    }
}

#[test]
fn turn_off_leaves_channel_fully_on_at_zero_duty() {
    let pca = PCA9633::new(ADDR);
    let mut regs = FakeRegs::new(POWER_ON);
    regs.run(ok(pca.turn_off_pwm::<FakeError>(1))).unwrap();
    assert_eq!(regs.regs[0x03], 0xFF);
    assert_eq!((regs.regs[0x08] >> 2) & 0b11, 0b01);
}

#[test]
fn disable_keeps_going_after_a_failed_channel() {
    let pca = PCA9633::new(ADDR);
    let mut regs = FakeRegs::new(&[(0x00, 0x81), (0x08, 0xAA), (0x02, 0x00), (0x03, 0x00), (0x04, 0x00)]);
    regs.fail_writes_to = Some(0x02);
    let result = regs.run(pca.disable_driver());
    assert!(result.is_err());
    assert_eq!(&regs.regs[0x03..=0x05], &[0xFF, 0xFF, 0xFF]);
    assert_eq!(regs.regs[0x00] & 0x10, 0x10);
}

#[test]
fn init_leaves_every_channel_off_and_the_chip_awake() {
    for fill in [0x00u8, 0xFF, 0xA5] {
        let mut regs = FakeRegs::new(&[]);
        regs.regs = [fill; 256];
        let before = regs.regs;
        regs.run(PCA9633::new(ADDR).init()).unwrap();
        assert_eq!(regs.regs[0x08], 0x55, "LEDOUT from {fill:#04x}");
        assert_eq!(regs.regs[0x00], before[0x00] & !0x10, "MODE1 from {fill:#04x}");
        assert_eq!(regs.regs[0x01], before[0x01] | 0x04, "MODE2 from {fill:#04x}");
        assert_eq!(&regs.regs[0x02..0x06], &[255, 255, 255, 255]);
        for reg in (0x06..0x08).chain(0x09..0x100) {
            assert_eq!(regs.regs[reg], before[reg], "register {reg:#04x}");
        }
    }
}

#[test]
fn disable_turns_every_channel_off_and_puts_the_chip_to_sleep() {
    for fill in [0x00u8, 0xFF, 0x5A] {
        let mut regs = FakeRegs::new(&[]);
        regs.regs = [fill; 256];
        let before = regs.regs;
        regs.run(PCA9633::new(ADDR).disable_driver()).unwrap();
        assert_eq!(&regs.regs[0x02..0x06], &[255, 255, 255, 255], "PWM from {fill:#04x}");
        assert_eq!(regs.regs[0x08], 0xAA, "LEDOUT from {fill:#04x}");
        assert_eq!(regs.regs[0x00], before[0x00] | 0x10, "MODE1 from {fill:#04x}");
        for reg in (0x01..0x02).chain(0x06..0x08).chain(0x09..0x100) {
            assert_eq!(regs.regs[reg], before[reg], "register {reg:#04x}");
        }
    }
}
