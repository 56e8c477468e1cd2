//! DRV8235 torque coil (magnetorquer) driver.
//!
//! DC motor driver controlled over I2C: bridge direction and target voltage
//! are set through registers, and motor voltage, current and fault flags are
//! read back.
use vstd::prelude::*;
use crate::bus::{
    apply_op, apply_ops, lemma_apply_concat, lemma_apply_single, lemma_reads_change_nothing,
    lemma_reg_read, lemma_write_reg, merged, ops_of, plan_reads, read_reg, reg_read, reg_write,
    update_reg, write_reg, BusOp, Op,
};

verus! {

pub const FAULT_STATUS: u8 = 0x00;
/// Voltage across the motor.
pub const REG_STATUS1: u8 = 0x04;
/// Current through the motor.
pub const REG_STATUS2: u8 = 0x05;
pub const CONFIG0: u8 = 0x09;
pub const CONFIG3: u8 = 0x0C;
pub const CONFIG4: u8 = 0x0D;
pub const REG_CTRL0: u8 = 0x0E;
/// WSET_VSET, the target motor voltage.
pub const REG_CTRL1: u8 = 0x0F;
pub const RC_CTRL2: u8 = 0x13;
/// INV_R.
pub const RC_CTRL3: u8 = 0x14;

pub const CONFIG0_EN_OUT: u8 = 0x80;
pub const CONFIG0_CLR_FLT: u8 = 0x02;
pub const CONFIG3_INT_VREF: u8 = 0x10;
/// PWM programming mode.
pub const CONFIG4_PMODE: u8 = 0x08;
/// Bridge control over I2C.
pub const CONFIG4_I2C_BC: u8 = 0x04;
/// IN2 IN1.
pub const CONFIG4_DIR: u8 = 0x03;
pub const REG_CTRL0_REG_CTRL: u8 = 0x18;
pub const RC_CTRL2_INV_R_SCALE: u8 = 0xC0;

pub const FAULT: u8 = 0x80;
pub const STALL: u8 = 0x20;
pub const OCP: u8 = 0x10;
pub const OVP: u8 = 0x08;
pub const TSD: u8 = 0x04;
pub const NPOR: u8 = 0x02;

/// Voltage regulation mode, for REG_CTRL0's REG_CTRL field.
pub const REG_CTRL_VOLTAGE: u8 = 0x03;
pub const INV_R_SCALE: u8 = 0x03;
pub const INV_R: u8 = 82;

/// H-bridge state. Bit order: IN2 IN1.
#[derive(Debug, Clone, Copy, PartialEq, Eq, Structural)]
pub enum BridgeControl {
    /// Standby/coast (Hi-Z), bits 0b00.
    Coast,
    /// Bits 0b01.
    Reverse,
    /// Bits 0b10.
    Forward,
    /// Bits 0b11.
    Brake,
}

/// The IN2 IN1 bits of a bridge state.
pub open spec fn bridge_bits(b: BridgeControl) -> u8 {
    match b {
        BridgeControl::Coast => 0,
        BridgeControl::Reverse => 1,
        BridgeControl::Forward => 2,
        BridgeControl::Brake => 3,
    }
}

/// The bridge state that the IN2 IN1 bits of `bits` select.
pub open spec fn bridge_of(bits: u8) -> BridgeControl {
    let b = bits & 3;
    if b == 0 {
        BridgeControl::Coast
    } else if b == 1 {
        BridgeControl::Reverse
    } else if b == 2 {
        BridgeControl::Forward
    } else {
        BridgeControl::Brake
    }
}

impl BridgeControl {
    /// The bridge state in the IN2 IN1 bits of a CONFIG4 value.
    pub fn from_bits(bits: u8) -> (r: Self)
        ensures
            r == bridge_of(bits),
    {
        let b = bits & CONFIG4_DIR;
        if b == 0 {
            BridgeControl::Coast
        } else if b == 1 {
            BridgeControl::Reverse
        } else if b == 2 {
            BridgeControl::Forward
        } else {
            BridgeControl::Brake
        }
    }

    /// The IN2 IN1 bits of this state; `from_bits` gives the state back.
    pub fn bits(self) -> (r: u8)
        ensures
            r == bridge_bits(self),
            bridge_of(r) == self,
    {
        assert(0u8 & 3u8 == 0u8 && 1u8 & 3u8 == 1u8 && 2u8 & 3u8 == 2u8 && 3u8 & 3u8 == 3u8)
            by (bit_vector);
        match self {
            BridgeControl::Coast => 0,
            BridgeControl::Reverse => 1,
            BridgeControl::Forward => 2,
            BridgeControl::Brake => 3,
        }
    }
}

/// Stall, overcurrent and thermal shutdown disable the device until faults
/// are cleared (thermal shutdown also resumes once cool). Undervoltage resumes
/// when voltage returns.
#[derive(Debug, Clone, Copy, PartialEq, Eq, Structural)]
pub struct Faults {
    pub stall: bool,
    pub overcurrent: bool,
    pub overvoltage: bool,
    pub thermal_shutdown: bool,
    pub undervoltage_lockout: bool,
}

/// No fault at all.
pub open spec fn no_faults() -> Faults {
    Faults {
        stall: false,
        overcurrent: false,
        overvoltage: false,
        thermal_shutdown: false,
        undervoltage_lockout: false,
    }
}

impl Default for Faults {
    fn default() -> (r: Self)
        ensures
            r == no_faults(),
    {
        Faults {
            stall: false,
            overcurrent: false,
            overvoltage: false,
            thermal_shutdown: false,
            undervoltage_lockout: false,
        }
    }
}

impl Faults {
    pub open spec fn spec_any(&self) -> bool {
        self.stall || self.overcurrent || self.overvoltage || self.thermal_shutdown
            || self.undervoltage_lockout
    }

    /// Whether any fault is set.
    pub fn any(&self) -> (r: bool)
        ensures
            r == self.spec_any(),
            r <==> *self != no_faults(),
    {
        self.stall || self.overcurrent || self.overvoltage || self.thermal_shutdown
            || self.undervoltage_lockout
    }
}

/// The faults that a FAULT_STATUS value reports: none unless the FAULT bit is
/// set, else one flag per status bit.
pub open spec fn faults_of(status: u8) -> Faults {
    if status & FAULT == 0 {
        no_faults()
    } else {
        Faults {
            stall: status & STALL != 0,
            overcurrent: status & OCP != 0,
            overvoltage: status & OVP != 0,
            thermal_shutdown: status & TSD != 0,
            undervoltage_lockout: status & NPOR != 0,
        }
    }
}

/// The sign of a drive request.
#[derive(Debug, Clone, Copy, PartialEq, Eq, Structural)]
pub enum Sign {
    Negative,
    Zero,
    Positive,
}

/// The signed value a bridge state gives a magnitude: none when coasting,
/// zero when braking, negative in reverse, positive forward.
pub open spec fn signed_index(index: u8, bridge: BridgeControl) -> Option<i16> {
    match bridge {
        BridgeControl::Coast => None,
        BridgeControl::Brake => Some(0i16),
        BridgeControl::Reverse => Some((-(index as int)) as i16),
        BridgeControl::Forward => Some(index as i16),
    }
}

/// `raw` limited to -255..=255.
pub open spec fn clamp_raw(raw: i16) -> i16 {
    if raw < -255 {
        -255i16
    } else if raw > 255 {
        255i16
    } else {
        raw
    }
}

pub open spec fn abs_int(v: int) -> int {
    if v < 0 {
        -v
    } else {
        v
    }
}

/// The sign of an integer.
pub open spec fn sign_of(v: int) -> Sign {
    if v < 0 {
        Sign::Negative
    } else if v > 0 {
        Sign::Positive
    } else {
        Sign::Zero
    }
}

/// REG_CTRL1 index and bridge state that a drive request writes: reverse for
/// a negative sign, forward for a positive one, and brake at index 0 for zero.
pub open spec fn drive_target(sign: Sign, index: u8) -> (u8, BridgeControl) {
    match sign {
        Sign::Negative => (index, BridgeControl::Reverse),
        Sign::Positive => (index, BridgeControl::Forward),
        Sign::Zero => (0u8, BridgeControl::Brake),
    }
}

pub open spec fn set_bridge_op(addr: u8, bridge: BridgeControl) -> Op {
    Op::Update { addr, reg: CONFIG4, mask: CONFIG4_DIR, value: bridge_bits(bridge) }
}

pub open spec fn clear_faults_op(addr: u8) -> Op {
    Op::Update { addr, reg: CONFIG0, mask: CONFIG0_CLR_FLT, value: CONFIG0_CLR_FLT }
}

/// The steps of `init`.
pub open spec fn init_ops(addr: u8) -> Seq<Op> {
    seq![
        Op::Update { addr, reg: CONFIG4, mask: CONFIG4_I2C_BC, value: CONFIG4_I2C_BC },
        Op::Update { addr, reg: CONFIG4, mask: CONFIG4_PMODE, value: CONFIG4_PMODE },
        set_bridge_op(addr, BridgeControl::Coast),
        Op::Update { addr, reg: REG_CTRL0, mask: REG_CTRL0_REG_CTRL, value: 0x18u8 },
        reg_write(addr, REG_CTRL1, 0),
        Op::Update { addr, reg: CONFIG3, mask: CONFIG3_INT_VREF, value: CONFIG3_INT_VREF },
        Op::Update { addr, reg: RC_CTRL2, mask: RC_CTRL2_INV_R_SCALE, value: 0xC0u8 },
        reg_write(addr, RC_CTRL3, INV_R),
        Op::Update { addr, reg: CONFIG0, mask: CONFIG0_EN_OUT, value: CONFIG0_EN_OUT },
        clear_faults_op(addr),
    ]
}

/// The steps of a drive request: the target index, then the bridge state.
pub open spec fn drive_ops(addr: u8, sign: Sign, index: u8) -> Seq<Op> {
    let (i, b) = drive_target(sign, index);
    seq![reg_write(addr, REG_CTRL1, i), set_bridge_op(addr, b)]
}

/// The steps of coasting: index 0, then the Coast bridge state.
pub open spec fn coast_ops(addr: u8) -> Seq<Op> {
    seq![reg_write(addr, REG_CTRL1, 0), set_bridge_op(addr, BridgeControl::Coast)]
}

/// The steps that read the throttle back: REG_CTRL1, then CONFIG4.
pub open spec fn throttle_read_ops(addr: u8) -> Seq<Op> {
    seq![reg_read(addr, REG_CTRL1, 1), reg_read(addr, CONFIG4, 1)]
}

/// The steps of `set_throttle_raw`.
pub open spec fn set_throttle_raw_ops(addr: u8, raw: Option<i16>) -> Seq<Op> {
    match raw {
        None => coast_ops(addr),
        Some(v) => drive_ops(addr, sign_of(clamp_raw(v) as int), abs_int(clamp_raw(v) as int) as u8),
    }
}

pub struct DRV8235 {
    addr: u8,
}

impl DRV8235 {
    pub closed spec fn spec_addr(&self) -> u8 {
        self.addr
    }

    pub fn new(addr: u8) -> (r: Self)
        ensures
            r.spec_addr() == addr,
    {
        DRV8235 { addr }
    }

    /// Take bridge control over I2C in voltage regulation mode, coast at 0 V,
    /// enable the output and clear faults.
    pub fn init(&self) -> (r: Vec<BusOp>)
        ensures
            ops_of(r@) == init_ops(self.spec_addr()),
    {
        let a = self.addr;
        let mut v: Vec<BusOp> = Vec::new();
        v.push(update_reg(a, CONFIG4, CONFIG4_I2C_BC, CONFIG4_I2C_BC));
        v.push(update_reg(a, CONFIG4, CONFIG4_PMODE, CONFIG4_PMODE));
        v.push(self.set_bridge(BridgeControl::Coast));
        v.push(update_reg(a, REG_CTRL0, REG_CTRL0_REG_CTRL, REG_CTRL_VOLTAGE << 3));
        v.push(write_reg(a, REG_CTRL1, 0));
        v.push(update_reg(a, CONFIG3, CONFIG3_INT_VREF, CONFIG3_INT_VREF));
        v.push(update_reg(a, RC_CTRL2, RC_CTRL2_INV_R_SCALE, INV_R_SCALE << 6));
        v.push(write_reg(a, RC_CTRL3, INV_R));
        v.push(update_reg(a, CONFIG0, CONFIG0_EN_OUT, CONFIG0_EN_OUT));
        v.push(self.clear_faults_step());
        assert((REG_CTRL_VOLTAGE << 3 == 0x18u8) && (INV_R_SCALE << 6 == 0xC0u8)) by (bit_vector);
        assert(ops_of(v@) =~= init_ops(a));
        v
    }

    /// Raw WSET_VSET value from -255 to 255 (clamped). `None` coasts, `0` brakes.
    pub fn set_throttle_raw(&self, raw: Option<i16>) -> (r: Vec<BusOp>)
        ensures
            ops_of(r@) == set_throttle_raw_ops(self.spec_addr(), raw),
    {
        match raw {
            None => self.coast(),
            Some(v) => {
                let c: i16 = if v < -255 {
                    -255
                } else if v > 255 {
                    255
                } else {
                    v
                };
                let sign = if c < 0 {
                    Sign::Negative
                } else if c > 0 {
                    Sign::Positive
                } else {
                    Sign::Zero
                };
                let mag: u8 = if c < 0 {
                    (-c) as u8
                } else {
                    c as u8
                };
                self.drive(sign, mag)
            },
        }
    }

    /// Index 0 and the Coast bridge state.
    pub fn coast(&self) -> (r: Vec<BusOp>)
        ensures
            ops_of(r@) == coast_ops(self.spec_addr()),
    {
        let mut v: Vec<BusOp> = Vec::new();
        v.push(write_reg(self.addr, REG_CTRL1, 0));
        v.push(self.set_bridge(BridgeControl::Coast));
        assert(ops_of(v@) =~= coast_ops(self.addr));
        v
    }

    /// Reverse for a negative `sign`, forward for a positive one, brake (at
    /// index 0) for zero.
    pub fn drive(&self, sign: Sign, index: u8) -> (r: Vec<BusOp>)
        ensures
            ops_of(r@) == drive_ops(self.spec_addr(), sign, index),
    {
        let (i, bridge) = match sign {
            Sign::Negative => (index, BridgeControl::Reverse),
            Sign::Positive => (index, BridgeControl::Forward),
            Sign::Zero => (0u8, BridgeControl::Brake),
        };
        let mut v: Vec<BusOp> = Vec::new();
        v.push(write_reg(self.addr, REG_CTRL1, i));
        v.push(self.set_bridge(bridge));
        assert(ops_of(v@) =~= drive_ops(self.addr, sign, index));
        v
    }

    fn set_bridge(&self, bridge: BridgeControl) -> (r: BusOp)
        ensures
            r@ == set_bridge_op(self.spec_addr(), bridge),
    {
        update_reg(self.addr, CONFIG4, CONFIG4_DIR, bridge.bits())
    }

    fn clear_faults_step(&self) -> (r: BusOp)
        ensures
            r@ == clear_faults_op(self.spec_addr()),
    {
        update_reg(self.addr, CONFIG0, CONFIG0_CLR_FLT, CONFIG0_CLR_FLT)
    }

    /// Set the clear-faults bit.
    pub fn clear_faults(&self) -> (r: Vec<BusOp>)
        ensures
            ops_of(r@) == seq![clear_faults_op(self.spec_addr())],
    {
        let mut v: Vec<BusOp> = Vec::new();
        v.push(self.clear_faults_step());
        assert(ops_of(v@) =~= seq![clear_faults_op(self.addr)]);
        v
    }

    /// The steps that read the current throttle: REG_CTRL1, then CONFIG4. The
    /// two bytes read go to [`throttle_raw_from`] (or, as a voltage or a
    /// fraction, are scaled by the caller).
    pub fn throttle_raw(&self) -> (r: Vec<BusOp>)
        ensures
            ops_of(r@) == throttle_read_ops(self.spec_addr()),
    {
        let mut v: Vec<BusOp> = Vec::new();
        v.push(read_reg(self.addr, REG_CTRL1, 1));
        v.push(read_reg(self.addr, CONFIG4, 1));
        assert(ops_of(v@) =~= throttle_read_ops(self.addr));
        v
    }

    /// The step that reads CONFIG4, whose byte [`BridgeControl::from_bits`]
    /// decodes.
    pub fn bridge_control(&self) -> (r: Vec<BusOp>)
        ensures
            ops_of(r@) == seq![reg_read(self.spec_addr(), CONFIG4, 1)],
    {
        let mut v: Vec<BusOp> = Vec::new();
        v.push(read_reg(self.addr, CONFIG4, 1));
        assert(ops_of(v@) =~= seq![reg_read(self.addr, CONFIG4, 1)]);
        v
    }

    /// The steps that read the measured voltage and current indices:
    /// REG_STATUS1, then REG_STATUS2.
    pub fn read_voltage_current(&self) -> (r: Vec<BusOp>)
        ensures
            ops_of(r@) == seq![
                reg_read(self.spec_addr(), REG_STATUS1, 1),
                reg_read(self.spec_addr(), REG_STATUS2, 1),
            ],
    {
        let mut v: Vec<BusOp> = Vec::new();
        v.push(read_reg(self.addr, REG_STATUS1, 1));
        v.push(read_reg(self.addr, REG_STATUS2, 1));
        assert(ops_of(v@) =~= seq![
            reg_read(self.addr, REG_STATUS1, 1),
            reg_read(self.addr, REG_STATUS2, 1),
        ]);
        v
    }

    /// The step that reads FAULT_STATUS; its byte goes to [`DRV8235::faults_step`].
    pub fn faults(&self) -> (r: Vec<BusOp>)
        ensures
            ops_of(r@) == seq![reg_read(self.spec_addr(), FAULT_STATUS, 1)],
    {
        let mut v: Vec<BusOp> = Vec::new();
        v.push(read_reg(self.addr, FAULT_STATUS, 1));
        assert(ops_of(v@) =~= seq![reg_read(self.addr, FAULT_STATUS, 1)]);
        v
    }

    /// The faults that FAULT_STATUS value `status` reports, and the steps that
    /// follow: clearing the flags when a fault is reported, nothing otherwise.
    pub fn faults_step(&self, status: u8) -> (r: (Faults, Vec<BusOp>))
        ensures
            r.0 == faults_of(status),
            // Each flag is its own bit of FAULT_STATUS, reported only when the
            // FAULT bit (7) is set: stall bit 5, overcurrent bit 4,
            // overvoltage bit 3, thermal shutdown bit 2, undervoltage bit 1.
            r.0.stall == (status & 0x80 != 0 && status & 0x20 != 0),
            r.0.overcurrent == (status & 0x80 != 0 && status & 0x10 != 0),
            r.0.overvoltage == (status & 0x80 != 0 && status & 0x08 != 0),
            r.0.thermal_shutdown == (status & 0x80 != 0 && status & 0x04 != 0),
            r.0.undervoltage_lockout == (status & 0x80 != 0 && status & 0x02 != 0),
            // The flags are cleared (one step) exactly when a fault is reported.
            r.1@.len() == if status & 0x80 != 0 {
                1int
            } else {
                0
            },
            ops_of(r.1@) == if status & FAULT == 0 {
                Seq::<Op>::empty()
            } else {
                seq![clear_faults_op(self.spec_addr())]
            },
    {
        if status & FAULT == 0 {
            let v: Vec<BusOp> = Vec::new();
            assert(ops_of(v@) =~= Seq::<Op>::empty());
            return (Faults::default(), v);
        }
        let faults = Faults {
            stall: status & STALL != 0,
            overcurrent: status & OCP != 0,
            overvoltage: status & OVP != 0,
            thermal_shutdown: status & TSD != 0,
            undervoltage_lockout: status & NPOR != 0,
        };
        let v = self.clear_faults();
        assert(ops_of(v@).len() == v@.len());
        (faults, v)
    }
}

/// The signed value of a throttle reading: REG_CTRL1 `index` signed by the
/// bridge state in `config4`; `None` while coasting.
pub fn throttle_raw_from(index: u8, config4: u8) -> (r: Option<i16>)
    ensures
        r == signed_index(index, bridge_of(config4)),
        // By the IN2 IN1 bits: coasting (0b00) reads as none, braking (0b11)
        // as 0, reverse (0b01) as minus the index, forward (0b10) as the index.
        config4 & 3 == 0 ==> r is None,
        config4 & 3 == 3 ==> r == Some(0i16),
        config4 & 3 == 1 ==> (r matches Some(v) && v == -(index as int)),
        config4 & 3 == 2 ==> (r matches Some(v) && v == index),
{
    match BridgeControl::from_bits(config4) {
        BridgeControl::Coast => None,
        BridgeControl::Brake => Some(0),
        BridgeControl::Reverse => Some(-(index as i16)),
        BridgeControl::Forward => Some(index as i16),
    }
}

/// The registers `init` leaves: CONFIG4 with I2C bridge control and PWM mode
/// on and the bridge coasting, voltage regulation mode, index 0, the internal
/// reference, the INV_R scale and value, the output enabled and faults being
/// cleared. Only the bits it names change.
pub open spec fn init_registers(regs: Seq<u8>) -> Seq<u8> {
    regs.update(CONFIG4 as int, (regs[CONFIG4 as int] & 0xF0) | 0x0C)
        .update(REG_CTRL0 as int, regs[REG_CTRL0 as int] | 0x18)
        .update(REG_CTRL1 as int, 0)
        .update(CONFIG3 as int, regs[CONFIG3 as int] | 0x10)
        .update(RC_CTRL2 as int, regs[RC_CTRL2 as int] | 0xC0)
        .update(RC_CTRL3 as int, INV_R)
        .update(CONFIG0 as int, regs[CONFIG0 as int] | 0x82)
}

/// On a register device, `init` sets exactly the bits of [`init_registers`]
/// and leaves every other bit of every register as it was.
pub proof fn lemma_init_registers(addr: u8, regs: Seq<u8>)
    requires
        regs.len() == 256,
    ensures
        apply_ops(regs, init_ops(addr)) == init_registers(regs),
{
    let s0 = init_ops(addr);
    let r1 = apply_op(regs, s0[0]);
    let s1 = s0.drop_first();
    assert(apply_ops(regs, s0) == apply_ops(r1, s1));
    let r2 = apply_op(r1, s1[0]);
    let s2 = s1.drop_first();
    assert(apply_ops(r1, s1) == apply_ops(r2, s2));
    let r3 = apply_op(r2, s2[0]);
    let s3 = s2.drop_first();
    assert(apply_ops(r2, s2) == apply_ops(r3, s3));
    let r4 = apply_op(r3, s3[0]);
    let s4 = s3.drop_first();
    assert(apply_ops(r3, s3) == apply_ops(r4, s4));
    let r5 = apply_op(r4, s4[0]);
    let s5 = s4.drop_first();
    assert(apply_ops(r4, s4) == apply_ops(r5, s5));
    let r6 = apply_op(r5, s5[0]);
    let s6 = s5.drop_first();
    assert(apply_ops(r5, s5) == apply_ops(r6, s6));
    let r7 = apply_op(r6, s6[0]);
    let s7 = s6.drop_first();
    assert(apply_ops(r6, s6) == apply_ops(r7, s7));
    let r8 = apply_op(r7, s7[0]);
    let s8 = s7.drop_first();
    assert(apply_ops(r7, s7) == apply_ops(r8, s8));
    let r9 = apply_op(r8, s8[0]);
    let s9 = s8.drop_first();
    assert(apply_ops(r8, s8) == apply_ops(r9, s9));
    let r10 = apply_op(r9, s9[0]);
    let s10 = s9.drop_first();
    assert(apply_ops(r9, s9) == apply_ops(r10, s10));
    assert(s10.len() == 0);
    assert(apply_ops(r10, s10) == r10);
    crate::bus::lemma_write_reg(r4, REG_CTRL1, 0);
    crate::bus::lemma_write_reg(r7, RC_CTRL3, INV_R);
    let c4 = regs[CONFIG4 as int];
    assert(merged(merged(merged(c4, 4, 4), 8, 8), 3, 0) == (c4 & 0xF0) | 0x0C) by (bit_vector);
    let c0 = regs[CONFIG0 as int];
    assert(merged(merged(c0, 0x80, 0x80), 2, 2) == c0 | 0x82) by (bit_vector);
    let x = regs[REG_CTRL0 as int];
    assert(merged(x, 0x18, 0x18) == x | 0x18) by (bit_vector);
    let y = regs[CONFIG3 as int];
    assert(merged(y, 0x10, 0x10) == y | 0x10) by (bit_vector);
    let z = regs[RC_CTRL2 as int];
    assert(merged(z, 0xC0, 0xC0) == z | 0xC0) by (bit_vector);
    assert(r10 =~= init_registers(regs));
}

/// On a register device, the bridge steps of a drive request or of coasting
/// leave REG_CTRL1 and the IN2 IN1 bits of CONFIG4 as the request says.
proof fn lemma_drive_registers(regs: Seq<u8>, addr: u8, index: u8, bridge: BridgeControl)
    requires
        regs.len() == 256,
    ensures
        ({
            let ops = seq![reg_write(addr, REG_CTRL1, index), set_bridge_op(addr, bridge)];
            let after = apply_ops(regs, ops);
            &&& after.len() == 256
            &&& after[REG_CTRL1 as int] == index
            &&& bridge_of(after[CONFIG4 as int]) == bridge
            &&& forall|k: int| 0 <= k < 256 && k != REG_CTRL1 && k != CONFIG4 ==> after[k] == regs[k]
        }),
{
    let w = reg_write(addr, REG_CTRL1, index);
    let b = set_bridge_op(addr, bridge);
    lemma_apply_concat(regs, seq![w], seq![b]);
    assert(seq![w] + seq![b] =~= seq![w, b]);
    lemma_apply_single(regs, w);
    crate::bus::lemma_write_reg(regs, REG_CTRL1, index);
    let r1 = regs.update(REG_CTRL1 as int, index);
    lemma_apply_single(r1, b);
    let old = r1[CONFIG4 as int];
    let bits = bridge_bits(bridge);
    assert(merged(old, 3, bits) & 3 == bits) by (bit_vector)
        requires
            bits < 4,
    ;
}

/// What the throttle reads back after `set_throttle_raw(raw)`: the value
/// clamped to -255..=255, or `None` (coasting) after `None`. Reading it back
/// changes no register.
pub proof fn lemma_set_throttle_raw_reads_back(addr: u8, regs: Seq<u8>, raw: Option<i16>)
    requires
        regs.len() == 256,
    ensures
        ({
            let after = apply_ops(regs, set_throttle_raw_ops(addr, raw));
            let reads = plan_reads(after, throttle_read_ops(addr));
            &&& reads.len() == 2
            &&& signed_index(reads[0], bridge_of(reads[1])) == match raw {
                None => None,
                Some(v) => Some(clamp_raw(v)),
            }
            // The value read back is the one set, limited to -255..=255.
            &&& signed_index(reads[0], bridge_of(reads[1])) == match raw {
                None => None::<i16>,
                Some(v) => Some(
                    if v < -255 {
                        -255i16
                    } else if v > 255 {
                        255i16
                    } else {
                        v
                    },
                ),
            }
            &&& apply_ops(after, throttle_read_ops(addr)) == after
        }),
{
    let (index, bridge) = match raw {
        None => (0u8, BridgeControl::Coast),
        Some(v) => drive_target(sign_of(clamp_raw(v) as int), abs_int(clamp_raw(v) as int) as u8),
    };
    assert(set_throttle_raw_ops(addr, raw) == seq![
        reg_write(addr, REG_CTRL1, index),
        set_bridge_op(addr, bridge),
    ]);
    lemma_drive_registers(regs, addr, index, bridge);
    let after = apply_ops(regs, set_throttle_raw_ops(addr, raw));
    let r1 = reg_read(addr, REG_CTRL1, 1);
    let r2 = reg_read(addr, CONFIG4, 1);
    lemma_apply_concat(after, seq![r1], seq![r2]);
    assert(seq![r1] + seq![r2] =~= throttle_read_ops(addr));
    lemma_apply_single(after, r1);
    lemma_reg_read(after, addr, REG_CTRL1);
    lemma_apply_single(after, r2);
    lemma_reg_read(after, addr, CONFIG4);
    let reads = plan_reads(after, throttle_read_ops(addr));
    assert(reads =~= seq![after[REG_CTRL1 as int], after[CONFIG4 as int]]);
}

/// The getters only read: the throttle, bridge state, voltage and current,
/// and fault status reads change no register.
pub proof fn lemma_getters_do_not_write(addr: u8, regs: Seq<u8>)
    ensures
        apply_ops(regs, throttle_read_ops(addr)) == regs,
        apply_ops(regs, seq![reg_read(addr, CONFIG4, 1)]) == regs,
        apply_ops(regs, seq![reg_read(addr, REG_STATUS1, 1), reg_read(addr, REG_STATUS2, 1)])
            == regs,
        apply_ops(regs, seq![reg_read(addr, FAULT_STATUS, 1)]) == regs,
{
    lemma_reads_change_nothing(regs, throttle_read_ops(addr));
    lemma_reads_change_nothing(regs, seq![reg_read(addr, CONFIG4, 1)]);
    lemma_reads_change_nothing(
        regs,
        seq![reg_read(addr, REG_STATUS1, 1), reg_read(addr, REG_STATUS2, 1)],
    );
    lemma_reads_change_nothing(regs, seq![reg_read(addr, FAULT_STATUS, 1)]);
}

} // verus!
