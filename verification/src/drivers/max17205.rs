//! MAX17205 battery fuel gauge driver.
use vstd::prelude::*;
use crate::bus::{ops_of, push_op, BusOp, Op};

verus! {

/// Lowest cell voltage of a pack.
pub const VCELL_ADDR: u8 = 0x09;
/// Reported state of charge.
pub const REPSOC_ADDR: u8 = 0x06;
/// Reported remaining capacity.
pub const REPCAP_ADDR: u8 = 0x05;
/// Battery current.
pub const CURRENT_ADDR: u8 = 0x0A;
/// Time to empty.
pub const TTE_ADDR: u8 = 0x11;
/// Time to full.
pub const TTF_ADDR: u8 = 0x20;
/// Full capacity estimation.
pub const CAPACITY_ADDR: u8 = 0x10;
/// Battery pack voltage.
pub const VBAT_ADDR: u8 = 0xDA;
/// Battery cycles.
pub const AVCELL_ADDR: u8 = 0x17;
/// Time since power up.
pub const TIMERH_ADDR: u8 = 0xBE;
/// Temperature.
pub const TEMP_ADDR: u8 = 0x08;
/// Command register.
pub const CONFIG2_ADDR: u8 = 0xBB;

// Addresses in shadow RAM (the second I2C address)
/// AIN1 thermistor temperature.
pub const TEMP1_ADDR: u8 = 0x34;
/// AIN2 thermistor temperature.
pub const TEMP2_ADDR: u8 = 0x3B;
/// Internal die temperature.
pub const INTTEMP_ADDR: u8 = 0x35;

/// A little-endian 16-bit value.
pub open spec fn le16(b: Seq<u8>) -> u16 {
    (((b[1] as u16) << 8u16) | (b[0] as u16)) as u16
}

/// The two bytes of a register read as a little-endian signed value.
pub fn unpack_signed_short_int(buf: &[u8]) -> (r: i16)
    requires
        buf@.len() == 2,
    ensures
        r == le16(buf@) as i16,
        // The low byte first: the value is b0 + 256 * b1, read as two's
        // complement.
        r == (if buf@[1] < 128 {
            buf@[0] + 256 * buf@[1]
        } else {
            buf@[0] + 256 * buf@[1] - 65536
        }),
{
    proof {
        let b0 = buf@[0];
        let b1 = buf@[1];
        assert((b1 < 128 ==> ((((b1 as u16) << 8u16) | (b0 as u16)) as u16) as i16 == b0 + 256 * b1)
            && (b1 >= 128 ==> ((((b1 as u16) << 8u16) | (b0 as u16)) as u16) as i16 == b0 + 256
            * b1 - 65536)) by (bit_vector);
    }
    let val = ((buf[1] as u16) << 8) | (buf[0] as u16);
    val as i16
}

/// The two bytes of a register read as a little-endian unsigned value.
pub fn unpack_unsigned_short_int(buf: &[u8]) -> (r: u16)
    requires
        buf@.len() == 2,
    ensures
        r == le16(buf@),
        // The low byte first.
        r == buf@[0] + 256 * buf@[1],
{
    proof {
        let b0 = buf@[0];
        let b1 = buf@[1];
        assert((((b1 as u16) << 8u16) | (b0 as u16)) as u16 == b0 + 256 * b1) by (bit_vector);
    }
    ((buf[1] as u16) << 8) | (buf[0] as u16)
}

/// The steps that read a register: the register number written, then two
/// bytes read, both at `addr`.
pub open spec fn reg_read_ops(addr: u8, reg: u8) -> Seq<Op> {
    seq![Op::Write { addr, bytes: seq![reg] }, Op::Read { addr, len: 2 }]
}

pub struct MAX17205 {
    // The gauge answers at two addresses: the read address and the shadow RAM.
    read_addr: u8,
    write_addr: u8,
}

impl MAX17205 {
    pub closed spec fn spec_read_addr(&self) -> u8 {
        self.read_addr
    }

    pub closed spec fn spec_write_addr(&self) -> u8 {
        self.write_addr
    }

    pub fn new(read_addr: u8, write_addr: u8) -> (r: Self)
        ensures
            r.spec_read_addr() == read_addr,
            r.spec_write_addr() == write_addr,
    {
        MAX17205 { read_addr, write_addr }
    }

    fn read_reg(addr: u8, reg: u8) -> (r: Vec<BusOp>)
        ensures
            ops_of(r@) == reg_read_ops(addr, reg),
    {
        let mut v: Vec<BusOp> = Vec::new();
        let bytes = vec![reg];
        assert(bytes@ =~= seq![reg]);
        push_op(&mut v, BusOp::Write { addr, bytes });
        push_op(&mut v, BusOp::Read { addr, len: 2 });
        assert(ops_of(v@) =~= reg_read_ops(addr, reg));
        v
    }

    /// Reads the state of charge (RepSOC; percent = raw / 256).
    pub fn read_soc(&self) -> (r: Vec<BusOp>)
        ensures
            ops_of(r@) == reg_read_ops(self.spec_read_addr(), REPSOC_ADDR),
    {
        Self::read_reg(self.read_addr, REPSOC_ADDR)
    }

    /// Reads the remaining capacity (RepCap; mAh = raw * 0.5).
    pub fn read_capacity(&self) -> (r: Vec<BusOp>)
        ensures
            ops_of(r@) == reg_read_ops(self.spec_read_addr(), REPCAP_ADDR),
    {
        Self::read_reg(self.read_addr, REPCAP_ADDR)
    }

    /// Reads the current (signed; mA = raw * 0.0015625 / 0.01).
    pub fn read_current(&self) -> (r: Vec<BusOp>)
        ensures
            ops_of(r@) == reg_read_ops(self.spec_read_addr(), CURRENT_ADDR),
    {
        Self::read_reg(self.read_addr, CURRENT_ADDR)
    }

    /// Reads the pack voltage (mV = raw * 1.25).
    pub fn read_voltage(&self) -> (r: Vec<BusOp>)
        ensures
            ops_of(r@) == reg_read_ops(self.spec_read_addr(), VBAT_ADDR),
    {
        Self::read_reg(self.read_addr, VBAT_ADDR)
    }

    /// Reads the midpoint voltage (mV = raw * 0.078125).
    pub fn read_midvoltage(&self) -> (r: Vec<BusOp>)
        ensures
            ops_of(r@) == reg_read_ops(self.spec_read_addr(), VCELL_ADDR),
    {
        Self::read_reg(self.read_addr, VCELL_ADDR)
    }

    /// Reads the battery cycles.
    pub fn read_cycles(&self) -> (r: Vec<BusOp>)
        ensures
            ops_of(r@) == reg_read_ops(self.spec_read_addr(), AVCELL_ADDR),
    {
        Self::read_reg(self.read_addr, AVCELL_ADDR)
    }

    /// Reads the time to empty (s = raw * 5.625).
    pub fn read_tte(&self) -> (r: Vec<BusOp>)
        ensures
            ops_of(r@) == reg_read_ops(self.spec_read_addr(), TTE_ADDR),
    {
        Self::read_reg(self.read_addr, TTE_ADDR)
    }

    /// Reads the time to full (s = raw * 5.625).
    pub fn read_ttf(&self) -> (r: Vec<BusOp>)
        ensures
            ops_of(r@) == reg_read_ops(self.spec_read_addr(), TTF_ADDR),
    {
        Self::read_reg(self.read_addr, TTF_ADDR)
    }

    /// Reads the time since power up.
    pub fn read_time_pwrup(&self) -> (r: Vec<BusOp>)
        ensures
            ops_of(r@) == reg_read_ops(self.spec_read_addr(), TIMERH_ADDR),
    {
        Self::read_reg(self.read_addr, TIMERH_ADDR)
    }

    /// Reads the pack temperature (centi-Celsius = raw * 0.390625).
    pub fn read_temperature(&self) -> (r: Vec<BusOp>)
        ensures
            ops_of(r@) == reg_read_ops(self.spec_read_addr(), TEMP_ADDR),
    {
        Self::read_reg(self.read_addr, TEMP_ADDR)
    }

    /// Reads thermistor 1 from shadow RAM (centi-Celsius = (raw - 2731) * 10).
    pub fn read_temperature_ain1(&self) -> (r: Vec<BusOp>)
        ensures
            ops_of(r@) == reg_read_ops(self.spec_write_addr(), TEMP1_ADDR),
    {
        Self::read_reg(self.write_addr, TEMP1_ADDR)
    }

    /// Reads thermistor 2 from shadow RAM (centi-Celsius = (raw - 2731) * 10).
    pub fn read_temperature_ain2(&self) -> (r: Vec<BusOp>)
        ensures
            ops_of(r@) == reg_read_ops(self.spec_write_addr(), TEMP2_ADDR),
    {
        Self::read_reg(self.write_addr, TEMP2_ADDR)
    }

    /// Reads the die temperature from shadow RAM (centi-Celsius = (raw - 2731) * 10).
    pub fn read_temperature_die(&self) -> (r: Vec<BusOp>)
        ensures
            ops_of(r@) == reg_read_ops(self.spec_write_addr(), INTTEMP_ADDR),
    {
        Self::read_reg(self.write_addr, INTTEMP_ADDR)
    }

    /// Resets the fuel gauge IC: 0x0001 to the command register.
    pub fn reset(&self) -> (r: Vec<BusOp>)
        ensures
            ops_of(r@) == seq![
                Op::Write { addr: self.spec_read_addr(), bytes: seq![CONFIG2_ADDR, 0x01u8, 0x00u8] },
            ],
    {
        let mut v: Vec<BusOp> = Vec::new();
        let bytes = vec![CONFIG2_ADDR, 0x01, 0x00];
        assert(bytes@ =~= seq![CONFIG2_ADDR, 0x01u8, 0x00u8]);
        push_op(&mut v, BusOp::Write { addr: self.read_addr, bytes });
        assert(ops_of(v@) =~= seq![
            Op::Write { addr: self.read_addr, bytes: seq![CONFIG2_ADDR, 0x01u8, 0x00u8] },
        ]);
        v
    }
}

} // verus!
