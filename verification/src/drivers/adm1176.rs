//! ADM1176 hot-swap controller and power monitor driver.
use vstd::prelude::*;
use vstd::utf8::encode_utf8_decode_utf8;
use crate::bus::{ops_of, push_op, BusOp, Op};

verus! {

/// Status register read command.
pub const STATUS_READ: u8 = 0x40;
pub const STATUS_OFF_STATUS: u8 = 0x10;

pub const ALERT_EN_EXT_REG_ADDR: u8 = 0x81;
pub const ALERT_EN_EN_ADC_OC4: u8 = 0x02;
pub const ALERT_EN_CLEAR: u8 = 0x10;
pub const ALERT_TH_EN_REG_ADDR: u8 = 0x82;
pub const CONTROL_REG_ADDR: u8 = 0x83;
pub const CONTROL_SWOFF: u8 = 0x01;

pub const V_CONT_BIT: u8 = 0x01;
pub const V_ONCE_BIT: u8 = 0x02;
pub const I_CONT_BIT: u8 = 0x04;
pub const I_ONCE_BIT: u8 = 0x08;
pub const V_RANGE_BIT: u8 = 0x10;

/// The command bit a configuration name selects; 0 for an unknown name.
pub open spec fn config_flag(name: Seq<char>) -> u8 {
    if name == "V_CONT"@ {
        V_CONT_BIT
    } else if name == "V_ONCE"@ {
        V_ONCE_BIT
    } else if name == "I_CONT"@ {
        I_CONT_BIT
    } else if name == "I_ONCE"@ {
        I_ONCE_BIT
    } else if name == "V_RANGE"@ {
        V_RANGE_BIT
    } else {
        0
    }
}

/// The command byte of a list of configuration names: the union of their bits.
pub open spec fn config_byte(names: Seq<&str>) -> u8
    decreases names.len(),
{
    if names.len() == 0 {
        0
    } else {
        config_byte(names.drop_last()) | config_flag(names.last()@)
    }
}

/// Whether one of `names` is the string `name`.
pub open spec fn names_include(names: Seq<&str>, name: Seq<char>) -> bool {
    exists|i: int| 0 <= i < names.len() && #[trigger] names[i]@ == name
}

/// Each bit of the command byte is set exactly when its name is among
/// `names`: "V_CONT" bit 0, "V_ONCE" bit 1, "I_CONT" bit 2, "I_ONCE" bit 3,
/// "V_RANGE" bit 4; the top three bits are never set.
pub proof fn lemma_config_byte_bits(names: Seq<&str>)
    ensures
        config_byte(names) & 0x01 != 0 <==> names_include(names, "V_CONT"@),
        config_byte(names) & 0x02 != 0 <==> names_include(names, "V_ONCE"@),
        config_byte(names) & 0x04 != 0 <==> names_include(names, "I_CONT"@),
        config_byte(names) & 0x08 != 0 <==> names_include(names, "I_ONCE"@),
        config_byte(names) & 0x10 != 0 <==> names_include(names, "V_RANGE"@),
        config_byte(names) & 0xE0 == 0,
    decreases names.len(),
{
    reveal_strlit("V_CONT");
    reveal_strlit("V_ONCE");
    reveal_strlit("I_CONT");
    reveal_strlit("I_ONCE");
    reveal_strlit("V_RANGE");
    assert("V_CONT"@[0] != "I_CONT"@[0] && "V_CONT"@[2] != "V_ONCE"@[2] && "V_CONT"@[0]
        != "I_ONCE"@[0] && "V_ONCE"@[0] != "I_CONT"@[0] && "V_ONCE"@[0] != "I_ONCE"@[0]
        && "I_CONT"@[2] != "I_ONCE"@[2]);
    assert("V_RANGE"@.len() == 7 && "V_CONT"@.len() == 6 && "V_ONCE"@.len() == 6 && "I_CONT"@.len()
        == 6 && "I_ONCE"@.len() == 6);
    // The command bits of the five names, and of none.
    assert(0u8 & 0x01 == 0 && 0u8 & 0x02 == 0 && 0u8 & 0x04 == 0 && 0u8 & 0x08 == 0 && 0u8 & 0x10
        == 0 && 0u8 & 0xE0 == 0 && 1u8 & 1 != 0 && 2u8 & 1 == 0 && 4u8 & 1 == 0 && 8u8 & 1 == 0
        && 16u8 & 1 == 0 && 1u8 & 2 == 0 && 2u8 & 2 != 0 && 4u8 & 2 == 0 && 8u8 & 2 == 0 && 16u8
        & 2 == 0 && 1u8 & 4 == 0 && 2u8 & 4 == 0 && 4u8 & 4 != 0 && 8u8 & 4 == 0 && 16u8 & 4 == 0
        && 1u8 & 8 == 0 && 2u8 & 8 == 0 && 4u8 & 8 == 0 && 8u8 & 8 != 0 && 16u8 & 8 == 0 && 1u8
        & 16 == 0 && 2u8 & 16 == 0 && 4u8 & 16 == 0 && 8u8 & 16 == 0 && 16u8 & 16 != 0 && 1u8
        & 0xE0 == 0 && 2u8 & 0xE0 == 0 && 4u8 & 0xE0 == 0 && 8u8 & 0xE0 == 0 && 16u8 & 0xE0 == 0)
        by (bit_vector);
    if names.len() > 0 {
        let rest = names.drop_last();
        let last = names.last();
        lemma_config_byte_bits(rest);
        let a = config_byte(rest);
        let f = config_flag(last@);
        assert(f == 0 || f == 1 || f == 2 || f == 4 || f == 8 || f == 16);
        assert(f & 0x01 != 0 <==> last@ == "V_CONT"@);
        assert(f & 0x02 != 0 <==> last@ == "V_ONCE"@);
        assert(f & 0x04 != 0 <==> last@ == "I_CONT"@);
        assert(f & 0x08 != 0 <==> last@ == "I_ONCE"@);
        assert(f & 0x10 != 0 <==> last@ == "V_RANGE"@);
        assert(f & 0xE0 == 0);
        assert(forall|m: u8| #![auto]
            ((a | f) & m != 0 <==> (a & m != 0 || f & m != 0))) by (bit_vector);
        assert forall|x: Seq<char>| names_include(names, x) <==> (names_include(rest, x) || last@
            == x) by {
            if names_include(names, x) {
                let i = choose|i: int| 0 <= i < names.len() && #[trigger] names[i]@ == x;
                if i < names.len() - 1 {
                    assert(rest[i] == names[i]);
                }
            }
            if names_include(rest, x) {
                let i = choose|i: int| 0 <= i < rest.len() && #[trigger] rest[i]@ == x;
                assert(names[i] == rest[i]);
            }
            if last@ == x {
                assert(names[names.len() - 1] == last);
            }
        }
    }
}

pub open spec fn write1(addr: u8, b: u8) -> Op {
    Op::Write { addr, bytes: seq![b] }
}

pub open spec fn write2(addr: u8, a: u8, b: u8) -> Op {
    Op::Write { addr, bytes: seq![a, b] }
}

/// The steps of `status`: the read command, one byte read, then the command
/// byte reset to 0.
pub open spec fn status_ops(addr: u8) -> Seq<Op> {
    seq![write1(addr, STATUS_READ), Op::Read { addr, len: 1 }, write1(addr, 0)]
}

fn bytes_eq(a: &[u8], b: &[u8]) -> (r: bool)
    ensures
        r == (a@ == b@),
{
    if a.len() != b.len() {
        return false;
    }
    let mut i: usize = 0;
    while i < a.len()
        invariant
            i <= a.len(),
            a@.len() == b@.len(),
            forall|k: int| 0 <= k < i ==> a@[k] == b@[k],
        decreases a.len() - i,
    {
        if a[i] != b[i] {
            return false;
        }
        i = i + 1;
    }
    assert(a@ =~= b@);
    true
}

/// Whether two strings are the same.
fn str_eq(a: &str, b: &str) -> (r: bool)
    ensures
        r == (a@ == b@),
{
    let r = bytes_eq(a.as_bytes(), b.as_bytes());
    proof {
        encode_utf8_decode_utf8(a@);
        encode_utf8_decode_utf8(b@);
    }
    r
}

/// The command bit of one configuration name.
fn flag_of(name: &str) -> (r: u8)
    ensures
        r == config_flag(name@),
{
    if str_eq(name, "V_CONT") {
        V_CONT_BIT
    } else if str_eq(name, "V_ONCE") {
        V_ONCE_BIT
    } else if str_eq(name, "I_CONT") {
        I_CONT_BIT
    } else if str_eq(name, "I_ONCE") {
        I_ONCE_BIT
    } else if str_eq(name, "V_RANGE") {
        V_RANGE_BIT
    } else {
        0
    }
}

pub struct ADM1176 {
    addr: u8,
    overcurrent_level: u8,
}

impl ADM1176 {
    pub closed spec fn spec_addr(&self) -> u8 {
        self.addr
    }

    pub closed spec fn spec_overcurrent_level(&self) -> u8 {
        self.overcurrent_level
    }

    /// A driver for the device at `addr`, with the overcurrent level at its
    /// power-on value 0xFF.
    pub fn new(addr: u8) -> (r: Self)
        ensures
            r.spec_addr() == addr,
            r.spec_overcurrent_level() == 0xFF,
    {
        ADM1176 { addr, overcurrent_level: 0xFF }
    }

    /// The step that writes the command byte for `values`: "V_CONT",
    /// "V_ONCE", "I_CONT", "I_ONCE" and "V_RANGE" each set their bit, other
    /// names are ignored.
    pub fn config(&self, values: &[&str]) -> (r: Vec<BusOp>)
        ensures
            ops_of(r@) == seq![write1(self.spec_addr(), config_byte(values@))],
            // One byte written, whose bits name the conversions asked for.
            ops_of(r@).len() == 1,
            ops_of(r@)[0] matches Op::Write { addr, bytes } && addr == self.spec_addr()
                && bytes.len() == 1 && (bytes[0] & 0x01 != 0 <==> names_include(values@, "V_CONT"@))
                && (bytes[0] & 0x02 != 0 <==> names_include(values@, "V_ONCE"@)) && (bytes[0] & 0x04
                != 0 <==> names_include(values@, "I_CONT"@)) && (bytes[0] & 0x08 != 0
                <==> names_include(values@, "I_ONCE"@)) && (bytes[0] & 0x10 != 0 <==> names_include(
                values@,
                "V_RANGE"@,
            )) && bytes[0] & 0xE0 == 0,
    {
        proof {
            lemma_config_byte_bits(values@);
        }
        let mut config: u8 = 0;
        let mut i: usize = 0;
        while i < values.len()
            invariant
                i <= values.len(),
                config == config_byte(values@.subrange(0, i as int)),
            decreases values.len() - i,
        {
            let ghost prefix = values@.subrange(0, i as int + 1);
            assert(prefix.drop_last() =~= values@.subrange(0, i as int));
            config = config | flag_of(values[i]);
            i = i + 1;
        }
        assert(values@.subrange(0, values.len() as int) =~= values@);
        let bytes = vec![config];
        assert(bytes@ =~= seq![config]);
        let mut v: Vec<BusOp> = Vec::new();
        push_op(&mut v, BusOp::Write { addr: self.addr, bytes });
        assert(ops_of(v@) =~= seq![write1(self.addr, config_byte(values@))]);
        v
    }

    /// The step that reads the three measurement bytes, which go to
    /// [`raw_voltage_current`].
    pub fn read_voltage_current(&self) -> (r: Vec<BusOp>)
        ensures
            ops_of(r@) == seq![Op::Read { addr: self.spec_addr(), len: 3 }],
    {
        let mut v: Vec<BusOp> = Vec::new();
        push_op(&mut v, BusOp::Read { addr: self.addr, len: 3 });
        assert(ops_of(v@) =~= seq![Op::Read { addr: self.addr, len: 3 }]);
        v
    }

    /// Switch the device on (software switch off cleared, then continuous
    /// voltage and current conversions) or off (software switch off set).
    pub fn set_device_on(&self, on: bool) -> (r: Vec<BusOp>)
        ensures
            ops_of(r@) == if on {
                seq![
                    write2(self.spec_addr(), CONTROL_REG_ADDR, 0x04),
                    write1(self.spec_addr(), V_CONT_BIT | I_CONT_BIT),
                ]
            } else {
                seq![write2(self.spec_addr(), CONTROL_REG_ADDR, 0x05)]
            },
    {
        let mut v: Vec<BusOp> = Vec::new();
        if on {
            let bytes = vec![CONTROL_REG_ADDR, 0x04 & !CONTROL_SWOFF];
            assert(0x04u8 & !0x01u8 == 0x04u8) by (bit_vector);
            assert(bytes@ =~= seq![CONTROL_REG_ADDR, 0x04u8]);
            push_op(&mut v, BusOp::Write { addr: self.addr, bytes });
            let cfg = vec![V_CONT_BIT | I_CONT_BIT];
            assert(cfg@ =~= seq![V_CONT_BIT | I_CONT_BIT]);
            push_op(&mut v, BusOp::Write { addr: self.addr, bytes: cfg });
            assert(ops_of(v@) =~= seq![
                write2(self.addr, CONTROL_REG_ADDR, 0x04),
                write1(self.addr, V_CONT_BIT | I_CONT_BIT),
            ]);
        } else {
            let bytes = vec![CONTROL_REG_ADDR, 0x04 | CONTROL_SWOFF];
            assert(0x04u8 | 0x01u8 == 0x05u8) by (bit_vector);
            assert(bytes@ =~= seq![CONTROL_REG_ADDR, 0x05u8]);
            push_op(&mut v, BusOp::Write { addr: self.addr, bytes });
            assert(ops_of(v@) =~= seq![write2(self.addr, CONTROL_REG_ADDR, 0x05)]);
        }
        v
    }

    /// The steps of `status`, whose byte read [`device_on_from`] decodes.
    pub fn device_on(&self) -> (r: Vec<BusOp>)
        ensures
            ops_of(r@) == status_ops(self.spec_addr()),
    {
        self.status()
    }

    /// The overcurrent alert level last set.
    pub fn overcurrent_level(&self) -> (r: u8)
        ensures
            r == self.spec_overcurrent_level(),
    {
        self.overcurrent_level
    }

    /// The steps that enable the ADC overcurrent alert and set its level to
    /// `value`. Once they succeed, [`ADM1176::overcurrent_level_set`] records it.
    pub fn set_overcurrent_level(&self, value: u8) -> (r: Vec<BusOp>)
        ensures
            ops_of(r@) == seq![
                write2(self.spec_addr(), ALERT_EN_EXT_REG_ADDR, 0x06),
                write2(self.spec_addr(), ALERT_TH_EN_REG_ADDR, value),
            ],
    {
        let mut v: Vec<BusOp> = Vec::new();
        let cmd = vec![ALERT_EN_EXT_REG_ADDR, 0x04 | ALERT_EN_EN_ADC_OC4];
        assert(0x04u8 | 0x02u8 == 0x06u8) by (bit_vector);
        assert(cmd@ =~= seq![ALERT_EN_EXT_REG_ADDR, 0x06u8]);
        push_op(&mut v, BusOp::Write { addr: self.addr, bytes: cmd });
        let th = vec![ALERT_TH_EN_REG_ADDR, value];
        assert(th@ =~= seq![ALERT_TH_EN_REG_ADDR, value]);
        push_op(&mut v, BusOp::Write { addr: self.addr, bytes: th });
        assert(ops_of(v@) =~= seq![
            write2(self.addr, ALERT_EN_EXT_REG_ADDR, 0x06),
            write2(self.addr, ALERT_TH_EN_REG_ADDR, value),
        ]);
        v
    }

    /// Records the level that a successful `set_overcurrent_level` set.
    pub fn overcurrent_level_set(&mut self, value: u8)
        ensures
            final(self).spec_overcurrent_level() == value,
            final(self).spec_addr() == old(self).spec_addr(),
    {
        self.overcurrent_level = value;
    }

    /// The step that clears the alert.
    pub fn clear(&self) -> (r: Vec<BusOp>)
        ensures
            ops_of(r@) == seq![write2(self.spec_addr(), ALERT_EN_EXT_REG_ADDR, 0x14)],
    {
        let mut v: Vec<BusOp> = Vec::new();
        let cmd = vec![ALERT_EN_EXT_REG_ADDR, 0x04 | ALERT_EN_CLEAR];
        assert(0x04u8 | 0x10u8 == 0x14u8) by (bit_vector);
        assert(cmd@ =~= seq![ALERT_EN_EXT_REG_ADDR, 0x14u8]);
        push_op(&mut v, BusOp::Write { addr: self.addr, bytes: cmd });
        assert(ops_of(v@) =~= seq![write2(self.addr, ALERT_EN_EXT_REG_ADDR, 0x14)]);
        v
    }

    /// The steps that read the status byte: the read command, one byte, then
    /// the command byte reset to 0.
    pub fn status(&self) -> (r: Vec<BusOp>)
        ensures
            ops_of(r@) == status_ops(self.spec_addr()),
    {
        let mut v: Vec<BusOp> = Vec::new();
        let c1 = vec![STATUS_READ];
        assert(c1@ =~= seq![STATUS_READ]);
        push_op(&mut v, BusOp::Write { addr: self.addr, bytes: c1 });
        push_op(&mut v, BusOp::Read { addr: self.addr, len: 1 });
        let c2 = vec![0u8];
        assert(c2@ =~= seq![0u8]);
        push_op(&mut v, BusOp::Write { addr: self.addr, bytes: c2 });
        assert(ops_of(v@) =~= status_ops(self.addr));
        v
    }
}

/// Whether a status byte says the device is on (the OFF status bit clear).
pub fn device_on_from(status: u8) -> (r: bool)
    ensures
        r == (status & STATUS_OFF_STATUS != STATUS_OFF_STATUS),
{
    (status & STATUS_OFF_STATUS) != STATUS_OFF_STATUS
}

/// The raw 12-bit voltage code of three measurement bytes: the first byte,
/// then the high nibble of the third.
pub open spec fn raw_voltage_of(b: Seq<u8>) -> u16 {
    ((((b[0] as u16) << 8u16) | ((b[2] & 0xF0) as u16)) >> 4u16) as u16
}

/// The raw 12-bit current code of three measurement bytes: the second byte,
/// then the low nibble of the third.
pub open spec fn raw_current_of(b: Seq<u8>) -> u16 {
    (((b[1] as u16) << 4u16) | ((b[2] & 0x0F) as u16)) as u16
}

/// The raw (voltage, current) codes in three measurement bytes; volts and
/// amps are these codes times the full-scale factors.
pub fn raw_voltage_current(buf: &[u8]) -> (r: (u16, u16))
    requires
        buf@.len() == 3,
    ensures
        r == (raw_voltage_of(buf@), raw_current_of(buf@)),
        // Twelve bits each: voltage the first byte over the high nibble of the
        // third, current the second byte over the low nibble of the third.
        r.0 == buf@[0] * 16 + buf@[2] / 16,
        r.1 == buf@[1] * 16 + buf@[2] % 16,
{
    proof {
        let (b0, b1, b2) = (buf@[0], buf@[1], buf@[2]);
        assert(((((b0 as u16) << 8u16) | ((b2 & 0xF0) as u16)) >> 4u16) as u16 == b0 * 16 + b2 / 16
            && (((b1 as u16) << 4u16) | ((b2 & 0x0F) as u16)) as u16 == b1 * 16 + b2 % 16)
            by (bit_vector);
    }
    let raw_voltage = (((buf[0] as u16) << 8) | ((buf[2] & 0xF0) as u16)) >> 4;
    let raw_current = ((buf[1] as u16) << 4) | ((buf[2] & 0x0F) as u16);
    (raw_voltage, raw_current)
}

} // verus!
