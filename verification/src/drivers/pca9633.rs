//! PCA9633 burn wire driver.
//!
//! - Channels 0-2 drive the burn wires, channel 3 enables the burn wire supply.
//! - PWM values are inverted on the board, so callers use 0 for off and 255
//!   for full strength and the driver writes 255 - value.
//! - CAUTION: if the strength is too high the board might brown out.
use vstd::prelude::*;
use crate::bus::{
    push_op, after_failure, apply_op, apply_ops, lemma_apply_concat, lemma_apply_single,
    lemma_next_resume, lemma_write_reg, merged, next_resume, ops_of, reg_write, skip_resumes,
    update_reg, write_reg, BusOp, Op,
};

verus! {

pub const MODE1: u8 = 0x00;
pub const MODE2: u8 = 0x01;
pub const PWM0: u8 = 0x02;
pub const LEDOUT: u8 = 0x08;

pub const MODE1_SLEEP: u8 = 0x10;
/// Totem-pole (1) or open-drain (0) outputs.
pub const MODE2_OUTDRV: u8 = 0x04;
pub const LEDOUT_MASK: u8 = 0x03;
pub const LEDOUT_FULL_ON: u8 = 0x01;
pub const LEDOUT_PWM: u8 = 0x02;

pub const PWM_MIN: u8 = 0;
pub const PWM_MAX: u8 = 255;
pub const ENABLE_CHANNEL: u8 = 3;

#[derive(Debug)]
pub enum Error<E> {
    I2c(E),
    InvalidChannel,
}

/// The LEDOUT step that puts `channel` in output `mode`.
pub open spec fn ledout_op(addr: u8, channel: u8, mode: u8) -> Op {
    Op::Update {
        addr,
        reg: LEDOUT,
        mask: (LEDOUT_MASK << (channel * 2) as u8) as u8,
        value: (mode << (channel * 2) as u8) as u8,
    }
}

/// The steps of `set_pwm`: PWM mode for `channel`, then the inverted duty
/// value in its PWM register.
pub open spec fn set_pwm_ops(addr: u8, channel: u8, value: u8) -> Seq<Op> {
    seq![
        ledout_op(addr, channel, LEDOUT_PWM),
        reg_write(addr, (PWM0 + channel) as u8, (PWM_MAX - value) as u8),
    ]
}

pub open spec fn wake_op(addr: u8) -> Op {
    Op::Update { addr, reg: MODE1, mask: MODE1_SLEEP, value: 0 }
}

pub open spec fn sleep_op(addr: u8) -> Op {
    Op::Update { addr, reg: MODE1, mask: MODE1_SLEEP, value: MODE1_SLEEP }
}

/// The steps of `turn_off_pwm`.
pub open spec fn turn_off_ops(addr: u8, channel: u8) -> Seq<Op> {
    set_pwm_ops(addr, channel, PWM_MIN).push(ledout_op(addr, channel, LEDOUT_FULL_ON))
}

/// The steps of `init`: wake, totem-pole outputs, then every channel off,
/// the supply channel first.
pub open spec fn init_ops(addr: u8) -> Seq<Op> {
    seq![wake_op(addr), Op::Update { addr, reg: MODE2, mask: MODE2_OUTDRV, value: MODE2_OUTDRV }]
        + turn_off_ops(addr, ENABLE_CHANNEL) + turn_off_ops(addr, 0) + turn_off_ops(addr, 1)
        + turn_off_ops(addr, 2)
}

/// The steps of `enable_driver`: the supply channel at full strength, then wake.
pub open spec fn enable_ops(addr: u8) -> Seq<Op> {
    set_pwm_ops(addr, ENABLE_CHANNEL, PWM_MAX).push(wake_op(addr))
}

/// The steps of `disable_driver`: every channel to 0, the supply first, then
/// sleep; each in a group of its own, so that a failure in one still lets the
/// others run.
pub open spec fn disable_ops(addr: u8) -> Seq<Op> {
    set_pwm_ops(addr, ENABLE_CHANNEL, PWM_MIN).push(Op::Resume) + set_pwm_ops(addr, 0, PWM_MIN).push(
        Op::Resume,
    ) + set_pwm_ops(addr, 1, PWM_MIN).push(Op::Resume) + set_pwm_ops(addr, 2, PWM_MIN).push(
        Op::Resume,
    ) + seq![sleep_op(addr)]
}

/// The steps of `burn`: the wire's strength, the supply on, the wait; then,
/// in groups of their own, the steps of `disable_driver`.
pub open spec fn burn_ops(addr: u8, channel: u8, strength: u8, duration_ms: u32) -> Seq<Op> {
    (set_pwm_ops(addr, channel, strength) + enable_ops(addr)).push(
        Op::DelayMs { ms: duration_ms },
    ).push(Op::Resume) + disable_ops(addr)
}

pub struct PCA9633 {
    addr: u8,
}

impl PCA9633 {
    pub closed spec fn spec_addr(&self) -> u8 {
        self.addr
    }

    pub fn new(addr: u8) -> (r: Self)
        ensures
            r.spec_addr() == addr,
    {
        PCA9633 { addr }
    }

    fn set_ledout(&self, channel: u8, mode: u8) -> (r: BusOp)
        requires
            channel <= ENABLE_CHANNEL,
        ensures
            r@ == ledout_op(self.spec_addr(), channel, mode),
    {
        let shift = channel * 2;
        update_reg(self.addr, LEDOUT, LEDOUT_MASK << shift, mode << shift)
    }

    fn push_set_pwm(&self, v: &mut Vec<BusOp>, channel: u8, value: u8)
        requires
            channel <= ENABLE_CHANNEL,
        ensures
            ops_of(final(v)@) == ops_of(old(v)@) + set_pwm_ops(self.spec_addr(), channel, value),
    {
        let ghost before = ops_of(v@);
        push_op(v, self.set_ledout(channel, LEDOUT_PWM));
        push_op(v, write_reg(self.addr, PWM0 + channel, PWM_MAX - value));
        assert(ops_of(v@) =~= before + set_pwm_ops(self.addr, channel, value));
    }

    fn push_turn_off(&self, v: &mut Vec<BusOp>, channel: u8)
        requires
            channel <= ENABLE_CHANNEL,
        ensures
            ops_of(final(v)@) == ops_of(old(v)@) + turn_off_ops(self.spec_addr(), channel),
    {
        let ghost before = ops_of(v@);
        self.push_set_pwm(v, channel, PWM_MIN);
        push_op(v, self.set_ledout(channel, LEDOUT_FULL_ON));
        assert(ops_of(v@) =~= before + turn_off_ops(self.addr, channel));
    }

    fn push_enable(&self, v: &mut Vec<BusOp>)
        ensures
            ops_of(final(v)@) == ops_of(old(v)@) + enable_ops(self.spec_addr()),
    {
        let ghost before = ops_of(v@);
        self.push_set_pwm(v, ENABLE_CHANNEL, PWM_MAX);
        push_op(v, update_reg(self.addr, MODE1, MODE1_SLEEP, 0));
        assert(ops_of(v@) =~= before + enable_ops(self.addr));
    }

    fn push_disable(&self, v: &mut Vec<BusOp>)
        ensures
            ops_of(final(v)@) == ops_of(old(v)@) + disable_ops(self.spec_addr()),
    {
        let ghost before = ops_of(v@);
        let a = self.addr;
        self.push_set_pwm(v, ENABLE_CHANNEL, PWM_MIN);
        push_op(v, BusOp::Resume);
        let ghost g1 = ops_of(v@);
        assert(g1 =~= before + set_pwm_ops(a, ENABLE_CHANNEL, PWM_MIN).push(Op::Resume));
        self.push_set_pwm(v, 0, PWM_MIN);
        push_op(v, BusOp::Resume);
        let ghost g2 = ops_of(v@);
        assert(g2 =~= g1 + set_pwm_ops(a, 0, PWM_MIN).push(Op::Resume));
        self.push_set_pwm(v, 1, PWM_MIN);
        push_op(v, BusOp::Resume);
        let ghost g3 = ops_of(v@);
        assert(g3 =~= g2 + set_pwm_ops(a, 1, PWM_MIN).push(Op::Resume));
        self.push_set_pwm(v, 2, PWM_MIN);
        push_op(v, BusOp::Resume);
        let ghost g4 = ops_of(v@);
        assert(g4 =~= g3 + set_pwm_ops(a, 2, PWM_MIN).push(Op::Resume));
        push_op(v, update_reg(a, MODE1, MODE1_SLEEP, MODE1_SLEEP));
        assert(ops_of(v@) =~= g4 + seq![sleep_op(a)]);
        assert(ops_of(v@) =~= before + disable_ops(a));
    }

    /// Wake the chip, select totem-pole outputs and turn every channel off.
    pub fn init(&self) -> (r: Vec<BusOp>)
        ensures
            ops_of(r@) == init_ops(self.spec_addr()),
    {
        let mut v: Vec<BusOp> = Vec::new();
        push_op(&mut v, update_reg(self.addr, MODE1, MODE1_SLEEP, 0));
        push_op(&mut v, update_reg(self.addr, MODE2, MODE2_OUTDRV, MODE2_OUTDRV));
        let ghost start = ops_of(v@);
        assert(start =~= seq![
            wake_op(self.addr),
            Op::Update { addr: self.addr, reg: MODE2, mask: MODE2_OUTDRV, value: MODE2_OUTDRV },
        ]);
        self.push_turn_off(&mut v, ENABLE_CHANNEL);
        self.push_turn_off(&mut v, 0);
        self.push_turn_off(&mut v, 1);
        self.push_turn_off(&mut v, 2);
        assert(ops_of(v@) =~= init_ops(self.addr));
        v
    }

    /// Put `channel` (0-3) in PWM mode at `value` (0 = off, 255 = full).
    pub fn set_pwm<E>(&self, channel: u8, value: u8) -> (r: Result<Vec<BusOp>, Error<E>>)
        ensures
            channel > ENABLE_CHANNEL ==> r matches Err(Error::InvalidChannel),
            channel <= ENABLE_CHANNEL ==> (r matches Ok(v) && ops_of(v@) == set_pwm_ops(
                self.spec_addr(),
                channel,
                value,
            )),
    {
        if channel > ENABLE_CHANNEL {
            return Err(Error::InvalidChannel);
        }
        let mut v: Vec<BusOp> = Vec::new();
        self.push_set_pwm(&mut v, channel, value);
        assert(ops_of(v@) =~= set_pwm_ops(self.addr, channel, value));
        Ok(v)
    }

    /// Set `channel` to 0, then to fully on (which the inverted board reads
    /// as off).
    pub fn turn_off_pwm<E>(&self, channel: u8) -> (r: Result<Vec<BusOp>, Error<E>>)
        ensures
            channel > ENABLE_CHANNEL ==> r matches Err(Error::InvalidChannel),
            channel <= ENABLE_CHANNEL ==> (r matches Ok(v) && ops_of(v@) == turn_off_ops(
                self.spec_addr(),
                channel,
            )),
    {
        if channel > ENABLE_CHANNEL {
            return Err(Error::InvalidChannel);
        }
        let mut v: Vec<BusOp> = Vec::new();
        self.push_turn_off(&mut v, channel);
        assert(ops_of(v@) =~= turn_off_ops(self.addr, channel));
        Ok(v)
    }

    /// The supply channel at full strength, then wake the chip.
    pub fn enable_driver(&self) -> (r: Vec<BusOp>)
        ensures
            ops_of(r@) == enable_ops(self.spec_addr()),
    {
        let mut v: Vec<BusOp> = Vec::new();
        self.push_enable(&mut v);
        assert(ops_of(v@) =~= enable_ops(self.addr));
        v
    }

    /// Turn off the supply and every burn wire, then put the chip to sleep.
    /// Keeps going after a failed write so as much as possible is shut off;
    /// the first error is the one reported.
    pub fn disable_driver(&self) -> (r: Vec<BusOp>)
        ensures
            ops_of(r@) == disable_ops(self.spec_addr()),
    {
        let mut v: Vec<BusOp> = Vec::new();
        self.push_disable(&mut v);
        assert(ops_of(v@) =~= disable_ops(self.addr));
        v
    }

    /// Burn one wire (channel 0-2) at `strength` for `duration_ms`, then
    /// disable the driver. The driver is disabled even if a step fails.
    pub fn burn<E>(&self, channel: u8, strength: u8, duration_ms: u32) -> (r: Result<Vec<BusOp>, Error<E>>)
        ensures
            channel >= ENABLE_CHANNEL ==> r matches Err(Error::InvalidChannel),
            channel < ENABLE_CHANNEL ==> (r matches Ok(v) && ops_of(v@) == burn_ops(
                self.spec_addr(),
                channel,
                strength,
                duration_ms,
            )),
    {
        if channel >= ENABLE_CHANNEL {
            return Err(Error::InvalidChannel);
        }
        let mut v: Vec<BusOp> = Vec::new();
        self.push_set_pwm(&mut v, channel, strength);
        self.push_enable(&mut v);
        push_op(&mut v, BusOp::DelayMs { ms: duration_ms });
        push_op(&mut v, BusOp::Resume);
        let ghost mid = ops_of(v@);
        assert(mid =~= (set_pwm_ops(self.addr, channel, strength) + enable_ops(self.addr)).push(
            Op::DelayMs { ms: duration_ms },
        ).push(Op::Resume));
        self.push_disable(&mut v);
        Ok(v)
    }
}

/// Where a failed step of a burn leads: any failure before the wait skips the
/// wait and goes on with the first step of `disable_driver`; a failure while
/// disabling skips only the rest of its own channel. So whatever fails, the
/// wait happens only after every earlier step succeeded, and every channel is
/// still set to 0 and the chip put to sleep.
pub proof fn lemma_burn_always_disables(addr: u8, channel: u8, strength: u8, duration_ms: u32)
    requires
        channel < ENABLE_CHANNEL,
    ensures
        ({
            let ops = burn_ops(addr, channel, strength, duration_ms);
            &&& ops.len() == 20
            &&& ops[5] == (Op::DelayMs { ms: duration_ms })
            &&& forall|i: int| 0 <= i < 20 && i != 5 ==> !(#[trigger] ops[i] is DelayMs)
            &&& ops.subrange(7, 20) == disable_ops(addr)
            &&& forall|i: int| 0 <= i < 6 ==> after_failure(ops, i) == 7
            &&& forall|i: int|
                7 <= i < 20 ==> #[trigger] after_failure(ops, i) == if i < 9 {
                    10int
                } else if i < 12 {
                    13
                } else if i < 15 {
                    16
                } else if i < 18 {
                    19
                } else {
                    20
                }
        }),
{
    let ops = burn_ops(addr, channel, strength, duration_ms);
    let d = disable_ops(addr);
    assert(d.len() == 13);
    assert(ops.subrange(7, 20) =~= d);
    assert(forall|k: int| 0 <= k < 20 ==> (#[trigger] ops[k] is Resume <==> (k == 6 || k == 9 || k
        == 12 || k == 15 || k == 18)));
    assert forall|i: int| 0 <= i < 20 implies #[trigger] after_failure(ops, i) == if i < 6 {
        7int
    } else if i < 9 {
        10
    } else if i < 12 {
        13
    } else if i < 15 {
        16
    } else if i < 18 {
        19
    } else {
        20
    } by {
        lemma_next_resume(ops, i + 1);
        let n = next_resume(ops, i + 1);
        assert(skip_resumes(ops, 20) == 20);
        assert(skip_resumes(ops, 19) == 19);
        assert(skip_resumes(ops, 16) == 16);
        assert(skip_resumes(ops, 13) == 13);
        assert(skip_resumes(ops, 10) == 10);
        assert(skip_resumes(ops, 7) == 7);
        assert(ops[6] is Resume && ops[9] is Resume && ops[12] is Resume && ops[15] is Resume
            && ops[18] is Resume);
        if i < 6 {
            assert(n == 6);
        } else if i < 9 {
            assert(n == 9);
        } else if i < 12 {
            assert(n == 12);
        } else if i < 15 {
            assert(n == 15);
        } else if i < 18 {
            assert(n == 18);
        } else {
            assert(n == 20);
        }
    }
}

/// The registers after `init`: the chip awake (MODE1 SLEEP cleared),
/// totem-pole outputs (MODE2 OUTDRV set), every PWM register at 255 (0 after
/// the board's inversion), and every channel fully on in LEDOUT (0x55), which
/// the board reads as off. Nothing else changes.
pub open spec fn init_registers(regs: Seq<u8>) -> Seq<u8> {
    regs.update(MODE1 as int, regs[MODE1 as int] & !MODE1_SLEEP).update(
        MODE2 as int,
        regs[MODE2 as int] | MODE2_OUTDRV,
    ).update(2, 255).update(3, 255).update(4, 255).update(5, 255).update(LEDOUT as int, 0x55)
}

/// What `turn_off_pwm(channel)` does to the registers: its PWM register at
/// 255, and its LEDOUT bits set to PWM mode, then to fully on.
proof fn lemma_turn_off_registers(addr: u8, regs: Seq<u8>, channel: u8)
    requires
        regs.len() == 256,
        channel <= ENABLE_CHANNEL,
    ensures
        ({
            let mask = (LEDOUT_MASK << (channel * 2) as u8) as u8;
            apply_ops(regs, turn_off_ops(addr, channel)) == regs.update(
                LEDOUT as int,
                merged(
                    merged(regs[LEDOUT as int], mask, (LEDOUT_PWM << (channel * 2) as u8) as u8),
                    mask,
                    (LEDOUT_FULL_ON << (channel * 2) as u8) as u8,
                ),
            ).update(PWM0 + channel, 255)
        }),
{
    let ops = turn_off_ops(addr, channel);
    let a = ledout_op(addr, channel, LEDOUT_PWM);
    let w = reg_write(addr, (PWM0 + channel) as u8, (PWM_MAX - PWM_MIN) as u8);
    let b = ledout_op(addr, channel, LEDOUT_FULL_ON);
    assert(ops =~= seq![a] + seq![w] + seq![b]);
    lemma_apply_concat(regs, seq![a] + seq![w], seq![b]);
    lemma_apply_concat(regs, seq![a], seq![w]);
    lemma_apply_single(regs, a);
    let r1 = apply_op(regs, a);
    lemma_apply_single(r1, w);
    lemma_write_reg(r1, (PWM0 + channel) as u8, 255);
    let r2 = apply_op(r1, w);
    lemma_apply_single(r2, b);
    let r3 = apply_op(r2, b);
    let mask = (LEDOUT_MASK << (channel * 2) as u8) as u8;
    let x = merged(
        merged(regs[LEDOUT as int], mask, (LEDOUT_PWM << (channel * 2) as u8) as u8),
        mask,
        (LEDOUT_FULL_ON << (channel * 2) as u8) as u8,
    );
    assert(r3 =~= regs.update(LEDOUT as int, x).update(PWM0 + channel, 255));
}

/// On a register device, `init` leaves the registers [`init_registers`]
/// says, whatever they held before.
pub proof fn lemma_init_registers(addr: u8, regs: Seq<u8>)
    requires
        regs.len() == 256,
    ensures
        apply_ops(regs, init_ops(addr)) == init_registers(regs),
{
    let wake = wake_op(addr);
    let outdrv = Op::Update { addr, reg: MODE2, mask: MODE2_OUTDRV, value: MODE2_OUTDRV };
    let head = seq![wake, outdrv];
    let t3 = turn_off_ops(addr, ENABLE_CHANNEL);
    let t0 = turn_off_ops(addr, 0);
    let t1 = turn_off_ops(addr, 1);
    let t2 = turn_off_ops(addr, 2);
    assert(init_ops(addr) == head + t3 + t0 + t1 + t2);
    lemma_apply_concat(regs, head + t3 + t0 + t1, t2);
    lemma_apply_concat(regs, head + t3 + t0, t1);
    lemma_apply_concat(regs, head + t3, t0);
    lemma_apply_concat(regs, head, t3);
    lemma_apply_concat(regs, seq![wake], seq![outdrv]);
    assert(seq![wake] + seq![outdrv] =~= head);
    lemma_apply_single(regs, wake);
    let r1 = apply_op(regs, wake);
    lemma_apply_single(r1, outdrv);
    let r2 = apply_op(r1, outdrv);
    lemma_turn_off_registers(addr, r2, ENABLE_CHANNEL);
    let r3 = apply_ops(r2, t3);
    lemma_turn_off_registers(addr, r3, 0);
    let r4 = apply_ops(r3, t0);
    lemma_turn_off_registers(addr, r4, 1);
    let r5 = apply_ops(r4, t1);
    lemma_turn_off_registers(addr, r5, 2);
    let r6 = apply_ops(r5, t2);
    let m1 = regs[MODE1 as int];
    assert(merged(m1, 0x10, 0) == m1 & !0x10u8) by (bit_vector);
    let m2 = regs[MODE2 as int];
    assert(merged(m2, 0x04, 0x04) == m2 | 0x04u8) by (bit_vector);
    let l = regs[LEDOUT as int];
    assert(merged(
        merged(
            merged(
                merged(
                    merged(merged(merged(merged(l, 0xC0, 0x80), 0xC0, 0x40), 0x03, 0x02), 0x03, 0x01),
                    0x0C,
                    0x08,
                ),
                0x0C,
                0x04,
            ),
            0x30,
            0x20,
        ),
        0x30,
        0x10,
    ) == 0x55u8) by (bit_vector);
    assert((3u8 << 6u8) as u8 == 0xC0u8 && (2u8 << 6u8) as u8 == 0x80u8 && (1u8 << 6u8) as u8
        == 0x40u8 && (3u8 << 0u8) as u8 == 0x03u8 && (2u8 << 0u8) as u8 == 0x02u8 && (1u8 << 0u8)
        as u8 == 0x01u8 && (3u8 << 2u8) as u8 == 0x0Cu8 && (2u8 << 2u8) as u8 == 0x08u8 && (1u8
        << 2u8) as u8 == 0x04u8 && (3u8 << 4u8) as u8 == 0x30u8 && (2u8 << 4u8) as u8 == 0x20u8
        && (1u8 << 4u8) as u8 == 0x10u8) by (bit_vector);
    assert(r6 =~= init_registers(regs));
}

/// On a register device, `set_pwm(channel, value)` puts the channel's LEDOUT
/// bits in PWM mode, leaving the other channels' bits, and stores `255 - value`
/// in its PWM register; nothing else changes.
pub proof fn lemma_set_pwm_registers(addr: u8, regs: Seq<u8>, channel: u8, value: u8)
    requires
        regs.len() == 256,
        channel <= ENABLE_CHANNEL,
    ensures
        ({
            let mask = (LEDOUT_MASK << (channel * 2) as u8) as u8;
            let after = apply_ops(regs, set_pwm_ops(addr, channel, value));
            &&& after == regs.update(
                LEDOUT as int,
                merged(regs[LEDOUT as int], mask, (LEDOUT_PWM << (channel * 2) as u8) as u8),
            ).update(PWM0 + channel, (PWM_MAX - value) as u8)
            &&& after[LEDOUT as int] & mask == (LEDOUT_PWM << (channel * 2) as u8) as u8 & mask
            &&& after[LEDOUT as int] & !mask == regs[LEDOUT as int] & !mask
        }),
{
    let a = ledout_op(addr, channel, LEDOUT_PWM);
    let w = reg_write(addr, (PWM0 + channel) as u8, (PWM_MAX - value) as u8);
    assert(set_pwm_ops(addr, channel, value) =~= seq![a] + seq![w]);
    lemma_apply_concat(regs, seq![a], seq![w]);
    lemma_apply_single(regs, a);
    let r1 = apply_op(regs, a);
    lemma_apply_single(r1, w);
    lemma_write_reg(r1, (PWM0 + channel) as u8, (PWM_MAX - value) as u8);
    let mask = (LEDOUT_MASK << (channel * 2) as u8) as u8;
    let bits = (LEDOUT_PWM << (channel * 2) as u8) as u8;
    let old = regs[LEDOUT as int];
    assert(merged(old, mask, bits) & mask == bits & mask && merged(old, mask, bits) & !mask == old
        & !mask) by (bit_vector);
    assert(apply_op(r1, w) =~= regs.update(LEDOUT as int, merged(old, mask, bits)).update(
        PWM0 + channel,
        (PWM_MAX - value) as u8,
    ));
}

/// The registers after `disable_driver` on a bus where every step succeeds:
/// every PWM register at 255 (0 after the board's inversion), every channel
/// in PWM mode in LEDOUT (0xAA), and the chip asleep (MODE1 SLEEP set).
/// Nothing else changes.
pub open spec fn disable_registers(regs: Seq<u8>) -> Seq<u8> {
    regs.update(2, 255).update(3, 255).update(4, 255).update(5, 255).update(LEDOUT as int, 0xAA).update(
        MODE1 as int,
        regs[MODE1 as int] | MODE1_SLEEP,
    )
}

/// A group of `disable_driver`: one channel set to 0, then the group's end.
proof fn lemma_disable_group_registers(addr: u8, regs: Seq<u8>, channel: u8)
    requires
        regs.len() == 256,
        channel <= ENABLE_CHANNEL,
    ensures
        apply_ops(regs, set_pwm_ops(addr, channel, PWM_MIN).push(Op::Resume)) == apply_ops(
            regs,
            set_pwm_ops(addr, channel, PWM_MIN),
        ),
{
    let a = set_pwm_ops(addr, channel, PWM_MIN);
    assert(a.push(Op::Resume) =~= a + seq![Op::Resume]);
    lemma_apply_concat(regs, a, seq![Op::Resume]);
    lemma_apply_single(apply_ops(regs, a), Op::Resume);
}

/// What `disable_driver` does: the supply channel, then the burn wire
/// channels 0, 1 and 2 each set to 0 in a group of its own, then the sleep
/// step. A failed step skips only the rest of its own group, so every
/// channel and the sleep step are still attempted after any failure (and the
/// runner reports the first error). On a register device where every step
/// succeeds, the registers end as [`disable_registers`] says.
pub proof fn lemma_disable_driver(addr: u8, regs: Seq<u8>)
    requires
        regs.len() == 256,
    ensures
        ({
            let ops = disable_ops(addr);
            &&& ops.len() == 13
            &&& forall|k: int| 0 <= k < 13 ==> (#[trigger] ops[k] is Resume <==> (k == 2 || k == 5
                || k == 8 || k == 11))
            &&& ops[12] == sleep_op(addr)
            &&& forall|i: int|
                0 <= i < 13 ==> #[trigger] after_failure(ops, i) == if i < 2 {
                    3int
                } else if i < 5 {
                    6
                } else if i < 8 {
                    9
                } else if i < 11 {
                    12
                } else {
                    13
                }
            &&& apply_ops(regs, ops) == disable_registers(regs)
        }),
{
    let ops = disable_ops(addr);
    let g3 = set_pwm_ops(addr, ENABLE_CHANNEL, PWM_MIN).push(Op::Resume);
    let g0 = set_pwm_ops(addr, 0, PWM_MIN).push(Op::Resume);
    let g1 = set_pwm_ops(addr, 1, PWM_MIN).push(Op::Resume);
    let g2 = set_pwm_ops(addr, 2, PWM_MIN).push(Op::Resume);
    let last = seq![sleep_op(addr)];
    assert(ops == g3 + g0 + g1 + g2 + last);
    assert(ops.len() == 13);
    assert(forall|k: int| 0 <= k < 13 ==> (#[trigger] ops[k] is Resume <==> (k == 2 || k == 5
        || k == 8 || k == 11)));
    assert forall|i: int| 0 <= i < 13 implies #[trigger] after_failure(ops, i) == if i < 2 {
        3int
    } else if i < 5 {
        6
    } else if i < 8 {
        9
    } else if i < 11 {
        12
    } else {
        13
    } by {
        lemma_next_resume(ops, i + 1);
        let n = next_resume(ops, i + 1);
        assert(skip_resumes(ops, 13) == 13);
        assert(skip_resumes(ops, 12) == 12);
        assert(skip_resumes(ops, 9) == 9);
        assert(skip_resumes(ops, 6) == 6);
        assert(skip_resumes(ops, 3) == 3);
        assert(ops[2] is Resume && ops[5] is Resume && ops[8] is Resume && ops[11] is Resume);
        if i < 2 {
            assert(n == 2);
        } else if i < 5 {
            assert(n == 5);
        } else if i < 8 {
            assert(n == 8);
        } else if i < 11 {
            assert(n == 11);
        } else {
            assert(n == 13);
        }
    }
    lemma_apply_concat(regs, g3 + g0 + g1 + g2, last);
    lemma_apply_concat(regs, g3 + g0 + g1, g2);
    lemma_apply_concat(regs, g3 + g0, g1);
    lemma_apply_concat(regs, g3, g0);
    lemma_disable_group_registers(addr, regs, ENABLE_CHANNEL);
    lemma_set_pwm_registers(addr, regs, ENABLE_CHANNEL, PWM_MIN);
    let r1 = apply_ops(regs, g3);
    lemma_disable_group_registers(addr, r1, 0);
    lemma_set_pwm_registers(addr, r1, 0, PWM_MIN);
    let r2 = apply_ops(r1, g0);
    lemma_disable_group_registers(addr, r2, 1);
    lemma_set_pwm_registers(addr, r2, 1, PWM_MIN);
    let r3 = apply_ops(r2, g1);
    lemma_disable_group_registers(addr, r3, 2);
    lemma_set_pwm_registers(addr, r3, 2, PWM_MIN);
    let r4 = apply_ops(r3, g2);
    lemma_apply_single(r4, sleep_op(addr));
    let r5 = apply_ops(r4, last);
    let l = regs[LEDOUT as int];
    assert(merged(merged(merged(merged(l, 0xC0, 0x80), 0x03, 0x02), 0x0C, 0x08), 0x30, 0x20)
        == 0xAAu8) by (bit_vector);
    let m = regs[MODE1 as int];
    assert(merged(m, 0x10, 0x10) == m | 0x10u8 && (3u8 << 6u8) as u8 == 0xC0u8 && (2u8 << 6u8) as u8
        == 0x80u8 && (3u8 << 0u8) as u8 == 0x03u8 && (2u8 << 0u8) as u8 == 0x02u8 && (3u8 << 2u8)
        as u8 == 0x0Cu8 && (2u8 << 2u8) as u8 == 0x08u8 && (3u8 << 4u8) as u8 == 0x30u8 && (2u8
        << 4u8) as u8 == 0x20u8) by (bit_vector);
    assert(r5 =~= disable_registers(regs));
}

} // verus!
