//! DS3231 real-time clock driver.
use vstd::prelude::*;
use crate::bus::{
    apply_ops, lemma_apply_single, lemma_write_pointer, merged, ops_of, plan_reads, push_op,
    read_at, read_reg, reg_read, update_reg, write_bytes, BusOp, Op,
};
use crate::calendar::{
    chrono_civil_from_unix, civil_from_unix, civil_seconds, in_chrono_range, lemma_year_starts,
    lemma_years_span, unix_from_civil, valid_civil,
};

verus! {

pub const DATETIME_START: u8 = 0x00;
pub const CONTROL: u8 = 0x0E;
pub const STATUS: u8 = 0x0F;

pub const SECONDS_MASK: u8 = 0x7F;
pub const MINUTES_MASK: u8 = 0x7F;
pub const HOURS_24H_MASK: u8 = 0x3F;
pub const DAY_OF_MONTH_MASK: u8 = 0x3F;
pub const MONTH_MASK: u8 = 0x1F;
/// Enable Oscillator (active low), CONTROL register.
pub const EOSC: u8 = 0x80;
/// Oscillator Stop Flag, STATUS register.
pub const OSF: u8 = 0x80;

pub const YEAR_OFFSET: u16 = 2000;

#[derive(Debug)]
pub enum Error<E> {
    I2c(E),
    InvalidTime,
}

#[derive(Debug, Clone, Copy, PartialEq, Eq, Structural)]
pub struct DateTime {
    pub year: u16,
    pub month: u8,
    pub day: u8,
    pub hour: u8,
    pub minute: u8,
    pub second: u8,
}

/// The value of a packed BCD byte (each nibble taken as a digit).
pub open spec fn bcd_value(bcd: u8) -> u8 {
    (((bcd & 0xF0) >> 4u8) * 10 + (bcd & 0x0F)) as u8
}

/// The packed BCD byte of `dec`: tens in the high nibble, units in the low.
pub open spec fn bcd_of(dec: u8) -> u8 {
    (((dec / 10) << 4u8) | (dec % 10)) as u8
}

/// Packed BCD to decimal.
pub fn bcd2dec(bcd: u8) -> (r: u8)
    ensures
        r == bcd_value(bcd),
        // The high nibble is the tens digit, the low nibble the units.
        r == (bcd / 16) * 10 + bcd % 16,
{
    assert(((bcd & 0xF0) >> 4u8) == bcd / 16 && (bcd & 0x0F) == bcd % 16) by (bit_vector);
    assert((((bcd & 0xF0) >> 4u8) <= 15) && ((bcd & 0x0F) <= 15)) by (bit_vector);
    ((bcd & 0xF0) >> 4) * 10 + (bcd & 0x0F)
}

/// Decimal to packed BCD.
pub fn dec2bcd(dec: u8) -> (r: u8)
    ensures
        r == bcd_of(dec),
        // A two-digit number goes in as its tens digit over its units digit.
        dec < 100 ==> r / 16 == dec / 10 && r % 16 == dec % 10,
{
    assert(dec < 100 ==> ((((dec / 10) << 4u8) | (dec % 10)) as u8) / 16 == dec / 10 && ((((dec / 10)
        << 4u8) | (dec % 10)) as u8) % 16 == dec % 10) by (bit_vector);
    ((dec / 10) << 4) | (dec % 10)
}

/// A two-digit decimal survives the trip to packed BCD and back.
pub proof fn lemma_bcd_roundtrip(x: u8)
    requires
        x < 100,
    ensures
        bcd_value(bcd_of(x)) == x,
        x < 60 ==> bcd_of(x) & 0x7F == bcd_of(x),
        x < 40 ==> bcd_of(x) & 0x3F == bcd_of(x),
        x < 20 ==> bcd_of(x) & 0x1F == bcd_of(x),
{
    assert((x < 100 ==> ((((((x / 10) << 4u8) | (x % 10)) & 0xF0) >> 4u8) * 10 + ((((x / 10)
        << 4u8) | (x % 10)) & 0x0F)) as u8 == x) && (x < 60 ==> (((x / 10) << 4u8) | (x % 10))
        & 0x7F == (((x / 10) << 4u8) | (x % 10))) && (x < 40 ==> (((x / 10) << 4u8) | (x % 10))
        & 0x3F == (((x / 10) << 4u8) | (x % 10))) && (x < 20 ==> (((x / 10) << 4u8) | (x % 10))
        & 0x1F == (((x / 10) << 4u8) | (x % 10)))) by (bit_vector);
}

/// Whether `dt` names a date and time that exists.
pub open spec fn is_real_time(dt: DateTime) -> bool {
    valid_civil(
        dt.year as int,
        dt.month as int,
        dt.day as int,
        dt.hour as int,
        dt.minute as int,
        dt.second as int,
    )
}

/// Seconds from the epoch to `dt`, read as UTC.
pub open spec fn seconds_of(dt: DateTime) -> int {
    civil_seconds(
        dt.year as int,
        dt.month as int,
        dt.day as int,
        dt.hour as int,
        dt.minute as int,
        dt.second as int,
    )
}

/// The times the chip can hold: it stores two year digits, so 2000-2099.
pub open spec fn storable(dt: DateTime) -> bool {
    YEAR_OFFSET <= dt.year < YEAR_OFFSET + 100 && is_real_time(dt)
}

/// The bytes written to set `dt`: the register number, then seconds,
/// minutes, hours, day of week (1, unused), day, month and year, in BCD.
pub open spec fn datetime_bytes(dt: DateTime) -> Seq<u8> {
    seq![
        DATETIME_START,
        bcd_of(dt.second) & SECONDS_MASK,
        bcd_of(dt.minute) & MINUTES_MASK,
        bcd_of(dt.hour) & HOURS_24H_MASK,
        1u8,
        bcd_of(dt.day) & DAY_OF_MONTH_MASK,
        bcd_of(dt.month) & MONTH_MASK,
        bcd_of((dt.year % 100) as u8),
    ]
}

/// The steps of `set_datetime` for a storable time: the time registers, then
/// only /EOSC cleared in CONTROL and only OSF cleared in STATUS.
pub open spec fn set_datetime_ops(addr: u8, dt: DateTime) -> Seq<Op> {
    seq![
        Op::Write { addr, bytes: datetime_bytes(dt) },
        Op::Update { addr, reg: CONTROL, mask: EOSC, value: 0 },
        Op::Update { addr, reg: STATUS, mask: OSF, value: 0 },
    ]
}

/// The step that reads the seven time registers.
pub open spec fn datetime_read_ops(addr: u8) -> Seq<Op> {
    seq![reg_read(addr, DATETIME_START, 7)]
}

/// The date and time that the seven time registers hold (the fourth, the day
/// of the week, is not used).
pub open spec fn datetime_of(b: Seq<u8>) -> DateTime {
    DateTime {
        second: bcd_value(b[0] & SECONDS_MASK),
        minute: bcd_value(b[1] & MINUTES_MASK),
        hour: bcd_value(b[2] & HOURS_24H_MASK),
        day: bcd_value(b[4] & DAY_OF_MONTH_MASK),
        month: bcd_value(b[5] & MONTH_MASK),
        year: (YEAR_OFFSET + bcd_value(b[6])) as u16,
    }
}

/// The date and time chrono gives a Unix time, as `set_unix_time` hands it to
/// `set_datetime` (for years 2000-2099).
pub open spec fn datetime_of_civil(t: (i32, u32, u32, u32, u32, u32)) -> DateTime {
    DateTime {
        year: t.0 as u16,
        month: t.1 as u8,
        day: t.2 as u8,
        hour: t.3 as u8,
        minute: t.4 as u8,
        second: t.5 as u8,
    }
}

/// The Unix time the seven time registers `b` hold, if they hold a real date
/// and time.
pub open spec fn unix_time_of(b: Seq<u8>) -> Option<int> {
    if is_real_time(datetime_of(b)) {
        Some(seconds_of(datetime_of(b)))
    } else {
        None
    }
}

/// On a register device, reading the time back after `set_datetime(dt)`
/// gives `dt`, for every time the chip can store; reading changes nothing.
pub proof fn lemma_set_datetime_reads_back(addr: u8, regs: Seq<u8>, dt: DateTime)
    requires
        regs.len() == 256,
        storable(dt),
    ensures
        ({
            let after = apply_ops(regs, set_datetime_ops(addr, dt));
            let b = plan_reads(after, datetime_read_ops(addr));
            &&& b.len() == 7
            &&& datetime_of(b) == dt
            &&& unix_time_of(b) == Some(seconds_of(dt))
            &&& apply_ops(after, datetime_read_ops(addr)) == after
        }),
{
    let s0 = set_datetime_ops(addr, dt);
    let bytes = datetime_bytes(dt);
    let r1 = write_bytes(regs, bytes);
    let r2 = r1.update(CONTROL as int, merged(r1[CONTROL as int], EOSC, 0));
    let r3 = r2.update(STATUS as int, merged(r2[STATUS as int], OSF, 0));
    assert(apply_ops(regs, s0) == apply_ops(r1, s0.drop_first()));
    assert(apply_ops(r1, s0.drop_first()) == apply_ops(r2, s0.drop_first().drop_first()));
    assert(apply_ops(r2, s0.drop_first().drop_first()) == apply_ops(
        r3,
        s0.drop_first().drop_first().drop_first(),
    ));
    assert(s0.drop_first().drop_first().drop_first().len() == 0);
    let after = r3;
    assert(apply_ops(regs, s0) == after);
    assert forall|k: int| 0 <= k < 7 implies #[trigger] after[k] == bytes[k + 1] by {
        assert(r1[k] == bytes[k + 1]);
    }
    let rd = reg_read(addr, DATETIME_START, 7);
    lemma_apply_single(after, rd);
    lemma_write_pointer(after, DATETIME_START);
    let b = plan_reads(after, datetime_read_ops(addr));
    assert(b =~= read_at(after, 0, 7));
    lemma_bcd_roundtrip(dt.second);
    lemma_bcd_roundtrip(dt.minute);
    lemma_bcd_roundtrip(dt.hour);
    lemma_bcd_roundtrip(dt.day);
    lemma_bcd_roundtrip(dt.month);
    lemma_bcd_roundtrip((dt.year % 100) as u8);
    assert(b[0] == bcd_of(dt.second));
    assert(b[1] == bcd_of(dt.minute));
    assert(b[2] == bcd_of(dt.hour));
    assert(b[4] == bcd_of(dt.day));
    assert(b[5] == bcd_of(dt.month));
    assert(b[6] == bcd_of((dt.year % 100) as u8));
    assert(datetime_of(b) == dt);
}

/// On a register device, `set_datetime(dt)` stores the seven time registers,
/// clears only /EOSC in CONTROL and only OSF in STATUS, and leaves every other
/// register as it was.
pub proof fn lemma_set_datetime_registers(addr: u8, regs: Seq<u8>, dt: DateTime)
    requires
        regs.len() == 256,
    ensures
        ({
            let after = apply_ops(regs, set_datetime_ops(addr, dt));
            &&& after.len() == 256
            &&& forall|k: int| 0 <= k < 7 ==> #[trigger] after[k] == datetime_bytes(dt)[k + 1]
            &&& after[CONTROL as int] == regs[CONTROL as int] & !EOSC
            &&& after[STATUS as int] == regs[STATUS as int] & !OSF
            &&& forall|k: int|
                7 <= k < 256 && k != CONTROL && k != STATUS ==> #[trigger] after[k] == regs[k]
        }),
{
    let s0 = set_datetime_ops(addr, dt);
    let bytes = datetime_bytes(dt);
    let r1 = write_bytes(regs, bytes);
    let r2 = r1.update(CONTROL as int, merged(r1[CONTROL as int], EOSC, 0));
    let r3 = r2.update(STATUS as int, merged(r2[STATUS as int], OSF, 0));
    assert(apply_ops(regs, s0) == apply_ops(r1, s0.drop_first()));
    assert(apply_ops(r1, s0.drop_first()) == apply_ops(r2, s0.drop_first().drop_first()));
    assert(apply_ops(r2, s0.drop_first().drop_first()) == apply_ops(
        r3,
        s0.drop_first().drop_first().drop_first(),
    ));
    assert(s0.drop_first().drop_first().drop_first().len() == 0);
    assert(apply_ops(regs, s0) == r3);
    assert forall|k: int| 0 <= k < 7 implies #[trigger] r3[k] == bytes[k + 1] by {
        assert(r1[k] == bytes[k + 1]);
    }
    assert forall|k: int| 7 <= k < 256 && k != CONTROL && k != STATUS implies #[trigger] r3[k]
        == regs[k] by {
        assert(r1[k] == regs[k]);
    }
    assert(r1[CONTROL as int] == regs[CONTROL as int]);
    assert(r1[STATUS as int] == regs[STATUS as int]);
    let c = regs[CONTROL as int];
    let st = regs[STATUS as int];
    assert(merged(c, 0x80u8, 0u8) == c & !0x80u8 && merged(st, 0x80u8, 0u8) == st & !0x80u8)
        by (bit_vector);
}

/// The Unix time of a date and time, if it exists.
fn to_naive(dt: &DateTime) -> (r: Option<i64>)
    ensures
        r == if is_real_time(*dt) {
            Some(seconds_of(*dt) as i64)
        } else {
            None::<i64>
        },
{
    unix_from_civil(
        dt.year as i32,
        dt.month as u32,
        dt.day as u32,
        dt.hour as u32,
        dt.minute as u32,
        dt.second as u32,
    )
}

/// The date and time held by the seven time registers `b`.
pub fn datetime_from(b: &[u8]) -> (r: DateTime)
    requires
        b@.len() == 7,
    ensures
        r == datetime_of(b@),
{
    let y = bcd2dec(b[6]);
    DateTime {
        second: bcd2dec(b[0] & SECONDS_MASK),
        minute: bcd2dec(b[1] & MINUTES_MASK),
        hour: bcd2dec(b[2] & HOURS_24H_MASK),
        day: bcd2dec(b[4] & DAY_OF_MONTH_MASK),
        month: bcd2dec(b[5] & MONTH_MASK),
        year: YEAR_OFFSET + y as u16,
    }
}

/// Seconds since the Unix epoch (UTC) of the time in the seven time
/// registers `b`; `InvalidTime` when they hold no real date and time.
pub fn unix_time_from<E>(b: &[u8]) -> (r: Result<i64, Error<E>>)
    requires
        b@.len() == 7,
    ensures
        is_real_time(datetime_of(b@)) ==> r == Ok::<i64, Error<E>>(
            seconds_of(datetime_of(b@)) as i64,
        ),
        !is_real_time(datetime_of(b@)) ==> r matches Err(Error::InvalidTime),
{
    let dt = datetime_from(b);
    match to_naive(&dt) {
        Some(ts) => Ok(ts),
        None => Err(Error::InvalidTime),
    }
}

/// Whether a STATUS value reports that the oscillator stopped.
pub fn lost_power_from(status: u8) -> (r: bool)
    ensures
        r == (status & OSF != 0),
{
    status & OSF != 0
}

pub struct DS3231 {
    addr: u8,
}

impl DS3231 {
    pub closed spec fn spec_addr(&self) -> u8 {
        self.addr
    }

    pub fn new(addr: u8) -> (r: Self)
        ensures
            r.spec_addr() == addr,
    {
        DS3231 { addr }
    }

    /// Set the clock to `dt`. The chip only stores two year digits, so only
    /// 2000-2099 can be set; a year outside it, or a date or time that does not
    /// exist, is `InvalidTime` and nothing is written.
    pub fn set_datetime<E>(&self, dt: &DateTime) -> (r: Result<Vec<BusOp>, Error<E>>)
        ensures
            storable(*dt) ==> (r matches Ok(v) && ops_of(v@) == set_datetime_ops(
                self.spec_addr(),
                *dt,
            )),
            !storable(*dt) ==> r matches Err(Error::InvalidTime),
    {
        if !(YEAR_OFFSET <= dt.year && dt.year < YEAR_OFFSET + 100) || to_naive(dt).is_none() {
            return Err(Error::InvalidTime);
        }
        let bytes = vec![
            DATETIME_START,
            dec2bcd(dt.second) & SECONDS_MASK,
            dec2bcd(dt.minute) & MINUTES_MASK,
            dec2bcd(dt.hour) & HOURS_24H_MASK,
            0x01,
            dec2bcd(dt.day) & DAY_OF_MONTH_MASK,
            dec2bcd(dt.month) & MONTH_MASK,
            dec2bcd((dt.year % 100) as u8),
        ];
        assert(bytes@ =~= datetime_bytes(*dt));
        let mut v: Vec<BusOp> = Vec::new();
        push_op(&mut v, BusOp::Write { addr: self.addr, bytes });
        // Control: clear only /EOSC (enable oscillator); keep INTCN, alarm and rate-select bits
        push_op(&mut v, update_reg(self.addr, CONTROL, EOSC, 0));
        // Status: clear only OSF (oscillator stop flag); keep EN32kHz and alarm flags
        push_op(&mut v, update_reg(self.addr, STATUS, OSF, 0));
        assert(ops_of(v@) =~= set_datetime_ops(self.addr, *dt));
        Ok(v)
    }

    /// Set the clock to Unix time `ts` (UTC). `InvalidTime` when chrono has no
    /// date for `ts`, or when its year is outside 2000-2099, the years the
    /// chip can store; nothing is written then.
    pub fn set_unix_time<E>(&self, ts: i64) -> (r: Result<Vec<BusOp>, Error<E>>)
        ensures
            match chrono_civil_from_unix(ts) {
                Some(t) => if 2000 <= t.0 <= 2099 {
                    &&& r matches Ok(v)
                    &&& ops_of(v@) == set_datetime_ops(self.spec_addr(), datetime_of_civil(t))
                    // Read-back: reading the time registers after this plan
                    // gives `ts` again.
                    &&& forall|regs: Seq<u8>|
                        regs.len() == 256 ==> #[trigger] unix_time_of(
                            plan_reads(apply_ops(regs, ops_of(v@)), datetime_read_ops(self.spec_addr())),
                        ) == Some(ts as int)
                    // ... and the date read back is chrono's date for `ts`.
                    &&& forall|regs: Seq<u8>|
                        regs.len() == 256 ==> #[trigger] datetime_of(
                            plan_reads(apply_ops(regs, ops_of(v@)), datetime_read_ops(self.spec_addr())),
                        ) == datetime_of_civil(t)
                } else {
                    r matches Err(Error::InvalidTime)
                },
                None => r matches Err(Error::InvalidTime),
            },
            // The years 2000-2099 are the Unix times 946_684_800 to 4_102_444_799.
            r matches Ok(_) <==> 946_684_800 <= ts <= 4_102_444_799,
            !(946_684_800 <= ts <= 4_102_444_799) ==> r matches Err(Error::InvalidTime),
    {
        proof {
            lemma_year_starts();
            assert(in_chrono_range(946_684_800) && in_chrono_range(4_102_444_799));
        }
        match civil_from_unix(ts) {
            None => Err(Error::InvalidTime),
            Some(t) => {
                proof {
                    lemma_years_span(t.0 as int, t.1 as int, t.2 as int, t.3 as int, t.4 as int, t.5 as int, 2000, 2099);
                }
                if t.0 < 2000 || t.0 > 2099 {
                    return Err(Error::InvalidTime);
                }
                let dt = DateTime {
                    year: t.0 as u16,
                    month: t.1 as u8,
                    day: t.2 as u8,
                    hour: t.3 as u8,
                    minute: t.4 as u8,
                    second: t.5 as u8,
                };
                proof {
                    lemma_years_span(t.0 as int, t.1 as int, t.2 as int, t.3 as int, t.4 as int, t.5 as int, 2000, 2099);
                    assert(dt.year == t.0);
                    assert(storable(dt));
                    assert(seconds_of(dt) == ts);
                    assert forall|regs: Seq<u8>| regs.len() == 256 implies #[trigger] unix_time_of(
                        plan_reads(
                            apply_ops(regs, set_datetime_ops(self.addr, dt)),
                            datetime_read_ops(self.addr),
                        ),
                    ) == Some(ts as int) by {
                        lemma_set_datetime_reads_back(self.addr, regs, dt);
                    }
                    assert forall|regs: Seq<u8>| regs.len() == 256 implies #[trigger] datetime_of(
                        plan_reads(
                            apply_ops(regs, set_datetime_ops(self.addr, dt)),
                            datetime_read_ops(self.addr),
                        ),
                    ) == dt by {
                        lemma_set_datetime_reads_back(self.addr, regs, dt);
                    }
                }
                self.set_datetime(&dt)
            },
        }
    }

    /// The step that reads the seven time registers, whose bytes go to
    /// [`datetime_from`].
    pub fn datetime(&self) -> (r: Vec<BusOp>)
        ensures
            ops_of(r@) == datetime_read_ops(self.spec_addr()),
    {
        let mut v: Vec<BusOp> = Vec::new();
        push_op(&mut v, read_reg(self.addr, DATETIME_START, 7));
        assert(ops_of(v@) =~= datetime_read_ops(self.addr));
        v
    }

    /// The step that reads the seven time registers, whose bytes go to
    /// [`unix_time_from`].
    pub fn unix_time(&self) -> (r: Vec<BusOp>)
        ensures
            ops_of(r@) == datetime_read_ops(self.spec_addr()),
    {
        self.datetime()
    }

    /// The step that reads STATUS, whose byte goes to [`lost_power_from`].
    pub fn lost_power(&self) -> (r: Vec<BusOp>)
        ensures
            ops_of(r@) == seq![reg_read(self.spec_addr(), STATUS, 1)],
    {
        let mut v: Vec<BusOp> = Vec::new();
        push_op(&mut v, read_reg(self.addr, STATUS, 1));
        assert(ops_of(v@) =~= seq![reg_read(self.addr, STATUS, 1)]);
        v
    }
}

} // verus!
