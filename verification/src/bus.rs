//! Plans of bus operations, the runner that steps through them, and a model
//! of a register device on which plans are given meaning.
use vstd::prelude::*;

verus! {

/// The value a read-modify-write leaves in a register: the bits under `mask`
/// come from `value`, all others from `old`.
pub open spec fn merged(old: u8, mask: u8, value: u8) -> u8 {
    (old & !mask) | (value & mask)
}

/// Read-modify-write of one register value.
pub fn merge_bits(old: u8, mask: u8, value: u8) -> (r: u8)
    ensures
        r == merged(old, mask, value),
        r & mask == value & mask,
        r & !mask == old & !mask,
{
    assert(((old & !mask) | (value & mask)) & mask == value & mask && ((old & !mask) | (value
        & mask)) & !mask == old & !mask) by (bit_vector);
    (old & !mask) | (value & mask)
}

/// One step of a driver operation on the bus.
pub enum BusOp {
    /// `write(addr, bytes)`.
    Write { addr: u8, bytes: Vec<u8> },
    /// `write_read(addr, bytes, buf)` with a buffer of `len` bytes.
    WriteRead { addr: u8, bytes: Vec<u8>, len: usize },
    /// `read(addr, buf)` with a buffer of `len` bytes.
    Read { addr: u8, len: usize },
    /// Read register `reg`, then write it back with the bits under `mask`
    /// replaced by those of `value`.
    Update { addr: u8, reg: u8, mask: u8, value: u8 },
    /// Wait `ms` milliseconds.
    DelayMs { ms: u32 },
    /// Marks where the plan goes on after a failed step: a failure skips the
    /// rest of its group, up to the next `Resume`.
    Resume,
}

/// The mathematical view of a [`BusOp`].
pub enum Op {
    Write { addr: u8, bytes: Seq<u8> },
    WriteRead { addr: u8, bytes: Seq<u8>, len: nat },
    Read { addr: u8, len: nat },
    Update { addr: u8, reg: u8, mask: u8, value: u8 },
    DelayMs { ms: u32 },
    Resume,
}

impl View for BusOp {
    type V = Op;

    open spec fn view(&self) -> Op {
        match self {
            BusOp::Write { addr, bytes } => Op::Write { addr: *addr, bytes: bytes@ },
            BusOp::WriteRead { addr, bytes, len } => Op::WriteRead {
                addr: *addr,
                bytes: bytes@,
                len: *len as nat,
            },
            BusOp::Read { addr, len } => Op::Read { addr: *addr, len: *len as nat },
            BusOp::Update { addr, reg, mask, value } => Op::Update {
                addr: *addr,
                reg: *reg,
                mask: *mask,
                value: *value,
            },
            BusOp::DelayMs { ms } => Op::DelayMs { ms: *ms },
            BusOp::Resume => Op::Resume,
        }
    }
}

/// The steps of a plan, by their views.
pub open spec fn ops_of(plan: Seq<BusOp>) -> Seq<Op> {
    plan.map_values(|o: BusOp| o@)
}

/// `[reg, val]` written to `addr`.
pub open spec fn reg_write(addr: u8, reg: u8, val: u8) -> Op {
    Op::Write { addr, bytes: seq![reg, val] }
}

/// `len` bytes read from `addr`, starting at register `reg`.
pub open spec fn reg_read(addr: u8, reg: u8, len: nat) -> Op {
    Op::WriteRead { addr, bytes: seq![reg], len }
}

/// Appends `op` to a plan.
pub fn push_op(plan: &mut Vec<BusOp>, op: BusOp)
    ensures
        ops_of(final(plan)@) == ops_of(old(plan)@).push(op@),
{
    let ghost x = op@;
    plan.push(op);
    assert(ops_of(plan@) =~= ops_of(old(plan)@).push(x));
}

/// Builds the step that writes `val` to register `reg`.
pub fn write_reg(addr: u8, reg: u8, val: u8) -> (r: BusOp)
    ensures
        r@ == reg_write(addr, reg, val),
{
    let bytes = vec![reg, val];
    assert(bytes@ =~= seq![reg, val]);
    BusOp::Write { addr, bytes }
}

/// Builds the step that reads `len` bytes starting at register `reg`.
pub fn read_reg(addr: u8, reg: u8, len: usize) -> (r: BusOp)
    ensures
        r@ == reg_read(addr, reg, len as nat),
{
    let bytes = vec![reg];
    assert(bytes@ =~= seq![reg]);
    BusOp::WriteRead { addr, bytes, len }
}

/// Builds the read-modify-write step of register `reg`.
pub fn update_reg(addr: u8, reg: u8, mask: u8, value: u8) -> (r: BusOp)
    ensures
        r@ == (Op::Update { addr, reg, mask, value }),
{
    BusOp::Update { addr, reg, mask, value }
}

/// A register device: 256 registers behind a register pointer. A write sets
/// the pointer to its first byte and stores the remaining bytes from there on,
/// moving the pointer after each; a read returns bytes from the pointer on.
/// This is what `write_bytes` does to the registers.
pub open spec fn write_bytes(regs: Seq<u8>, bytes: Seq<u8>) -> Seq<u8> {
    if bytes.len() == 0 {
        regs
    } else {
        Seq::new(
            regs.len(),
            |k: int|
                {
                    let off = (k - bytes[0] as int) % 256;
                    if off + 1 < bytes.len() {
                        bytes[off + 1]
                    } else {
                        regs[k]
                    }
                },
        )
    }
}

/// `len` register values from `reg` on, wrapping at 256.
pub open spec fn read_at(regs: Seq<u8>, reg: int, len: nat) -> Seq<u8> {
    Seq::new(len, |i: int| regs[(reg + i) % 256])
}

/// The registers of a register device after step `op` succeeded.
pub open spec fn apply_op(regs: Seq<u8>, op: Op) -> Seq<u8> {
    match op {
        Op::Write { bytes, .. } => write_bytes(regs, bytes),
        Op::WriteRead { bytes, .. } => write_bytes(regs, bytes),
        Op::Update { reg, mask, value, .. } => regs.update(
            reg as int,
            merged(regs[reg as int], mask, value),
        ),
        _ => regs,
    }
}

/// The bytes step `op` reads back from a register device (a bare read starts
/// at register 0, the pointer of a fresh transaction).
pub open spec fn op_reads(regs: Seq<u8>, op: Op) -> Seq<u8> {
    match op {
        Op::WriteRead { bytes, len, .. } => if bytes.len() == 0 {
            read_at(regs, 0, len)
        } else {
            read_at(write_bytes(regs, bytes), bytes[0] + bytes.len() - 1, len)
        },
        Op::Read { len, .. } => read_at(regs, 0, len),
        _ => Seq::empty(),
    }
}

/// The registers of a register device after every step of `ops` succeeded.
pub open spec fn apply_ops(regs: Seq<u8>, ops: Seq<Op>) -> Seq<u8>
    decreases ops.len(),
{
    if ops.len() == 0 {
        regs
    } else {
        apply_ops(apply_op(regs, ops[0]), ops.drop_first())
    }
}

/// The bytes a plan reads back, in order, when every step succeeds.
pub open spec fn plan_reads(regs: Seq<u8>, ops: Seq<Op>) -> Seq<u8>
    decreases ops.len(),
{
    if ops.len() == 0 {
        Seq::empty()
    } else {
        op_reads(regs, ops[0]) + plan_reads(apply_op(regs, ops[0]), ops.drop_first())
    }
}

/// Writing `[reg, val]` stores `val` in `reg` and nothing else.
pub proof fn lemma_write_reg(regs: Seq<u8>, reg: u8, val: u8)
    requires
        regs.len() == 256,
    ensures
        write_bytes(regs, seq![reg, val]) == regs.update(reg as int, val),
{
    assert(write_bytes(regs, seq![reg, val]) =~= regs.update(reg as int, val));
}

/// Writing only a register number changes no register.
pub proof fn lemma_write_pointer(regs: Seq<u8>, reg: u8)
    ensures
        write_bytes(regs, seq![reg]) == regs,
{
    assert(write_bytes(regs, seq![reg]) =~= regs);
}

/// A one-byte read of register `reg` returns its value and changes nothing.
pub proof fn lemma_reg_read(regs: Seq<u8>, addr: u8, reg: u8)
    requires
        regs.len() == 256,
    ensures
        apply_op(regs, reg_read(addr, reg, 1)) == regs,
        op_reads(regs, reg_read(addr, reg, 1)) == seq![regs[reg as int]],
{
    lemma_write_pointer(regs, reg);
    assert(op_reads(regs, reg_read(addr, reg, 1)) =~= seq![regs[reg as int]]);
}

/// Steps run one after the other: the plan `a + b` leaves what `b` leaves
/// after `a`, and reads what `a` reads, then what `b` reads.
pub proof fn lemma_apply_concat(regs: Seq<u8>, a: Seq<Op>, b: Seq<Op>)
    ensures
        apply_ops(regs, a + b) == apply_ops(apply_ops(regs, a), b),
        plan_reads(regs, a + b) == plan_reads(regs, a) + plan_reads(apply_ops(regs, a), b),
    decreases a.len(),
{
    if a.len() == 0 {
        assert(a + b =~= b);
        assert(plan_reads(regs, a) + plan_reads(regs, b) =~= plan_reads(regs, b));
    } else {
        assert((a + b).drop_first() =~= a.drop_first() + b);
        assert((a + b)[0] == a[0]);
        lemma_apply_concat(apply_op(regs, a[0]), a.drop_first(), b);
        let r1 = apply_op(regs, a[0]);
        assert(op_reads(regs, a[0]) + (plan_reads(r1, a.drop_first()) + plan_reads(
            apply_ops(r1, a.drop_first()),
            b,
        )) =~= (op_reads(regs, a[0]) + plan_reads(r1, a.drop_first())) + plan_reads(
            apply_ops(r1, a.drop_first()),
            b,
        ));
    }
}

/// A one-step plan does what its step does.
pub proof fn lemma_apply_single(regs: Seq<u8>, op: Op)
    ensures
        apply_ops(regs, seq![op]) == apply_op(regs, op),
        plan_reads(regs, seq![op]) == op_reads(regs, op),
{
    let e = Seq::<Op>::empty();
    assert(seq![op].drop_first() =~= e);
    assert(apply_ops(apply_op(regs, op), e) == apply_op(regs, op));
    assert(plan_reads(apply_op(regs, op), e) == Seq::<u8>::empty());
    assert(apply_ops(regs, seq![op]) == apply_ops(apply_op(regs, op), e));
    assert(plan_reads(regs, seq![op]) == op_reads(regs, op) + plan_reads(apply_op(regs, op), e));
    assert(op_reads(regs, op) + Seq::<u8>::empty() =~= op_reads(regs, op));
}

/// Whether step `op` only reads: a bare read, or a read after writing just a
/// register number.
pub open spec fn only_reads(op: Op) -> bool {
    match op {
        Op::Read { .. } => true,
        Op::WriteRead { bytes, .. } => bytes.len() <= 1,
        _ => false,
    }
}

/// A plan whose steps only read changes no register of a register device.
pub proof fn lemma_reads_change_nothing(regs: Seq<u8>, ops: Seq<Op>)
    requires
        forall|i: int| 0 <= i < ops.len() ==> only_reads(#[trigger] ops[i]),
    ensures
        apply_ops(regs, ops) == regs,
    decreases ops.len(),
{
    if ops.len() > 0 {
        assert(only_reads(ops[0]));
        if let Op::WriteRead { bytes, .. } = ops[0] {
            if bytes.len() == 1 {
                lemma_write_pointer(regs, bytes[0]);
                assert(bytes =~= seq![bytes[0]]);
            }
        }
        assert(apply_op(regs, ops[0]) == regs);
        assert forall|i: int| 0 <= i < ops.drop_first().len() implies only_reads(
            #[trigger] ops.drop_first()[i],
        ) by {
            assert(ops.drop_first()[i] == ops[i + 1]);
        }
        lemma_reads_change_nothing(regs, ops.drop_first());
    }
}

/// The index of the first step at or after `i` that is not a `Resume`.
pub open spec fn skip_resumes(ops: Seq<Op>, i: int) -> int
    decreases ops.len() - i,
{
    if 0 <= i < ops.len() && ops[i] is Resume {
        skip_resumes(ops, i + 1)
    } else {
        i
    }
}

/// The index of the first `Resume` at or after `i`, or the length of the plan.
pub open spec fn next_resume(ops: Seq<Op>, i: int) -> int
    decreases ops.len() - i,
{
    if i >= ops.len() {
        ops.len() as int
    } else if ops[i] is Resume {
        i
    } else {
        next_resume(ops, i + 1)
    }
}

/// Where a plan goes on after the step at `i` failed: the first step of the
/// next group, or the end.
pub open spec fn after_failure(ops: Seq<Op>, i: int) -> int {
    skip_resumes(ops, next_resume(ops, i + 1))
}

/// The transfer a [`Runner`] asks for next.
pub enum Action {
    Write { addr: u8, bytes: Vec<u8> },
    WriteRead { addr: u8, bytes: Vec<u8>, len: usize },
    Read { addr: u8, len: usize },
    DelayMs { ms: u32 },
    /// The plan is finished.
    Done,
}

/// The mathematical view of an [`Action`].
pub enum ActionView {
    Write { addr: u8, bytes: Seq<u8> },
    WriteRead { addr: u8, bytes: Seq<u8>, len: nat },
    Read { addr: u8, len: nat },
    DelayMs { ms: u32 },
    Done,
}

impl View for Action {
    type V = ActionView;

    open spec fn view(&self) -> ActionView {
        match self {
            Action::Write { addr, bytes } => ActionView::Write { addr: *addr, bytes: bytes@ },
            Action::WriteRead { addr, bytes, len } => ActionView::WriteRead {
                addr: *addr,
                bytes: bytes@,
                len: *len as nat,
            },
            Action::Read { addr, len } => ActionView::Read { addr: *addr, len: *len as nat },
            Action::DelayMs { ms } => ActionView::DelayMs { ms: *ms },
            Action::Done => ActionView::Done,
        }
    }
}

/// The transfer that performs step `op`; `held` is the register value read
/// by the first half of an `Update`.
pub open spec fn action_of(op: Op, held: Option<u8>) -> ActionView {
    match op {
        Op::Write { addr, bytes } => ActionView::Write { addr, bytes },
        Op::WriteRead { addr, bytes, len } => ActionView::WriteRead { addr, bytes, len },
        Op::Read { addr, len } => ActionView::Read { addr, len },
        Op::Update { addr, reg, mask, value } => match held {
            None => ActionView::WriteRead { addr, bytes: seq![reg], len: 1 },
            Some(old) => ActionView::Write { addr, bytes: seq![reg, merged(old, mask, value)] },
        },
        Op::DelayMs { ms } => ActionView::DelayMs { ms },
        Op::Resume => ActionView::Done,
    }
}

/// How many bytes a transfer reads back.
pub open spec fn read_len(a: ActionView) -> nat {
    match a {
        ActionView::WriteRead { len, .. } => len,
        ActionView::Read { len, .. } => len,
        _ => 0,
    }
}

/// How many bytes step `op` adds to a plan's reads (the read inside an
/// `Update` is not one of them).
pub open spec fn op_read_len(op: Op) -> nat {
    match op {
        Op::WriteRead { len, .. } => len,
        Op::Read { len, .. } => len,
        _ => 0,
    }
}

/// How many bytes the steps `ops` add to a plan's reads.
pub open spec fn ops_read_len(ops: Seq<Op>) -> nat
    decreases ops.len(),
{
    if ops.len() == 0 {
        0
    } else {
        ops_read_len(ops.drop_last()) + op_read_len(ops.last())
    }
}

/// `Resume` steps read nothing: the steps before `i` read as much as the
/// steps before the next non-`Resume` step.
proof fn lemma_resumes_read_nothing(ops: Seq<Op>, i: int)
    requires
        0 <= i <= ops.len(),
    ensures
        ops_read_len(ops.subrange(0, skip_resumes(ops, i))) == ops_read_len(ops.subrange(0, i)),
    decreases ops.len() - i,
{
    if i < ops.len() && ops[i] is Resume {
        assert(ops.subrange(0, i + 1).drop_last() =~= ops.subrange(0, i));
        lemma_resumes_read_nothing(ops, i + 1);
    }
}

/// Steps through a plan of [`BusOp`]s: names each transfer, takes its outcome
/// and decides what comes next. A failed step skips the rest of its group; the
/// first error is the one reported, and the bytes of every successful read
/// (other than the reads inside an `Update`) are collected in order.
pub struct Runner<E> {
    plan: Vec<BusOp>,
    pos: usize,
    held: Option<u8>,
    error: Option<E>,
    reads: Vec<u8>,
}

impl<E> Runner<E> {
    pub closed spec fn ops(&self) -> Seq<Op> {
        ops_of(self.plan@)
    }

    pub closed spec fn pos(&self) -> int {
        self.pos as int
    }

    pub closed spec fn held(&self) -> Option<u8> {
        self.held
    }

    pub closed spec fn error(&self) -> Option<E> {
        self.error
    }

    pub closed spec fn reads(&self) -> Seq<u8> {
        self.reads@
    }

    pub open spec fn wf(&self) -> bool {
        &&& 0 <= self.pos() <= self.ops().len()
        &&& self.pos() < self.ops().len() ==> !(self.ops()[self.pos()] is Resume)
        &&& self.held() is Some ==> self.pos() < self.ops().len() && self.ops()[self.pos()] is Update
        // While nothing has failed, the reads so far are as long as the
        // steps before the present one read.
        &&& self.error() is None ==> self.reads().len() == ops_read_len(
            self.ops().subrange(0, self.pos()),
        )
    }

    /// The transfer due next.
    pub open spec fn next_action(&self) -> ActionView {
        if self.pos() < self.ops().len() {
            action_of(self.ops()[self.pos()], self.held())
        } else {
            ActionView::Done
        }
    }

    /// `next` is this runner after the transfer due next succeeded and read
    /// `data`: the first half of an `Update` keeps the register value it read;
    /// any other step moves on to the next step that is not a `Resume`, with
    /// `data` added to the reads.
    pub open spec fn advanced_by(&self, next: Self, data: Seq<u8>) -> bool {
        if self.ops()[self.pos()] is Update && self.held() is None {
            &&& next.held() == Some(data[0])
            &&& next.pos() == self.pos()
            &&& next.reads() == self.reads()
            &&& next.error() == self.error()
        } else {
            &&& next.held() is None
            &&& next.pos() == skip_resumes(self.ops(), self.pos() + 1)
            &&& next.reads() == self.reads() + data
            &&& next.error() == self.error()
        }
    }

    /// The steps not yet done.
    pub open spec fn rest(&self) -> Seq<Op> {
        self.ops().subrange(self.pos(), self.ops().len() as int)
    }

    /// This runner is partway through its plan on a register device that held
    /// `start` when the plan began and holds `regs` now: no transfer has failed,
    /// a half-done `Update` holds the register's present value, and the steps
    /// left, done on `regs`, finish what the whole plan does on `start`.
    pub open spec fn on_device(&self, start: Seq<u8>, regs: Seq<u8>) -> bool {
        &&& self.wf()
        &&& self.error() is None
        &&& start.len() == 256
        &&& regs.len() == 256
        &&& (self.held() matches Some(h) ==> (self.ops()[self.pos()] matches Op::Update { reg, .. }
            && h == regs[reg as int]))
        &&& apply_ops(start, self.ops()) == apply_ops(regs, self.rest())
        &&& plan_reads(start, self.ops()) == self.reads() + plan_reads(regs, self.rest())
    }
}

/// What a register device does with transfer `a`: its registers afterwards,
/// and the bytes it answers.
pub open spec fn device_answer(regs: Seq<u8>, a: ActionView) -> (Seq<u8>, Seq<u8>) {
    match a {
        ActionView::Write { bytes, .. } => (write_bytes(regs, bytes), Seq::empty()),
        ActionView::WriteRead { addr, bytes, len } => (
            write_bytes(regs, bytes),
            op_reads(regs, Op::WriteRead { addr, bytes, len }),
        ),
        ActionView::Read { len, .. } => (regs, read_at(regs, 0, len)),
        _ => (regs, Seq::empty()),
    }
}

/// `Resume` steps do nothing on a register device: the steps from `i` on do
/// what the steps from the next non-`Resume` step on do.
pub proof fn lemma_resumes_do_nothing(regs: Seq<u8>, ops: Seq<Op>, i: int)
    requires
        0 <= i <= ops.len(),
    ensures
        apply_ops(regs, ops.subrange(i, ops.len() as int)) == apply_ops(
            regs,
            ops.subrange(skip_resumes(ops, i), ops.len() as int),
        ),
        plan_reads(regs, ops.subrange(i, ops.len() as int)) == plan_reads(
            regs,
            ops.subrange(skip_resumes(ops, i), ops.len() as int),
        ),
    decreases ops.len() - i,
{
    if i < ops.len() && ops[i] is Resume {
        let s = ops.subrange(i, ops.len() as int);
        assert(s.drop_first() =~= ops.subrange(i + 1, ops.len() as int));
        assert(s[0] == ops[i]);
        assert(Seq::<u8>::empty() + plan_reads(regs, s.drop_first()) =~= plan_reads(
            regs,
            s.drop_first(),
        ));
        lemma_resumes_do_nothing(regs, ops, i + 1);
    }
}

/// The steps from `i` on do step `i`, then the steps after it.
proof fn lemma_rest_unfold(regs: Seq<u8>, ops: Seq<Op>, i: int)
    requires
        0 <= i < ops.len(),
    ensures
        apply_ops(regs, ops.subrange(i, ops.len() as int)) == apply_ops(
            apply_op(regs, ops[i]),
            ops.subrange(i + 1, ops.len() as int),
        ),
        plan_reads(regs, ops.subrange(i, ops.len() as int)) == op_reads(regs, ops[i]) + plan_reads(
            apply_op(regs, ops[i]),
            ops.subrange(i + 1, ops.len() as int),
        ),
{
    let s = ops.subrange(i, ops.len() as int);
    assert(s.drop_first() =~= ops.subrange(i + 1, ops.len() as int));
    assert(s[0] == ops[i]);
}

impl<E> Runner<E> {
    /// A fresh runner on a register device holding `start` is at the start of
    /// its plan there.
    pub proof fn lemma_device_start(&self, start: Seq<u8>)
        requires
            self.wf(),
            start.len() == 256,
            self.pos() == skip_resumes(self.ops(), 0),
            self.held() is None,
            self.error() is None,
            self.reads() == Seq::<u8>::empty(),
        ensures
            self.on_device(start, start),
    {
        let ops = self.ops();
        assert(ops.subrange(0, ops.len() as int) =~= ops);
        lemma_resumes_do_nothing(start, ops, 0);
        assert(self.reads() + plan_reads(start, self.rest()) =~= plan_reads(start, self.rest()));
    }

    /// Each transfer a register device answers keeps the runner on course: after
    /// the device answers the transfer due next, the advanced runner is partway
    /// through the plan on the device's new registers.
    pub proof fn lemma_device_step(&self, next: Self, start: Seq<u8>, regs: Seq<u8>)
        requires
            self.on_device(start, regs),
            self.pos() < self.ops().len(),
            next.wf(),
            next.ops() == self.ops(),
            self.advanced_by(next, device_answer(regs, self.next_action()).1),
        ensures
            next.on_device(start, device_answer(regs, self.next_action()).0),
    {
        let ops = self.ops();
        let pos = self.pos();
        let op = ops[pos];
        let (regs2, data) = device_answer(regs, self.next_action());
        match op {
            Op::Update { addr, reg, mask, value } => {
                if self.held() is None {
                    lemma_write_pointer(regs, reg);
                    assert(data =~= seq![regs[reg as int]]);
                    assert(regs2 == regs);
                } else {
                    lemma_write_reg(regs, reg, merged(regs[reg as int], mask, value));
                    assert(regs2 == apply_op(regs, op));
                    assert(data == op_reads(regs, op));
                }
            },
            Op::Resume => {},
            _ => {
                assert(regs2 == apply_op(regs, op));
                assert(data == op_reads(regs, op));
            },
        }
        if !(op is Update && self.held() is None) {
            lemma_rest_unfold(regs, ops, pos);
            lemma_skip_resumes(ops, pos + 1);
            lemma_resumes_do_nothing(regs2, ops, pos + 1);
            assert(self.reads() + (data + plan_reads(regs2, ops.subrange(pos + 1, ops.len() as int)))
                =~= (self.reads() + data) + plan_reads(regs2, ops.subrange(pos + 1, ops.len() as int)));
        }
    }

    /// A runner that finished its plan on a register device holding `start`
    /// has left the registers and read the bytes the plan's steps give.
    pub proof fn lemma_device_done(&self, start: Seq<u8>, regs: Seq<u8>)
        requires
            self.on_device(start, regs),
            self.pos() >= self.ops().len(),
        ensures
            regs == apply_ops(start, self.ops()),
            self.reads() == plan_reads(start, self.ops()),
    {
        assert(self.rest() =~= Seq::<Op>::empty());
        assert(self.reads() + Seq::<u8>::empty() =~= self.reads());
    }
}


fn is_resume(op: &BusOp) -> (r: bool)
    ensures
        r == (op@ is Resume),
{
    match op {
        BusOp::Resume => true,
        _ => false,
    }
}

/// [`skip_resumes`] stops at a step that is not a `Resume`, or at the end.
pub proof fn lemma_skip_resumes(ops: Seq<Op>, i: int)
    requires
        0 <= i <= ops.len(),
    ensures
        i <= skip_resumes(ops, i) <= ops.len(),
        skip_resumes(ops, i) < ops.len() ==> !(ops[skip_resumes(ops, i)] is Resume),
    decreases ops.len() - i,
{
    if i < ops.len() && ops[i] is Resume {
        lemma_skip_resumes(ops, i + 1);
    }
}

/// [`next_resume`] stops at a `Resume`, or at the end.
pub proof fn lemma_next_resume(ops: Seq<Op>, i: int)
    requires
        0 <= i <= ops.len(),
    ensures
        i <= next_resume(ops, i) <= ops.len(),
        next_resume(ops, i) < ops.len() ==> ops[next_resume(ops, i)] is Resume,
        forall|k: int| i <= k < next_resume(ops, i) ==> !(#[trigger] ops[k] is Resume),
    decreases ops.len() - i,
{
    if i < ops.len() && !(ops[i] is Resume) {
        lemma_next_resume(ops, i + 1);
    }
}

/// Exec form of [`skip_resumes`].
fn skip_resumes_exec(plan: &Vec<BusOp>, i: usize) -> (r: usize)
    requires
        i <= plan.len(),
    ensures
        r as int == skip_resumes(ops_of(plan@), i as int),
        i <= r <= plan.len(),
{
    let ghost ops = ops_of(plan@);
    let mut j = i;
    while j < plan.len() && is_resume(&plan[j])
        invariant
            i <= j <= plan.len(),
            ops == ops_of(plan@),
            skip_resumes(ops, i as int) == skip_resumes(ops, j as int),
        decreases plan.len() - j,
    {
        j = j + 1;
    }
    j
}

/// Exec form of [`after_failure`].
fn after_failure_exec(plan: &Vec<BusOp>, i: usize) -> (r: usize)
    requires
        i < plan.len(),
    ensures
        r as int == after_failure(ops_of(plan@), i as int),
        i < r <= plan.len(),
{
    let ghost ops = ops_of(plan@);
    let mut j = i + 1;
    while j < plan.len() && !is_resume(&plan[j])
        invariant
            i < j <= plan.len(),
            ops == ops_of(plan@),
            next_resume(ops, i + 1) == next_resume(ops, j as int),
        decreases plan.len() - j,
    {
        j = j + 1;
    }
    skip_resumes_exec(plan, j)
}

fn clone_bytes(v: &Vec<u8>) -> (r: Vec<u8>)
    ensures
        r@ == v@,
{
    let mut r: Vec<u8> = Vec::new();
    let mut i: usize = 0;
    while i < v.len()
        invariant
            i <= v.len(),
            r@ == v@.subrange(0, i as int),
        decreases v.len() - i,
    {
        r.push(v[i]);
        i = i + 1;
        assert(r@ =~= v@.subrange(0, i as int));
    }
    assert(v@.subrange(0, v.len() as int) =~= v@);
    r
}

fn append_bytes(dst: &mut Vec<u8>, src: &Vec<u8>)
    ensures
        final(dst)@ == old(dst)@ + src@,
{
    let mut i: usize = 0;
    while i < src.len()
        invariant
            i <= src.len(),
            dst@ == old(dst)@ + src@.subrange(0, i as int),
        decreases src.len() - i,
    {
        dst.push(src[i]);
        i = i + 1;
        assert(dst@ =~= old(dst)@ + src@.subrange(0, i as int));
    }
    assert(src@.subrange(0, src.len() as int) =~= src@);
}

impl<E> Runner<E> {
    /// A runner at the start of `plan`.
    pub fn new(plan: Vec<BusOp>) -> (r: Runner<E>)
        ensures
            r.wf(),
            r.ops() == ops_of(plan@),
            r.pos() == skip_resumes(ops_of(plan@), 0),
            r.held() is None,
            r.error() is None,
            r.reads() == Seq::<u8>::empty(),
    {
        let pos = skip_resumes_exec(&plan, 0);
        proof {
            lemma_skip_resumes(ops_of(plan@), 0);
            lemma_resumes_read_nothing(ops_of(plan@), 0);
            assert(ops_of(plan@).subrange(0, 0) =~= Seq::<Op>::empty());
        }
        Runner { plan, pos, held: None, error: None, reads: Vec::new() }
    }

    /// Whether the plan is finished.
    pub fn is_done(&self) -> (r: bool)
        requires
            self.wf(),
        ensures
            r == (self.pos() >= self.ops().len()),
    {
        self.pos >= self.plan.len()
    }

    /// The transfer due next, or `Done`.
    pub fn action(&self) -> (r: Action)
        requires
            self.wf(),
        ensures
            r@ == self.next_action(),
    {
        if self.pos >= self.plan.len() {
            return Action::Done;
        }
        match &self.plan[self.pos] {
            BusOp::Write { addr, bytes } => Action::Write { addr: *addr, bytes: clone_bytes(bytes) },
            BusOp::WriteRead { addr, bytes, len } => Action::WriteRead {
                addr: *addr,
                bytes: clone_bytes(bytes),
                len: *len,
            },
            BusOp::Read { addr, len } => Action::Read { addr: *addr, len: *len },
            BusOp::Update { addr, reg, mask, value } => match self.held {
                None => {
                    let bytes = vec![*reg];
                    assert(bytes@ =~= seq![*reg]);
                    Action::WriteRead { addr: *addr, bytes, len: 1 }
                },
                Some(old) => {
                    let bytes = vec![*reg, merge_bits(old, *mask, *value)];
                    assert(bytes@ =~= seq![*reg, merged(old, *mask, *value)]);
                    Action::Write { addr: *addr, bytes }
                },
            },
            BusOp::DelayMs { ms } => Action::DelayMs { ms: *ms },
            BusOp::Resume => Action::Done,
        }
    }

    /// Takes the outcome of the transfer named by [`Runner::action`]: the bytes
    /// it read (none for a write or a wait), or the bus error.
    pub fn advance(&mut self, outcome: Result<Vec<u8>, E>)
        requires
            old(self).wf(),
            old(self).pos() < old(self).ops().len(),
            outcome matches Ok(data) ==> data@.len() == read_len(old(self).next_action()),
        ensures
            final(self).wf(),
            final(self).ops() == old(self).ops(),
            match outcome {
                Ok(data) => old(self).advanced_by(*final(self), data@),
                Err(e) => {
                    &&& final(self).held() is None
                    &&& final(self).pos() == after_failure(old(self).ops(), old(self).pos())
                    &&& final(self).reads() == old(self).reads()
                    &&& final(self).error() == (match old(self).error() {
                        None => Some(e),
                        Some(first) => Some(first),
                    })
                },
            },
    {
        let ghost ops = ops_of(self.plan@);
        assert(ops.len() == self.plan.len());
        match outcome {
            Ok(data) => {
                let is_update = match &self.plan[self.pos] {
                    BusOp::Update { .. } => true,
                    _ => false,
                };
                if is_update && self.held.is_none() {
                    self.held = Some(data[0]);
                } else {
                    self.held = None;
                    append_bytes(&mut self.reads, &data);
                    proof {
                        lemma_skip_resumes(ops, self.pos + 1);
                        lemma_resumes_read_nothing(ops, self.pos + 1);
                        assert(ops.subrange(0, self.pos + 1).drop_last() =~= ops.subrange(
                            0,
                            self.pos as int,
                        ));
                    }
                    self.pos = skip_resumes_exec(&self.plan, self.pos + 1);
                }
            },
            Err(e) => {
                self.held = None;
                proof {
                    lemma_next_resume(ops, self.pos + 1);
                    lemma_skip_resumes(ops, next_resume(ops, self.pos + 1));
                }
                self.pos = after_failure_exec(&self.plan, self.pos);
                if self.error.is_none() {
                    self.error = Some(e);
                }
            },
        }
    }

    /// The first error, or the bytes of every read in order.
    pub fn finish(self) -> (r: Result<Vec<u8>, E>)
        ensures
            // A finished plan with no failure read exactly as many bytes as
            // its steps read.
            self.wf() && self.pos() >= self.ops().len() ==> (r matches Ok(v) ==> v@.len()
                == ops_read_len(self.ops())),
            match self.error() {
                Some(e) => r == Err::<Vec<u8>, E>(e),
                None => r matches Ok(v) && v@ == self.reads(),
            },
    {
        proof {
            assert(self.ops().subrange(0, self.ops().len() as int) =~= self.ops());
        }
        match self.error {
            Some(e) => Err(e),
            None => Ok(self.reads),
        }
    }
}

} // verus!
