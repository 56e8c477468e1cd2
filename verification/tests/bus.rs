use fsw_lib::bus::{merge_bits, read_reg, update_reg, write_reg, Action, BusOp, Runner};

#[test]
fn merge_replaces_only_the_masked_bits() {
    assert_eq!(merge_bits(0b1010_1010, 0b0000_1111, 0b0101_0101), 0b1010_0101);
    assert_eq!(merge_bits(0xFF, 0x80, 0x00), 0x7F);
    assert_eq!(merge_bits(0x00, 0x00, 0xFF), 0x00);
}

#[test]
fn an_update_reads_then_writes_the_merged_value() {
    let mut runner: Runner<&str> = Runner::new(vec![update_reg(0x60, 0x08, 0x03, 0x01)]);
    match runner.action() {
        Action::WriteRead { addr, bytes, len } => assert_eq!((addr, bytes, len), (0x60, vec![0x08], 1)),
        _ => panic!("expected the read half of the update"),
    }
    runner.advance(Ok(vec![0xAA]));
    match runner.action() {
        Action::Write { addr, bytes } => assert_eq!((addr, bytes), (0x60, vec![0x08, 0xA9])),
        _ => panic!("expected the write half of the update"),
    }
    runner.advance(Ok(vec![]));
    assert!(runner.is_done());
    // The update's own read is not one of the plan's reads.
    assert_eq!(runner.finish(), Ok(vec![]));
}

#[test]
fn a_failure_skips_to_the_next_group_and_the_first_error_is_kept() {
    let plan = vec![
        write_reg(0x30, 0x01, 0x11),
        write_reg(0x30, 0x02, 0x22),
        BusOp::Resume,
        BusOp::Resume,
        read_reg(0x30, 0x03, 2),
        BusOp::Resume,
        write_reg(0x30, 0x04, 0x44),
    ];
    let mut runner: Runner<&str> = Runner::new(plan);
    let mut seen = Vec::new();
    loop {
        let action = runner.action();
        let outcome = match &action {
            Action::Done => break,
            Action::Write { bytes, .. } if bytes[0] == 0x01 => Err("first"),
            Action::WriteRead { .. } => Err("second"),
            Action::Write { .. } => Ok(vec![]),
            _ => panic!("unexpected transfer"),
        };
        seen.push(action_reg(&action));
        runner.advance(outcome);
    }
    // 0x02 is skipped with the rest of the first group; every other group runs.
    assert_eq!(seen, vec![0x01, 0x03, 0x04]);
    assert_eq!(runner.finish(), Err("first"));
}

#[test]
fn reads_are_collected_in_order() {
    let plan = vec![read_reg(0x68, 0x00, 2), BusOp::DelayMs { ms: 5 }, BusOp::Read { addr: 0x36, len: 1 }];
    let mut runner: Runner<()> = Runner::new(plan);
    runner.advance(Ok(vec![1, 2]));
    assert!(matches!(runner.action(), Action::DelayMs { ms: 5 }));
    runner.advance(Ok(vec![]));
    assert!(matches!(runner.action(), Action::Read { addr: 0x36, len: 1 }));
    runner.advance(Ok(vec![3]));
    assert!(matches!(runner.action(), Action::Done));
    assert_eq!(runner.finish(), Ok(vec![1, 2, 3]));
}

#[test]
fn a_plan_of_only_resumes_is_done_at_once() {
    let runner: Runner<()> = Runner::new(vec![BusOp::Resume, BusOp::Resume]);
    assert!(runner.is_done());
    assert_eq!(runner.finish(), Ok(vec![]));
}

fn action_reg(a: &Action) -> u8 {
    match a {
        Action::Write { bytes, .. } | Action::WriteRead { bytes, .. } => bytes[0],
        _ => 0,
    }
}
