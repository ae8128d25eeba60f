use litebox::snp::{
    current_pgd, page_fault_handler, parse_args, sandbox_kernel_init, sandbox_process_init, FaultEnd,
    InitPhase, InitReply, TermReason,
};
use litebox::time::{Duration, TscInstant};

#[test]
fn arguments_of_a_program() {
    let block = b"/bin/ls\0-l\0\0PATH=/bin\0HOME=/\0";
    let args = parse_args(block, 12, 17).unwrap();
    assert_eq!(args.program, "/bin/ls");
    assert_eq!(args.argv, vec![b"/bin/ls".to_vec(), b"-l".to_vec(), b"".to_vec()]);
    assert_eq!(args.envp, vec![b"PATH=/bin".to_vec(), b"HOME=/".to_vec()]);
    // The strings, each with its zero, are the block again.
    let mut rebuilt: Vec<u8> = Vec::new();
    for s in args.argv.iter().chain(args.envp.iter()) {
        rebuilt.extend_from_slice(s);
        rebuilt.push(0);
    }
    assert_eq!(rebuilt, block);
}

#[test]
fn arguments_that_make_no_sense() {
    // No argument at all.
    assert!(parse_args(b"A=1\0", 0, 4).is_none());
    // A string without an end.
    assert!(parse_args(b"/bin/ls", 7, 0).is_none());
    // A program that is no text.
    assert!(parse_args(b"\xff\0", 2, 0).is_none());
    // A length that is not one.
    assert!(parse_args(b"/bin/ls\0", -1, 0).is_none());
    let (phase, args) = sandbox_process_init(b"", 1, 0);
    assert!(matches!(phase, InitPhase::Terminate(TermReason::InvalidParam)));
    assert!(args.is_none());
}

#[test]
fn programs_run_after_all_steps() {
    let start = || sandbox_process_init(b"/a\0", 3, 0).0;
    assert!(matches!(start(), InitPhase::MakeTmp));
    let made = start().advance(InitReply::AlreadyExists);
    assert!(matches!(made, InitPhase::OpenTmp));
    let p = made
        .advance(InitReply::Failed)
        .advance(InitReply::Worked)
        .advance(InitReply::Worked)
        .advance(InitReply::Worked);
    assert!(matches!(p, InitPhase::Run));
    let p = start().advance(InitReply::Failed).advance(InitReply::Failed);
    assert!(matches!(p, InitPhase::Terminate(TermReason::General)));
    let p = start()
        .advance(InitReply::Worked)
        .advance(InitReply::Worked)
        .advance(InitReply::Worked)
        .advance(InitReply::Failed);
    assert!(matches!(p, InitPhase::Terminate(TermReason::General)));
}

#[test]
fn the_kernel_of_the_runner() {
    assert_eq!(sandbox_kernel_init(true, 2_500_999), Ok(2500));
    assert_eq!(sandbox_kernel_init(false, 2_500_000), Err(TermReason::NoGhcb));
    assert_eq!(current_pgd(0x1234_5018), 0x1234_5000);
    let max = 0x8000_0000_0000;
    assert_eq!(page_fault_handler(Some(true), 0, max, None), FaultEnd::Continue);
    assert_eq!(page_fault_handler(Some(false), max, max, Some(9)), FaultEnd::Fixup(9));
    let end = FaultEnd::Terminate(TermReason::Exception);
    assert_eq!(page_fault_handler(Some(false), max - 1, max, Some(9)), end);
    assert_eq!(page_fault_handler(Some(false), max, max, None), end);
    assert_eq!(page_fault_handler(None, max, max, Some(9)), end);
}

#[test]
fn durations() {
    assert_eq!(Duration::from_millis(1500), Duration { secs: 1, nanos: 500_000_000 });
    assert_eq!(Duration::from_micros(1_000_001), Duration { secs: 1, nanos: 1000 });
    assert_eq!(Duration::from_nanos(u64::MAX), Duration { secs: 18_446_744_073, nanos: 709_551_615 });
    assert!(Duration::zero().is_zero() && !Duration::from_nanos(1).is_zero());
    assert_eq!(Duration { secs: u64::MAX, nanos: 999 }.as_micros(), 18_446_744_073_709_551_615_000_000);
    let a = Duration { secs: 5, nanos: 100 };
    assert_eq!(a.checked_sub(Duration { secs: 1, nanos: 200 }), Some(Duration { secs: 3, nanos: 999_999_900 }));
    assert_eq!(a.checked_sub(Duration { secs: 5, nanos: 101 }), None);
    assert_eq!(a.checked_sub(a), Some(Duration::zero()));
    assert_eq!(a.checked_sub(Duration::from_secs(6)), None);
}

#[test]
fn cycles() {
    let start = TscInstant { tsc: 1_000_000 };
    let later = start.checked_add(Duration { secs: 0, nanos: 10_999 }, 2500).unwrap();
    assert_eq!(later.tsc, 1_025_000);
    assert_eq!(
        later.checked_duration_since(&start, 2500),
        Some(Duration { secs: 0, nanos: 10_000 })
    );
    assert_eq!(start.checked_duration_since(&later, 2500), None);
    assert_eq!(start.checked_add(Duration::from_secs(u64::MAX), 1), None);
    assert_eq!(start.checked_add(Duration::from_secs(1 << 40), 1 << 40), None);
    assert_eq!(TscInstant { tsc: u64::MAX }.checked_add(Duration::from_micros(1), 1), None);
}
