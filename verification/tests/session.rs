use dairi::session::OutputSession;

#[test]
fn output_collects_reads_in_arrival_order() {
    let mut session = OutputSession::new(2);
    session.on_read(b"out-1 ", 100);
    session.on_read(b"err-1 ", 101);
    session.on_read(b"out-2", 103);
    let out = session.into_output();
    assert_eq!(out, b"out-1 err-1 out-2".to_vec());
}

#[test]
fn tick_before_any_read_never_finishes() {
    let session = OutputSession::new(0);
    assert!(!session.on_tick(0));
    assert!(!session.on_tick(1_000_000));
}

#[test]
fn tick_finishes_exactly_after_quiet_period() {
    let mut session = OutputSession::new(2);
    session.on_read(b"x", 100);
    assert!(!session.on_tick(100));
    assert!(!session.on_tick(101));
    assert!(session.on_tick(102));
    assert!(session.on_tick(500));
}

#[test]
fn a_read_restarts_the_quiet_clock() {
    let mut session = OutputSession::new(10);
    session.on_read(b"a", 100);
    assert!(!session.on_tick(105));
    session.on_read(b"b", 105);
    assert!(!session.on_tick(110));
    assert!(session.on_tick(115));
    assert_eq!(session.into_output(), b"ab".to_vec());
}

#[test]
fn concurrent_sessions_do_not_share_output() {
    // Two in-flight requests hold their own accumulators: interleaving
    // their events mixes nothing.
    let mut first = OutputSession::new(2);
    let mut second = OutputSession::new(2);
    first.on_read(b"alpha ", 100);
    second.on_read(b"one ", 100);
    first.on_read(b"beta", 101);
    second.on_read(b"two", 102);
    assert_eq!(first.into_output(), b"alpha beta".to_vec());
    assert_eq!(second.into_output(), b"one two".to_vec());
}

#[test]
fn empty_reads_leave_output_empty() {
    let mut session = OutputSession::new(2);
    session.on_read(b"", 100);
    assert!(session.on_tick(102));
    assert_eq!(session.into_output(), Vec::<u8>::new());
}
