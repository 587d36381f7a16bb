use xtr::client::{attempt_reports, next_step, peer_inactive};
use xtr::lite;
use xtr::{
    ClientSettings, ClientState, ConnectOutcome, NextStep, PacketFlags, PacketType, Session,
    SessionState, Timestamp, PROTO_VERSION,
};

#[test]
fn lib_it_works() {
    let result = 2 + 2;
    assert_eq!(result, 4);
}

#[test]
fn ffi_it_works() {
    let result = 2 + 2;
    assert_eq!(result, 4);
}

#[test]
fn timestamps() {
    let t = Timestamp::from(3_723_004_005u64);
    assert_eq!(t.as_micros(), 3_723_004_005);
    assert_eq!(t.as_millis(), 3_723_004);
    assert_eq!(t.as_secs(), 3_723);
    assert_eq!(t.as_nanos(), 3_723_004_005_000);
    assert_eq!(u64::from(t), 3_723_004_005);
    assert_eq!(t.micros_since(&Timestamp::from(5u64)), 3_723_004_000);
    assert_eq!(Timestamp::from(5u64).micros_since(&t), 0);
    assert!(Timestamp::now_realtime().as_secs() > 1_600_000_000);
    assert_eq!(Timestamp::from_clock(2, 3_500).as_micros(), 2_000_003);
    assert_eq!(Timestamp::from_clock(0, 999_999_999).as_micros(), 999_999);
    assert_eq!(
        Timestamp::from_clock(u64::MAX, 0).as_micros(),
        u64::MAX.wrapping_mul(1_000_000)
    );
    assert_eq!((t - Timestamp::from(5u64)).as_micros(), 3_723_004_000);
    assert_eq!((Timestamp::from(5u64) - t).as_micros(), 0);
    assert_eq!(PROTO_VERSION, 0x0001_0001);
}

#[test]
fn stream_masks() {
    let mut s = Session::new();
    assert_eq!(s.stream_mask(), 0x1400_0000);
    assert!(s.test_stream_mask(26));
    assert!(s.test_stream_mask(28));
    assert!(!s.test_stream_mask(2));
    s.set_stream_mask(2);
    assert!(s.test_stream_mask(2));
    s.clear_stream_mask(26);
    assert!(!s.test_stream_mask(26));
    s.set_stream_mask(70);
    assert!(!s.test_stream_mask(70));
    assert_eq!(s.stream_mask(), 0x1000_0004);
    s.apply_mask(28, false);
    s.apply_mask(3, true);
    assert_eq!(s.stream_mask(), 0x0000_000C);
    let _ = SessionState::Connected;
}

#[test]
fn client_decisions() {
    assert_eq!(
        attempt_reports(ConnectOutcome::Connected, false),
        vec![ClientState::Connected, ClientState::Disconnected]
    );
    assert_eq!(attempt_reports(ConnectOutcome::Failed, true), vec![ClientState::TryReconnect]);
    assert_eq!(attempt_reports(ConnectOutcome::Failed, false), vec![ClientState::ConnectError]);
    assert_eq!(
        attempt_reports(ConnectOutcome::TimedOut, false),
        vec![ClientState::ConnectTimeout]
    );
    assert_eq!(next_step(true, 1000), NextStep::Retry(1000));
    assert_eq!(next_step(false, 1000), NextStep::Stop);
    assert!(peer_inactive(3_000_000_001, 3000));
    assert!(!peer_inactive(3_000_000_000, 3000));
    assert!(peer_inactive(1, 0));
    assert!(!peer_inactive(0, 0));
    let s = ClientSettings::new();
    assert_eq!((s.auto_reconnect, s.reconnect_delay_ms, s.timeout_ms), (true, 1000, 3000));
    assert_eq!(ClientState::TryReconnect.code(), 4);
}

#[test]
fn lite_heads() {
    let mut h = lite::PacketHead::new(70_000_000, PacketType::Unknown, PacketFlags::padded(), 0x12345);
    assert_eq!(h.ts, 0);
    h.seq = 3;
    let b = h.to_bytes();
    assert_eq!(b[4], 13);
    assert_eq!(lite::PacketHead::parse(&b), Ok(h));
    assert_eq!(lite::PacketHead::parse(&b[..10]), Err(lite::PacketError::NotEnoughData));
}
