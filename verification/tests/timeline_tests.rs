use rtp_media::timeline::{Timeline, TimelineError};

#[test]
fn timeline_latches_first_timestamp() {
    let mut tl = Timeline::new(90000, None);
    let t = tl.advance_to(1000).unwrap();
    assert_eq!(t.timestamp, 1000);
    assert_eq!(t.clock_rate, 90000);
}

#[test]
fn timeline_matches_reference_accumulator() {
    // the reference computation: latch, then add the 32-bit wraparound
    // distance between consecutive timestamps
    let inputs: [u32; 5] = [0xffff_0000, 0xffff_8000, 0x0000_0010, 0x10, 0x2000];
    let mut tl = Timeline::new(8000, None);
    let mut acc: u64 = inputs[0] as u64;
    let mut last = inputs[0];
    for (i, &t) in inputs.iter().enumerate() {
        if i > 0 {
            acc += t.wrapping_sub(last) as u64;
            last = t;
        }
        let got = tl.advance_to(t).unwrap();
        assert_eq!(got.timestamp, acc);
    }
}

#[test]
fn timeline_outputs_never_decrease() {
    let inputs: [u32; 6] = [5, 5, 6, 0xffff_ffff, 3, 3];
    let mut tl = Timeline::new(90000, None);
    let mut prev: u64 = 0;
    for &t in inputs.iter() {
        let got = tl.advance_to(t).unwrap().timestamp;
        assert!(got >= prev);
        prev = got;
    }
}

#[test]
fn place_does_not_move_the_timeline() {
    let mut a = Timeline::new(90000, None);
    let mut b = Timeline::new(90000, None);
    a.advance_to(1000).unwrap();
    b.advance_to(1000).unwrap();
    // a `place` in the middle must not change any later advance_to output
    let placed = a.place(900).unwrap();
    assert_eq!(placed.timestamp, 900);
    let x = a.advance_to(1100).unwrap();
    let y = b.advance_to(1100).unwrap();
    assert_eq!(x, y);
    assert_eq!(x.timestamp, 1100);
}

#[test]
fn place_rejects_time_before_the_logical_zero() {
    let mut tl = Timeline::new(90000, None);
    tl.advance_to(5).unwrap();
    match tl.place(0xffff_fff0) {
        Err(TimelineError::BeforeStart { rtp_timestamp }) => {
            assert_eq!(rtp_timestamp, 0xffff_fff0)
        }
        other => panic!("expected BeforeStart, got {:?}", other),
    }
}

#[test]
fn timeline_start_policy_zero_references_the_first_packet() {
    let mut tl = Timeline::new(8000, Some(100));
    let t = tl.advance_to(340).unwrap();
    assert_eq!(t.timestamp, 240);
}

#[test]
fn timeline_overflow_is_reported_and_leaves_state_alone() {
    let mut tl = Timeline {
        latest: Some(0),
        timestamp: u64::MAX - 10,
        clock_rate: 90000,
        start: None,
    };
    match tl.advance_to(100) {
        Err(TimelineError::Overflow { rtp_timestamp }) => assert_eq!(rtp_timestamp, 100),
        other => panic!("expected an overflow error, got {:?}", other),
    }
    // the failed advance changed nothing
    let t = tl.advance_to(5).unwrap();
    assert_eq!(t.timestamp, u64::MAX - 5);
}
