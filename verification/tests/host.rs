use canfdtest::error::ErrorKind;
use canfdtest::frame::Frame;
use canfdtest::host::{Host, DEFAULT_INFLIGHT_COUNT};
use canfdtest::increment_frame;
use canfdtest::port::{PortAction, PortEvent, CAN_MSG_ID};

fn frame(id: u32, data: &[u8]) -> Frame {
    Frame::new(id, data, false, false).unwrap()
}

/// The frame that the host sends at a given count.
fn generated(counter: u8) -> Frame {
    let mut data = [0u8; 8];
    for i in 0..8 {
        data[i] = ((counter as usize + i) % 256) as u8;
    }
    frame(0x77, &data)
}

fn echo_of(counter: u8) -> Frame {
    increment_frame(generated(counter)).unwrap()
}

/// A host whose window of the given size has just been filled.
fn filled(inflight_count: usize) -> Host {
    let mut host = Host::new(inflight_count, 0);
    for _ in 0..inflight_count {
        let (next, _) = host.step(PortEvent::Sent);
        host = next;
    }
    assert_eq!(host.in_flight(), inflight_count);
    assert_eq!(host.action(), PortAction::Receive);
    host
}

#[test]
fn protocol_constants() {
    assert_eq!(CAN_MSG_ID, 0x77);
    assert_eq!(DEFAULT_INFLIGHT_COUNT, 50);
}

#[test]
fn host_keeps_what_it_was_set_up_with() {
    let host = Host::new(50, 1000);
    assert_eq!(host.inflight_count(), 50);
    assert_eq!(host.frame_count(), 1000);
    assert_eq!(host.in_flight(), 0);
    assert_eq!(host.byte_counter(), 0);
    assert_eq!(host.window().capacity(), 50);
    assert_eq!(host.frames_verified(), 0);
    assert_eq!(host.fault(), None);
}

#[test]
fn host_starts_by_sending_the_first_frame() {
    let host = Host::new(50, 0);
    assert_eq!(
        host.action(),
        PortAction::Send { frame: frame(0x77, &[0, 1, 2, 3, 4, 5, 6, 7]), pause_ms: 1 }
    );
}

#[test]
fn round_trip_of_the_first_frame_through_the_host() {
    let host = Host::new(1, 0);
    let sent = match host.action() {
        PortAction::Send { frame, .. } => frame,
        other => panic!("{:?}", other),
    };
    assert_eq!(sent, frame(0x77, &[0, 1, 2, 3, 4, 5, 6, 7]));
    let (host, action) = host.step(PortEvent::Sent);
    assert_eq!(action, PortAction::Receive);
    let (host, action) = host.step(PortEvent::Received(sent));
    assert_eq!(action, PortAction::Receive);
    assert_eq!(host.in_flight(), 1);
    let echo = frame(0x78, &[1, 2, 3, 4, 5, 6, 7, 8]);
    let (host, action) = host.step(PortEvent::Received(echo));
    assert_eq!(host.in_flight(), 0);
    assert_eq!(host.frames_verified(), 1);
    assert_eq!(host.fault(), None);
    assert_eq!(
        action,
        PortAction::Send { frame: frame(0x77, &[1, 2, 3, 4, 5, 6, 7, 8]), pause_ms: 1 }
    );
}

#[test]
fn host_fills_the_window_with_frames_that_count_up() {
    let mut host = Host::new(5, 0);
    for counter in 0..5u8 {
        match host.action() {
            PortAction::Send { frame, .. } => assert_eq!(frame, generated(counter)),
            other => panic!("{:?}", other),
        }
        assert_eq!(host.in_flight(), counter as usize);
        let (next, _) = host.step(PortEvent::Sent);
        host = next;
    }
    assert_eq!(host.in_flight(), 5);
    assert_eq!(host.action(), PortAction::Receive);
}

#[test]
fn payload_bytes_wrap_on_their_own() {
    let mut host = Host::new(300, 0);
    for _ in 0..250 {
        let (next, _) = host.step(PortEvent::Sent);
        host = next;
    }
    assert_eq!(
        host.action(),
        PortAction::Send {
            frame: frame(0x77, &[250, 251, 252, 253, 254, 255, 0, 1]),
            pause_ms: 1
        }
    );
}

#[test]
fn the_count_wraps_after_255() {
    let mut host = Host::new(300, 0);
    for _ in 0..255 {
        let (next, _) = host.step(PortEvent::Sent);
        host = next;
    }
    assert_eq!(
        host.action(),
        PortAction::Send {
            frame: frame(0x77, &[255, 0, 1, 2, 3, 4, 5, 6]),
            pause_ms: 3
        }
    );
    let (host, action) = host.step(PortEvent::Sent);
    assert_eq!(
        action,
        PortAction::Send { frame: frame(0x77, &[0, 1, 2, 3, 4, 5, 6, 7]), pause_ms: 1 }
    );
    assert_eq!(host.in_flight(), 256);
}

#[test]
fn the_pause_is_longer_before_every_count_that_33_divides() {
    let mut host = Host::new(1000, 0);
    let mut long_pauses: Vec<u32> = Vec::new();
    for n in 0..600u32 {
        let counter = n % 256;
        let expected = if (counter + 1) % 256 % 33 == 0 { 3 } else { 1 };
        match host.action() {
            PortAction::Send { frame, pause_ms } => {
                assert_eq!(frame, generated(counter as u8));
                assert_eq!(pause_ms, expected);
                if pause_ms == 3 {
                    long_pauses.push(n);
                }
            }
            other => panic!("{:?}", other),
        }
        let (next, _) = host.step(PortEvent::Sent);
        host = next;
    }
    assert_eq!(&long_pauses[..9], &[32, 65, 98, 131, 164, 197, 230, 255, 288]);
}

#[test]
fn host_stops_when_writing_fails() {
    let host = Host::new(2, 0);
    let (host, _) = host.step(PortEvent::Sent);
    let (host, action) = host.step(PortEvent::SendFailed);
    assert_eq!(action, PortAction::Stop(ErrorKind::TransportWriteFailed));
    assert_eq!(host.fault(), Some(ErrorKind::TransportWriteFailed));
    assert_eq!(host.in_flight(), 1);
}

#[test]
fn host_stops_when_reading_fails() {
    let (host, action) = filled(2).step(PortEvent::ReceiveFailed);
    assert_eq!(action, PortAction::Stop(ErrorKind::TransportReadFailed));
    assert_eq!(host.in_flight(), 2);
}

#[test]
fn host_stays_stopped() {
    for event in [
        PortEvent::Sent,
        PortEvent::SendFailed,
        PortEvent::ReceiveFailed,
        PortEvent::Received(generated(0)),
        PortEvent::Received(echo_of(0)),
    ] {
        let (host, _) = filled(2).step(PortEvent::ReceiveFailed);
        let (host, action) = host.step(event);
        assert_eq!(action, PortAction::Stop(ErrorKind::TransportReadFailed));
        assert_eq!(host.action(), action);
        assert_eq!(host.in_flight(), 2);
        assert_eq!(host.frames_verified(), 0);
    }
}

#[test]
fn host_passes_over_an_event_it_did_not_ask_for() {
    let host = Host::new(2, 0);
    let first = host.action();
    let (host, action) = host.step(PortEvent::Received(generated(0)));
    assert_eq!(action, first);
    let (host, action) = host.step(PortEvent::ReceiveFailed);
    assert_eq!(action, first);
    assert_eq!(host.in_flight(), 0);
    assert_eq!(host.fault(), None);

    let host = filled(2);
    let (host, action) = host.step(PortEvent::Sent);
    assert_eq!(action, PortAction::Receive);
    let (host, action) = host.step(PortEvent::SendFailed);
    assert_eq!(action, PortAction::Receive);
    assert_eq!(host.in_flight(), 2);
    assert_eq!(host.fault(), None);
}

#[test]
fn own_copies_are_matched_oldest_first() {
    let host = filled(3);
    let (host, action) = host.step(PortEvent::Received(generated(0)));
    assert_eq!(action, PortAction::Receive);
    let (host, action) = host.step(PortEvent::Received(generated(1)));
    assert_eq!(action, PortAction::Receive);
    let (host, action) = host.step(PortEvent::Received(generated(2)));
    assert_eq!(action, PortAction::Receive);
    assert_eq!(host.in_flight(), 3);
    assert_eq!(host.frames_verified(), 0);
    assert_eq!(host.fault(), None);
}

#[test]
fn an_own_copy_out_of_order_stops_the_host() {
    let (host, action) = filled(3).step(PortEvent::Received(generated(1)));
    assert_eq!(action, PortAction::Stop(ErrorKind::WindowMismatch));
    assert_eq!(host.in_flight(), 3);
}

#[test]
fn a_damaged_own_copy_stops_the_host() {
    let damaged = frame(0x77, &[0, 1, 2, 3, 4, 5, 6, 8]);
    let (host, action) = filled(2).step(PortEvent::Received(damaged));
    assert_eq!(action, PortAction::Stop(ErrorKind::WindowMismatch));
    assert_eq!(host.in_flight(), 2);
    let short = frame(0x77, &[0, 1, 2, 3, 4, 5, 6]);
    let (_, action) = filled(2).step(PortEvent::Received(short));
    assert_eq!(action, PortAction::Stop(ErrorKind::WindowMismatch));
}

#[test]
fn an_own_copy_too_many_stops_the_host() {
    let host = filled(1);
    let (host, _) = host.step(PortEvent::Received(generated(0)));
    assert_eq!(host.fault(), None);
    let (host, action) = host.step(PortEvent::Received(generated(0)));
    assert_eq!(action, PortAction::Stop(ErrorKind::WindowMismatch));
    assert_eq!(host.in_flight(), 1);
}

#[test]
fn an_echo_before_the_own_copy_stops_the_host() {
    let (host, action) = filled(2).step(PortEvent::Received(echo_of(0)));
    assert_eq!(action, PortAction::Stop(ErrorKind::WindowMismatch));
    assert_eq!(host.in_flight(), 2);
    assert_eq!(host.frames_verified(), 0);
}

#[test]
fn an_echo_takes_the_oldest_frame_out() {
    let host = filled(2);
    let (host, _) = host.step(PortEvent::Received(generated(0)));
    let (host, action) = host.step(PortEvent::Received(echo_of(0)));
    assert_eq!(host.in_flight(), 1);
    assert_eq!(host.frames_verified(), 1);
    assert_eq!(host.window().confirmed_head(), None);
    assert_eq!(host.window().next_awaiting(), Some(generated(1)));
    assert_eq!(action, PortAction::Send { frame: generated(2), pause_ms: 1 });
    let (host, action) = host.step(PortEvent::Sent);
    assert_eq!(action, PortAction::Receive);
    assert_eq!(host.in_flight(), 2);
    let (host, _) = host.step(PortEvent::Received(generated(1)));
    let (host, _) = host.step(PortEvent::Received(echo_of(1)));
    assert_eq!(host.frames_verified(), 2);
    assert_eq!(host.in_flight(), 1);
    assert_eq!(host.fault(), None);
}

#[test]
fn a_wrong_echo_stops_the_host_and_keeps_the_oldest_frame() {
    let wrong = [
        frame(0x78, &[1, 2, 3, 4, 5, 6, 7, 9]),
        frame(0x78, &[0, 1, 2, 3, 4, 5, 6, 7]),
        frame(0x79, &[1, 2, 3, 4, 5, 6, 7, 8]),
        frame(0x76, &[0, 1, 2, 3, 4, 5, 6, 7]),
        frame(0x78, &[1, 2, 3, 4, 5, 6, 7]),
        frame(0x78, &[]),
        Frame::new(0x78, &[1, 2, 3, 4, 5, 6, 7, 8], true, false).unwrap(),
        Frame::new(0x78, &[1, 2, 3, 4, 5, 6, 7, 8], false, true).unwrap(),
        echo_of(1),
    ];
    for received in wrong {
        let host = filled(2);
        let (host, _) = host.step(PortEvent::Received(generated(0)));
        let (host, _) = host.step(PortEvent::Received(generated(1)));
        let (host, action) = host.step(PortEvent::Received(received));
        assert_eq!(action, PortAction::Stop(ErrorKind::WindowMismatch));
        assert_eq!(host.fault(), Some(ErrorKind::WindowMismatch));
        assert_eq!(host.in_flight(), 2);
        assert_eq!(host.window().confirmed_head(), Some(generated(0)));
        assert_eq!(host.window().next_awaiting(), None);
        assert_eq!(host.frames_verified(), 0);
        assert_eq!(host.byte_counter(), 2);
    }
}

#[test]
fn a_host_without_a_window_stops_on_the_first_frame() {
    let host = Host::new(0, 0);
    assert_eq!(host.action(), PortAction::Receive);
    let (_, action) = host.step(PortEvent::Received(generated(0)));
    assert_eq!(action, PortAction::Stop(ErrorKind::WindowMismatch));
    let (_, action) = Host::new(0, 0).step(PortEvent::Received(echo_of(0)));
    assert_eq!(action, PortAction::Stop(ErrorKind::WindowMismatch));
}

/// Sends until the host asks to receive. Returns the counts of the frames sent.
fn fill(mut host: Host, counter: &mut u32, sent: &mut Vec<u8>) -> Host {
    loop {
        match host.action() {
            PortAction::Send { frame, .. } => {
                let c = (*counter % 256) as u8;
                assert_eq!(frame, generated(c));
                sent.push(c);
                *counter += 1;
                let (next, _) = host.step(PortEvent::Sent);
                host = next;
            }
            PortAction::Receive => return host,
            PortAction::Stop(kind) => panic!("{:?}", kind),
        }
    }
}

#[test]
fn the_window_stays_bounded_and_frames_leave_in_order() {
    for capacity in [1usize, 2, 3, 7, 50] {
        let mut host = Host::new(capacity, 0);
        let mut counter: u32 = 0;
        let mut sent: Vec<u8> = Vec::new();
        let mut own_seen: usize = 0;
        let mut verified: usize = 0;
        for cycle in 0..400 {
            host = fill(host, &mut counter, &mut sent);
            assert_eq!(host.in_flight(), capacity);
            while own_seen < sent.len() {
                let (next, action) = host.step(PortEvent::Received(generated(sent[own_seen])));
                assert_eq!(action, PortAction::Receive);
                own_seen += 1;
                host = next;
            }
            let (next, _) = host.step(PortEvent::Received(echo_of(sent[verified])));
            verified += 1;
            host = next;
            assert_eq!(host.fault(), None);
            assert_eq!(host.frames_verified(), cycle + 1);
            assert_eq!(host.in_flight(), capacity - 1);
            assert!(host.in_flight() <= capacity);
        }
        assert_eq!(sent.len(), capacity + 399);
    }
}

#[test]
fn copy_and_echo_may_alternate() {
    let mut host = Host::new(3, 0);
    let mut counter: u32 = 0;
    let mut sent: Vec<u8> = Vec::new();
    for n in 0..600usize {
        host = fill(host, &mut counter, &mut sent);
        let (next, _) = host.step(PortEvent::Received(generated(sent[n])));
        let (next, _) = next.step(PortEvent::Received(echo_of(sent[n])));
        host = next;
        assert_eq!(host.fault(), None);
        assert_eq!(host.frames_verified(), n as u64 + 1);
        assert_eq!(host.in_flight(), 2);
    }
}

#[test]
fn an_echo_out_of_order_stops_the_host() {
    let host = filled(3);
    let (host, _) = host.step(PortEvent::Received(generated(0)));
    let (host, _) = host.step(PortEvent::Received(generated(1)));
    let (host, action) = host.step(PortEvent::Received(echo_of(1)));
    assert_eq!(action, PortAction::Stop(ErrorKind::WindowMismatch));
    assert_eq!(host.in_flight(), 3);
}

#[test]
fn host_run_takes_the_events_in_order() {
    let events = [
        PortEvent::Sent,
        PortEvent::Sent,
        PortEvent::Received(generated(0)),
        PortEvent::Received(echo_of(0)),
        PortEvent::Sent,
        PortEvent::Received(generated(1)),
        PortEvent::Received(generated(2)),
        PortEvent::Received(echo_of(1)),
    ];
    let (host, action) = Host::new(2, 0).run(&events);
    assert_eq!(host.fault(), None);
    assert_eq!(host.frames_verified(), 2);
    assert_eq!(host.in_flight(), 1);
    assert_eq!(action, PortAction::Send { frame: generated(3), pause_ms: 1 });

    let mut stepped = Host::new(2, 0);
    let mut last = stepped.action();
    for event in events {
        let (next, a) = stepped.step(event);
        stepped = next;
        last = a;
    }
    assert_eq!(last, action);
    assert_eq!(stepped.frames_verified(), host.frames_verified());
    assert_eq!(stepped.in_flight(), host.in_flight());
}

#[test]
fn host_run_without_events_changes_nothing() {
    let (host, action) = Host::new(4, 7).run(&[]);
    assert_eq!(host.in_flight(), 0);
    assert_eq!(host.frame_count(), 7);
    assert_eq!(action, PortAction::Send { frame: generated(0), pause_ms: 1 });
}

#[test]
fn host_run_stops_at_the_first_failure() {
    let events = [
        PortEvent::Sent,
        PortEvent::Received(generated(0)),
        PortEvent::Received(echo_of(1)),
        PortEvent::Received(echo_of(0)),
        PortEvent::Sent,
    ];
    let (host, action) = Host::new(1, 0).run(&events);
    assert_eq!(action, PortAction::Stop(ErrorKind::WindowMismatch));
    assert_eq!(host.in_flight(), 1);
    assert_eq!(host.frames_verified(), 0);
}
