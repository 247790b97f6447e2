use negicon_hub::negicon_event::{NegiconEvent, NegiconEventType};
use negicon_hub::scheduler::{forward, should_forward, take_host_events, Heartbeat,
    HeartbeatPeriods, TICK_MILLIS};
use negicon_hub::upstream::{FrameAssembler, PollNext, TransportFault, Upstream, UpstreamError,
    UsbError};

fn frame(tag: u8, id: u8) -> [u8; 8] {
    [tag, 0, id, 0, 0, 0, 0, 0]
}

fn drain_tx(up: &mut Upstream) -> Vec<[u8; 8]> {
    let mut out = Vec::new();
    let mut next = up.on_read(Err(TransportFault::WouldBlock));
    while let PollNext::Write(f) = next {
        out.push(f);
        next = up.on_write(Ok(()));
    }
    assert_eq!(next, PollNext::Done(Ok(())));
    out
}

#[test]
fn poll_reads_then_writes() {
    let mut up = Upstream::new();
    let a = NegiconEvent::from_fields(NegiconEventType::Input, 1, 0, 2, 3, 4);
    let b = NegiconEvent::from_fields(NegiconEventType::Log, 5, 5, 6, 7, 8);
    up.send(&a).unwrap();
    up.send(&b).unwrap();
    assert_eq!(up.poll_begin(), PollNext::Read);
    assert_eq!(up.on_read(Ok(frame(3, 1))), PollNext::Read);
    assert_eq!(up.on_read(Ok(frame(0x81, 2))), PollNext::Read);
    assert_eq!(up.on_read(Err(TransportFault::Usb(UsbError::WouldBlock))),
        PollNext::Write(a.serialize()));
    assert_eq!(up.on_write(Ok(())), PollNext::Write(b.serialize()));
    assert_eq!(up.on_write(Ok(())), PollNext::Done(Ok(())));
    let first = up.receive().unwrap().unwrap();
    assert_eq!(first.event_type(), NegiconEventType::Reboot);
    assert_eq!(first.id(), 1);
    let second = up.receive().unwrap().unwrap();
    assert_eq!(second.event_type(), NegiconEventType::Input);
    assert_eq!(second.sub_id(), 1);
    assert_eq!(up.receive(), Ok(None));
}

#[test]
fn frame_is_kept_until_the_write_succeeded() {
    let mut up = Upstream::new();
    let a = NegiconEvent::from_fields(NegiconEventType::Input, 1, 0, 2, 3, 4);
    up.send(&a).unwrap();
    assert_eq!(up.on_read(Err(TransportFault::WouldBlock)), PollNext::Write(a.serialize()));
    assert_eq!(up.on_write(Err(TransportFault::WouldBlock)), PollNext::Done(Ok(())));
    assert_eq!(up.on_read(Err(TransportFault::WouldBlock)), PollNext::Write(a.serialize()));
    assert_eq!(up.on_write(Err(TransportFault::Usb(UsbError::InvalidState))),
        PollNext::Done(Err(UpstreamError::UsbError(UsbError::InvalidState))));
    assert_eq!(up.on_read(Err(TransportFault::WouldBlock)), PollNext::Write(a.serialize()));
    assert_eq!(up.on_write(Err(TransportFault::Spi)), PollNext::Done(Err(UpstreamError::SpiError)));
    assert_eq!(drain_tx(&mut up), vec![a.serialize()]);
    assert_eq!(drain_tx(&mut up), Vec::<[u8; 8]>::new());
}

#[test]
fn read_fault_ends_the_poll() {
    let mut up = Upstream::new();
    up.send(&NegiconEvent::from_fields(NegiconEventType::Input, 1, 0, 2, 3, 4)).unwrap();
    assert_eq!(up.on_read(Err(TransportFault::Usb(UsbError::ParseError))),
        PollNext::Done(Err(UpstreamError::UsbError(UsbError::ParseError))));
    assert_eq!(up.on_read(Err(TransportFault::Spi)), PollNext::Done(Err(UpstreamError::SpiError)));
    assert_eq!(drain_tx(&mut up).len(), 1);
}

#[test]
fn host_queue_overflows_at_sixty_four() {
    let mut up = Upstream::new();
    for i in 0..64u16 {
        let e = NegiconEvent::from_fields(NegiconEventType::Input, i, 0, 0, 0, 0);
        assert_eq!(up.send(&e), Ok(()));
    }
    let extra = NegiconEvent::from_fields(NegiconEventType::Input, 999, 0, 0, 0, 0);
    assert_eq!(up.send(&extra), Err(UpstreamError::BufferOverflow));
    let sent = drain_tx(&mut up);
    assert_eq!(sent.len(), 64);
    for (i, f) in sent.iter().enumerate() {
        assert_eq!(NegiconEvent::deserialize(*f).id(), i as u16);
    }
    for i in 0..70u8 {
        assert_eq!(up.on_read(Ok(frame(0x80, i))), PollNext::Read);
    }
    for i in 0..64u16 {
        assert_eq!(up.receive().unwrap().unwrap().id(), i);
    }
    assert_eq!(up.receive(), Ok(None));
}

#[test]
fn host_events_are_taken_up_to_the_first_reboot() {
    let mut up = Upstream::new();
    assert!(!take_host_events(&mut up));
    for f in [frame(1, 1), frame(0x80, 2), frame(3, 3), frame(2, 4), frame(3, 5)] {
        up.on_read(Ok(f));
    }
    assert!(take_host_events(&mut up));
    assert_eq!(up.receive().unwrap().unwrap().id(), 4);
    assert!(take_host_events(&mut up));
    assert_eq!(up.receive(), Ok(None));
    up.on_read(Ok(frame(5, 6)));
    up.on_read(Ok(frame(0, 7)));
    assert!(!take_host_events(&mut up));
    assert_eq!(up.receive(), Ok(None));
}

#[test]
fn forward_passes_everything_but_the_idle_frame() {
    let mut up = Upstream::new();
    let ping = NegiconEvent::deserialize([1, 0, 0, 0, 0x39, 39, 0, 0]);
    let input = NegiconEvent::from_fields(NegiconEventType::Input, 3, 9, -7, 1, 2);
    assert!(!should_forward(&ping));
    assert!(should_forward(&input));
    assert_eq!(forward(&ping, &mut up), Ok(false));
    assert_eq!(forward(&input, &mut up), Ok(true));
    assert_eq!(drain_tx(&mut up), vec![input.serialize()]);
    for _ in 0..64 {
        assert_eq!(forward(&input, &mut up), Ok(true));
    }
    assert_eq!(forward(&input, &mut up), Err(UpstreamError::BufferOverflow));
    assert_eq!(forward(&ping, &mut up), Ok(false));
    assert_eq!(drain_tx(&mut up).len(), 64);
}

#[test]
fn heartbeat_counts_and_wraps() {
    let mut up = Upstream::new();
    let mut beat = Heartbeat::new(0);
    let e = beat.event();
    assert_eq!(e.serialize(), [0x80, 0, 0, 0, 39, 0, 0, 0]);
    assert!(beat.beat(&mut up));
    beat.advance();
    assert_eq!(beat.sequence, 1);
    assert!(beat.beat(&mut up));
    assert_eq!(drain_tx(&mut up), vec![[0x80, 0, 0, 0, 39, 0, 0, 0], [0x80, 0, 0, 0, 39, 0, 1, 0]]);
    beat.sequence = 255;
    assert_eq!(beat.event().sequence(), 255);
    beat.advance();
    assert_eq!(beat.sequence, 0);
    let other = Heartbeat::new(9);
    assert_eq!(other.event().controller_id(), 9);
}

#[test]
fn heartbeat_on_a_full_queue_is_dropped() {
    let mut up = Upstream::new();
    let beat = Heartbeat::new(1);
    for _ in 0..64 {
        assert!(beat.beat(&mut up));
    }
    assert!(!beat.beat(&mut up));
    assert_eq!(drain_tx(&mut up).len(), 64);
}

#[test]
fn heartbeat_periods() {
    let p = HeartbeatPeriods::new();
    assert_eq!(p, HeartbeatPeriods { initial_millis: 5000, rearm_millis: 500 });
    assert_eq!(p.period(0), 5000);
    assert_eq!(p.period(1), 500);
    assert_eq!(p.period(255), 500);
    let q = HeartbeatPeriods { initial_millis: 10, rearm_millis: 20 };
    assert_eq!(q.period(0), 10);
    assert_eq!(q.period(3), 20);
    assert_eq!(TICK_MILLIS, 5);
}

#[test]
fn frame_assembler_hands_out_every_eighth_byte() {
    let mut a = FrameAssembler::new();
    for round in 0..3u8 {
        for i in 0..7u8 {
            assert_eq!(a.push_byte(round * 8 + i), None);
        }
        let base = round * 8;
        assert_eq!(
            a.push_byte(base + 7),
            Some([base, base + 1, base + 2, base + 3, base + 4, base + 5, base + 6, base + 7])
        );
    }
}
