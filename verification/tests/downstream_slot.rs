use negicon_hub::downstream::{DownstreamDevice, DownstreamError, DownstreamInterface, MlxError};
use negicon_hub::negicon_event::{NegiconEvent, NegiconEventType};
use negicon_hub::scheduler::{forward, poll_slot, should_forward};
use negicon_hub::upstream::Upstream;

/// A bus that records every exchange and answers with a fixed reply, or
/// with what it was sent where no reply is set.
struct RecordingBus {
    calls: Vec<(u8, [u8; 8])>,
    reply: Option<Result<[u8; 8], DownstreamError>>,
}

impl RecordingBus {
    fn echo() -> Self {
        RecordingBus { calls: Vec::new(), reply: None }
    }

    fn answering(reply: Result<[u8; 8], DownstreamError>) -> Self {
        RecordingBus { calls: Vec::new(), reply: Some(reply) }
    }
}

impl DownstreamInterface for RecordingBus {
    fn transfer(&mut self, cs: u8, packet: &mut [u8; 8]) -> Result<[u8; 8], DownstreamError> {
        self.calls.push((cs, *packet));
        match self.reply {
            Some(reply) => reply,
            None => Ok(*packet),
        }
    }
}

const PING: [u8; 8] = [1, 0, 0, 0, 0x39, 39, 0, 0];

#[test]
fn empty_slot_still_exchanges_the_idle_frame() {
    let mut bus = RecordingBus::echo();
    let mut slot = DownstreamDevice::new(7);
    assert_eq!(slot.cs(), 7);
    assert_eq!(slot.poll(&mut bus), Ok(()));
    assert_eq!(bus.calls, vec![(7, PING)]);
    let echoed = slot.receive().unwrap().unwrap();
    assert!(echoed.is_ping());
    assert_eq!(echoed, NegiconEvent::from_fields(NegiconEventType::Output, 0, 0, 0x39, 39, 0));
    assert_eq!(slot.receive(), Ok(None));
}

#[test]
fn ping_is_not_forwarded_to_the_host() {
    let mut bus = RecordingBus::echo();
    let mut slot = DownstreamDevice::new(0);
    let mut host = Upstream::new();
    slot.poll(&mut bus).unwrap();
    let echoed = slot.receive().unwrap().unwrap();
    assert!(!should_forward(&echoed));
    assert_eq!(forward(&echoed, &mut host), Ok(false));
    assert_eq!(host.on_read(Err(negicon_hub::upstream::TransportFault::WouldBlock)),
        negicon_hub::upstream::PollNext::Done(Ok(())));
}

#[test]
fn queued_event_goes_out_before_any_idle_frame() {
    let mut bus = RecordingBus::answering(Ok([0x82, 0, 9, 0, 5, 1, 2, 0]));
    let mut slot = DownstreamDevice::new(31);
    let first = NegiconEvent::from_fields(NegiconEventType::MemWrite, 0x0102, 2, -1, 3, 4);
    let second = NegiconEvent::from_fields(NegiconEventType::Output, 1, 1, 2, 3, 4);
    assert_eq!(slot.send(first), Ok(()));
    assert_eq!(slot.send(second), Ok(()));
    assert_eq!(slot.poll(&mut bus), Ok(()));
    assert_eq!(slot.poll(&mut bus), Ok(()));
    assert_eq!(slot.poll(&mut bus), Ok(()));
    assert_eq!(
        bus.calls,
        vec![(31, first.serialize()), (31, second.serialize()), (31, PING)]
    );
    let got = slot.receive().unwrap().unwrap();
    assert_eq!(got.event_type(), NegiconEventType::Input);
    assert_eq!(got.sub_id(), 2);
    assert_eq!(got.id(), 9);
    assert_eq!(got.value(), 5);
    assert_eq!(got.controller_id(), 1);
    assert_eq!(got.sequence(), 2);
}

#[test]
fn send_reports_overflow_on_the_fifth_event() {
    let mut slot = DownstreamDevice::new(1);
    for i in 0..4u16 {
        let e = NegiconEvent::from_fields(NegiconEventType::Output, i, 1, 0, 0, 0);
        assert_eq!(slot.send(e), Ok(()));
    }
    let extra = NegiconEvent::from_fields(NegiconEventType::Output, 99, 1, 0, 0, 0);
    assert_eq!(slot.send(extra), Err(DownstreamError::TxOverflow));
    let mut bus = RecordingBus::echo();
    for _ in 0..5 {
        slot.poll(&mut bus).unwrap();
    }
    let ids: Vec<u16> = bus.calls.iter().map(|(_, f)| NegiconEvent::deserialize(*f).id()).collect();
    assert_eq!(ids, vec![0, 1, 2, 3, 0]);
    assert_eq!(bus.calls[4].1, PING);
}

#[test]
fn bus_fault_is_handed_on_and_nothing_is_received() {
    let mut bus = RecordingBus::answering(Err(DownstreamError::UnexpectedReply));
    let mut slot = DownstreamDevice::new(2);
    assert_eq!(slot.poll(&mut bus), Err(DownstreamError::UnexpectedReply));
    assert_eq!(bus.calls.len(), 1);
    assert_eq!(slot.receive(), Ok(None));
    let mut bus = RecordingBus::answering(Err(DownstreamError::MlxError(MlxError::Bus)));
    assert_eq!(slot.poll(&mut bus), Err(DownstreamError::MlxError(MlxError::Bus)));
    assert_eq!(slot.receive(), Ok(None));
}

#[test]
fn full_receive_queue_drops_the_newest_reply() {
    let mut slot = DownstreamDevice::new(3);
    for i in 0..6u8 {
        let mut bus = RecordingBus::answering(Ok([0x80, 0, i, 0, 0, 0, 0, 0]));
        assert_eq!(slot.poll(&mut bus), Ok(()));
    }
    for i in 0..4u16 {
        assert_eq!(slot.receive().unwrap().unwrap().id(), i);
    }
    assert_eq!(slot.receive(), Ok(None));
}

#[test]
fn next_frame_and_accept_reply_are_the_two_halves_of_a_poll() {
    let mut slot = DownstreamDevice::new(4);
    assert_eq!(slot.next_frame(), PING);
    assert_eq!(slot.accept_reply(Ok([3, 0, 0, 0, 0, 0, 0, 0])), Ok(()));
    assert_eq!(slot.accept_reply(Err(DownstreamError::InvalidMessage)),
        Err(DownstreamError::InvalidMessage));
    let got = slot.receive().unwrap().unwrap();
    assert_eq!(got.event_type(), NegiconEventType::Reboot);
    assert_eq!(slot.receive(), Ok(None));
}

#[test]
fn slot_tick_hands_on_everything_but_the_idle_frame() {
    let mut slot = DownstreamDevice::new(9);
    let mut bus = RecordingBus::echo();
    assert_eq!(poll_slot(&mut slot, &mut bus), None);
    assert_eq!(bus.calls, vec![(9, PING)]);
    assert_eq!(slot.receive(), Ok(None));
    let mut bus = RecordingBus::answering(Ok([0x83, 0, 4, 0xff, 0xff, 1, 2, 0]));
    let got = poll_slot(&mut slot, &mut bus).unwrap();
    assert_eq!(got, NegiconEvent::from_fields(NegiconEventType::Input, 4, 3, -1, 1, 2));
    let mut bus = RecordingBus::answering(Err(DownstreamError::InvalidMessage));
    assert_eq!(poll_slot(&mut slot, &mut bus), None);
    assert_eq!(bus.calls.len(), 1);
    let dynamic: &mut dyn DownstreamInterface = &mut bus;
    assert_eq!(slot.poll(dynamic), Err(DownstreamError::InvalidMessage));
}

#[test]
fn every_error_of_the_bus_passes_through() {
    let mut slot = DownstreamDevice::new(0);
    for e in [
        DownstreamError::InvalidMessage,
        DownstreamError::UnexpectedReply,
        DownstreamError::TxOverflow,
        DownstreamError::RxOverflow,
        DownstreamError::MlxError(MlxError::Checksum),
    ] {
        let mut bus = RecordingBus::answering(Err(e));
        assert_eq!(slot.poll(&mut bus), Err(e));
        assert_eq!(bus.calls, vec![(0, PING)]);
    }
    assert_eq!(slot.receive(), Ok(None));
}
