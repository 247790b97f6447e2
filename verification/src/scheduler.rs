//! The decisions of the cooperative loop: what a host event asks for, which
//! bus events go on to the host, and the heartbeat.

use vstd::prelude::*;
use crate::downstream::{
    outgoing, ping_fields, received, DownstreamDevice, DownstreamError, DownstreamInterface,
};
use crate::negicon_event::{decode, encode, is_ping_fields, EventFields, NegiconEvent, NegiconEventType};
use crate::ringbuf::{front, popped, pushed};
use crate::upstream::{Upstream, UpstreamError, HOST_QUEUE_CAPACITY};

verus! {

/// The period of the slot tick, in milliseconds.
pub const TICK_MILLIS: u32 = 5;

/// The value that every heartbeat carries.
pub const HEARTBEAT_VALUE: i16 = 39;

/// The two periods of the heartbeat timer, in milliseconds: the one it is
/// first armed with and the one it is armed with after each beat.
#[derive(Clone, Copy, Debug, PartialEq, Eq, Structural)]
pub struct HeartbeatPeriods {
    pub initial_millis: u32,
    pub rearm_millis: u32,
}

/// Whether a frame from the host asks for a reboot into the bootloader.
pub open spec fn is_reboot(frame: Seq<u8>) -> bool {
    decode(frame).event_type == NegiconEventType::Reboot
}

/// Whether any frame of a queue asks for a reboot.
pub open spec fn has_reboot(rx: Seq<Seq<u8>>) -> bool
    decreases rx.len(),
{
    rx.len() > 0 && (is_reboot(rx[0]) || has_reboot(rx.subrange(1, rx.len() as int)))
}

/// The queue behind its first reboot frame; empty where there is none.
pub open spec fn after_first_reboot(rx: Seq<Seq<u8>>) -> Seq<Seq<u8>>
    decreases rx.len(),
{
    if rx.len() == 0 {
        rx
    } else if is_reboot(rx[0]) {
        rx.subrange(1, rx.len() as int)
    } else {
        after_first_reboot(rx.subrange(1, rx.len() as int))
    }
}

/// The fields of the heartbeat with a given controller and sequence.
pub open spec fn heartbeat_fields(controller_id: u8, sequence: u8) -> EventFields {
    EventFields {
        event_type: NegiconEventType::Input,
        id: 0,
        sub_id: 0,
        value: HEARTBEAT_VALUE,
        controller_id,
        sequence,
    }
}

impl HeartbeatPeriods {
    /// Five seconds before the first beat, half a second between beats.
    pub fn new() -> (p: Self)
        ensures
            p == (HeartbeatPeriods { initial_millis: 5000, rearm_millis: 500 }),
    {
        HeartbeatPeriods { initial_millis: 5000, rearm_millis: 500 }
    }

    /// The period to arm the timer with: the initial one before the first
    /// beat, the re-arm period after every beat.
    pub fn period(&self, beats_so_far: u8) -> (r: u32)
        ensures
            r == (if beats_so_far == 0 {
                self.initial_millis
            } else {
                self.rearm_millis
            }),
    {
        if beats_so_far == 0 {
            self.initial_millis
        } else {
            self.rearm_millis
        }
    }
}

/// Takes the events that came from the host, oldest first, up to and
/// with the first one that asks for a reboot, and says whether there was
/// one. Events of every other type only pass.
pub fn take_host_events(up: &mut Upstream) -> (reboot: bool)
    ensures
        reboot == has_reboot(old(up).rx()),
        final(up).rx() == after_first_reboot(old(up).rx()),
        final(up).tx() == old(up).tx(),
{
    loop
        invariant
            has_reboot(up.rx()) == has_reboot(old(up).rx()),
            after_first_reboot(up.rx()) == after_first_reboot(old(up).rx()),
            up.tx() == old(up).tx(),
        decreases up.rx().len(),
    {
        match up.receive() {
            Ok(Some(event)) => {
                if matches!(event.event_type(), NegiconEventType::Reboot) {
                    return true;
                }
            },
            _ => {
                return false;
            },
        }
    }
}

/// What a slot hands to the host after a tick, for the receive queue `rx`
/// that the exchange left: its oldest event, unless that is the idle frame.
pub open spec fn to_forward(rx: Seq<EventFields>) -> Option<EventFields> {
    match front(rx) {
        Some(fields) => if is_ping_fields(fields) {
            None
        } else {
            Some(fields)
        },
        None => None,
    }
}

/// One tick of one slot: polls it, takes the oldest event it has received
/// and returns that event where it is to go on to the host. A fault of the
/// bus skips the exchange and nothing else.
pub fn poll_slot<I: DownstreamInterface + ?Sized>(
    slot: &mut DownstreamDevice,
    bus: &mut I,
) -> (r: Option<NegiconEvent>)
    ensures
        final(slot).tx() == popped(old(slot).tx()),
        final(slot).chip_select() == old(slot).chip_select(),
        exists|reply: Result<[u8; 8], DownstreamError>|
            {
                let rx = #[trigger] received(old(slot).rx(), reply);
                &&& final(slot).rx() == popped(rx)
                &&& match r {
                    Some(event) => to_forward(rx) == Some(event@),
                    None => to_forward(rx).is_none(),
                }
            },
{
    let _ = slot.poll(bus);
    match slot.receive() {
        Ok(Some(event)) => if should_forward(&event) {
            Some(event)
        } else {
            None
        },
        _ => None,
    }
}

/// Whether an event from the bus goes on to the host: all but the idle
/// frame do.
pub fn should_forward(event: &NegiconEvent) -> (r: bool)
    ensures
        r == !is_ping_fields(event@),
{
    !event.is_ping()
}

/// Hands an event from the bus to one host queue unless it is the idle
/// frame, and says whether it was handed on. A full queue is reported and
/// keeps what it held.
pub fn forward(event: &NegiconEvent, up: &mut Upstream) -> (r: Result<bool, UpstreamError>)
    ensures
        final(up).rx() == old(up).rx(),
        if is_ping_fields(event@) {
            r == Ok::<bool, UpstreamError>(false) && final(up).tx() == old(up).tx()
        } else {
            &&& final(up).tx() == pushed(
                old(up).tx(),
                HOST_QUEUE_CAPACITY as nat,
                encode(event@),
            )
            &&& r == (if old(up).tx().len() < HOST_QUEUE_CAPACITY {
                Ok::<bool, UpstreamError>(true)
            } else {
                Err::<bool, UpstreamError>(UpstreamError::BufferOverflow)
            })
        },
{
    if should_forward(event) {
        match up.send(event) {
            Ok(()) => Ok(true),
            Err(e) => Err(e),
        }
    } else {
        Ok(false)
    }
}

/// A slot with nothing to send still sends the idle frame, and an idle
/// frame that comes back from the bus decodes to the idle frame and is
/// recognised as one, so that `forward` keeps it from every host queue.
pub proof fn lemma_idle_frame_is_filtered()
    ensures
        outgoing(Seq::<EventFields>::empty()) == ping_fields(),
        is_ping_fields(ping_fields()),
        decode(encode(ping_fields())) == ping_fields(),
        to_forward(seq![decode(encode(ping_fields()))]).is_none(),
{
}

/// Every heartbeat comes back from its frame as it was sent.
pub proof fn lemma_heartbeat_round_trip(controller_id: u8, sequence: u8)
    ensures
        decode(encode(heartbeat_fields(controller_id, sequence))) == heartbeat_fields(
            controller_id,
            sequence,
        ),
{
}

/// The heartbeat: a counter that wraps and the event that carries it.
pub struct Heartbeat {
    pub controller_id: u8,
    pub sequence: u8,
}

impl Heartbeat {
    pub fn new(controller_id: u8) -> (h: Self)
        ensures
            h.controller_id == controller_id,
            h.sequence == 0,
    {
        Heartbeat { controller_id, sequence: 0 }
    }

    /// The event of the beat that is due.
    pub fn event(&self) -> (e: NegiconEvent)
        ensures
            e@ == heartbeat_fields(self.controller_id, self.sequence),
    {
        NegiconEvent::from_fields(
            NegiconEventType::Input,
            0,
            0,
            HEARTBEAT_VALUE,
            self.controller_id,
            self.sequence,
        )
    }

    /// Queues the beat for one host. A full queue drops it: the beat is
    /// not an error and is never tried again.
    pub fn beat(&self, up: &mut Upstream) -> (queued: bool)
        ensures
            queued == (old(up).tx().len() < HOST_QUEUE_CAPACITY),
            final(up).tx() == pushed(
                old(up).tx(),
                HOST_QUEUE_CAPACITY as nat,
                encode(heartbeat_fields(self.controller_id, self.sequence)),
            ),
            final(up).rx() == old(up).rx(),
    {
        let event = self.event();
        up.send(&event).is_ok()
    }

    /// Moves on to the next beat: the sequence grows by one and wraps from
    /// 255 to 0.
    pub fn advance(&mut self)
        ensures
            final(self).sequence as int == (old(self).sequence as int + 1) % 256,
            final(self).controller_id == old(self).controller_id,
    {
        self.sequence = if self.sequence == 255 {
            0
        } else {
            self.sequence + 1
        };
    }
}

} // verus!
