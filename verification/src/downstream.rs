//! One addressable peripheral slot on the shared bus: its two queues and
//! what a poll sends and keeps.

use vstd::prelude::*;
use crate::negicon_event::{decode, encode, EventFields, NegiconEvent, NegiconEventType};
use crate::ringbuf::{front, popped, pushed, RingBuffer};

verus! {

/// How many events each queue of a slot holds.
pub const SLOT_QUEUE_CAPACITY: usize = 4;

/// How many slots the one-hot chip-select lines address.
pub const SLOT_COUNT: u8 = 32;

/// A fault of the angle sensor's own transaction.
#[derive(Clone, Copy, Debug, PartialEq, Eq, Structural)]
pub enum MlxError {
    Bus,
    Checksum,
}

#[derive(Clone, Copy, Debug, PartialEq, Eq, Structural)]
pub enum DownstreamError {
    InvalidMessage,
    UnexpectedReply,
    TxOverflow,
    RxOverflow,
    MlxError(MlxError),
}

/// The bus as a slot sees it: one blocking exchange of 8 bytes with the
/// peripheral that `cs` selects. Nothing is known of the reply.
pub trait DownstreamInterface {
    fn transfer(&mut self, cs: u8, packet: &mut [u8; 8]) -> Result<[u8; 8], DownstreamError>;
}

/// The fields of the idle frame.
pub open spec fn ping_fields() -> EventFields {
    EventFields {
        event_type: NegiconEventType::Output,
        id: 0,
        sub_id: 0,
        value: 0x39,
        controller_id: 39,
        sequence: 0,
    }
}

/// What a poll sends for a transmit queue `tx`: its oldest event, or the
/// idle frame where it is empty.
pub open spec fn outgoing(tx: Seq<EventFields>) -> EventFields {
    if tx.len() > 0 {
        tx[0]
    } else {
        ping_fields()
    }
}

/// What a poll leaves in a receive queue `rx` for a given result of the
/// exchange: the decoded reply at its end if there is room, and `rx` as it
/// was after a fault.
pub open spec fn received(rx: Seq<EventFields>, reply: Result<[u8; 8], DownstreamError>) -> Seq<
    EventFields,
> {
    match reply {
        Ok(frame) => pushed(rx, SLOT_QUEUE_CAPACITY as nat, decode(frame@)),
        Err(_) => rx,
    }
}

/// What a poll returns for a given result of the exchange.
pub open spec fn poll_result(reply: Result<[u8; 8], DownstreamError>) -> Result<
    (),
    DownstreamError,
> {
    match reply {
        Ok(_) => Ok(()),
        Err(e) => Err(e),
    }
}

/// The fields of each event of a queue.
pub open spec fn fields_of(q: Seq<NegiconEvent>) -> Seq<EventFields> {
    q.map_values(|e: NegiconEvent| e@)
}

pub struct DownstreamDevice {
    cs: u8,
    tx_buffer: RingBuffer<NegiconEvent, 4>,
    rx_buffer: RingBuffer<NegiconEvent, 4>,
}

impl DownstreamDevice {
    #[verifier::type_invariant]
    spec fn inv(self) -> bool {
        self.cs < SLOT_COUNT
    }

    /// The chip-select index of the slot.
    pub closed spec fn chip_select(&self) -> u8 {
        self.cs
    }

    /// The events waiting to be sent, oldest first.
    pub closed spec fn tx(&self) -> Seq<EventFields> {
        fields_of(self.tx_buffer@)
    }

    /// The events received and not yet taken, oldest first.
    pub closed spec fn rx(&self) -> Seq<EventFields> {
        fields_of(self.rx_buffer@)
    }

    pub fn new(cs: u8) -> (d: Self)
        requires
            cs < SLOT_COUNT,
        ensures
            d.chip_select() == cs,
            d.tx() == Seq::<EventFields>::empty(),
            d.rx() == Seq::<EventFields>::empty(),
    {
        let d = DownstreamDevice { cs, tx_buffer: RingBuffer::new(), rx_buffer: RingBuffer::new() };
        assert(d.tx() =~= Seq::<EventFields>::empty());
        assert(d.rx() =~= Seq::<EventFields>::empty());
        d
    }

    pub fn cs(&self) -> (r: u8)
        ensures
            r == self.chip_select(),
            r < SLOT_COUNT,
    {
        proof {
            use_type_invariant(self);
        }
        self.cs
    }

    /// Takes the frame of this tick from the transmit queue: its oldest
    /// event, or the idle frame where the queue is empty.
    pub fn next_frame(&mut self) -> (frame: [u8; 8])
        ensures
            frame@ == encode(outgoing(old(self).tx())),
            final(self).tx() == popped(old(self).tx()),
            final(self).rx() == old(self).rx(),
            final(self).chip_select() == old(self).chip_select(),
    {
        proof {
            use_type_invariant(&*self);
        }
        let ghost before = self.tx_buffer@;
        let event = match self.tx_buffer.pop() {
            Some(event) => event,
            None => NegiconEvent::from_fields(NegiconEventType::Output, 0, 0, 0x39, 39, 0),
        };
        assert(fields_of(popped(before)) =~= popped(fields_of(before)));
        event.serialize()
    }

    /// Keeps what the exchange brought: the decoded reply goes to the
    /// receive queue, and is dropped where that queue is full; a fault of
    /// the bus is handed on and leaves the queue as it was.
    pub fn accept_reply(&mut self, reply: Result<[u8; 8], DownstreamError>) -> (r: Result<
        (),
        DownstreamError,
    >)
        ensures
            r == poll_result(reply),
            final(self).rx() == received(old(self).rx(), reply),
            final(self).tx() == old(self).tx(),
            final(self).chip_select() == old(self).chip_select(),
    {
        proof {
            use_type_invariant(&*self);
        }
        match reply {
            Ok(frame) => {
                let ghost before = self.rx_buffer@;
                let event = NegiconEvent::deserialize(frame);
                let _ = self.rx_buffer.push(event);
                assert(fields_of(pushed(before, 4, event)) =~= pushed(
                    fields_of(before),
                    4,
                    event@,
                ));
                Ok(())
            },
            Err(e) => Err(e),
        }
    }

    /// One tick of the slot: sends the frame of this tick to the slot's
    /// peripheral and keeps the reply. The transmit queue loses its oldest
    /// event whatever the bus does; the receive queue and the result are
    /// those of `accept_reply` for what the bus returned.
    pub fn poll<I: DownstreamInterface + ?Sized>(&mut self, interface: &mut I) -> (r: Result<
        (),
        DownstreamError,
    >)
        ensures
            final(self).tx() == popped(old(self).tx()),
            final(self).chip_select() == old(self).chip_select(),
            exists|reply: Result<[u8; 8], DownstreamError>|
                r == poll_result(reply) && final(self).rx() == #[trigger] received(
                    old(self).rx(),
                    reply,
                ),
    {
        let mut packet = self.next_frame();
        let cs = self.cs();
        let reply = interface.transfer(cs, &mut packet);
        let ghost before = self.rx();
        let r = self.accept_reply(reply);
        assert(self.rx() == received(before, reply));
        r
    }

    /// Queues `event` for a later tick, or reports `TxOverflow` where the
    /// transmit queue is full.
    pub fn send(&mut self, event: NegiconEvent) -> (r: Result<(), DownstreamError>)
        ensures
            old(self).tx().len() < SLOT_QUEUE_CAPACITY ==> r == Ok::<(), DownstreamError>(()),
            old(self).tx().len() >= SLOT_QUEUE_CAPACITY ==> r == Err::<(), DownstreamError>(
                DownstreamError::TxOverflow,
            ),
            final(self).tx() == pushed(old(self).tx(), SLOT_QUEUE_CAPACITY as nat, event@),
            final(self).rx() == old(self).rx(),
            final(self).chip_select() == old(self).chip_select(),
    {
        proof {
            use_type_invariant(&*self);
        }
        let ghost before = self.tx_buffer@;
        let pushed_ok = self.tx_buffer.push(event);
        assert(fields_of(pushed(before, 4, event)) =~= pushed(fields_of(before), 4, event@));
        match pushed_ok {
            Ok(()) => Ok(()),
            Err(_) => Err(DownstreamError::TxOverflow),
        }
    }

    /// Takes the oldest received event, if there is one; never blocks and
    /// never fails.
    pub fn receive(&mut self) -> (r: Result<Option<NegiconEvent>, DownstreamError>)
        ensures
            match r {
                Ok(Some(event)) => front(old(self).rx()) == Some(event@),
                Ok(None) => old(self).rx().len() == 0,
                Err(_) => false,
            },
            final(self).rx() == popped(old(self).rx()),
            final(self).tx() == old(self).tx(),
            final(self).chip_select() == old(self).chip_select(),
    {
        proof {
            use_type_invariant(&*self);
        }
        let ghost before = self.rx_buffer@;
        let event = self.rx_buffer.pop();
        assert(fields_of(popped(before)) =~= popped(fields_of(before)));
        Ok(event)
    }
}

} // verus!
