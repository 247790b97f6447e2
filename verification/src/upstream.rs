//! The host side: two queues of raw frames and the rules by which a
//! transport fills the one and drains the other.

use vstd::prelude::*;
use crate::negicon_event::{decode, encode, EventFields, NegiconEvent};
use crate::ringbuf::{front, popped, pushed, RingBuffer};

verus! {

/// How many frames each queue towards the host holds.
pub const HOST_QUEUE_CAPACITY: usize = 64;

/// What the USB stack reports instead of success.
#[derive(Clone, Copy, Debug, PartialEq, Eq, Structural)]
pub enum UsbError {
    WouldBlock,
    ParseError,
    BufferOverflow,
    EndpointOverflow,
    EndpointMemoryOverflow,
    InvalidEndpoint,
    Unsupported,
    InvalidState,
}

#[derive(Clone, Copy, Debug, PartialEq, Eq, Structural)]
pub enum UpstreamError {
    SpiError,
    UsbError(UsbError),
    BufferOverflow,
    InvalidMessage,
}

/// Why a transport did not take or give a frame.
#[derive(Clone, Copy, Debug, PartialEq, Eq, Structural)]
pub enum TransportFault {
    /// Nothing to read, or no room to write, right now.
    WouldBlock,
    Usb(UsbError),
    Spi,
}

/// What the transport is to do next within one poll.
#[derive(Clone, Copy, Debug, PartialEq, Eq)]
pub enum PollNext {
    /// Try to read one frame and report with `on_read`.
    Read,
    /// Try to write this frame and report with `on_write`.
    Write([u8; 8]),
    /// The poll is over.
    Done(Result<(), UpstreamError>),
}

/// Whether a fault only says "not now".
pub open spec fn would_block(fault: TransportFault) -> bool {
    fault == TransportFault::WouldBlock || fault == TransportFault::Usb(UsbError::WouldBlock)
}

/// The error that a genuine fault of the transport becomes.
pub open spec fn fault_error(fault: TransportFault) -> UpstreamError {
    match fault {
        TransportFault::Usb(e) => UpstreamError::UsbError(e),
        _ => UpstreamError::SpiError,
    }
}

/// The bytes of each frame of a queue.
pub open spec fn frames_of(q: Seq<[u8; 8]>) -> Seq<Seq<u8>> {
    q.map_values(|frame: [u8; 8]| frame@)
}

/// What a poll does next once reading is over, for a transmit queue `tx`:
/// it writes the oldest frame, or ends where there is none.
pub open spec fn write_step(tx: Seq<Seq<u8>>, next: PollNext) -> bool {
    if tx.len() > 0 {
        next matches PollNext::Write(frame) && frame@ == tx[0]
    } else {
        next == PollNext::Done(Ok(()))
    }
}

pub struct Upstream {
    tx_buffer: RingBuffer<[u8; 8], 64>,
    rx_buffer: RingBuffer<[u8; 8], 64>,
}

impl Upstream {
    /// The frames waiting for the host, oldest first.
    pub closed spec fn tx(&self) -> Seq<Seq<u8>> {
        frames_of(self.tx_buffer@)
    }

    /// The frames that came from the host and were not taken yet.
    pub closed spec fn rx(&self) -> Seq<Seq<u8>> {
        frames_of(self.rx_buffer@)
    }

    pub fn new() -> (u: Self)
        ensures
            u.tx() == Seq::<Seq<u8>>::empty(),
            u.rx() == Seq::<Seq<u8>>::empty(),
    {
        let u = Upstream { tx_buffer: RingBuffer::new(), rx_buffer: RingBuffer::new() };
        assert(u.tx() =~= Seq::<Seq<u8>>::empty());
        assert(u.rx() =~= Seq::<Seq<u8>>::empty());
        u
    }

    /// Queues the frame of `event` for the host, or reports
    /// `BufferOverflow` and changes nothing where the queue is full.
    pub fn send(&mut self, event: &NegiconEvent) -> (r: Result<(), UpstreamError>)
        ensures
            old(self).tx().len() < HOST_QUEUE_CAPACITY ==> r == Ok::<(), UpstreamError>(()),
            old(self).tx().len() >= HOST_QUEUE_CAPACITY ==> r == Err::<(), UpstreamError>(
                UpstreamError::BufferOverflow,
            ),
            final(self).tx() == pushed(old(self).tx(), HOST_QUEUE_CAPACITY as nat, encode(event@)),
            final(self).rx() == old(self).rx(),
    {
        let ghost before = self.tx_buffer@;
        let frame = event.serialize();
        let pushed_ok = self.tx_buffer.push(frame);
        assert(frames_of(pushed(before, 64, frame)) =~= pushed(frames_of(before), 64, frame@));
        match pushed_ok {
            Ok(()) => Ok(()),
            Err(_) => Err(UpstreamError::BufferOverflow),
        }
    }

    /// Takes the oldest frame that came from the host, decoded; never
    /// blocks and never fails, since every frame decodes.
    pub fn receive(&mut self) -> (r: Result<Option<NegiconEvent>, UpstreamError>)
        ensures
            match r {
                Ok(Some(event)) => old(self).rx().len() > 0 && event@ == decode(old(self).rx()[0]),
                Ok(None) => old(self).rx().len() == 0,
                Err(_) => false,
            },
            final(self).rx() == popped(old(self).rx()),
            final(self).tx() == old(self).tx(),
    {
        let ghost before = self.rx_buffer@;
        let frame = self.rx_buffer.pop();
        assert(frames_of(popped(before)) =~= popped(frames_of(before)));
        match frame {
            Some(frame) => Ok(Some(NegiconEvent::deserialize(frame))),
            None => Ok(None),
        }
    }

    /// The first step of a poll: reading comes before writing.
    pub fn poll_begin(&self) -> (next: PollNext)
        ensures
            next == PollNext::Read,
    {
        PollNext::Read
    }

    /// Takes the outcome of a read. A frame is kept, or dropped where the
    /// receive queue is full, and reading goes on; "would block" ends the
    /// reading and starts the writing; any other fault ends the poll with
    /// its error.
    pub fn on_read(&mut self, outcome: Result<[u8; 8], TransportFault>) -> (next: PollNext)
        ensures
            final(self).tx() == old(self).tx(),
            match outcome {
                Ok(frame) => {
                    &&& next == PollNext::Read
                    &&& final(self).rx() == pushed(
                        old(self).rx(),
                        HOST_QUEUE_CAPACITY as nat,
                        frame@,
                    )
                },
                Err(fault) => {
                    &&& final(self).rx() == old(self).rx()
                    &&& if would_block(fault) {
                        write_step(old(self).tx(), next)
                    } else {
                        next == PollNext::Done(Err(fault_error(fault)))
                    }
                },
            },
    {
        match outcome {
            Ok(frame) => {
                let ghost before = self.rx_buffer@;
                let _ = self.rx_buffer.push(frame);
                assert(frames_of(pushed(before, 64, frame)) =~= pushed(
                    frames_of(before),
                    64,
                    frame@,
                ));
                PollNext::Read
            },
            Err(TransportFault::WouldBlock) => self.next_write(),
            Err(TransportFault::Usb(UsbError::WouldBlock)) => self.next_write(),
            Err(TransportFault::Usb(e)) => PollNext::Done(Err(UpstreamError::UsbError(e))),
            Err(TransportFault::Spi) => PollNext::Done(Err(UpstreamError::SpiError)),
        }
    }

    /// Takes the outcome of a write of the oldest frame. Only a write that
    /// succeeded removes the frame, and writing goes on with the next;
    /// "would block" ends the poll without an error and keeps the frame;
    /// any other fault ends the poll with its error and keeps the frame.
    pub fn on_write(&mut self, outcome: Result<(), TransportFault>) -> (next: PollNext)
        ensures
            final(self).rx() == old(self).rx(),
            match outcome {
                Ok(()) => {
                    &&& final(self).tx() == popped(old(self).tx())
                    &&& write_step(final(self).tx(), next)
                },
                Err(fault) => {
                    &&& final(self).tx() == old(self).tx()
                    &&& next == PollNext::Done(
                        if would_block(fault) {
                            Ok(())
                        } else {
                            Err(fault_error(fault))
                        },
                    )
                },
            },
    {
        match outcome {
            Ok(()) => {
                let ghost before = self.tx_buffer@;
                self.tx_buffer.discard();
                assert(frames_of(popped(before)) =~= popped(frames_of(before)));
                self.next_write()
            },
            Err(TransportFault::WouldBlock) => PollNext::Done(Ok(())),
            Err(TransportFault::Usb(UsbError::WouldBlock)) => PollNext::Done(Ok(())),
            Err(TransportFault::Usb(e)) => PollNext::Done(Err(UpstreamError::UsbError(e))),
            Err(TransportFault::Spi) => PollNext::Done(Err(UpstreamError::SpiError)),
        }
    }

    fn next_write(&self) -> (next: PollNext)
        ensures
            write_step(self.tx(), next),
    {
        match self.tx_buffer.peek() {
            Some(frame) => PollNext::Write(frame),
            None => PollNext::Done(Ok(())),
        }
    }
}

/// Collects the bytes of one inbound frame as a byte-wide transport
/// delivers them.
pub struct FrameAssembler {
    buffer: [u8; 8],
    index: usize,
}

impl FrameAssembler {
    #[verifier::type_invariant]
    spec fn inv(self) -> bool {
        self.index < 8
    }

    /// The bytes collected so far, in the order they came.
    pub closed spec fn pending(&self) -> Seq<u8> {
        self.buffer@.subrange(0, self.index as int)
    }

    pub fn new() -> (a: Self)
        ensures
            a.pending() == Seq::<u8>::empty(),
    {
        let a = FrameAssembler { buffer: [0u8; 8], index: 0 };
        assert(a.pending() =~= Seq::<u8>::empty());
        a
    }

    /// Takes one byte. The eighth byte completes a frame, which is handed
    /// out, and collecting starts anew.
    pub fn push_byte(&mut self, byte: u8) -> (r: Option<[u8; 8]>)
        ensures
            r is Some <==> old(self).pending().len() == 7,
            match r {
                Some(frame) => {
                    &&& frame@ == old(self).pending().push(byte)
                    &&& final(self).pending() == Seq::<u8>::empty()
                },
                None => final(self).pending() == old(self).pending().push(byte),
            },
            final(self).pending().len() < 8,
    {
        proof {
            use_type_invariant(&*self);
        }
        let ghost before = *self;
        let mut buffer = self.buffer;
        buffer[self.index] = byte;
        if self.index == 7 {
            *self = FrameAssembler { buffer, index: 0 };
            assert(buffer@ =~= before.pending().push(byte));
            assert(self.pending() =~= Seq::<u8>::empty());
            Some(buffer)
        } else {
            *self = FrameAssembler { buffer, index: self.index + 1 };
            assert(self.pending() =~= before.pending().push(byte));
            None
        }
    }
}

} // verus!
