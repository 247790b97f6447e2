//! The fixed 8-byte event frame: its fields, its byte layout, and the total
//! encoder and decoder between the two.

use vstd::prelude::*;
use crate::bytes::{be16, from_twos_complement, make_i16, make_u16, split_i16, split_u16,
    twos_complement};

verus! {

/// `ux::u7`: what it holds is known only through `u7_bits`.
#[verifier::external_type_specification]
#[verifier::external_body]
pub struct ExSevenBits(ux::u7);

/// The number that a `ux::u7` holds, as `u8::from` reports it.
pub uninterp spec fn u7_bits(x: ux::u7) -> u8;

/// `u8::from` on a `ux::u7`: the conversion is lossless and a `u7` never
/// holds more than `u7::MAX`, which is 127.
#[verifier::external_body]
fn u7_to_u8(x: ux::u7) -> (r: u8)
    ensures
        r == u7_bits(x),
        r <= 127,
{
    u8::from(x)
}

#[derive(Clone, Copy, Debug, PartialEq, Eq, Structural)]
pub enum NegiconEventType {
    Input,
    Output,
    MemWrite,
    Reboot,
    SetControllerId,
    Log,
}

/// The fields of an event as plain values; `sub_id` is below 128 in every
/// event that exists at run time.
pub struct EventFields {
    pub event_type: NegiconEventType,
    pub id: u16,
    pub sub_id: u8,
    pub value: i16,
    pub controller_id: u8,
    pub sequence: u8,
}

/// One application message. Copied by value; never longer than 8 bytes on
/// the wire.
#[derive(Clone, Copy, Debug, PartialEq, Eq)]
pub struct NegiconEvent {
    event_type: NegiconEventType,
    id: u16,
    sub_id: u8,
    value: i16,
    controller_id: u8,
    sequence: u8,
}

/// The discriminant that byte 0 carries for a type other than `Input`
/// (0 for `Input`, which has no discriminant of its own).
pub open spec fn type_tag(t: NegiconEventType) -> u8 {
    match t {
        NegiconEventType::Input => 0,
        NegiconEventType::Output => 1,
        NegiconEventType::MemWrite => 2,
        NegiconEventType::Reboot => 3,
        NegiconEventType::SetControllerId => 4,
        NegiconEventType::Log => 5,
    }
}

/// Byte 0 of the frame: top bit and sub-id for an input, the bare
/// discriminant otherwise.
pub open spec fn head_byte(f: EventFields) -> int {
    if f.event_type == NegiconEventType::Input {
        128 + f.sub_id as int
    } else {
        type_tag(f.event_type) as int
    }
}

/// The frame of an event: type and sub-id, id and value big-endian,
/// controller, sequence, and a zero in the reserved byte.
pub open spec fn encode(f: EventFields) -> Seq<u8> {
    seq![
        head_byte(f) as u8,
        (f.id as int / 256) as u8,
        (f.id as int % 256) as u8,
        (twos_complement(f.value) / 256) as u8,
        (twos_complement(f.value) % 256) as u8,
        f.controller_id,
        f.sequence,
        0u8,
    ]
}

/// The type that byte 0 stands for. A byte with the top bit clear that is
/// no discriminant falls back to `Input`.
pub open spec fn decode_type(head: u8) -> NegiconEventType {
    if head >= 128 {
        NegiconEventType::Input
    } else if head == 1 {
        NegiconEventType::Output
    } else if head == 2 {
        NegiconEventType::MemWrite
    } else if head == 3 {
        NegiconEventType::Reboot
    } else if head == 4 {
        NegiconEventType::SetControllerId
    } else if head == 5 {
        NegiconEventType::Log
    } else {
        NegiconEventType::Input
    }
}

/// The sub-id that byte 0 stands for: its low seven bits where the top bit
/// marks an input, and 0 otherwise, since a byte with the top bit clear
/// carries no sub-id.
pub open spec fn decode_sub_id(head: u8) -> u8 {
    if head >= 128 {
        (head - 128) as u8
    } else {
        0
    }
}

/// The event that a frame of 8 bytes stands for. Byte 7 is not read.
pub open spec fn decode(frame: Seq<u8>) -> EventFields {
    EventFields {
        event_type: decode_type(frame[0]),
        id: be16(frame[1], frame[2]) as u16,
        sub_id: decode_sub_id(frame[0]),
        value: from_twos_complement(be16(frame[3], frame[4])) as i16,
        controller_id: frame[5],
        sequence: frame[6],
    }
}

/// Whether decoding gives back every field: the sub-id fits in seven bits,
/// and an event that is no input, whose sub-id is not on the wire, has
/// sub-id 0.
pub open spec fn canonical(f: EventFields) -> bool {
    &&& f.sub_id < 128
    &&& f.event_type != NegiconEventType::Input ==> f.sub_id == 0
}

impl View for NegiconEvent {
    type V = EventFields;

    closed spec fn view(&self) -> EventFields {
        EventFields {
            event_type: self.event_type,
            id: self.id,
            sub_id: self.sub_id,
            value: self.value,
            controller_id: self.controller_id,
            sequence: self.sequence,
        }
    }
}

impl NegiconEvent {
    #[verifier::type_invariant]
    spec fn seven_bit_sub_id(self) -> bool {
        self.sub_id < 128
    }

    pub fn new(
        event_type: NegiconEventType,
        id: u16,
        sub_id: ux::u7,
        value: i16,
        controller_id: u8,
        sequence: u8,
    ) -> (e: Self)
        ensures
            e@ == (EventFields {
                event_type,
                id,
                sub_id: u7_bits(sub_id),
                value,
                controller_id,
                sequence,
            }),
            e@.sub_id < 128,
    {
        let bits: u8 = u7_to_u8(sub_id);
        NegiconEvent { event_type, id, sub_id: bits, value, controller_id, sequence }
    }

    /// An event from plain fields; `sub_id` must fit in seven bits.
    pub fn from_fields(
        event_type: NegiconEventType,
        id: u16,
        sub_id: u8,
        value: i16,
        controller_id: u8,
        sequence: u8,
    ) -> (e: Self)
        requires
            sub_id < 128,
        ensures
            e@ == (EventFields { event_type, id, sub_id, value, controller_id, sequence }),
    {
        NegiconEvent { event_type, id, sub_id, value, controller_id, sequence }
    }

    pub fn event_type(&self) -> (r: NegiconEventType)
        ensures
            r == self@.event_type,
    {
        self.event_type
    }

    pub fn id(&self) -> (r: u16)
        ensures
            r == self@.id,
    {
        self.id
    }

    pub fn sub_id(&self) -> (r: u8)
        ensures
            r == self@.sub_id,
            r < 128,
    {
        proof {
            use_type_invariant(self);
        }
        self.sub_id
    }

    pub fn value(&self) -> (r: i16)
        ensures
            r == self@.value,
    {
        self.value
    }

    pub fn controller_id(&self) -> (r: u8)
        ensures
            r == self@.controller_id,
    {
        self.controller_id
    }

    pub fn sequence(&self) -> (r: u8)
        ensures
            r == self@.sequence,
    {
        self.sequence
    }

    pub fn serialize(&self) -> (frame: [u8; 8])
        ensures
            frame@ == encode(self@),
    {
        proof {
            use_type_invariant(self);
        }
        let byte0: u8 = match self.event_type {
            NegiconEventType::Input => 128 + self.sub_id,
            NegiconEventType::Output => 1,
            NegiconEventType::MemWrite => 2,
            NegiconEventType::Reboot => 3,
            NegiconEventType::SetControllerId => 4,
            NegiconEventType::Log => 5,
        };
        let id: (u8, u8) = split_u16(self.id);
        let value: (u8, u8) = split_i16(self.value);
        let frame: [u8; 8] = [
            byte0,
            id.0,
            id.1,
            value.0,
            value.1,
            self.controller_id,
            self.sequence,
            0u8,
        ];
        assert(frame@ =~= encode(self@));
        frame
    }

    pub fn deserialize(data: [u8; 8]) -> (e: Self)
        ensures
            e@ == decode(data@),
    {
        let head: u8 = data[0];
        let event_type = if head >= 128 {
            NegiconEventType::Input
        } else if head == 1 {
            NegiconEventType::Output
        } else if head == 2 {
            NegiconEventType::MemWrite
        } else if head == 3 {
            NegiconEventType::Reboot
        } else if head == 4 {
            NegiconEventType::SetControllerId
        } else if head == 5 {
            NegiconEventType::Log
        } else {
            NegiconEventType::Input
        };
        let sub_id: u8 = if head >= 128 {
            head - 128
        } else {
            0
        };
        NegiconEvent {
            event_type,
            id: make_u16(data[1], data[2]),
            sub_id,
            value: make_i16(data[3], data[4]),
            controller_id: data[5],
            sequence: data[6],
        }
    }

    /// Whether this is the idle frame that a slot sends when it has nothing
    /// else to say.
    pub fn is_ping(&self) -> (r: bool)
        ensures
            r == is_ping_fields(self@),
    {
        matches!(self.event_type, NegiconEventType::Output) && self.id == 0 && self.value == 0x39
            && self.controller_id == 39
    }
}

/// The idle frame: an output with id 0, value 0x39 and controller 39.
pub open spec fn is_ping_fields(f: EventFields) -> bool {
    &&& f.event_type == NegiconEventType::Output
    &&& f.id == 0
    &&& f.value == 0x39
    &&& f.controller_id == 39
}

/// Two events with the same fields are the same event.
pub proof fn lemma_view_injective(a: NegiconEvent, b: NegiconEvent)
    requires
        a@ == b@,
    ensures
        a == b,
{
}

/// Decoding the frame of an event gives back its type, id, value, controller
/// and sequence; the sub-id of an input comes back too, and that of any
/// other event comes back as 0. So every canonical event comes back exactly.
pub proof fn lemma_decode_encode(f: EventFields)
    requires
        f.sub_id < 128,
    ensures
        decode(encode(f)).event_type == f.event_type,
        decode(encode(f)).id == f.id,
        decode(encode(f)).value == f.value,
        decode(encode(f)).controller_id == f.controller_id,
        decode(encode(f)).sequence == f.sequence,
        f.event_type == NegiconEventType::Input ==> decode(encode(f)).sub_id == f.sub_id,
        f.event_type != NegiconEventType::Input ==> decode(encode(f)).sub_id == 0,
        canonical(decode(encode(f))),
        canonical(f) ==> decode(encode(f)) == f,
{
}

/// The event that `deserialize` makes of the frame that `serialize` made of
/// a canonical event is that event.
pub proof fn lemma_round_trip(e: NegiconEvent, d: NegiconEvent)
    requires
        canonical(e@),
        d@ == decode(encode(e@)),
    ensures
        d == e,
{
    lemma_decode_encode(e@);
    lemma_view_injective(d, e);
}

/// A byte 0 with the top bit clear that is none of the discriminants 1 to 5
/// decodes as an input with sub-id 0.
pub proof fn lemma_tag_fallback(frame: Seq<u8>)
    requires
        frame.len() == 8,
        frame[0] < 128,
        !(1 <= frame[0] <= 5),
    ensures
        decode(frame).event_type == NegiconEventType::Input,
        decode(frame).sub_id == 0,
{
}

/// Every decoded event is canonical, and encoding it gives back the frame
/// but for the reserved byte and for the low bits of a fallback byte 0.
pub proof fn lemma_encode_decode(frame: Seq<u8>)
    requires
        frame.len() == 8,
    ensures
        canonical(decode(frame)),
        encode(decode(frame)).len() == 8,
        forall|i: int| 1 <= i < 7 ==> encode(decode(frame))[i] == frame[i],
        frame[0] >= 128 || 1 <= frame[0] <= 5 ==> encode(decode(frame))[0] == frame[0],
        encode(decode(frame))[7] == 0,
{
}

} // verus!
