//! What crosses the bus in one exchange: a frame as two 32-bit words, most
//! significant byte first, and the words that come back as a frame.

use vstd::prelude::*;
use crate::bytes::{be32, make_u32, split_u32, word_byte};

verus! {

/// Byte `i` of the frame that two words spell.
pub open spec fn frame_byte(first: u32, second: u32, i: int) -> int {
    if i < 4 {
        word_byte(first, i)
    } else {
        word_byte(second, i - 4)
    }
}

/// The two words that carry a frame.
pub fn frame_words(packet: &[u8; 8]) -> (words: (u32, u32))
    ensures
        words.0 as int == be32(packet@[0], packet@[1], packet@[2], packet@[3]),
        words.1 as int == be32(packet@[4], packet@[5], packet@[6], packet@[7]),
{
    (
        make_u32(packet[0], packet[1], packet[2], packet[3]),
        make_u32(packet[4], packet[5], packet[6], packet[7]),
    )
}

/// The frame that two words carry.
pub fn words_frame(first: u32, second: u32) -> (frame: [u8; 8])
    ensures
        forall|i: int| 0 <= i < 8 ==> frame@[i] as int == frame_byte(first, second, i),
        first as int == be32(frame@[0], frame@[1], frame@[2], frame@[3]),
        second as int == be32(frame@[4], frame@[5], frame@[6], frame@[7]),
{
    let a = split_u32(first);
    let b = split_u32(second);
    [a.0, a.1, a.2, a.3, b.0, b.1, b.2, b.3]
}

/// How far the reply of one exchange has come in.
#[derive(Clone, Copy, Debug, PartialEq, Eq, Structural)]
pub enum Reception {
    /// No word yet.
    AwaitFirst,
    /// The first word is in.
    AwaitSecond(u32),
    /// Both words are in.
    Complete(u32, u32),
}

impl Reception {
    /// The state after looking into the receive buffer once: a word moves
    /// the reception on, an empty buffer leaves it where it is, and nothing
    /// is taken once both words are in.
    pub open spec fn after(self, word: Option<u32>) -> Reception {
        match (self, word) {
            (Reception::AwaitFirst, Some(w)) => Reception::AwaitSecond(w),
            (Reception::AwaitSecond(first), Some(w)) => Reception::Complete(first, w),
            _ => self,
        }
    }

    pub fn start() -> (r: Self)
        ensures
            r == Reception::AwaitFirst,
    {
        Reception::AwaitFirst
    }

    pub fn on_word(self, word: Option<u32>) -> (r: Self)
        ensures
            r == self.after(word),
    {
        match (self, word) {
            (Reception::AwaitFirst, Some(w)) => Reception::AwaitSecond(w),
            (Reception::AwaitSecond(first), Some(w)) => Reception::Complete(first, w),
            _ => self,
        }
    }

    /// The reply, once both words are in.
    pub fn reply(&self) -> (r: Option<[u8; 8]>)
        ensures
            match *self {
                Reception::Complete(first, second) => r matches Some(frame) && (forall|i: int|
                    0 <= i < 8 ==> frame@[i] as int == frame_byte(first, second, i)),
                _ => r.is_none(),
            },
    {
        match self {
            Reception::Complete(first, second) => Some(words_frame(*first, *second)),
            _ => None,
        }
    }
}

/// The bytes of the word that four bytes spell are those four bytes.
pub proof fn lemma_word_bytes(b0: u8, b1: u8, b2: u8, b3: u8, word: u32)
    requires
        word as int == be32(b0, b1, b2, b3),
    ensures
        word_byte(word, 0) == b0,
        word_byte(word, 1) == b1,
        word_byte(word, 2) == b2,
        word_byte(word, 3) == b3,
{
    assert(word / 16777216 == b0 && (word / 65536) % 256 == b1 && (word / 256) % 256 == b2 && word
        % 256 == b3) by (bit_vector)
        requires
            word == b0 * 16777216 + b1 * 65536 + b2 * 256 + b3,
    ;
}

/// Packing a frame into words and unpacking the words gives the frame back.
pub proof fn lemma_frame_words_round_trip(packet: [u8; 8], first: u32, second: u32, frame: [u8; 8])
    requires
        first as int == be32(packet@[0], packet@[1], packet@[2], packet@[3]),
        second as int == be32(packet@[4], packet@[5], packet@[6], packet@[7]),
        forall|i: int| 0 <= i < 8 ==> frame@[i] as int == frame_byte(first, second, i),
    ensures
        frame == packet,
{
    lemma_word_bytes(packet@[0], packet@[1], packet@[2], packet@[3], first);
    lemma_word_bytes(packet@[4], packet@[5], packet@[6], packet@[7], second);
    assert forall|i: int| 0 <= i < 8 implies frame@[i] == packet@[i] by {
        assert(frame@[i] as int == frame_byte(first, second, i));
    }
    assert(frame =~= packet);
}

} // verus!
