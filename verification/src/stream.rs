//! Decoding one byte at a time, for callers that fetch the bytes themselves.

use vstd::prelude::*;
use crate::wire::{
    frame_value, is_frame, lemma_or_shift, lemma_payload_bound, lemma_payload_push,
    lemma_weights, payload, truncated,
};
use crate::value::u7;

verus! {

/// The state of a decoding in progress: the bytes taken so far, none of them
/// the last of the value.
pub struct Decoder {
    value: u32,
    shift: u32,
    seen: Ghost<Seq<u8>>,
}

/// What a decoder asks for after it has taken a byte.
pub enum Step {
    /// The value is not complete: fetch the next byte and push it.
    More(Decoder),
    /// The byte was the last of the value.
    Done(u7),
}

impl View for Decoder {
    type V = Seq<u8>;

    /// The bytes pushed so far.
    closed spec fn view(&self) -> Seq<u8> {
        self.seen@
    }
}

impl Decoder {
    #[verifier::type_invariant]
    spec fn wf(self) -> bool {
        &&& truncated(self.seen@)
        &&& self.shift == 7 * self.seen@.len()
        &&& self.value == payload(self.seen@)
    }

    /// A decoder that has taken no byte yet.
    pub fn new() -> (d: Decoder)
        ensures
            d@ == Seq::<u8>::empty(),
    {
        Decoder { value: 0, shift: 0, seen: Ghost(Seq::empty()) }
    }

    /// Takes the next byte. The value is complete when the byte has no
    /// continuation flag or is the fifth one; until then the decoder moves on
    /// with the byte appended.
    pub fn push(self, byte: u8) -> (step: Step)
        ensures
            match step {
                Step::Done(v) => {
                    &&& is_frame(self@.push(byte), self@.len() + 1)
                    &&& v@ == frame_value(self@.push(byte), self@.len() + 1)
                },
                Step::More(d) => d@ == self@.push(byte) && truncated(d@),
            },
    {
        let ghost seen = self.seen@.push(byte);
        proof {
            use_type_invariant(&self);
            assert(seen.take(seen.len() as int) =~= seen);
            lemma_payload_push(self.seen@, byte);
            lemma_payload_bound(self.seen@);
            lemma_payload_bound(seen);
            lemma_weights();
            lemma_or_shift(self.value, byte, self.shift);
            assert(byte & 0x80 == 0 <==> byte < 128) by (bit_vector);
        }
        let value: u32 = self.value | (((byte & 0x7F) as u32) << self.shift);
        let shift: u32 = self.shift + 7;
        if byte & 0x80 == 0 || shift >= 32 {
            Step::Done(u7::new(value))
        } else {
            Step::More(Decoder { value, shift, seen: Ghost(seen) })
        }
    }
}

} // verus!
