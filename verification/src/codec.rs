//! The two directions of the codec, on whole buffers.

use vstd::prelude::*;
use crate::stream::{Decoder, Step};
use crate::value::u7;
use crate::wire::{
    encoding, frame_value, is_frame, is_minimal_encoding, lemma_encoding_is_minimal,
    lemma_encoding_len_u32, lemma_frame_in_prefix, lemma_or_shift, lemma_payload_bound,
    lemma_payload_push, lemma_weights, payload, truncated,
};

verus! {

impl u7 {
    /// Decodes the value at the front of `bytes` and reports how many bytes
    /// it occupies.
    ///
    /// At most five bytes are read. Of a fifth byte only the low four bits
    /// count: its continuation flag and the payload bits above bit 31 are
    /// ignored.
    pub fn from_encoded_bytes(bytes: &[u8]) -> (r: (u7, usize))
        requires
            !truncated(bytes@),
        ensures
            is_frame(bytes@, r.1 as nat),
            r.0@ == frame_value(bytes@, r.1 as nat),
    {
        let mut value: u32 = 0;
        let mut shift: u32 = 0;
        let mut i: usize = 0;
        loop
            invariant_except_break
                i < 5,
                shift == 7 * i,
                value == payload(bytes@.take(i as int)),
                forall|k: int| 0 <= k < i ==> bytes@[k] >= 128,
            invariant
                !truncated(bytes@),
            ensures
                is_frame(bytes@, i as nat),
                value == frame_value(bytes@, i as nat),
            decreases 5 - i,
        {
            let byte: u8 = bytes[i];
            proof {
                let seen = bytes@.take(i as int);
                assert(bytes@.take(i + 1) =~= seen.push(byte));
                lemma_payload_push(seen, byte);
                lemma_payload_bound(seen);
                lemma_weights();
                lemma_payload_bound(seen.push(byte));
                lemma_or_shift(value, byte, shift);
                assert(byte & 0x80 == 0 <==> byte < 128) by (bit_vector);
            }
            value |= ((byte & 0x7F) as u32) << shift;
            shift += 7;
            i += 1;
            if byte & 0x80 == 0 || shift >= 32 {
                break ;
            }
        }
        (u7::new(value), i)
    }

    /// Decodes the value at the front of `bytes` if the buffer holds all of
    /// it, and reports how many bytes it occupies; `None` where the buffer
    /// ends before the value does.
    pub fn try_from_encoded_bytes(bytes: &[u8]) -> (r: Option<(u7, usize)>)
        ensures
            r is None <==> truncated(bytes@),
            r matches Some((v, n)) ==> is_frame(bytes@, n as nat) && v@ == frame_value(
                bytes@,
                n as nat,
            ),
    {
        let mut decoder = Decoder::new();
        let mut i: usize = 0;
        while i < bytes.len()
            invariant
                i <= bytes.len(),
                decoder@ == bytes@.take(i as int),
                truncated(decoder@),
            decreases bytes.len() - i,
        {
            proof {
                assert(bytes@.take(i + 1) =~= bytes@.take(i as int).push(bytes@[i as int]));
            }
            match decoder.push(bytes[i]) {
                Step::Done(value) => {
                    proof {
                        lemma_frame_in_prefix(bytes@, (i + 1) as nat);
                    }
                    return Some((value, i + 1));
                },
                Step::More(next) => {
                    decoder = next;
                },
            }
            i += 1;
        }
        proof {
            assert(bytes@.take(i as int) =~= bytes@);
        }
        None
    }

    /// Encodes the value into its shortest byte sequence: one to five
    /// bytes, the continuation flag set on all but the last.
    pub fn to_encoded_bytes(&self) -> (bytes: Vec<u8>)
        ensures
            bytes@ == encoding(self@ as nat),
            is_minimal_encoding(bytes@),
            1 <= bytes@.len() <= 5,
    {
        let mut value: u32 = u32::from(*self);
        let mut bytes: Vec<u8> = Vec::new();
        while value >= 0x80
            invariant
                encoding(self@ as nat) == bytes@ + encoding(value as nat),
            decreases value,
        {
            let low: u8 = (value & 0x7F) as u8 | 0x80;
            proof {
                assert(((value & 0x7F) as u8 | 0x80) == 128 + value % 128) by (bit_vector);
                assert(value >> 7 == value / 128) by (bit_vector);
                assert(bytes@.push(low) + encoding((value / 128) as nat) == bytes@ + encoding(
                    value as nat,
                ));
            }
            bytes.push(low);
            value >>= 7;
        }
        proof {
            assert(bytes@.push(value as u8) == bytes@ + encoding(value as nat));
            lemma_encoding_is_minimal(self@ as nat);
            lemma_encoding_len_u32(self@);
        }
        bytes.push(value as u8);
        bytes
    }
}

} // verus!
