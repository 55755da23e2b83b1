//! The wire format: what a value's bytes are, what a buffer's bytes mean, and
//! how the two relate.

use vstd::prelude::*;

verus! {

/// The shortest byte sequence that represents `v`: seven payload bits per
/// byte, least significant group first, the high bit set on every byte but
/// the last.
pub open spec fn encoding(v: nat) -> Seq<u8>
    decreases v,
{
    if v < 128 {
        seq![v as u8]
    } else {
        seq![(128 + v % 128) as u8] + encoding(v / 128)
    }
}

/// The number that the payload bits of `bytes` spell, least significant
/// group first: byte `i` contributes its low seven bits at bit `7 * i`.
pub open spec fn payload(bytes: Seq<u8>) -> nat
    decreases bytes.len(),
{
    if bytes.len() == 0 {
        0
    } else {
        (bytes[0] % 128) as nat + 128 * payload(bytes.drop_first())
    }
}

/// `128` to the power `n`: the weight of the payload of byte `n`.
pub open spec fn weight(n: nat) -> nat
    decreases n,
{
    if n == 0 {
        1
    } else {
        128 * weight((n - 1) as nat)
    }
}

/// Whether one encoded value occupies exactly the first `n` bytes of `bytes`:
/// the bytes before the last of them have the continuation flag set, and the
/// reading stops at the first byte without the flag or at the fifth byte,
/// whichever comes first.
pub open spec fn is_frame(bytes: Seq<u8>, n: nat) -> bool {
    &&& 1 <= n <= 5
    &&& n <= bytes.len()
    &&& forall|i: int| 0 <= i < n - 1 ==> bytes[i] >= 128
    &&& (n < 5 ==> bytes[n - 1] < 128)
}

/// Whether `bytes` ends before the value at its front does: fewer than five
/// bytes, each with the continuation flag set.
pub open spec fn truncated(bytes: Seq<u8>) -> bool {
    &&& bytes.len() < 5
    &&& forall|i: int| 0 <= i < bytes.len() ==> bytes[i] >= 128
}

/// The magnitude that the first `n` bytes of `bytes` decode to. Payload bits
/// that would land above bit 31 are dropped.
pub open spec fn frame_value(bytes: Seq<u8>, n: nat) -> u32 {
    (payload(bytes.take(n as int)) % 0x1_0000_0000) as u32
}

/// Appending a byte adds its payload at the weight of its position.
pub proof fn lemma_payload_push(bytes: Seq<u8>, byte: u8)
    ensures
        payload(bytes.push(byte)) == payload(bytes) + (byte % 128) * weight(bytes.len()),
    decreases bytes.len(),
{
    let longer = bytes.push(byte);
    let p = (byte % 128) as int;
    if bytes.len() == 0 {
        assert(longer.drop_first() =~= bytes);
        assert(payload(longer) == p + 128 * payload(bytes));
        assert(p * weight(0) == p) by (nonlinear_arith)
            requires
                weight(0) == 1,
        ;
    } else {
        let rest = bytes.drop_first();
        let w = weight(rest.len()) as int;
        lemma_payload_push(rest, byte);
        assert(longer.drop_first() =~= rest.push(byte));
        assert(payload(longer) == (bytes[0] % 128) as nat + 128 * payload(rest.push(byte)));
        assert(weight(bytes.len()) == 128 * w);
        assert(p * (128 * w) == 128 * (p * w)) by (nonlinear_arith);
    }
}

/// The weights of the five positions of a frame.
pub proof fn lemma_weights()
    ensures
        weight(0) == 1,
        weight(1) == 0x80,
        weight(2) == 0x4000,
        weight(3) == 0x20_0000,
        weight(4) == 0x1000_0000,
{
    reveal_with_fuel(weight, 5);
}

/// A payload of `n` bytes is below `128` to the power `n`.
pub proof fn lemma_payload_bound(bytes: Seq<u8>)
    ensures
        payload(bytes) < weight(bytes.len()),
    decreases bytes.len(),
{
    if bytes.len() > 0 {
        lemma_payload_bound(bytes.drop_first());
    }
}

/// Whether a value occupies the first `n` bytes of a buffer, and which one,
/// depends on those bytes alone.
pub proof fn lemma_frame_in_prefix(bytes: Seq<u8>, n: nat)
    requires
        n <= bytes.len(),
    ensures
        is_frame(bytes.take(n as int), n) <==> is_frame(bytes, n),
        frame_value(bytes.take(n as int), n) == frame_value(bytes, n),
{
    let front = bytes.take(n as int);
    assert(front.take(n as int) =~= front);
    assert forall|i: int| 0 <= i < n implies #[trigger] front[i] == bytes[i] by {}
    if is_frame(bytes, n) {
        assert forall|i: int| 0 <= i < n - 1 implies front[i] >= 128 by {
            assert(bytes[i] >= 128);
        }
    }
    if is_frame(front, n) {
        assert forall|i: int| 0 <= i < n - 1 implies bytes[i] >= 128 by {
            assert(front[i] >= 128);
        }
    }
}

/// Whether `bytes` is a shortest encoding: every byte but the last has the
/// continuation flag set, the last has it clear, and the last is not zero
/// unless it is the only one.
pub open spec fn is_minimal_encoding(bytes: Seq<u8>) -> bool {
    &&& bytes.len() >= 1
    &&& forall|i: int| 0 <= i < bytes.len() - 1 ==> bytes[i] >= 128
    &&& bytes.last() < 128
    &&& (bytes.len() > 1 ==> bytes.last() != 0)
}

/// A larger position has a larger weight.
pub proof fn lemma_weight_grows(a: nat, b: nat)
    requires
        a <= b,
    ensures
        1 <= weight(a) <= weight(b),
    decreases b,
{
    if b > 0 {
        if a == b {
            lemma_weight_grows((a - 1) as nat, (b - 1) as nat);
        } else {
            lemma_weight_grows(a, (b - 1) as nat);
        }
    }
}

/// The payload of the encoding of `v` is `v`.
pub proof fn lemma_payload_of_encoding(v: nat)
    ensures
        payload(encoding(v)) == v,
    decreases v,
{
    let e = encoding(v);
    assert(payload(e) == (e[0] % 128) as nat + 128 * payload(e.drop_first()));
    if v < 128 {
        assert(e.drop_first() =~= Seq::<u8>::empty());
        assert(e[0] == v);
    } else {
        lemma_payload_of_encoding(v / 128);
        assert(e.drop_first() =~= encoding(v / 128));
        assert(e[0] == 128 + v % 128);
    }
}

/// The encoding of `v` is a shortest encoding.
pub proof fn lemma_encoding_is_minimal(v: nat)
    ensures
        is_minimal_encoding(encoding(v)),
    decreases v,
{
    let e = encoding(v);
    if v >= 128 {
        let tail = encoding(v / 128);
        lemma_encoding_is_minimal(v / 128);
        assert(e.last() == tail.last());
        assert forall|i: int| 0 <= i < e.len() - 1 implies e[i] >= 128 by {
            if i > 0 {
                assert(e[i] == tail[i - 1]);
            }
        }
    }
}

/// The encoding of `v` has as many bytes as `v` has base-128 digits: `n`
/// bytes exactly when `v` is below `128` to the `n` and, for `n` above one,
/// not below `128` to the `n - 1`.
pub proof fn lemma_encoding_len(v: nat)
    ensures
        encoding(v).len() >= 1,
        v < weight(encoding(v).len()),
        encoding(v).len() > 1 ==> weight((encoding(v).len() - 1) as nat) <= v,
    decreases v,
{
    reveal_with_fuel(weight, 2);
    if v >= 128 {
        lemma_encoding_len(v / 128);
    }
}

/// A 32-bit value takes one byte below `2^7`, two below `2^14`, three below
/// `2^21`, four below `2^28` and five from there on.
pub proof fn lemma_encoding_len_u32(v: u32)
    ensures
        encoding(v as nat).len() == if v < 0x80 {
            1nat
        } else if v < 0x4000 {
            2nat
        } else if v < 0x20_0000 {
            3nat
        } else if v < 0x1000_0000 {
            4nat
        } else {
            5nat
        },
{
    let n = encoding(v as nat).len();
    lemma_encoding_len(v as nat);
    lemma_weights();
    reveal_with_fuel(weight, 6);
    if n > 5 {
        lemma_weight_grows(5, (n - 1) as nat);
    }
}

/// Decoding undoes encoding, wherever the encoded value stands at the front
/// of a buffer: the bytes of `v`, followed by anything, hold `v` in exactly
/// as many bytes as the encoding has.
pub proof fn lemma_round_trip(v: u32, rest: Seq<u8>)
    ensures
        !truncated(encoding(v as nat) + rest),
        is_frame(encoding(v as nat) + rest, encoding(v as nat).len()),
        frame_value(encoding(v as nat) + rest, encoding(v as nat).len()) == v,
{
    let e = encoding(v as nat);
    let buffer = e + rest;
    lemma_encoding_is_minimal(v as nat);
    lemma_encoding_len_u32(v);
    lemma_payload_of_encoding(v as nat);
    assert(buffer.take(e.len() as int) =~= e);
    assert(buffer[e.len() - 1] == e.last());
    assert forall|i: int| 0 <= i < e.len() - 1 implies buffer[i] >= 128 by {
        assert(buffer[i] == e[i]);
    }
}

/// No buffer holds a value in fewer bytes than the value's encoding has.
pub proof fn lemma_encoding_is_shortest(bytes: Seq<u8>, n: nat)
    requires
        is_frame(bytes, n),
    ensures
        encoding(frame_value(bytes, n) as nat).len() <= n,
{
    let v = frame_value(bytes, n);
    let len = encoding(v as nat).len();
    lemma_encoding_len_u32(v);
    if n < 5 {
        lemma_payload_bound(bytes.take(n as int));
        lemma_weights();
        lemma_encoding_len(v as nat);
        if len > n {
            lemma_weight_grows(n, (len - 1) as nat);
        }
    }
}

/// A shortest encoding is the encoding of its payload, so no two of them
/// spell the same number.
pub proof fn lemma_minimal_encoding_is_unique(bytes: Seq<u8>)
    requires
        is_minimal_encoding(bytes),
    ensures
        encoding(payload(bytes)) == bytes,
        bytes.last() != 0 ==> payload(bytes) >= 1,
    decreases bytes.len(),
{
    let tail = bytes.drop_first();
    if bytes.len() == 1 {
        assert(tail =~= Seq::<u8>::empty());
        assert(payload(bytes) == bytes[0]);
        assert(encoding(payload(bytes)) =~= bytes);
    } else {
        assert(tail.last() == bytes.last());
        assert forall|i: int| 0 <= i < tail.len() - 1 implies tail[i] >= 128 by {
            assert(tail[i] == bytes[i + 1]);
        }
        lemma_minimal_encoding_is_unique(tail);
        let p = payload(bytes);
        assert(p == (bytes[0] % 128) as nat + 128 * payload(tail));
        assert(p / 128 == payload(tail));
        assert(p % 128 == bytes[0] % 128);
        assert(encoding(p) =~= seq![bytes[0]] + tail);
        assert(seq![bytes[0]] + tail =~= bytes);
    }
}

/// A buffer holds a value at its front in at most one way.
pub proof fn lemma_frame_is_unique(bytes: Seq<u8>, n: nat, m: nat)
    requires
        is_frame(bytes, n),
        is_frame(bytes, m),
    ensures
        n == m,
{
    if n < m {
        assert(bytes[n - 1] >= 128);
    }
    if m < n {
        assert(bytes[m - 1] >= 128);
    }
}

/// A buffer is truncated exactly when no value stands at its front: fewer
/// than five bytes that all carry the continuation flag never decode, and
/// every other buffer does.
pub proof fn lemma_truncated_iff_no_frame(bytes: Seq<u8>)
    ensures
        truncated(bytes) <==> forall|n: nat| !is_frame(bytes, n),
{
    if truncated(bytes) {
        assert forall|n: nat| !is_frame(bytes, n) by {
            if is_frame(bytes, n) {
                assert(bytes[n - 1] >= 128);
            }
        }
    } else {
        let n = first_stop(bytes, 0);
        lemma_first_stop(bytes, 0);
        assert(is_frame(bytes, n));
    }
}

/// The length of the frame that begins at the front of `bytes`, given that
/// the bytes before index `at` all carry the continuation flag.
spec fn first_stop(bytes: Seq<u8>, at: nat) -> nat
    decreases 5 - at,
{
    if at >= 4 || at >= bytes.len() || bytes[at as int] < 128 {
        at + 1
    } else {
        first_stop(bytes, at + 1)
    }
}

proof fn lemma_first_stop(bytes: Seq<u8>, at: nat)
    requires
        !truncated(bytes),
        at < 5,
        forall|i: int| 0 <= i < at ==> bytes[i] >= 128,
    ensures
        is_frame(bytes, first_stop(bytes, at)),
    decreases 5 - at,
{
    if !(at >= 4 || at >= bytes.len() || bytes[at as int] < 128) {
        lemma_first_stop(bytes, at + 1);
    }
}


/// OR-ing a payload in above the bits already set adds it at the weight of
/// its position; at shift 28 the bits that leave the 32-bit word are lost.
pub(crate) proof fn lemma_or_shift(value: u32, byte: u8, shift: u32)
    by (bit_vector)
    requires
        shift == 0 ==> value == 0,
        shift == 7 ==> value < 0x80,
        shift == 14 ==> value < 0x4000,
        shift == 21 ==> value < 0x20_0000,
        shift == 28 ==> value < 0x1000_0000,
    ensures
        shift == 0 ==> (value | (((byte & 0x7F) as u32) << shift)) == byte % 128,
        shift == 7 ==> (value | (((byte & 0x7F) as u32) << shift)) == value + (byte % 128) * 0x80,
        shift == 14 ==> (value | (((byte & 0x7F) as u32) << shift)) == value + (byte % 128)
            * 0x4000,
        shift == 21 ==> (value | (((byte & 0x7F) as u32) << shift)) == value + (byte % 128)
            * 0x20_0000,
        shift == 28 ==> (value | (((byte & 0x7F) as u32) << shift)) == (value + (byte % 128)
            * 0x1000_0000) % 0x1_0000_0000,
{
}

} // verus!
