//! The nonce of a frame: the stream's prefix, the frame counter as four
//! big-endian bytes, and one byte that flags the last frame.
//!
//! A nonce must never repeat under one key. Within a stream the prefix is
//! fixed, so everything rests on the map from (counter, flag) to the last
//! five bytes being one-to-one; that is proved here.

use vstd::prelude::*;

verus! {

/// The number that a byte string stands for when read big-endian.
pub open spec fn big_endian_value(bytes: Seq<u8>) -> nat
    decreases bytes.len(),
{
    if bytes.len() == 0 {
        0
    } else {
        big_endian_value(bytes.drop_last()) * 256 + bytes.last() as nat
    }
}

/// The four bytes of a frame counter, most significant first. A frame
/// counter is below 2^32.
pub open spec fn counter_bytes(counter: nat) -> Seq<u8> {
    seq![
        (counter / 0x100_0000 % 0x100) as u8,
        (counter / 0x1_0000 % 0x100) as u8,
        (counter / 0x100 % 0x100) as u8,
        (counter % 0x100) as u8,
    ]
}

/// The byte that tells the last frame of a stream from the others.
pub open spec fn flag_byte(last: bool) -> u8 {
    if last {
        1
    } else {
        0
    }
}

/// The nonce of the frame with the given counter.
pub open spec fn frame_nonce(prefix: Seq<u8>, counter: nat, last: bool) -> Seq<u8> {
    prefix + counter_bytes(counter) + seq![flag_byte(last)]
}

/// Builds the nonce of the frame with the given counter.
pub fn derive_nonce(prefix: &[u8], counter: u32, last: bool) -> (nonce: Vec<u8>)
    ensures
        nonce@ == frame_nonce(prefix@, counter as nat, last),
{
    let mut nonce: Vec<u8> = Vec::new();
    let mut i: usize = 0;
    while i < prefix.len()
        invariant
            i <= prefix.len(),
            nonce@ == prefix@.take(i as int),
        decreases prefix.len() - i,
    {
        nonce.push(prefix[i]);
        i = i + 1;
    }
    nonce.push((counter / 0x100_0000) as u8);
    nonce.push((counter / 0x1_0000 % 0x100) as u8);
    nonce.push((counter / 0x100 % 0x100) as u8);
    nonce.push((counter % 0x100) as u8);
    nonce.push(if last { 1 } else { 0 });
    nonce
}

/// The counter bytes are the counter written big-endian: read back, they
/// give the counter again.
pub proof fn lemma_counter_bytes_value(counter: nat)
    requires
        counter <= u32::MAX,
    ensures
        counter_bytes(counter).len() == 4,
        big_endian_value(counter_bytes(counter)) == counter,
{
    reveal_with_fuel(big_endian_value, 5);
}

/// Different counters have different counter bytes.
pub proof fn lemma_counter_bytes_injective(a: nat, b: nat)
    requires
        a <= u32::MAX,
        b <= u32::MAX,
        counter_bytes(a) == counter_bytes(b),
    ensures
        a == b,
{
    lemma_counter_bytes_value(a);
    lemma_counter_bytes_value(b);
}

/// Under one prefix, two frames have the same nonce only if they have the
/// same counter and the same last-frame flag.
pub proof fn lemma_frame_nonce_injective(
    prefix: Seq<u8>,
    counter_a: nat,
    last_a: bool,
    counter_b: nat,
    last_b: bool,
)
    requires
        counter_a <= u32::MAX,
        counter_b <= u32::MAX,
        frame_nonce(prefix, counter_a, last_a) == frame_nonce(prefix, counter_b, last_b),
    ensures
        counter_a == counter_b,
        last_a == last_b,
{
    let a = frame_nonce(prefix, counter_a, last_a);
    let b = frame_nonce(prefix, counter_b, last_b);
    let n = prefix.len() as int;
    assert(a[n + 4] == flag_byte(last_a) && b[n + 4] == flag_byte(last_b));
    assert(b.subrange(n, n + 4) =~= counter_bytes(counter_b));
    lemma_counter_bytes_injective(counter_a, counter_b);
}

} // verus!
