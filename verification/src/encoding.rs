//! The state as 200 bytes: each lane is laid out least significant byte first,
//! lane 0 in front. Absorbing XORs message bytes into this layout and
//! squeezing reads output bytes from it, on every machine alike.

use vstd::prelude::*;

verus! {

/// Byte `t` of a lane, `0 <= t < 8`, counted from the least significant.
pub open spec fn lane_byte(lane: u64, t: int) -> u8 {
    (lane >> ((8 * t) as u64)) as u8
}

/// The 200 bytes of a state of 25 lanes.
pub open spec fn state_bytes(a: Seq<u64>) -> Seq<u8> {
    Seq::new(200, |k: int| lane_byte(a[k / 8], k % 8))
}

/// The lane whose bytes, least significant first, are `b0` to `b7`.
pub open spec fn lane_from_bytes(
    b0: u8,
    b1: u8,
    b2: u8,
    b3: u8,
    b4: u8,
    b5: u8,
    b6: u8,
    b7: u8,
) -> u64 {
    (b0 as u64) | ((b1 as u64) << 8) | ((b2 as u64) << 16) | ((b3 as u64) << 24) | ((b4 as u64)
        << 32) | ((b5 as u64) << 40) | ((b6 as u64) << 48) | ((b7 as u64) << 56)
}

/// Byte `k` of a block, and zero behind its end: a block shorter than the
/// state leaves the bytes of the capacity untouched.
pub open spec fn byte_at(block: Seq<u8>, k: int) -> u8 {
    if 0 <= k < block.len() {
        block[k]
    } else {
        0u8
    }
}

/// Lane `j` of a block: its bytes `8 * j` to `8 * j + 7`.
pub open spec fn block_lane(block: Seq<u8>, j: int) -> u64 {
    lane_from_bytes(
        byte_at(block, 8 * j),
        byte_at(block, 8 * j + 1),
        byte_at(block, 8 * j + 2),
        byte_at(block, 8 * j + 3),
        byte_at(block, 8 * j + 4),
        byte_at(block, 8 * j + 5),
        byte_at(block, 8 * j + 6),
        byte_at(block, 8 * j + 7),
    )
}

/// The state with a block XORed into its first bytes.
pub open spec fn xor_block(a: Seq<u64>, block: Seq<u8>) -> Seq<u64> {
    Seq::new(25, |j: int| a[j] ^ block_lane(block, j))
}

/// Reading byte `t` of a lane built from eight bytes gives back byte `t`.
pub proof fn lemma_lane_byte_of_bytes(
    b0: u8,
    b1: u8,
    b2: u8,
    b3: u8,
    b4: u8,
    b5: u8,
    b6: u8,
    b7: u8,
)
    ensures
        ({
            let lane = lane_from_bytes(b0, b1, b2, b3, b4, b5, b6, b7);
            &&& lane_byte(lane, 0) == b0
            &&& lane_byte(lane, 1) == b1
            &&& lane_byte(lane, 2) == b2
            &&& lane_byte(lane, 3) == b3
            &&& lane_byte(lane, 4) == b4
            &&& lane_byte(lane, 5) == b5
            &&& lane_byte(lane, 6) == b6
            &&& lane_byte(lane, 7) == b7
        }),
{
    let lane = lane_from_bytes(b0, b1, b2, b3, b4, b5, b6, b7);
    assert((lane >> 0u64) as u8 == b0 && (lane >> 8u64) as u8 == b1 && (lane >> 16u64) as u8 == b2
        && (lane >> 24u64) as u8 == b3 && (lane >> 32u64) as u8 == b4 && (lane >> 40u64) as u8 == b5
        && (lane >> 48u64) as u8 == b6 && (lane >> 56u64) as u8 == b7) by (bit_vector)
        requires
            lane == (b0 as u64) | ((b1 as u64) << 8) | ((b2 as u64) << 16) | ((b3 as u64) << 24) | (
            (b4 as u64) << 32) | ((b5 as u64) << 40) | ((b6 as u64) << 48) | ((b7 as u64) << 56),
    ;
}

/// A lane is the lane built from its own eight bytes: the layout loses
/// nothing.
pub proof fn lemma_lane_from_its_bytes(lane: u64)
    ensures
        lane_from_bytes(
            lane_byte(lane, 0),
            lane_byte(lane, 1),
            lane_byte(lane, 2),
            lane_byte(lane, 3),
            lane_byte(lane, 4),
            lane_byte(lane, 5),
            lane_byte(lane, 6),
            lane_byte(lane, 7),
        ) == lane,
{
    assert(((lane >> 0u64) as u8 as u64) | (((lane >> 8u64) as u8 as u64) << 8) | (((lane >> 16u64) as u8 as u64)
        << 16) | (((lane >> 24u64) as u8 as u64) << 24) | (((lane >> 32u64) as u8 as u64) << 32) | (((lane
        >> 40u64) as u8 as u64) << 40) | (((lane >> 48u64) as u8 as u64) << 48) | (((lane >> 56u64) as u8 as u64)
        << 56) == lane) by (bit_vector);
}

/// Byte `t` of the XOR of two lanes is the XOR of their bytes `t`.
pub proof fn lemma_lane_byte_xor(x: u64, y: u64, t: int)
    requires
        0 <= t < 8,
    ensures
        lane_byte(x ^ y, t) == lane_byte(x, t) ^ lane_byte(y, t),
{
    let s: u64 = (8 * t) as u64;
    assert(((x ^ y) >> s) as u8 == ((x >> s) as u8) ^ ((y >> s) as u8)) by (bit_vector)
        requires
            s < 64,
    ;
}

/// XORing one byte into a lane at byte position `t`, where the lane was built
/// with a zero in that position, builds the lane with the byte in it.
pub proof fn lemma_lane_set_byte(
    t: int,
    b: u8,
    c0: u8,
    c1: u8,
    c2: u8,
    c3: u8,
    c4: u8,
    c5: u8,
    c6: u8,
    c7: u8,
)
    requires
        0 <= t < 8,
    ensures
        t == 0 ==> lane_from_bytes(0, c1, c2, c3, c4, c5, c6, c7) ^ ((b as u64) << 0u64)
            == lane_from_bytes(b, c1, c2, c3, c4, c5, c6, c7),
        t == 1 ==> lane_from_bytes(c0, 0, c2, c3, c4, c5, c6, c7) ^ ((b as u64) << 8u64)
            == lane_from_bytes(c0, b, c2, c3, c4, c5, c6, c7),
        t == 2 ==> lane_from_bytes(c0, c1, 0, c3, c4, c5, c6, c7) ^ ((b as u64) << 16u64)
            == lane_from_bytes(c0, c1, b, c3, c4, c5, c6, c7),
        t == 3 ==> lane_from_bytes(c0, c1, c2, 0, c4, c5, c6, c7) ^ ((b as u64) << 24u64)
            == lane_from_bytes(c0, c1, c2, b, c4, c5, c6, c7),
        t == 4 ==> lane_from_bytes(c0, c1, c2, c3, 0, c5, c6, c7) ^ ((b as u64) << 32u64)
            == lane_from_bytes(c0, c1, c2, c3, b, c5, c6, c7),
        t == 5 ==> lane_from_bytes(c0, c1, c2, c3, c4, 0, c6, c7) ^ ((b as u64) << 40u64)
            == lane_from_bytes(c0, c1, c2, c3, c4, b, c6, c7),
        t == 6 ==> lane_from_bytes(c0, c1, c2, c3, c4, c5, 0, c7) ^ ((b as u64) << 48u64)
            == lane_from_bytes(c0, c1, c2, c3, c4, c5, b, c7),
        t == 7 ==> lane_from_bytes(c0, c1, c2, c3, c4, c5, c6, 0) ^ ((b as u64) << 56u64)
            == lane_from_bytes(c0, c1, c2, c3, c4, c5, c6, b),
{
    assert(lane_from_bytes(0, c1, c2, c3, c4, c5, c6, c7) ^ ((b as u64) << 0u64) == lane_from_bytes(
        b,
        c1,
        c2,
        c3,
        c4,
        c5,
        c6,
        c7,
    )) by (bit_vector);
    assert(lane_from_bytes(c0, 0, c2, c3, c4, c5, c6, c7) ^ ((b as u64) << 8u64) == lane_from_bytes(
        c0,
        b,
        c2,
        c3,
        c4,
        c5,
        c6,
        c7,
    )) by (bit_vector);
    assert(lane_from_bytes(c0, c1, 0, c3, c4, c5, c6, c7) ^ ((b as u64) << 16u64)
        == lane_from_bytes(c0, c1, b, c3, c4, c5, c6, c7)) by (bit_vector);
    assert(lane_from_bytes(c0, c1, c2, 0, c4, c5, c6, c7) ^ ((b as u64) << 24u64)
        == lane_from_bytes(c0, c1, c2, b, c4, c5, c6, c7)) by (bit_vector);
    assert(lane_from_bytes(c0, c1, c2, c3, 0, c5, c6, c7) ^ ((b as u64) << 32u64)
        == lane_from_bytes(c0, c1, c2, c3, b, c5, c6, c7)) by (bit_vector);
    assert(lane_from_bytes(c0, c1, c2, c3, c4, 0, c6, c7) ^ ((b as u64) << 40u64)
        == lane_from_bytes(c0, c1, c2, c3, c4, b, c6, c7)) by (bit_vector);
    assert(lane_from_bytes(c0, c1, c2, c3, c4, c5, 0, c7) ^ ((b as u64) << 48u64)
        == lane_from_bytes(c0, c1, c2, c3, c4, c5, b, c7)) by (bit_vector);
    assert(lane_from_bytes(c0, c1, c2, c3, c4, c5, c6, 0) ^ ((b as u64) << 56u64)
        == lane_from_bytes(c0, c1, c2, c3, c4, c5, c6, b)) by (bit_vector);
}

/// A block with nothing in it changes no lane.
pub proof fn lemma_xor_empty_block(a: Seq<u64>)
    requires
        a.len() == 25,
    ensures
        xor_block(a, Seq::<u8>::empty()) == a,
{
    assert(lane_from_bytes(0, 0, 0, 0, 0, 0, 0, 0) == 0) by (bit_vector);
    assert forall|j: int| 0 <= j < 25 implies #[trigger] xor_block(a, Seq::<u8>::empty())[j]
        == a[j] by {
        let x = a[j];
        assert(x ^ 0 == x) by (bit_vector);
    }
}

/// XORing the first `i + 1` bytes of a block into a state is XORing the first
/// `i` bytes and then byte `i`, shifted to its place in lane `i / 8`.
pub proof fn lemma_xor_block_next_byte(a: Seq<u64>, block: Seq<u8>, i: int)
    requires
        a.len() == 25,
        0 <= i < block.len() <= 200,
    ensures
        xor_block(a, block.take(i + 1)) == xor_block(a, block.take(i)).update(
            i / 8,
            xor_block(a, block.take(i))[i / 8] ^ ((block[i] as u64) << ((8 * (i % 8)) as u64)),
        ),
{
    let lo = block.take(i);
    let hi = block.take(i + 1);
    let j = i / 8;
    let t = i % 8;
    let b = block[i];
    assert forall|k: int| 0 <= k < 200 implies byte_at(hi, k) == (if k == i {
        b
    } else {
        byte_at(lo, k)
    }) by {}
    lemma_lane_set_byte(
        t,
        b,
        byte_at(lo, 8 * j),
        byte_at(lo, 8 * j + 1),
        byte_at(lo, 8 * j + 2),
        byte_at(lo, 8 * j + 3),
        byte_at(lo, 8 * j + 4),
        byte_at(lo, 8 * j + 5),
        byte_at(lo, 8 * j + 6),
        byte_at(lo, 8 * j + 7),
    );
    let x = a[j];
    let l = block_lane(lo, j);
    let s = (b as u64) << ((8 * t) as u64);
    assert((x ^ l) ^ s == x ^ (l ^ s)) by (bit_vector);
    let want = xor_block(a, lo).update(j, xor_block(a, lo)[j] ^ s);
    assert forall|k: int| 0 <= k < 25 implies #[trigger] xor_block(a, hi)[k] == want[k] by {}
}

/// Absorbing a block, said byte by byte: byte `k` of the new state is byte `k`
/// of the old state XOR byte `k` of the block, and the old byte where the
/// block has ended.
pub proof fn lemma_xor_block_bytes(a: Seq<u64>, block: Seq<u8>, k: int)
    requires
        a.len() == 25,
        0 <= k < 200,
    ensures
        state_bytes(xor_block(a, block))[k] == state_bytes(a)[k] ^ byte_at(block, k),
{
    let j = k / 8;
    let t = k % 8;
    lemma_lane_byte_xor(a[j], block_lane(block, j), t);
    lemma_lane_byte_of_bytes(
        byte_at(block, 8 * j),
        byte_at(block, 8 * j + 1),
        byte_at(block, 8 * j + 2),
        byte_at(block, 8 * j + 3),
        byte_at(block, 8 * j + 4),
        byte_at(block, 8 * j + 5),
        byte_at(block, 8 * j + 6),
        byte_at(block, 8 * j + 7),
    );
}

} // verus!
