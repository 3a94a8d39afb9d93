//! The multi-rate padding `pad10*1` with the domain separation byte folded
//! into its first byte.
//!
//! A message is extended to a whole number of blocks of `rate` bytes. The
//! first padding byte carries the domain separation byte, the last byte of the
//! last block carries `0x80`, and zero bytes stand between them. Where only
//! one byte of the block is left, the two are the same byte and are ORed.

use vstd::prelude::*;

verus! {

/// First padding byte of Keccak-224/256/384/512.
pub const DELIM_KECCAK: u8 = 0x01;

/// First padding byte of SHA3-224/256/384/512.
pub const DELIM_SHA3: u8 = 0x06;

/// First padding byte of SHAKE128 and SHAKE256.
pub const DELIM_SHAKE: u8 = 0x1f;

/// Last padding byte.
pub const PAD_END: u8 = 0x80;

/// How many bytes of the last block lie behind the first padding byte, for a
/// message of `len` bytes: between 0 and `rate - 1`.
pub open spec fn pad_fill(len: nat, rate: nat) -> nat {
    (rate - 1 - (len % rate)) as nat
}

/// The bytes that padding appends to a message of `len` bytes.
pub open spec fn padding(len: nat, rate: nat, delim: u8) -> Seq<u8> {
    let fill = pad_fill(len, rate);
    if fill == 0 {
        seq![delim | PAD_END]
    } else {
        seq![delim] + Seq::new((fill - 1) as nat, |i: int| 0u8) + seq![PAD_END]
    }
}

/// A message with its padding.
pub open spec fn padded(msg: Seq<u8>, rate: nat, delim: u8) -> Seq<u8> {
    msg + padding(msg.len(), rate, delim)
}

/// Padding appends at least one byte and at most a block, and brings the
/// length to a multiple of the rate.
pub proof fn lemma_padding_len(len: nat, rate: nat, delim: u8)
    requires
        rate > 0,
    ensures
        padding(len, rate, delim).len() == pad_fill(len, rate) + 1,
        1 <= padding(len, rate, delim).len() <= rate,
        (len + padding(len, rate, delim).len()) % rate == 0,
        (len + padding(len, rate, delim).len()) == (len / rate + 1) * rate,
{
    let q = len / rate;
    let m = len % rate;
    assert(len == rate * q + m && 0 <= m < rate) by (nonlinear_arith)
        requires
            rate > 0,
            q == len / rate,
            m == len % rate,
    ;
    let total = len + pad_fill(len, rate) + 1;
    assert(total == (q + 1) * rate) by (nonlinear_arith)
        requires
            total == rate * q + m + (rate - 1 - m) + 1,
    ;
    assert(((q + 1) * rate) % rate == 0) by (nonlinear_arith)
        requires
            rate > 0,
    ;
}

/// Where the message ends one byte before a block boundary, the padding is a
/// single byte: the domain separation byte and `0x80` ORed together.
pub proof fn lemma_padding_single_byte(len: nat, rate: nat, delim: u8)
    requires
        rate > 0,
        len % rate == rate - 1,
    ensures
        pad_fill(len, rate) == 0,
        padding(len, rate, delim) == seq![delim | PAD_END],
        padding(len, rate, delim).len() == 1,
{
}

/// Everywhere else the padding is the domain separation byte, zeros, and
/// `0x80` as the last byte of the block.
pub proof fn lemma_padding_bytes(len: nat, rate: nat, delim: u8)
    requires
        rate > 0,
        len % rate != rate - 1,
    ensures
        padding(len, rate, delim).len() == rate - len % rate,
        padding(len, rate, delim).len() >= 2,
        padding(len, rate, delim).first() == delim,
        padding(len, rate, delim).last() == PAD_END,
        forall|i: int|
            0 < i < padding(len, rate, delim).len() - 1 ==> padding(len, rate, delim)[i] == 0,
{
    lemma_padding_len(len, rate, delim);
}

} // verus!
