//! The sponge construction as mathematics: absorbing a padded message block
//! by block, squeezing output block by block, and the abstract state of a
//! sponge instance with the transitions that the executable type refines.

use crate::encoding::{state_bytes, xor_block};
use crate::padding::{padded, padding};
use crate::permutation::{keccak_f, zero_lanes};
use vstd::prelude::*;

verus! {

/// The state after absorbing `data`: while a whole block of `rate` bytes is
/// left, it is XORed into the state and the state is permuted. Bytes behind
/// the last whole block are not absorbed.
pub open spec fn absorb(a: Seq<u64>, data: Seq<u8>, rate: nat) -> Seq<u64>
    decreases data.len(),
{
    if rate == 0 || data.len() < rate {
        a
    } else {
        absorb(keccak_f(xor_block(a, data.take(rate as int))), data.skip(rate as int), rate)
    }
}

/// The first `n` bytes of output: while a whole block is still wanted, the
/// first `rate` bytes of the state are given out and the state is permuted;
/// the rest is read from the state without permuting.
pub open spec fn squeeze_bytes(a: Seq<u64>, rate: nat, n: nat) -> Seq<u8>
    decreases n,
{
    if rate == 0 || n < rate {
        state_bytes(a).take(n as int)
    } else {
        state_bytes(a).take(rate as int) + squeeze_bytes(keccak_f(a), rate, (n - rate) as nat)
    }
}

/// The state that squeezing `n` bytes leaves behind: one permutation for each
/// whole block given out, none for a last partial block.
pub open spec fn squeeze_lanes(a: Seq<u64>, rate: nat, n: nat) -> Seq<u64>
    decreases n,
{
    if rate == 0 || n < rate {
        a
    } else {
        squeeze_lanes(keccak_f(a), rate, (n - rate) as nat)
    }
}

/// The sponge function: `n` bytes of output for message `msg`, from the zero
/// state, with block size `rate` and domain separation byte `delim`.
pub open spec fn sponge(rate: nat, delim: u8, msg: Seq<u8>, n: nat) -> Seq<u8> {
    squeeze_bytes(absorb(zero_lanes(), padded(msg, rate, delim), rate), rate, n)
}

/// The abstract state of a sponge instance.
pub struct SpongeView {
    /// The 25 lanes of the permutation state.
    pub lanes: Seq<u64>,
    /// How many bytes of `pending` have been absorbed.
    pub offset: nat,
    /// Block size in bytes.
    pub rate: nat,
    /// Domain separation byte.
    pub delim: u8,
    /// All bytes fed so far, with the padding once it is appended.
    pub pending: Seq<u8>,
}

impl SpongeView {
    /// Validity: 25 lanes, a rate that leaves a capacity, and an offset inside
    /// the buffer.
    pub open spec fn wf(self) -> bool {
        &&& self.lanes.len() == 25
        &&& 0 < self.rate < 200
        &&& self.offset <= self.pending.len()
    }

    /// A new instance: zero state, nothing fed.
    pub open spec fn fresh(rate: nat, delim: u8) -> SpongeView {
        SpongeView { lanes: zero_lanes(), offset: 0, rate, delim, pending: Seq::empty() }
    }

    /// Nothing has been absorbed yet: the instance still takes a message.
    pub open spec fn absorbing(self) -> bool {
        self.offset == 0
    }

    /// Everything fed has been absorbed, and that was at least one block: the
    /// instance gives output.
    pub open spec fn absorbed(self) -> bool {
        0 < self.offset == self.pending.len()
    }

    /// The same instance with other lanes.
    pub open spec fn with_lanes(self, lanes: Seq<u64>) -> SpongeView {
        SpongeView { lanes, ..self }
    }

    /// `bytes` appended to the buffer.
    pub open spec fn update(self, bytes: Seq<u8>) -> SpongeView {
        SpongeView { pending: self.pending + bytes, ..self }
    }

    /// The padding appended to the buffer.
    pub open spec fn pad(self) -> SpongeView {
        SpongeView {
            pending: self.pending + padding(self.pending.len(), self.rate, self.delim),
            ..self
        }
    }

    /// The next block to absorb.
    pub open spec fn next_block(self) -> Seq<u8> {
        self.pending.subrange(self.offset as int, (self.offset + self.rate) as int)
    }

    /// The next block XORed into the state, and the offset moved behind it.
    pub open spec fn xorin(self) -> SpongeView {
        SpongeView {
            lanes: xor_block(self.lanes, self.next_block()),
            offset: self.offset + self.rate,
            ..self
        }
    }

    /// The state permuted once.
    pub open spec fn permute(self) -> SpongeView {
        self.with_lanes(keccak_f(self.lanes))
    }

    /// The instance after squeezing `n` bytes.
    pub open spec fn squeeze(self, n: nat) -> SpongeView {
        self.with_lanes(squeeze_lanes(self.lanes, self.rate, n))
    }

    /// The `n` bytes that squeezing gives.
    pub open spec fn squeezed(self, n: nat) -> Seq<u8> {
        squeeze_bytes(self.lanes, self.rate, n)
    }

    /// The instance after its whole buffer is absorbed, from offset 0.
    pub open spec fn absorb_all(self) -> SpongeView {
        SpongeView {
            lanes: absorb(self.lanes, self.pending, self.rate),
            offset: self.pending.len(),
            ..self
        }
    }

    /// The instance after finalizing with `n` bytes of output: padded,
    /// absorbed, squeezed.
    pub open spec fn finalize(self, n: nat) -> SpongeView {
        self.pad().absorb_all().squeeze(n)
    }

    /// The `n` bytes that finalizing gives.
    pub open spec fn digest(self, n: nat) -> Seq<u8> {
        self.pad().absorb_all().squeezed(n)
    }
}

} // verus!
