//! The sponge instance: the permutation state, the buffer of fed bytes, and
//! the operations on them.

use crate::encoding::{lemma_xor_block_next_byte, lemma_xor_empty_block, state_bytes, xor_block};
use crate::padding::{lemma_padding_len, padding, PAD_END};
use crate::permutation::{
    chi_lane, chi_step, column_parity, driver_turns, iota_step, lane_index,
    lemma_driver_is_keccak_f, pi_source, pi_step, rho_step, rotl, slice_steps, theta_effect,
    theta_step, zero_lanes, NUM_ROUNDS, RC, RHO,
};
use crate::sponge::{absorb, squeeze_bytes, squeeze_lanes, SpongeView};
use vstd::arithmetic::div_mod::{lemma_mod_multiples_vanish, lemma_small_mod};
use vstd::prelude::*;

verus! {

/// A Keccak sponge: created with a rate and a domain separation byte, fed with
/// `update`, and finished once with `finalize`.
pub struct Keccak {
    state: [u64; 25],
    offset: usize,
    rate: usize,
    delim: u8,
    input: Vec<u8>,
}

impl View for Keccak {
    type V = SpongeView;

    closed spec fn view(&self) -> SpongeView {
        SpongeView {
            lanes: self.state@,
            offset: self.offset as nat,
            rate: self.rate as nat,
            delim: self.delim,
            pending: self.input@,
        }
    }
}

/// `x` rotated left by `n` bits.
fn rotate_left(x: u64, n: u32) -> (r: u64)
    requires
        n < 64,
    ensures
        r == rotl(x, n),
{
    if n == 0 {
        x
    } else {
        (x << n) | (x >> (64 - n))
    }
}

impl Keccak {
    /// Index of the lane in row `i`, column `j`, both taken modulo 5.
    pub fn ij_to_linear(i: usize, j: usize) -> (k: usize)
        ensures
            k == lane_index(i as int, j as int),
            k < 25,
    {
        (i % 5) * 5 + (j % 5)
    }

    /// A new sponge with block size `rate` and domain separation byte `delim`.
    pub fn new(rate: usize, delim: u8) -> (r: Keccak)
        requires
            0 < rate < 200,
        ensures
            r@ == SpongeView::fresh(rate as nat, delim),
            r@.wf(),
    {
        let r = Keccak { state: [0; 25], offset: 0, rate: rate, delim: delim, input: Vec::new() };
        assert(r.state@ =~= zero_lanes());
        r
    }

    /// Theta: XORs into every lane the parities of the two neighbouring
    /// columns, the right one rotated by one bit.
    pub fn theta(&mut self)
        ensures
            final(self)@ == old(self)@.with_lanes(theta_step(old(self)@.lanes)),
    {
        let ghost v0 = self@;
        let ghost a = self.state@;
        let mut parity: [u64; 5] = [0; 5];
        let mut col: usize = 0;
        while col < 5
            invariant
                col <= 5,
                self@ == v0,
                self.state@ == a,
                forall|c: int| 0 <= c < col ==> parity@[c] == column_parity(a, c),
            decreases 5 - col,
        {
            parity[col] = self.state[Self::ij_to_linear(0, col)] ^ self.state[Self::ij_to_linear(1, col)]
                ^ self.state[Self::ij_to_linear(2, col)] ^ self.state[Self::ij_to_linear(3, col)]
                ^ self.state[Self::ij_to_linear(4, col)];
            col += 1;
        }
        let mut col: usize = 0;
        while col < 5
            invariant
                col <= 5,
                self@ == v0.with_lanes(self.state@),
                forall|c: int| 0 <= c < 5 ==> parity@[c] == column_parity(a, c),
                forall|k: int|
                    0 <= k < 25 ==> self.state@[k] == (if k % 5 < col {
                        a[k] ^ theta_effect(a, k % 5)
                    } else {
                        a[k]
                    }),
            decreases 5 - col,
        {
            let effect: u64 = parity[(col + 4) % 5] ^ rotate_left(parity[(col + 1) % 5], 1);
            let mut row: usize = 0;
            while row < 5
                invariant
                    row <= 5,
                    col < 5,
                    self@ == v0.with_lanes(self.state@),
                    effect == theta_effect(a, col as int),
                    forall|k: int|
                        0 <= k < 25 ==> self.state@[k] == (if k % 5 < col || (k % 5 == col && k / 5
                            < row) {
                            a[k] ^ theta_effect(a, k % 5)
                        } else {
                            a[k]
                        }),
                decreases 5 - row,
            {
                let k: usize = Self::ij_to_linear(row, col);
                self.state[k] ^= effect;
                row += 1;
            }
            col += 1;
        }
        assert(self.state@ =~= theta_step(a));
    }

    /// Rho: rotates every lane but lane 0 left by its offset.
    pub fn rho(&mut self)
        ensures
            final(self)@ == old(self)@.with_lanes(rho_step(old(self)@.lanes)),
    {
        let ghost v0 = self@;
        let ghost a = self.state@;
        let mut x: usize = 1;
        while x < 25
            invariant
                1 <= x <= 25,
                self@ == v0.with_lanes(self.state@),
                forall|k: int|
                    0 <= k < 25 ==> self.state@[k] == (if 1 <= k < x {
                        rotl(a[k], RHO[k])
                    } else {
                        a[k]
                    }),
            decreases 25 - x,
        {
            self.state[x] = rotate_left(self.state[x], RHO[x]);
            x += 1;
        }
        assert(self.state@ =~= rho_step(a));
    }

    /// Pi: moves the lanes to their new places.
    pub fn pi(&mut self)
        ensures
            final(self)@ == old(self)@.with_lanes(pi_step(old(self)@.lanes)),
    {
        let ghost v0 = self@;
        let state: [u64; 25] = self.state;
        let mut row: usize = 0;
        while row < 5
            invariant
                row <= 5,
                self@ == v0.with_lanes(self.state@),
                state@ == v0.lanes,
                forall|k: int|
                    0 <= k < 25 ==> self.state@[k] == (if k / 5 < row {
                        state@[pi_source(k)]
                    } else {
                        state@[k]
                    }),
            decreases 5 - row,
        {
            let mut col: usize = 0;
            while col < 5
                invariant
                    col <= 5,
                    row < 5,
                    self@ == v0.with_lanes(self.state@),
                    state@ == v0.lanes,
                    forall|k: int|
                        0 <= k < 25 ==> self.state@[k] == (if k / 5 < row || (k / 5 == row && k % 5
                            < col) {
                            state@[pi_source(k)]
                        } else {
                            state@[k]
                        }),
                decreases 5 - col,
            {
                let from: usize = Self::ij_to_linear(col, 3 * row + col);
                self.state[Self::ij_to_linear(row, col)] = state[from];
                col += 1;
            }
            row += 1;
        }
        assert(self.state@ =~= pi_step(state@));
    }

    /// Chi: in every row, XORs into each lane the AND of the complement of
    /// the next lane with the lane after it.
    pub fn chi(&mut self)
        ensures
            final(self)@ == old(self)@.with_lanes(chi_step(old(self)@.lanes)),
    {
        let ghost v0 = self@;
        let ghost a = self.state@;
        let mut row: usize = 0;
        while row < 5
            invariant
                row <= 5,
                self@ == v0.with_lanes(self.state@),
                forall|k: int|
                    0 <= k < 25 ==> self.state@[k] == (if k / 5 < row {
                        chi_lane(a, k)
                    } else {
                        a[k]
                    }),
            decreases 5 - row,
        {
            let mut array: [u64; 5] = [0; 5];
            let mut col: usize = 0;
            while col < 5
                invariant
                    col <= 5,
                    row < 5,
                    self@ == v0.with_lanes(self.state@),
                    forall|c: int| 0 <= c < col ==> array@[c] == a[row * 5 + c],
                    forall|k: int|
                        0 <= k < 25 ==> self.state@[k] == (if k / 5 < row {
                            chi_lane(a, k)
                        } else {
                            a[k]
                        }),
                decreases 5 - col,
            {
                array[col] = self.state[Self::ij_to_linear(row, col)];
                col += 1;
            }
            let mut col: usize = 0;
            while col < 5
                invariant
                    col <= 5,
                    row < 5,
                    self@ == v0.with_lanes(self.state@),
                    forall|c: int| 0 <= c < 5 ==> array@[c] == a[row * 5 + c],
                    forall|k: int|
                        0 <= k < 25 ==> self.state@[k] == (if k / 5 < row || (k / 5 == row && k % 5
                            < col) {
                            chi_lane(a, k)
                        } else {
                            a[k]
                        }),
                decreases 5 - col,
            {
                self.state[Self::ij_to_linear(row, col)] = array[col] ^ ((!array[(col + 1) % 5])
                    & array[(col + 2) % 5]);
                col += 1;
            }
            row += 1;
        }
        assert(self.state@ =~= chi_step(a));
    }

    /// Iota: XORs the constant of round `i` into lane 0.
    pub fn iota(&mut self, i: usize)
        requires
            i <= 24,
        ensures
            final(self)@ == old(self)@.with_lanes(iota_step(old(self)@.lanes, i as int)),
    {
        self.state[0] ^= RC[i];
    }

    /// The steps that the round driver bundles for counter value `round`: pi,
    /// chi and iota unless `round` is 0, then theta unless `round` is 24.
    pub fn slice_proc(&mut self, round: usize)
        requires
            round <= 24,
        ensures
            final(self)@ == old(self)@.with_lanes(slice_steps(old(self)@.lanes, round as int)),
    {
        if round != 0 {
            self.pi();
            self.chi();
            self.iota(round);
        }
        if round != NUM_ROUNDS {
            self.theta();
        }
    }

    /// Keccak-f[1600] on the state.
    pub fn keccakf(&mut self)
        ensures
            final(self)@ == old(self)@.permute(),
    {
        let ghost v0 = self@;
        let ghost a = self.state@;
        let mut round_cntr: usize = 0;
        loop
            invariant_except_break
                round_cntr <= 24,
                self@ == v0.with_lanes(driver_turns(a, round_cntr as nat)),
            ensures
                self@ == v0.with_lanes(slice_steps(driver_turns(a, 24), 24)),
            decreases 24 - round_cntr,
        {
            self.slice_proc(round_cntr);
            if round_cntr == NUM_ROUNDS {
                break ;
            }
            self.rho();
            round_cntr += 1;
        }
        proof {
            lemma_driver_is_keccak_f(a);
        }
    }

    /// Appends the padding to the buffer: the domain separation byte, zeros,
    /// and `0x80` in the last byte of the block; one byte holding both where
    /// the block has room for one byte only.
    pub fn pad(&mut self)
        requires
            old(self)@.rate > 0,
        ensures
            final(self)@ == old(self)@.pad(),
    {
        let ghost v0 = self@;
        let l: usize = self.input.len();
        let r: usize = self.rate;
        let fill: usize = r - 1 - (l % r);
        if fill == 0 {
            self.input.push(self.delim | PAD_END);
            assert(self.input@ =~= v0.pending + padding(v0.pending.len(), v0.rate, v0.delim));
        } else {
            self.input.push(self.delim);
            let mut i: usize = 1;
            while i < fill
                invariant
                    1 <= i <= fill,
                    self@ == (SpongeView { pending: self.input@, ..v0 }),
                    self.input@ == v0.pending + seq![v0.delim] + Seq::new(
                        (i - 1) as nat,
                        |k: int| 0u8,
                    ),
                decreases fill - i,
            {
                self.input.push(0);
                i += 1;
            }
            self.input.push(PAD_END);
            assert(self.input@ =~= v0.pending + padding(v0.pending.len(), v0.rate, v0.delim));
        }
    }

    /// XORs the next block of the buffer into the state, byte by byte, each
    /// byte at its place in the little-endian layout of its lane, and moves
    /// the offset behind the block.
    pub fn xorin(&mut self)
        requires
            old(self)@.rate <= 200,
            old(self)@.offset + old(self)@.rate <= old(self)@.pending.len(),
        ensures
            final(self)@ == old(self)@.xorin(),
    {
        let ghost v0 = self@;
        let ghost a = self.state@;
        let ghost block = v0.next_block();
        proof {
            lemma_xor_empty_block(a);
        }
        let mut i: usize = 0;
        while i < self.rate
            invariant
                i <= self.rate,
                self@ == v0.with_lanes(self.state@),
                v0.rate <= 200,
                v0.offset + v0.rate <= v0.pending.len(),
                self.offset + self.rate <= self.input.len(),
                block == v0.next_block(),
                a.len() == 25,
                self.state@ == xor_block(a, block.take(i as int)),
            decreases self.rate - i,
        {
            let byte: u8 = self.input[i + self.offset];
            let shift: u64 = (8 * (i % 8)) as u64;
            proof {
                lemma_xor_block_next_byte(a, block, i as int);
            }
            self.state[i / 8] ^= (byte as u64) << shift;
            i += 1;
        }
        self.offset += self.rate;
        assert(block.take(self.rate as int) =~= block);
    }

    /// Appends `input` to the buffer. Nothing is absorbed before `finalize`.
    ///
    /// An instance takes its message before `finalize`. Bytes fed after it
    /// are never absorbed, and they close the instance to `squeeze`.
    pub fn update(&mut self, input: &[u8])
        ensures
            final(self)@ == old(self)@.update(input@),
    {
        let ghost v0 = self@;
        self.input.extend_from_slice(input);
        assert(self.input@ =~= v0.pending + input@);
    }

    /// Pads the buffer, absorbs all of it block by block with a permutation
    /// after each block, and squeezes `output.len()` bytes into `output`.
    ///
    /// To be called once, and on an instance that has absorbed nothing: a
    /// second call finds the offset behind the first block and is refused.
    pub fn finalize(&mut self, output: &mut [u8])
        requires
            old(self)@.wf(),
            old(self)@.absorbing(),
        ensures
            final(self)@ == old(self)@.finalize(old(output)@.len()),
            final(output)@ == old(self)@.digest(old(output)@.len()),
            final(self)@.wf(),
            final(self)@.absorbed(),
    {
        let ghost v0 = self@;
        self.pad();
        let ghost p = self@;
        proof {
            lemma_padding_len(v0.pending.len(), v0.rate, v0.delim);
        }
        let mut l: usize = self.input.len();
        let rate: usize = self.rate;
        assert(p.pending.skip(0) =~= p.pending);
        while l >= rate
            invariant
                0 < rate < 200,
                rate == p.rate,
                p.lanes.len() == 25,
                self@ == (SpongeView { lanes: self.state@, offset: self.offset as nat, ..p }),
                self.offset + l == p.pending.len(),
                l as int % rate as int == 0,
                absorb(self.state@, p.pending.skip(self.offset as int), p.rate) == absorb(
                    p.lanes,
                    p.pending,
                    p.rate,
                ),
            decreases l,
        {
            let ghost rest = p.pending.skip(self.offset as int);
            proof {
                assert(rest.take(rate as int) =~= self@.next_block());
                assert(rest.skip(rate as int) =~= p.pending.skip(self.offset + rate));
                lemma_mod_multiples_vanish(-1, l as int, rate as int);
            }
            self.xorin();
            self.keccakf();
            l -= rate;
        }
        proof {
            lemma_small_mod(l as nat, rate as nat);
        }
        self.squeeze(output);
    }

    /// Squeezes `output.len()` bytes into `output`: whole blocks with a
    /// permutation after each, then what is left without one.
    ///
    /// For an instance whose whole buffer is absorbed, as `finalize` leaves
    /// it. A call that ended on a whole block is continued by the next call;
    /// one that ended inside a block is not: the next call reads that block
    /// from its start.
    pub fn squeeze(&mut self, output: &mut [u8])
        requires
            old(self)@.wf(),
            old(self)@.absorbed(),
        ensures
            final(self)@ == old(self)@.squeeze(old(output)@.len()),
            final(output)@ == old(self)@.squeezed(old(output)@.len()),
    {
        let ghost v0 = self@;
        let ghost n = output@.len();
        let mut op: usize = 0;
        let mut l: usize = output.len();
        while l >= self.rate
            invariant
                v0.wf(),
                self@ == v0.with_lanes(self.state@),
                output@.len() == n,
                op + l == output.len(),
                output@.take(op as int) + squeeze_bytes(self.state@, v0.rate, l as nat)
                    == squeeze_bytes(v0.lanes, v0.rate, n),
                squeeze_lanes(self.state@, v0.rate, l as nat) == squeeze_lanes(
                    v0.lanes,
                    v0.rate,
                    n,
                ),
            decreases l,
        {
            self.setout(output, op, self.rate);
            self.keccakf();
            op += self.rate;
            l -= self.rate;
        }
        self.setout(output, op, l);
    }

    /// Copies the first `len` bytes of the state to `dst[start..start + len]`.
    fn setout(&self, dst: &mut [u8], start: usize, len: usize)
        requires
            len <= 200,
            start + len <= old(dst).len(),
        ensures
            final(dst)@.len() == old(dst)@.len(),
            forall|k: int|
                0 <= k < old(dst)@.len() ==> final(dst)@[k] == (if start <= k < start + len {
                    state_bytes(self@.lanes)[k - start]
                } else {
                    old(dst)@[k]
                }),
    {
        let ghost before = dst@;
        let mut i: usize = 0;
        while i < len
            invariant
                i <= len <= 200,
                start + len <= dst.len(),
                dst@.len() == before.len(),
                forall|k: int|
                    0 <= k < before.len() ==> dst@[k] == (if start <= k < start + i {
                        state_bytes(self@.lanes)[k - start]
                    } else {
                        before[k]
                    }),
            decreases len - i,
        {
            let lane: u64 = self.state[i / 8];
            let shift: u64 = (8 * (i % 8)) as u64;
            let byte: u8 = #[verifier::truncate] ((lane >> shift) as u8);
            dst[start + i] = byte;
            i += 1;
        }
    }

    /// Block size in bytes.
    pub fn rate(&self) -> (r: usize)
        ensures
            r == self@.rate,
    {
        self.rate
    }

    /// Domain separation byte.
    pub fn delim(&self) -> (r: u8)
        ensures
            r == self@.delim,
    {
        self.delim
    }

    /// How many bytes of the buffer have been absorbed.
    pub fn offset(&self) -> (r: usize)
        ensures
            r == self@.offset,
    {
        self.offset
    }

    /// The buffer: all bytes fed so far, with the padding once it is
    /// appended.
    pub fn pending(&self) -> (r: &[u8])
        ensures
            r@ == self@.pending,
    {
        self.input.as_slice()
    }

    /// The 25 lanes of the state.
    pub fn get_state(&self) -> (r: Vec<u64>)
        ensures
            r@ == self@.lanes,
    {
        let mut r: Vec<u64> = Vec::new();
        let mut i: usize = 0;
        while i < 25
            invariant
                i <= 25,
                r@ == self.state@.take(i as int),
            decreases 25 - i,
        {
            r.push(self.state[i]);
            i += 1;
        }
        r
    }

    /// `update` for a caller that hands over a byte string.
    pub fn py_update(&mut self, input: &[u8])
        ensures
            final(self)@ == old(self)@.update(input@),
    {
        self.update(input);
    }

    /// `finalize` into a new buffer of `output_size` bytes.
    pub fn py_finalize(&mut self, output_size: usize) -> (output: Vec<u8>)
        requires
            old(self)@.wf(),
            old(self)@.absorbing(),
        ensures
            final(self)@ == old(self)@.finalize(output_size as nat),
            output@ == old(self)@.digest(output_size as nat),
            final(self)@.wf(),
            final(self)@.absorbed(),
    {
        let mut output: Vec<u8> = vec![0; output_size];
        self.finalize(output.as_mut_slice());
        output
    }
}

impl Clone for Keccak {
    /// A copy of its own: lanes, buffer, offset, rate and domain separation
    /// byte.
    fn clone(&self) -> (r: Self)
        ensures
            r@ == self@,
    {
        let input: Vec<u8> = self.input.clone();
        Keccak {
            state: self.state,
            offset: self.offset,
            rate: self.rate,
            delim: self.delim,
            input: input,
        }
    }
}

} // verus!
