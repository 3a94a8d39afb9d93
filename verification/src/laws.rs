//! What holds of the sponge for every input: the output is a function of the
//! message, feeding a message in pieces changes nothing, longer output extends
//! shorter output, and squeezing permutes once per whole block.

use crate::encoding::{state_bytes, xor_block};
use crate::padding::{lemma_padding_len, padded};
use crate::permutation::{keccak_f, permutations, zero_lanes};
use crate::sponge::{absorb, sponge, squeeze_bytes, squeeze_lanes, SpongeView};
use crate::variants::Variant;
use vstd::arithmetic::div_mod::{lemma_basic_div, lemma_mod_multiples_vanish, lemma_small_mod};
use vstd::prelude::*;

verus! {

/// Keccak-f[1600] gives 25 lanes.
pub proof fn lemma_keccak_f_len(a: Seq<u64>)
    ensures
        keccak_f(a).len() == 25,
{
}

/// Absorbing keeps 25 lanes.
pub proof fn lemma_absorb_len(a: Seq<u64>, data: Seq<u8>, rate: nat)
    requires
        a.len() == 25,
    ensures
        absorb(a, data, rate).len() == 25,
    decreases data.len(),
{
    if rate != 0 && data.len() >= rate {
        let mixed = xor_block(a, data.take(rate as int));
        lemma_keccak_f_len(mixed);
        lemma_absorb_len(keccak_f(mixed), data.skip(rate as int), rate);
    }
}

/// Squeezing keeps 25 lanes.
pub proof fn lemma_squeeze_lanes_len(a: Seq<u64>, rate: nat, n: nat)
    requires
        a.len() == 25,
    ensures
        squeeze_lanes(a, rate, n).len() == 25,
    decreases n,
{
    if rate != 0 && n >= rate {
        lemma_keccak_f_len(a);
        lemma_squeeze_lanes_len(keccak_f(a), rate, (n - rate) as nat);
    }
}

/// Squeezing `n` bytes gives `n` bytes.
pub proof fn lemma_squeeze_len(a: Seq<u64>, rate: nat, n: nat)
    requires
        0 < rate <= 200,
    ensures
        squeeze_bytes(a, rate, n).len() == n,
    decreases n,
{
    if n >= rate {
        lemma_squeeze_len(keccak_f(a), rate, (n - rate) as nat);
    }
}

/// Output is prefix-extendable: the first `n` of `n + k` squeezed bytes are
/// the `n` bytes squeezed alone.
pub proof fn lemma_squeeze_prefix(a: Seq<u64>, rate: nat, n: nat, k: nat)
    requires
        0 < rate <= 200,
    ensures
        squeeze_bytes(a, rate, n + k).take(n as int) == squeeze_bytes(a, rate, n),
    decreases n,
{
    if n >= rate {
        let rest = (n - rate) as nat;
        lemma_squeeze_prefix(keccak_f(a), rate, rest, k);
        lemma_squeeze_len(keccak_f(a), rate, rest + k);
    }
}

/// The same for a whole hash: asking for `n + k` bytes of output for a
/// message gives, in its first `n` bytes, what asking for `n` bytes gives.
pub proof fn lemma_sponge_prefix(rate: nat, delim: u8, msg: Seq<u8>, n: nat, k: nat)
    requires
        0 < rate <= 200,
    ensures
        sponge(rate, delim, msg, n + k).take(n as int) == sponge(rate, delim, msg, n),
{
    lemma_squeeze_prefix(absorb(zero_lanes(), padded(msg, rate, delim), rate), rate, n, k);
}

/// Squeezing permutes the state once for each whole block given out and not
/// once more: after `n` bytes the state has been permuted `n / rate` times,
/// also where `n` is a multiple of the rate.
pub proof fn lemma_squeeze_permutation_count(a: Seq<u64>, rate: nat, n: nat)
    requires
        rate > 0,
    ensures
        squeeze_lanes(a, rate, n) == permutations(a, n / rate),
    decreases n,
{
    if n >= rate {
        let m = (n - rate) as nat;
        lemma_squeeze_permutation_count(keccak_f(a), rate, m);
        assert(n / rate == m / rate + 1) by (nonlinear_arith)
            requires
                rate > 0,
                n == m + rate,
        ;
        lemma_permutations_shift(a, m / rate);
    } else {
        assert(n / rate == 0) by (nonlinear_arith)
            requires
                0 <= n < rate,
        ;
    }
}

/// Permuting first and then `k` times is permuting `k + 1` times.
pub proof fn lemma_permutations_shift(a: Seq<u64>, k: nat)
    ensures
        permutations(keccak_f(a), k) == permutations(a, k + 1),
    decreases k,
{
    if k > 0 {
        lemma_permutations_shift(a, (k - 1) as nat);
    } else {
        assert(permutations(a, 1) == keccak_f(permutations(a, 0)));
    }
}

/// Byte `i` of the output is byte `i % rate` of the state after `i / rate`
/// permutations, however many bytes are squeezed in all.
pub proof fn lemma_squeeze_byte(a: Seq<u64>, rate: nat, n: nat, i: int)
    requires
        0 < rate <= 200,
        0 <= i < n,
    ensures
        squeeze_bytes(a, rate, n)[i] == state_bytes(permutations(a, (i / rate as int) as nat))[i
            % rate as int],
    decreases n,
{
    if i < rate {
        lemma_small_mod(i as nat, rate);
        lemma_basic_div(i, rate as int);
        assert(permutations(a, 0) == a);
    } else {
        let j = i - rate;
        lemma_squeeze_byte(keccak_f(a), rate, (n - rate) as nat, j);
        lemma_squeeze_len(keccak_f(a), rate, (n - rate) as nat);
        lemma_mod_multiples_vanish(-1, i, rate as int);
        assert(i / rate as int == j / rate as int + 1) by (nonlinear_arith)
            requires
                rate > 0,
                i == j + rate,
                j >= 0,
        ;
        assert(j / rate as int >= 0) by (nonlinear_arith)
            requires
                rate > 0,
                j >= 0,
        ;
        lemma_permutations_shift(a, (j / rate as int) as nat);
    }
}

/// Squeezing in two calls continues the output where the first call gave out
/// whole blocks: `n` bytes, `n` a multiple of the rate, and then `k` bytes are
/// the `n + k` bytes of one call.
pub proof fn lemma_squeeze_continues(a: Seq<u64>, rate: nat, n: nat, k: nat)
    requires
        0 < rate <= 200,
        n % rate == 0,
    ensures
        squeeze_bytes(a, rate, n) + squeeze_bytes(squeeze_lanes(a, rate, n), rate, k)
            == squeeze_bytes(a, rate, n + k),
        squeeze_lanes(squeeze_lanes(a, rate, n), rate, k) == squeeze_lanes(a, rate, n + k),
    decreases n,
{
    if n >= rate {
        lemma_mod_multiples_vanish(-1, n as int, rate as int);
        lemma_squeeze_continues(keccak_f(a), rate, (n - rate) as nat, k);
    } else {
        lemma_small_mod(n, rate);
    }
}

/// Absorbing two runs of whole blocks one after the other is absorbing
/// their concatenation.
pub proof fn lemma_absorb_concat(a: Seq<u64>, first: Seq<u8>, second: Seq<u8>, rate: nat)
    requires
        rate > 0,
        first.len() % rate == 0,
    ensures
        absorb(a, first + second, rate) == absorb(absorb(a, first, rate), second, rate),
    decreases first.len(),
{
    if first.len() >= rate {
        let block = first.take(rate as int);
        let rest = first.skip(rate as int);
        lemma_mod_multiples_vanish(-1, first.len() as int, rate as int);
        assert((first + second).take(rate as int) =~= block);
        assert((first + second).skip(rate as int) =~= rest + second);
        lemma_absorb_concat(keccak_f(xor_block(a, block)), rest, second, rate);
    } else {
        lemma_small_mod(first.len(), rate);
    }
}

/// A new instance that is fed a message and finalized gives the sponge
/// function of the message.
pub proof fn lemma_fresh_digest(rate: nat, delim: u8, msg: Seq<u8>, n: nat)
    ensures
        SpongeView::fresh(rate, delim).update(msg).digest(n) == sponge(rate, delim, msg, n),
{
}

/// Determinism: two messages that agree byte for byte have the same output,
/// whatever instance computes it.
pub proof fn lemma_same_input_same_output(rate: nat, delim: u8, a: Seq<u8>, b: Seq<u8>, n: nat)
    requires
        a.len() == b.len(),
        forall|i: int| 0 <= i < a.len() ==> a[i] == b[i],
    ensures
        sponge(rate, delim, a, n) == sponge(rate, delim, b, n),
        SpongeView::fresh(rate, delim).update(a).digest(n) == SpongeView::fresh(
            rate,
            delim,
        ).update(b).digest(n),
        SpongeView::fresh(rate, delim).update(a).finalize(n) == SpongeView::fresh(
            rate,
            delim,
        ).update(b).finalize(n),
{
    assert(a =~= b);
}

/// Incremental absorption: feeding `a` and then `b` leaves the instance as
/// feeding `a + b` at once does, so finalizing gives the same output and the
/// same state. Either piece may be empty.
pub proof fn lemma_update_in_pieces(v: SpongeView, a: Seq<u8>, b: Seq<u8>, n: nat)
    ensures
        v.update(a).update(b) == v.update(a + b),
        v.update(a).update(b).digest(n) == v.update(a + b).digest(n),
        v.update(a).update(b).finalize(n) == v.update(a + b).finalize(n),
        v.update(Seq::empty()) == v,
{
    assert((v.pending + a) + b =~= v.pending + (a + b));
}

/// Finalizing a valid instance that has absorbed nothing leaves a valid
/// instance with its whole buffer absorbed, and gives as many bytes as were
/// asked for.
pub proof fn lemma_finalize_valid(v: SpongeView, n: nat)
    requires
        v.wf(),
        v.absorbing(),
    ensures
        v.finalize(n).wf(),
        v.finalize(n).absorbed(),
        v.finalize(n).pending == padded(v.pending, v.rate, v.delim),
        v.finalize(n).pending.len() % v.rate == 0,
        v.digest(n).len() == n,
{
    let absorbed = absorb(v.lanes, v.pad().pending, v.rate);
    lemma_padding_len(v.pending.len(), v.rate, v.delim);
    lemma_absorb_len(v.lanes, v.pad().pending, v.rate);
    lemma_squeeze_lanes_len(absorbed, v.rate, n);
    lemma_squeeze_len(absorbed, v.rate, n);
}

/// Every variant leaves a capacity: its rate lies between 1 and 199 bytes, and
/// is 200 bytes less twice the security level.
pub proof fn lemma_variant_rate(v: Variant)
    ensures
        0 < v.spec_rate() < 200,
        v.spec_rate() + 2 * (v.spec_bits() / 8) == 200,
{
}

/// A variant gives as many bytes as are asked for.
pub proof fn lemma_variant_output_len(v: Variant, msg: Seq<u8>, n: nat)
    ensures
        v.output(msg, n).len() == n,
{
    lemma_squeeze_len(
        absorb(zero_lanes(), padded(msg, v.spec_rate(), v.spec_delim()), v.spec_rate()),
        v.spec_rate(),
        n,
    );
}

/// The output of a variant is prefix-extendable: the first `n` of `n + k`
/// bytes of output for a message are the `n` bytes of output for it. For
/// SHAKE128 and SHAKE256 every `n` and `k` can be asked for.
pub proof fn lemma_variant_prefix(v: Variant, msg: Seq<u8>, n: nat, k: nat)
    ensures
        v.output(msg, n + k).take(n as int) == v.output(msg, n),
{
    lemma_sponge_prefix(v.spec_rate(), v.spec_delim(), msg, n, k);
}

} // verus!
