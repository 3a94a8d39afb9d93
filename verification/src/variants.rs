//! The ten named constructions: SHAKE128/256, Keccak-224/256/384/512 and
//! SHA3-224/256/384/512. They differ in rate, domain separation byte and
//! output length only.

use crate::keccak::Keccak;
use crate::laws::{lemma_fresh_digest, lemma_variant_output_len};
use crate::padding::{DELIM_KECCAK, DELIM_SHA3, DELIM_SHAKE};
use crate::sponge::{sponge, SpongeView};
use vstd::prelude::*;

verus! {

/// One of the ten constructions.
#[allow(non_camel_case_types)]
#[derive(Clone, Copy, Debug)]
pub enum Variant {
    Shake128,
    Shake256,
    Keccak224,
    Keccak256,
    Keccak384,
    Keccak512,
    Sha3_224,
    Sha3_256,
    Sha3_384,
    Sha3_512,
}

impl Variant {
    /// The number that names the variant: the security level of a SHAKE
    /// function, the output length in bits of the others.
    pub open spec fn spec_bits(self) -> nat {
        match self {
            Variant::Shake128 => 128,
            Variant::Shake256 => 256,
            Variant::Keccak224 => 224,
            Variant::Keccak256 => 256,
            Variant::Keccak384 => 384,
            Variant::Keccak512 => 512,
            Variant::Sha3_224 => 224,
            Variant::Sha3_256 => 256,
            Variant::Sha3_384 => 384,
            Variant::Sha3_512 => 512,
        }
    }

    /// Block size in bytes: the capacity is twice `bits`, the rate is the
    /// rest of the 200 bytes.
    pub open spec fn spec_rate(self) -> nat {
        (200 - self.spec_bits() / 4) as nat
    }

    /// Domain separation byte.
    pub open spec fn spec_delim(self) -> u8 {
        match self {
            Variant::Shake128 | Variant::Shake256 => DELIM_SHAKE,
            Variant::Keccak224 | Variant::Keccak256 | Variant::Keccak384 | Variant::Keccak512 =>
                DELIM_KECCAK,
            Variant::Sha3_224 | Variant::Sha3_256 | Variant::Sha3_384 | Variant::Sha3_512 =>
                DELIM_SHA3,
        }
    }

    /// Output length in bytes of a fixed-output variant; `None` for SHAKE,
    /// whose caller chooses.
    pub open spec fn spec_output_len(self) -> Option<nat> {
        match self {
            Variant::Shake128 | Variant::Shake256 => None,
            _ => Some(self.spec_bits() / 8),
        }
    }

    /// Whether the variant gives `n` bytes of output: any `n` for SHAKE, the
    /// fixed length for the others.
    pub open spec fn gives(self, n: nat) -> bool {
        match self.spec_output_len() {
            None => true,
            Some(len) => n == len,
        }
    }

    /// The `n` bytes of output of this variant for `msg`.
    pub open spec fn output(self, msg: Seq<u8>, n: nat) -> Seq<u8> {
        sponge(self.spec_rate(), self.spec_delim(), msg, n)
    }

    /// The number that names the variant.
    pub fn bits(self) -> (r: usize)
        ensures
            r == self.spec_bits(),
    {
        match self {
            Variant::Shake128 => 128,
            Variant::Shake256 => 256,
            Variant::Keccak224 => 224,
            Variant::Keccak256 => 256,
            Variant::Keccak384 => 384,
            Variant::Keccak512 => 512,
            Variant::Sha3_224 => 224,
            Variant::Sha3_256 => 256,
            Variant::Sha3_384 => 384,
            Variant::Sha3_512 => 512,
        }
    }

    /// Block size in bytes.
    pub fn rate(self) -> (r: usize)
        ensures
            r == self.spec_rate(),
            0 < r < 200,
    {
        200 - self.bits() / 4
    }

    /// Domain separation byte.
    pub fn delim(self) -> (r: u8)
        ensures
            r == self.spec_delim(),
    {
        match self {
            Variant::Shake128 | Variant::Shake256 => DELIM_SHAKE,
            Variant::Keccak224 | Variant::Keccak256 | Variant::Keccak384 | Variant::Keccak512 =>
                DELIM_KECCAK,
            Variant::Sha3_224 | Variant::Sha3_256 | Variant::Sha3_384 | Variant::Sha3_512 =>
                DELIM_SHA3,
        }
    }

    /// Output length in bytes of a fixed-output variant, `None` for SHAKE.
    pub fn output_len(self) -> (r: Option<usize>)
        ensures
            match r {
                Some(len) => self.spec_output_len() == Some(len as nat),
                None => self.spec_output_len() is None,
            },
    {
        match self {
            Variant::Shake128 | Variant::Shake256 => None,
            _ => Some(self.bits() / 8),
        }
    }

    /// Hashes `data` in one call into `result`, whose length is the output
    /// length.
    pub fn hash(self, data: &[u8], result: &mut [u8])
        requires
            self.gives(old(result)@.len()),
        ensures
            final(result)@ == self.output(data@, old(result)@.len()),
    {
        let mut keccak = Keccak::with_variant(self);
        keccak.update(data);
        keccak.finalize(result);
        proof {
            lemma_fresh_digest(self.spec_rate(), self.spec_delim(), data@, old(result)@.len());
        }
    }
}

impl Keccak {
    /// A new sponge with the rate and the domain separation byte of `variant`.
    pub fn with_variant(variant: Variant) -> (r: Keccak)
        ensures
            r@ == SpongeView::fresh(variant.spec_rate(), variant.spec_delim()),
            r@.wf(),
    {
        Keccak::new(variant.rate(), variant.delim())
    }

    /// A new SHAKE128 sponge.
    pub fn new_shake128() -> (r: Keccak)
        ensures
            r@ == SpongeView::fresh(168, DELIM_SHAKE),
            r@.wf(),
    {
        Keccak::new(200 - 128 / 4, 0x1f)
    }

    /// SHAKE128 of `data`: as many bytes of output as `result` holds.
    pub fn shake128(data: &[u8], result: &mut [u8])
        ensures
            final(result)@ == Variant::Shake128.output(data@, old(result)@.len()),
    {
        Variant::Shake128.hash(data, result);
    }

    /// A new SHAKE256 sponge.
    pub fn new_shake256() -> (r: Keccak)
        ensures
            r@ == SpongeView::fresh(136, DELIM_SHAKE),
            r@.wf(),
    {
        Keccak::new(200 - 256 / 4, 0x1f)
    }

    /// SHAKE256 of `data`: as many bytes of output as `result` holds.
    pub fn shake256(data: &[u8], result: &mut [u8])
        ensures
            final(result)@ == Variant::Shake256.output(data@, old(result)@.len()),
    {
        Variant::Shake256.hash(data, result);
    }

    /// A new Keccak-224 sponge.
    pub fn new_keccak224() -> (r: Keccak)
        ensures
            r@ == SpongeView::fresh(144, DELIM_KECCAK),
            r@.wf(),
    {
        Keccak::new(200 - 224 / 4, 0x01)
    }

    /// Keccak-224 of `data`, into the 28 bytes of `result`.
    pub fn keccak224(data: &[u8], result: &mut [u8])
        requires
            old(result)@.len() == 28,
        ensures
            final(result)@ == Variant::Keccak224.output(data@, 28),
    {
        Variant::Keccak224.hash(data, result);
    }

    /// A new Keccak-256 sponge.
    pub fn new_keccak256() -> (r: Keccak)
        ensures
            r@ == SpongeView::fresh(136, DELIM_KECCAK),
            r@.wf(),
    {
        Keccak::new(200 - 256 / 4, 0x01)
    }

    /// Keccak-256 of `data`, into the 32 bytes of `result`.
    pub fn keccak256(data: &[u8], result: &mut [u8])
        requires
            old(result)@.len() == 32,
        ensures
            final(result)@ == Variant::Keccak256.output(data@, 32),
    {
        Variant::Keccak256.hash(data, result);
    }

    /// A new Keccak-384 sponge.
    pub fn new_keccak384() -> (r: Keccak)
        ensures
            r@ == SpongeView::fresh(104, DELIM_KECCAK),
            r@.wf(),
    {
        Keccak::new(200 - 384 / 4, 0x01)
    }

    /// Keccak-384 of `data`, into the 48 bytes of `result`.
    pub fn keccak384(data: &[u8], result: &mut [u8])
        requires
            old(result)@.len() == 48,
        ensures
            final(result)@ == Variant::Keccak384.output(data@, 48),
    {
        Variant::Keccak384.hash(data, result);
    }

    /// A new Keccak-512 sponge.
    pub fn new_keccak512() -> (r: Keccak)
        ensures
            r@ == SpongeView::fresh(72, DELIM_KECCAK),
            r@.wf(),
    {
        Keccak::new(200 - 512 / 4, 0x01)
    }

    /// Keccak-512 of `data`, into the 64 bytes of `result`.
    pub fn keccak512(data: &[u8], result: &mut [u8])
        requires
            old(result)@.len() == 64,
        ensures
            final(result)@ == Variant::Keccak512.output(data@, 64),
    {
        Variant::Keccak512.hash(data, result);
    }

    /// A new SHA3-224 sponge.
    pub fn new_sha3_224() -> (r: Keccak)
        ensures
            r@ == SpongeView::fresh(144, DELIM_SHA3),
            r@.wf(),
    {
        Keccak::new(200 - 224 / 4, 0x06)
    }

    /// SHA3-224 of `data`, into the 28 bytes of `result`.
    pub fn sha3_224(data: &[u8], result: &mut [u8])
        requires
            old(result)@.len() == 28,
        ensures
            final(result)@ == Variant::Sha3_224.output(data@, 28),
    {
        Variant::Sha3_224.hash(data, result);
    }

    /// A new SHA3-256 sponge.
    pub fn new_sha3_256() -> (r: Keccak)
        ensures
            r@ == SpongeView::fresh(136, DELIM_SHA3),
            r@.wf(),
    {
        Keccak::new(200 - 256 / 4, 0x06)
    }

    /// SHA3-256 of `data`, into the 32 bytes of `result`.
    pub fn sha3_256(data: &[u8], result: &mut [u8])
        requires
            old(result)@.len() == 32,
        ensures
            final(result)@ == Variant::Sha3_256.output(data@, 32),
    {
        Variant::Sha3_256.hash(data, result);
    }

    /// A new SHA3-384 sponge.
    pub fn new_sha3_384() -> (r: Keccak)
        ensures
            r@ == SpongeView::fresh(104, DELIM_SHA3),
            r@.wf(),
    {
        Keccak::new(200 - 384 / 4, 0x06)
    }

    /// SHA3-384 of `data`, into the 48 bytes of `result`.
    pub fn sha3_384(data: &[u8], result: &mut [u8])
        requires
            old(result)@.len() == 48,
        ensures
            final(result)@ == Variant::Sha3_384.output(data@, 48),
    {
        Variant::Sha3_384.hash(data, result);
    }

    /// A new SHA3-512 sponge.
    pub fn new_sha3_512() -> (r: Keccak)
        ensures
            r@ == SpongeView::fresh(72, DELIM_SHA3),
            r@.wf(),
    {
        Keccak::new(200 - 512 / 4, 0x06)
    }

    /// SHA3-512 of `data`, into the 64 bytes of `result`.
    pub fn sha3_512(data: &[u8], result: &mut [u8])
        requires
            old(result)@.len() == 64,
        ensures
            final(result)@ == Variant::Sha3_512.output(data@, 64),
    {
        Variant::Sha3_512.hash(data, result);
    }
}

/// SHAKE128 of `data`, `output_len` bytes of it.
pub fn shake128(data: &[u8], output_len: usize) -> (r: Vec<u8>)
    ensures
        r@ == Variant::Shake128.output(data@, output_len as nat),
        r@.len() == output_len,
{
    let mut result: Vec<u8> = vec![0; output_len];
    Keccak::shake128(data, result.as_mut_slice());
    proof {
        lemma_variant_output_len(Variant::Shake128, data@, output_len as nat);
    }
    result
}

/// SHAKE256 of `data`, `output_len` bytes of it.
pub fn shake256(data: &[u8], output_len: usize) -> (r: Vec<u8>)
    ensures
        r@ == Variant::Shake256.output(data@, output_len as nat),
        r@.len() == output_len,
{
    let mut result: Vec<u8> = vec![0; output_len];
    Keccak::shake256(data, result.as_mut_slice());
    proof {
        lemma_variant_output_len(Variant::Shake256, data@, output_len as nat);
    }
    result
}

/// Keccak-224 of `data`.
pub fn keccak224(data: &[u8]) -> (r: [u8; 28])
    ensures
        r@ == Variant::Keccak224.output(data@, 28),
{
    let mut result: [u8; 28] = [0u8; 28];
    Keccak::keccak224(data, &mut result);
    result
}

/// Keccak-256 of `data`.
pub fn keccak256(data: &[u8]) -> (r: [u8; 32])
    ensures
        r@ == Variant::Keccak256.output(data@, 32),
{
    let mut result: [u8; 32] = [0u8; 32];
    Keccak::keccak256(data, &mut result);
    result
}

/// Keccak-384 of `data`.
pub fn keccak384(data: &[u8]) -> (r: [u8; 48])
    ensures
        r@ == Variant::Keccak384.output(data@, 48),
{
    let mut result: [u8; 48] = [0u8; 48];
    Keccak::keccak384(data, &mut result);
    result
}

/// Keccak-512 of `data`.
pub fn keccak512(data: &[u8]) -> (r: [u8; 64])
    ensures
        r@ == Variant::Keccak512.output(data@, 64),
{
    let mut result: [u8; 64] = [0u8; 64];
    Keccak::keccak512(data, &mut result);
    result
}

/// SHA3-224 of `data`.
pub fn sha3_224(data: &[u8]) -> (r: [u8; 28])
    ensures
        r@ == Variant::Sha3_224.output(data@, 28),
{
    let mut result: [u8; 28] = [0u8; 28];
    Keccak::sha3_224(data, &mut result);
    result
}

/// SHA3-256 of `data`.
pub fn sha3_256(data: &[u8]) -> (r: [u8; 32])
    ensures
        r@ == Variant::Sha3_256.output(data@, 32),
{
    let mut result: [u8; 32] = [0u8; 32];
    Keccak::sha3_256(data, &mut result);
    result
}

/// SHA3-384 of `data`.
pub fn sha3_384(data: &[u8]) -> (r: [u8; 48])
    ensures
        r@ == Variant::Sha3_384.output(data@, 48),
{
    let mut result: [u8; 48] = [0u8; 48];
    Keccak::sha3_384(data, &mut result);
    result
}

/// SHA3-512 of `data`.
pub fn sha3_512(data: &[u8]) -> (r: [u8; 64])
    ensures
        r@ == Variant::Sha3_512.output(data@, 64),
{
    let mut result: [u8; 64] = [0u8; 64];
    Keccak::sha3_512(data, &mut result);
    result
}

} // verus!
