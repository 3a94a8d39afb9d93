//! Keccak-f[1600] and the sponge construction built on it: the SHA-3 hash
//! functions, the SHAKE extendable-output functions, and the Keccak hash
//! functions as they were before the standard changed the padding.
//!
//! Every function is proved against a mathematical definition:
//! [`permutation`] defines the five round steps and the permutation on a
//! sequence of 25 lanes, [`encoding`] the layout of the lanes as 200 bytes,
//! [`padding`] the padding rule, and [`sponge`] absorbing, squeezing and the
//! abstract state of an instance. [`keccak`] holds the executable sponge,
//! [`variants`] the ten named constructions, and [`laws`] what holds of the
//! sponge for all inputs.

pub mod encoding;
pub mod keccak;
pub mod laws;
pub mod padding;
pub mod permutation;
pub mod rho_table;
pub mod sponge;
pub mod variants;

pub use keccak::Keccak;
pub use rho_table::{rho_pairs, rho_quarters};
pub use sponge::SpongeView;
pub use variants::{
    keccak224, keccak256, keccak384, keccak512, sha3_224, sha3_256, sha3_384, sha3_512, shake128,
    shake256, Variant,
};
