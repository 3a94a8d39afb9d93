//! The Keccak-f[1600] permutation as a mathematical function on 25 lanes.
//!
//! A state is a `Seq<u64>` of length 25. Lane `(x, y)` of the 5×5 grid sits at
//! index `5 * y + x`: `y` is the row, `x` the column. Everything here is
//! specification; the executable steps live on [`crate::keccak::Keccak`] and
//! are proved against these functions.

use vstd::prelude::*;

verus! {

/// Number of 64-bit lanes in the state.
pub const NUM_LANES: usize = 25;

/// Number of rounds of Keccak-f[1600].
pub const NUM_ROUNDS: usize = 24;

/// Rotation offset of each lane, by lane index. Lane 0 is not rotated.
pub const RHO: [u32; 25] = [
    0, 1, 62, 28, 27, 36, 44, 6, 55, 20, 3, 10, 43, 25, 39, 41, 45, 15, 21, 8, 18, 2, 61, 56, 14,
];

/// Round constants. Round `i` (counted from 1) uses `RC[i]`; `RC[0]` is an
/// unused zero in front, so that the table can be indexed by round number.
pub const RC: [u64; 25] = [
    0x0000000000000000u64,
    0x0000000000000001u64,
    0x0000000000008082u64,
    0x800000000000808au64,
    0x8000000080008000u64,
    0x000000000000808bu64,
    0x0000000080000001u64,
    0x8000000080008081u64,
    0x8000000000008009u64,
    0x000000000000008au64,
    0x0000000000000088u64,
    0x0000000080008009u64,
    0x000000008000000au64,
    0x000000008000808bu64,
    0x800000000000008bu64,
    0x8000000000008089u64,
    0x8000000000008003u64,
    0x8000000000008002u64,
    0x8000000000000080u64,
    0x000000000000800au64,
    0x800000008000000au64,
    0x8000000080008081u64,
    0x8000000000008080u64,
    0x0000000080000001u64,
    0x8000000080008008u64,
];

/// The all-zero state a sponge starts from.
pub open spec fn zero_lanes() -> Seq<u64> {
    Seq::new(25, |k: int| 0u64)
}

/// Index of the lane in row `i`, column `j`, both taken modulo 5.
pub open spec fn lane_index(i: int, j: int) -> int {
    (i % 5) * 5 + (j % 5)
}

/// `x` rotated left by `n` bits, for `n < 64`.
pub open spec fn rotl(x: u64, n: u32) -> u64 {
    if n == 0 {
        x
    } else {
        (x << n) | (x >> ((64 - n) as u32))
    }
}

/// XOR of the five lanes of column `col`.
pub open spec fn column_parity(a: Seq<u64>, col: int) -> u64 {
    a[col] ^ a[col + 5] ^ a[col + 10] ^ a[col + 15] ^ a[col + 20]
}

/// What theta adds to every lane of column `col`: the parity of the column to
/// the left, and the parity of the column to the right rotated by one bit.
pub open spec fn theta_effect(a: Seq<u64>, col: int) -> u64 {
    column_parity(a, (col + 4) % 5) ^ rotl(column_parity(a, (col + 1) % 5), 1)
}

/// Theta: every lane is XORed with the effect of its column.
pub open spec fn theta_step(a: Seq<u64>) -> Seq<u64> {
    Seq::new(25, |k: int| a[k] ^ theta_effect(a, k % 5))
}

/// Rho: every lane is rotated left by its own fixed offset.
pub open spec fn rho_step(a: Seq<u64>) -> Seq<u64> {
    Seq::new(25, |k: int| rotl(a[k], RHO[k]))
}

/// The lane that pi moves to index `k`: position `(row, col)` receives the
/// lane from `(col, 3 * row + col)`.
pub open spec fn pi_source(k: int) -> int {
    lane_index(k % 5, 3 * (k / 5) + k % 5)
}

/// Pi: the lanes change places; no lane is altered.
pub open spec fn pi_step(a: Seq<u64>) -> Seq<u64> {
    Seq::new(25, |k: int| a[pi_source(k)])
}

/// Chi at index `k`: the lane XOR (NOT next lane AND lane after next), the
/// neighbours taken cyclically within the row.
pub open spec fn chi_lane(a: Seq<u64>, k: int) -> u64 {
    let row = k / 5;
    let col = k % 5;
    a[k] ^ ((!a[row * 5 + (col + 1) % 5]) & a[row * 5 + (col + 2) % 5])
}

/// Chi: the only non-linear step, applied row by row.
pub open spec fn chi_step(a: Seq<u64>) -> Seq<u64> {
    Seq::new(25, |k: int| chi_lane(a, k))
}

/// Iota: the round constant `RC[i]` is XORed into lane 0.
pub open spec fn iota_step(a: Seq<u64>, i: int) -> Seq<u64> {
    a.update(0, a[0] ^ RC[i])
}

/// One round in the order of the standard: theta, rho, pi, chi, iota.
/// `i` runs from 1 to 24.
pub open spec fn round(a: Seq<u64>, i: int) -> Seq<u64> {
    iota_step(chi_step(pi_step(rho_step(theta_step(a)))), i)
}

/// The first `n` rounds applied to `a`.
pub open spec fn rounds(a: Seq<u64>, n: nat) -> Seq<u64>
    decreases n,
{
    if n == 0 {
        a
    } else {
        round(rounds(a, (n - 1) as nat), n as int)
    }
}

/// Keccak-f[1600]: all 24 rounds.
pub open spec fn keccak_f(a: Seq<u64>) -> Seq<u64> {
    rounds(a, 24)
}

/// `k` applications of Keccak-f[1600].
pub open spec fn permutations(a: Seq<u64>, k: nat) -> Seq<u64>
    decreases k,
{
    if k == 0 {
        a
    } else {
        keccak_f(permutations(a, (k - 1) as nat))
    }
}

/// The bundle of steps that the round driver runs for counter value `r`,
/// `0 <= r <= 24`: pi, chi and iota of round `r` (none for `r == 0`), then the
/// theta that opens round `r + 1` (none for `r == 24`).
pub open spec fn slice_steps(a: Seq<u64>, r: int) -> Seq<u64> {
    let b = if r != 0 {
        iota_step(chi_step(pi_step(a)), r)
    } else {
        a
    };
    if r != 24 {
        theta_step(b)
    } else {
        b
    }
}

/// The state of the round driver after `n` turns of its loop: turn `r` runs
/// `slice_steps(_, r)` and then rho.
pub open spec fn driver_turns(a: Seq<u64>, n: nat) -> Seq<u64>
    decreases n,
{
    if n == 0 {
        a
    } else {
        rho_step(slice_steps(driver_turns(a, (n - 1) as nat), n - 1))
    }
}

/// After `n >= 1` turns the driver stands in the middle of round `n`: the
/// first `n - 1` rounds are complete, and theta and rho of round `n` are done.
pub proof fn lemma_driver_turns(a: Seq<u64>, n: nat)
    requires
        1 <= n <= 24,
    ensures
        driver_turns(a, n) == rho_step(theta_step(rounds(a, (n - 1) as nat))),
    decreases n,
{
    if n == 1 {
        assert(driver_turns(a, 0) == a);
    } else {
        lemma_driver_turns(a, (n - 1) as nat);
    }
}

/// The round driver computes Keccak-f[1600]: 24 turns followed by the last
/// bundle, which holds no theta, give the same state as 24 rounds run in the
/// order theta, rho, pi, chi, iota.
pub proof fn lemma_driver_is_keccak_f(a: Seq<u64>)
    ensures
        slice_steps(driver_turns(a, 24), 24) == keccak_f(a),
{
    lemma_driver_turns(a, 24);
}

} // verus!
