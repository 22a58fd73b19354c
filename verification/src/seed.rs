//! The deterministic sequence that seeds the first generation.

use crate::cell::Cell;
use vstd::arithmetic::div_mod::{
    lemma_fundamental_div_mod_converse, lemma_mod_bound, lemma_mul_mod_noop_left,
};
use vstd::prelude::*;

verus! {

/// The factor by which the accumulator is multiplied at every update.
pub const SEED_MULTIPLIER: u128 = 1234567890;

/// The modulus by which the accumulator is reduced at every update.
pub const SEED_MODULUS: u128 = 9999999999;

/// The accumulator after one more update: multiplied, then reduced.
pub open spec fn seed_update(k: nat) -> nat {
    ((k * SEED_MULTIPLIER) % (SEED_MODULUS as int)) as nat
}

/// The accumulator after `n` updates. It starts at 1.
pub open spec fn seed_state(n: nat) -> nat
    decreases n,
{
    if n == 0 {
        1
    } else {
        seed_update(seed_state((n - 1) as nat))
    }
}

/// The cell that an accumulator value stands for: alive when it is a multiple
/// of five.
pub open spec fn seed_cell(k: nat) -> Cell {
    if k % 5 == 0 {
        Cell::Alive
    } else {
        Cell::Dead
    }
}

/// The first `len` cells of the seeding. The accumulator is updated before
/// each cell is drawn, so cell `i` comes from the state after `i + 1` updates.
pub open spec fn seeded_cells(len: nat) -> Seq<Cell> {
    Seq::new(len, |i: int| seed_cell(seed_state((i + 1) as nat)))
}

/// The accumulator never reaches the modulus.
pub proof fn lemma_seed_state_bound(n: nat)
    ensures
        seed_state(n) < SEED_MODULUS,
    decreases n,
{
    if n > 0 {
        lemma_mod_bound(seed_state((n - 1) as nat) * SEED_MULTIPLIER, SEED_MODULUS as int);
    }
}

/// The recurrence of the seeding: the accumulator starts at 1, and every update
/// multiplies it by 1234567890 and reduces it modulo 9999999999.
pub proof fn seed_recurrence(n: nat)
    ensures
        seed_state(0) == 1,
        seed_state(n + 1) == (seed_state(n) * 1234567890) % 9999999999,
        seed_state(n + 1) < 9999999999,
{
    lemma_seed_state_bound(n + 1);
}

/// The accumulator after each of the first ten updates. The first and the
/// seventh value are multiples of five, so of the first ten cells these two
/// are alive.
pub proof fn first_seed_states()
    ensures
        seed_state(1) == 1234567890,
        seed_state(2) == 5171467887,
        seed_state(3) == 8094801249,
        seed_state(4) == 8946652779,
        seed_state(5) == 5037191334,
        seed_state(6) == 7364540727,
        seed_state(7) == 7060658580,
        seed_state(8) == 5992682436,
        seed_state(9) == 1192417371,
        seed_state(10) == 7862029209,
        forall|i: int|
            0 <= i < 10 ==> #[trigger] seeded_cells(10)[i] == if i == 0 || i == 6 {
                Cell::Alive
            } else {
                Cell::Dead
            },
{
    lemma_seed_step(0, 1, 0, 1234567890);
    lemma_seed_step(1, 1234567890, 152415787, 5171467887);
    lemma_seed_step(2, 5171467887, 638452819, 8094801249);
    lemma_seed_step(3, 8094801249, 999358169, 8946652779);
    lemma_seed_step(4, 8946652779, 1104525024, 5037191334);
    lemma_seed_step(5, 5037191334, 621875467, 7364540727);
    lemma_seed_step(6, 7364540727, 909202550, 7060658580);
    lemma_seed_step(7, 7060658580, 871686236, 5992682436);
    lemma_seed_step(8, 5992682436, 739837331, 1192417371);
    lemma_seed_step(9, 1192417371, 147212019, 7862029209);
}

/// One update from a known state: `quotient` witnesses the reduction.
proof fn lemma_seed_step(n: nat, k: nat, quotient: nat, next: nat)
    requires
        seed_state(n) == k,
        k * 1234567890 == quotient * 9999999999 + next,
        next < 9999999999,
    ensures
        seed_state(n + 1) == next,
{
    lemma_fundamental_div_mod_converse(
        (k * 1234567890) as int,
        9999999999,
        quotient as int,
        next as int,
    );
}

/// One update of the accumulator.
pub fn next_seed(k: u128) -> (next: u128)
    ensures
        next == seed_update(k as nat),
        next < SEED_MODULUS,
{
    let reduced: u128 = k % SEED_MODULUS;
    proof {
        lemma_mul_mod_noop_left(k as int, SEED_MULTIPLIER as int, SEED_MODULUS as int);
        lemma_mod_bound(k * SEED_MULTIPLIER, SEED_MODULUS as int);
        assert(reduced * SEED_MULTIPLIER <= 9999999998 * 1234567890) by (nonlinear_arith)
            requires
                reduced <= 9999999998,
                SEED_MULTIPLIER == 1234567890,
        ;
    }
    (reduced * SEED_MULTIPLIER) % SEED_MODULUS
}

/// The cell drawn from the accumulator value `k`.
pub fn cell_of_seed(k: u128) -> (cell: Cell)
    ensures
        cell == seed_cell(k as nat),
{
    if k % 5 == 0 {
        Cell::Alive
    } else {
        Cell::Dead
    }
}

} // verus!
