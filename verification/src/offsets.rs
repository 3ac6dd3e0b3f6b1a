//! Where in the nonce space each worker starts, and why no two of them meet.

use crate::input::{
    counter_after, lemma_counter_after_twice, lemma_nonce_injective, nonce_bytes,
};
use vstd::prelude::*;

verus! {

/// The starting points of all `threads` workers from `base` on.
pub open spec fn spec_offsets(base: u64, threads: nat) -> Seq<u64> {
    Seq::new(threads, |i: int| worker_offset(base, threads, i as nat))
}

/// The distance between the starting points of two neighbouring workers
/// when there are `threads` of them.
pub open spec fn offset_step(threads: nat) -> nat
    recommends
        threads > 0,
{
    0x1_0000_0000_0000_0000nat / threads
}

/// The starting point of worker `i` of `threads`, counted from zero, when
/// the first worker starts one step after `base`.
pub open spec fn worker_offset(base: u64, threads: nat, i: nat) -> u64 {
    counter_after(base, (i + 1) * offset_step(threads))
}

/// The counter of the nonce that worker `i` of `threads` scores at its
/// iteration `k`, counted from zero: a worker starts one after its offset.
pub open spec fn worker_counter(base: u64, threads: nat, i: nat, k: nat) -> u64 {
    counter_after(counter_after(worker_offset(base, threads, i), 1), k)
}

/// The starting points of `threads` workers: evenly spaced over the
/// counters, the first one step after `base`.
pub fn worker_offsets(base: u64, threads: usize) -> (offsets: Vec<u64>)
    ensures
        offsets@.len() == threads,
        forall|i: int|
            0 <= i < threads ==> offsets@[i] == worker_offset(base, threads as nat, i as nat),
{
    let mut offsets: Vec<u64> = Vec::new();
    if threads == 0 {
        return offsets;
    }
    let quotient: u128 = 0x1_0000_0000_0000_0000u128 / (threads as u128);
    proof {
        let m = 0x1_0000_0000_0000_0000int;
        vstd::arithmetic::div_mod::lemma_fundamental_div_mod(m, threads as int);
        vstd::arithmetic::div_mod::lemma_mod_pos_bound(m, threads as int);
        assert(quotient <= m && (threads >= 2 ==> quotient < m)) by (nonlinear_arith)
            requires
                m == 0x1_0000_0000_0000_0000,
                m == threads * quotient + m % (threads as int),
                m % (threads as int) >= 0,
                threads >= 1,
                quotient >= 0,
        ;
        assert(quotient as nat == offset_step(threads as nat));
        if threads == 1 {
            assert(quotient == m) by (nonlinear_arith)
                requires
                    m == threads * quotient + m % (threads as int),
                    0 <= m % (threads as int) < threads,
                    threads == 1,
            ;
        }
    }
    let step: u64 = if threads == 1 {
        0
    } else {
        quotient as u64
    };
    let mut offset: u64 = base;
    let mut i: usize = 0;
    while i < threads
        invariant
            i <= threads,
            threads > 0,
            step as nat == offset_step(threads as nat) % 0x1_0000_0000_0000_0000,
            offset_step(threads as nat) <= 0x1_0000_0000_0000_0000,
            offsets@.len() == i,
            offset == counter_after(base, (i as nat) * offset_step(threads as nat)),
            forall|j: int|
                0 <= j < i ==> offsets@[j] == worker_offset(base, threads as nat, j as nat),
        decreases threads - i,
    {
        let next: u64 = offset.wrapping_add(step);
        proof {
            let s = offset_step(threads as nat);
            let n = i as nat;
            assert((n + 1) * s == n * s + s) by (nonlinear_arith);
            lemma_counter_after_twice(base, n * s, s);
            assert(next == counter_after(offset, s));
        }
        offset = next;
        offsets.push(offset);
        i += 1;
    }
    offsets
}

/// With no more than 16384 workers, no two of them score the same nonce
/// within the first 2^50 iterations of each: the starting points are at
/// least 2^50 counters apart, also around the end of the counter space.
pub proof fn lemma_workers_disjoint(base: u64, threads: nat, i: nat, j: nat, k1: nat, k2: nat)
    requires
        0 < threads <= 16384,
        i < threads,
        j < threads,
        i != j,
        k1 < 0x4_0000_0000_0000,
        k2 < 0x4_0000_0000_0000,
    ensures
        nonce_bytes(worker_counter(base, threads, i, k1)) != nonce_bytes(
            worker_counter(base, threads, j, k2),
        ),
{
    if i < j {
        lemma_counters_differ(base, threads, i, j, k1, k2);
    } else {
        lemma_counters_differ(base, threads, j, i, k2, k1);
    }
    if nonce_bytes(worker_counter(base, threads, i, k1)) == nonce_bytes(
        worker_counter(base, threads, j, k2),
    ) {
        lemma_nonce_injective(
            worker_counter(base, threads, i, k1),
            worker_counter(base, threads, j, k2),
        );
    }
}

proof fn lemma_counters_differ(base: u64, threads: nat, i: nat, j: nat, k1: nat, k2: nat)
    requires
        0 < threads <= 16384,
        i < j < threads,
        k1 < 0x4_0000_0000_0000,
        k2 < 0x4_0000_0000_0000,
    ensures
        worker_counter(base, threads, i, k1) != worker_counter(base, threads, j, k2),
{
    let m = 0x1_0000_0000_0000_0000int;
    let s = offset_step(threads);
    let d = (j - i) as nat;
    assert(s >= 0x4_0000_0000_0000 && threads * s <= m) by {
        vstd::arithmetic::div_mod::lemma_fundamental_div_mod(m, threads as int);
        vstd::arithmetic::div_mod::lemma_mod_pos_bound(m, threads as int);
        assert(threads * s <= m) by (nonlinear_arith)
            requires
                m == threads * s + m % (threads as int),
                m % (threads as int) >= 0,
                threads > 0,
        ;
        assert(s >= 0x4_0000_0000_0000) by (nonlinear_arith)
            requires
                m == 0x1_0000_0000_0000_0000,
                m == threads * s + m % (threads as int),
                m % (threads as int) < threads,
                0 < threads <= 16384,
        ;
    }
    assert(s <= d * s <= threads * s - s) by (nonlinear_arith)
        requires
            1 <= d <= threads - 1,
            s >= 0,
    ;
    assert((j + 1) * s - (i + 1) * s == d * s) by (nonlinear_arith)
        requires
            d == j - i,
    ;
    lemma_counter_after_twice(base, (i + 1) * s, 1);
    lemma_counter_after_twice(base, (i + 1) * s + 1, k1);
    lemma_counter_after_twice(base, (j + 1) * s, 1);
    lemma_counter_after_twice(base, (j + 1) * s + 1, k2);
    let a: int = base + (i + 1) * s + 1 + k1;
    let b: int = base + (j + 1) * s + 1 + k2;
    assert(0 < b - a < m);
    assert(a % m != b % m) by {
        vstd::arithmetic::div_mod::lemma_fundamental_div_mod(a, m);
        vstd::arithmetic::div_mod::lemma_fundamental_div_mod(b, m);
        if a % m == b % m {
            assert(b - a == m * (b / m) - m * (a / m));
            assert(b - a == m * (b / m - a / m)) by (nonlinear_arith)
                requires
                    b - a == m * (b / m) - m * (a / m),
            ;
            assert(false) by (nonlinear_arith)
                requires
                    0 < b - a < m,
                    b - a == m * (b / m - a / m),
            ;
        }
    }
}

} // verus!
