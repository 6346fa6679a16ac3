//! The key scheduler: a 256-entry byte permutation seeded from the secret key.

use vstd::prelude::*;

verus! {

/// Addition of two bytes modulo 256.
pub open spec fn add8(a: u8, b: u8) -> u8 {
    ((a + b) % 256) as u8
}

/// The table `t` with its entries at `i` and `j` exchanged.
pub open spec fn swapped(t: Seq<u8>, i: int, j: int) -> Seq<u8> {
    t.update(i, t[j]).update(j, t[i])
}

/// The table that holds each byte at its own index.
pub open spec fn identity_table() -> Seq<u8> {
    Seq::new(256, |i: int| i as u8)
}

/// A table of 256 bytes in which every byte value occurs, and none twice.
pub open spec fn is_permutation(t: Seq<u8>) -> bool {
    &&& t.len() == 256
    &&& forall|i: int, j: int| 0 <= i < 256 && 0 <= j < 256 && t[i] == t[j] ==> i == j
    &&& forall|v: u8| t.contains(v)
}

/// The scheduler's table and accumulator.
pub ghost struct ScheduleState {
    pub table: Seq<u8>,
    pub x: u8,
}

/// The scheduler after its first `n` steps. Step `i` adds the key byte at
/// `i mod key.len()`, the table entry at `i` and the accumulator, modulo 256,
/// and exchanges the entries at `i` and at the new accumulator.
pub open spec fn schedule_prefix(key: Seq<u8>, n: nat) -> ScheduleState
    recommends
        key.len() > 0,
        n <= 256,
    decreases n,
{
    if n == 0 {
        ScheduleState { table: identity_table(), x: 0 }
    } else {
        let before = schedule_prefix(key, (n - 1) as nat);
        let i = n - 1;
        let x = add8(add8(key[i % (key.len() as int)], before.table[i]), before.x);
        ScheduleState { table: swapped(before.table, i, x as int), x }
    }
}

/// The table that the scheduler builds from `key`.
pub open spec fn scheduled_table(key: Seq<u8>) -> Seq<u8>
    recommends
        key.len() > 0,
{
    schedule_prefix(key, 256).table
}

/// The identity table is a permutation.
pub proof fn lemma_identity_is_permutation()
    ensures
        is_permutation(identity_table()),
{
    let t = identity_table();
    assert forall|v: u8| t.contains(v) by {
        assert(t[v as int] == v);
    }
}

/// Exchanging two entries of a permutation gives a permutation.
pub proof fn lemma_swapped_is_permutation(t: Seq<u8>, i: int, j: int)
    requires
        is_permutation(t),
        0 <= i < 256,
        0 <= j < 256,
    ensures
        is_permutation(swapped(t, i, j)),
{
    let s = swapped(t, i, j);
    assert forall|v: u8| s.contains(v) by {
        assert(t.contains(v));
        let k = choose|k: int| 0 <= k < t.len() && t[k] == v;
        let k2 = if k == i {
            j
        } else if k == j {
            i
        } else {
            k
        };
        assert(s[k2] == v);
    }
}

/// The scheduler's table is a permutation after every step, for every key.
pub proof fn lemma_schedule_prefix_is_permutation(key: Seq<u8>, n: nat)
    requires
        key.len() > 0,
        n <= 256,
    ensures
        is_permutation(schedule_prefix(key, n).table),
    decreases n,
{
    if n == 0 {
        lemma_identity_is_permutation();
    } else {
        lemma_schedule_prefix_is_permutation(key, (n - 1) as nat);
        let before = schedule_prefix(key, (n - 1) as nat);
        lemma_swapped_is_permutation(before.table, n - 1, schedule_prefix(key, n).x as int);
    }
}

/// Adds two bytes modulo 256.
pub(crate) fn wrapping_sum(a: u8, b: u8) -> (sum: u8)
    ensures
        sum == add8(a, b),
{
    a.wrapping_add(b)
}

/// Exchanges the entries of `table` at `i` and `j`.
pub(crate) fn exchange(table: &mut [u8; 256], i: u8, j: u8)
    ensures
        final(table)@ == swapped(old(table)@, i as int, j as int),
{
    let held = table[i as usize];
    table[i as usize] = table[j as usize];
    table[j as usize] = held;
    assert(table@ =~= swapped(old(table)@, i as int, j as int));
}

/// Builds the identity table.
fn identity() -> (table: [u8; 256])
    ensures
        table@ == identity_table(),
{
    let mut table: [u8; 256] = [0u8; 256];
    let mut i: usize = 0;
    while i < 256
        invariant
            i <= 256,
            forall|k: int| 0 <= k < i ==> table@[k] == k as u8,
        decreases 256 - i,
    {
        table[i] = i as u8;
        i += 1;
    }
    assert(table@ =~= identity_table());
    table
}

/// Builds the permutation table for `key`.
pub fn key_schedule(key: &[u8]) -> (table: [u8; 256])
    requires
        key@.len() > 0,
    ensures
        table@ == scheduled_table(key@),
        is_permutation(table@),
{
    let mut table = identity();
    let mut i: usize = 0;
    let mut x: u8 = 0;
    while i < 256
        invariant
            i <= 256,
            key@.len() > 0,
            table@ == schedule_prefix(key@, i as nat).table,
            x == schedule_prefix(key@, i as nat).x,
        decreases 256 - i,
    {
        let k = key[i % key.len()];
        x = wrapping_sum(wrapping_sum(k, table[i]), x);
        exchange(&mut table, i as u8, x);
        i += 1;
    }
    proof {
        lemma_schedule_prefix_is_permutation(key@, 256);
    }
    table
}

} // verus!
