//! The obfuscation mixer: consumes the challenge against the permutation
//! table and produces one raw byte for each challenge byte.

use vstd::prelude::*;
use vstd::slice::slice_subrange;
use crate::schedule::{
    add8, exchange, is_permutation, lemma_swapped_is_permutation, swapped, wrapping_sum,
};

verus! {

/// The mixer's table, its two accumulators and the raw bytes produced so far.
pub ghost struct MixState {
    pub table: Seq<u8>,
    pub x: u8,
    pub y: u8,
    pub raw: Seq<u8>,
}

/// One step of the mixer, on the challenge byte `c`. The first accumulator
/// grows by `c` and by one, the second by the table entry at the first; the
/// entries at the two accumulators are exchanged; the raw byte is `c` XOR the
/// entry found at the sum of those two entries. All sums are modulo 256.
pub open spec fn mix_step(s: MixState, c: u8) -> MixState {
    let x = add8(add8(c, s.x), 1);
    let y = add8(s.table[x as int], s.y);
    let table = swapped(s.table, x as int, y as int);
    let j = add8(table[x as int], table[y as int]);
    MixState { table, x, y, raw: s.raw.push(c ^ table[j as int]) }
}

/// The mixer after the first `n` bytes of `challenge`, started on `table`.
pub open spec fn mix_prefix(table: Seq<u8>, challenge: Seq<u8>, n: nat) -> MixState
    recommends
        table.len() == 256,
        n <= challenge.len(),
    decreases n,
{
    if n == 0 {
        MixState { table, x: 0, y: 0, raw: Seq::empty() }
    } else {
        mix_step(mix_prefix(table, challenge, (n - 1) as nat), challenge[n - 1])
    }
}

/// The raw bytes that the mixer produces from `table` and `challenge`.
pub open spec fn mixed(table: Seq<u8>, challenge: Seq<u8>) -> Seq<u8>
    recommends
        table.len() == 256,
{
    mix_prefix(table, challenge, challenge.len()).raw
}

/// After `n` steps the mixer has produced `n` raw bytes, whatever the table
/// holds, and a table of 256 entries still has 256.
pub proof fn lemma_mix_prefix_len(table: Seq<u8>, challenge: Seq<u8>, n: nat)
    ensures
        mix_prefix(table, challenge, n).raw.len() == n,
        table.len() == 256 ==> mix_prefix(table, challenge, n).table.len() == 256,
    decreases n,
{
    if n > 0 {
        lemma_mix_prefix_len(table, challenge, (n - 1) as nat);
    }
}

/// Started on a permutation, the mixer's table is a permutation after every
/// step.
pub proof fn lemma_mix_prefix_is_permutation(table: Seq<u8>, challenge: Seq<u8>, n: nat)
    requires
        is_permutation(table),
    ensures
        is_permutation(mix_prefix(table, challenge, n).table),
    decreases n,
{
    if n > 0 {
        lemma_mix_prefix_is_permutation(table, challenge, (n - 1) as nat);
        let before = mix_prefix(table, challenge, (n - 1) as nat);
        let after = mix_step(before, challenge[n - 1]);
        lemma_swapped_is_permutation(before.table, after.x as int, after.y as int);
    }
}

/// The mixer's output: as many raw bytes as the challenge had, at most 64,
/// kept at the front of a buffer whose other bytes are zero.
#[derive(Clone, Copy, Debug)]
pub struct RawState {
    buffer: [u8; 66],
    len: usize,
}

impl View for RawState {
    type V = Seq<u8>;

    closed spec fn view(&self) -> Seq<u8> {
        self.buffer@.subrange(0, self.len as int)
    }
}

impl RawState {
    #[verifier::type_invariant]
    spec fn well_formed(self) -> bool {
        &&& self.len <= 64
        &&& forall|i: int| self.len <= i < 66 ==> self.buffer@[i] == 0
    }

    /// The raw bytes of `bytes`, if there are at most 64 of them.
    pub fn from_bytes(bytes: &[u8]) -> (raw: Option<RawState>)
        ensures
            raw is Some <==> bytes@.len() <= 64,
            raw matches Some(r) ==> r@ == bytes@,
    {
        if bytes.len() > 64 {
            return None;
        }
        let mut buffer: [u8; 66] = [0u8; 66];
        let mut i: usize = 0;
        while i < bytes.len()
            invariant
                i <= bytes@.len() <= 64,
                forall|k: int| 0 <= k < i ==> buffer@[k] == bytes@[k],
                forall|k: int| i <= k < 66 ==> buffer@[k] == 0,
            decreases bytes@.len() - i,
        {
            buffer[i] = bytes[i];
            i += 1;
        }
        let raw = RawState { buffer, len: bytes.len() };
        assert(raw@ =~= bytes@);
        Some(raw)
    }

    /// The number of raw bytes.
    pub fn len(&self) -> (n: usize)
        ensures
            n == self@.len(),
            n <= 64,
    {
        proof {
            use_type_invariant(self);
        }
        self.len
    }

    /// The raw bytes.
    pub fn as_bytes(&self) -> (bytes: &[u8])
        ensures
            bytes@ == self@,
            bytes@.len() <= 64,
    {
        proof {
            use_type_invariant(self);
        }
        slice_subrange(self.buffer.as_slice(), 0, self.len)
    }

    /// The raw byte at `i`, and zero from the end of the raw bytes on.
    pub(crate) fn padded(&self, i: usize) -> (b: u8)
        requires
            i < 66,
        ensures
            b == (if i < self@.len() { self@[i as int] } else { 0u8 }),
    {
        proof {
            use_type_invariant(self);
        }
        self.buffer[i]
    }
}

/// Runs the mixer over `challenge`. The table is used up: it is left as the
/// mixer's last step left it.
pub fn mix(table: &mut [u8; 256], challenge: &[u8]) -> (raw: RawState)
    requires
        challenge@.len() <= 64,
    ensures
        raw@ == mixed(old(table)@, challenge@),
        raw@.len() == challenge@.len(),
        final(table)@ == mix_prefix(old(table)@, challenge@, challenge@.len()).table,
        is_permutation(old(table)@) ==> is_permutation(final(table)@),
{
    let ghost start = table@;
    let mut buffer: [u8; 66] = [0u8; 66];
    let mut i: usize = 0;
    let mut x: u8 = 0;
    let mut y: u8 = 0;
    while i < challenge.len()
        invariant
            i <= challenge@.len() <= 64,
            start.len() == 256,
            table@ == mix_prefix(start, challenge@, i as nat).table,
            x == mix_prefix(start, challenge@, i as nat).x,
            y == mix_prefix(start, challenge@, i as nat).y,
            buffer@.subrange(0, i as int) == mix_prefix(start, challenge@, i as nat).raw,
            forall|k: int| i <= k < 66 ==> buffer@[k] == 0,
        decreases challenge@.len() - i,
    {
        let c = challenge[i];
        x = wrapping_sum(wrapping_sum(c, x), 1);
        y = wrapping_sum(table[x as usize], y);
        exchange(table, x, y);
        let j = wrapping_sum(table[x as usize], table[y as usize]);
        buffer[i] = c ^ table[j as usize];
        i += 1;
        assert(buffer@.subrange(0, i as int) =~= mix_prefix(start, challenge@, i as nat).raw);
    }
    proof {
        lemma_mix_prefix_len(start, challenge@, challenge@.len());
        if is_permutation(start) {
            lemma_mix_prefix_is_permutation(start, challenge@, challenge@.len());
        }
    }
    RawState { buffer, len: challenge.len() }
}

} // verus!
