//! The encoder's alphabet and arithmetic: base64 over groups of three bytes,
//! without padding characters.

use vstd::prelude::*;

verus! {

/// The symbol that stands for the six-bit value `v`: `A` to `Z` for 0 to 25,
/// `a` to `z` for 26 to 51, `0` to `9` for 52 to 61, then `+` and `/`.
pub open spec fn symbol(v: int) -> u8
    recommends
        0 <= v < 64,
{
    if v < 26 {
        ('A' as u8 + v) as u8
    } else if v < 52 {
        ('a' as u8 + (v - 26)) as u8
    } else if v < 62 {
        ('0' as u8 + (v - 52)) as u8
    } else if v == 62 {
        '+' as u8
    } else {
        '/' as u8
    }
}

/// Whether `b` is one of the 64 symbols of the alphabet.
pub open spec fn is_symbol(b: u8) -> bool {
    ||| 'A' as u8 <= b <= 'Z' as u8
    ||| 'a' as u8 <= b <= 'z' as u8
    ||| '0' as u8 <= b <= '9' as u8
    ||| b == '+' as u8
    ||| b == '/' as u8
}

/// The number of three-byte groups that `n` bytes fill, the last one
/// possibly in part.
pub open spec fn group_count(n: int) -> int {
    (n + 2) / 3
}

/// The byte of `raw` at `i`, and zero past its end.
pub open spec fn padded(raw: Seq<u8>, i: int) -> u8 {
    if 0 <= i < raw.len() {
        raw[i]
    } else {
        0
    }
}

/// The three bytes as one number of 24 bits, the first byte on top.
pub open spec fn joined(b0: u8, b1: u8, b2: u8) -> int {
    b0 * 65536 + b1 * 256 + b2
}

/// The `k`-th six-bit digit of a 24-bit number, counted from the top.
pub open spec fn digit(bits: int, k: int) -> int
    recommends
        0 <= k < 4,
{
    if k == 0 {
        (bits / 262144) % 64
    } else if k == 1 {
        (bits / 4096) % 64
    } else if k == 2 {
        (bits / 64) % 64
    } else {
        bits % 64
    }
}

/// The six-bit value behind the symbol at position `p` of the encoding of
/// `raw`.
pub open spec fn sextet(raw: Seq<u8>, p: int) -> int {
    let g = p / 4;
    digit(joined(padded(raw, 3 * g), padded(raw, 3 * g + 1), padded(raw, 3 * g + 2)), p % 4)
}

/// The encoding of `raw`: four symbols for each group of three bytes, the
/// last group filled up with zero bytes, and no padding character.
pub open spec fn encoded(raw: Seq<u8>) -> Seq<u8> {
    Seq::new((4 * group_count(raw.len() as int)) as nat, |p: int| symbol(sextet(raw, p)))
}

/// Every six-bit value has a symbol of the alphabet, and none has `=`.
pub proof fn lemma_symbol_in_alphabet(v: int)
    requires
        0 <= v < 64,
    ensures
        is_symbol(symbol(v)),
        symbol(v) != '=' as u8,
{
}

/// No symbol of the alphabet is `=`, and all of them are ASCII.
pub proof fn lemma_alphabet_is_ascii(b: u8)
    requires
        is_symbol(b),
    ensures
        b != '=' as u8,
        b < 128,
{
}

/// A digit of a 24-bit number is a six-bit value.
pub proof fn lemma_digit_range(bits: int, k: int)
    requires
        0 <= bits,
    ensures
        0 <= digit(bits, k) < 64,
{
}

/// The encoding of `n` bytes has `4 * ceil(n / 3)` bytes, each of them a
/// symbol of the alphabet; it is empty exactly when `n` is zero.
pub proof fn lemma_encoded_shape(raw: Seq<u8>)
    ensures
        encoded(raw).len() == 4 * group_count(raw.len() as int),
        3 * group_count(raw.len() as int) - 3 < raw.len() <= 3 * group_count(raw.len() as int),
        encoded(raw).len() % 4 == 0,
        encoded(raw).len() == 0 <==> raw.len() == 0,
        raw.len() <= 64 ==> encoded(raw).len() <= 88,
        forall|p: int|
            0 <= p < encoded(raw).len() ==> is_symbol(#[trigger] encoded(raw)[p])
                && encoded(raw)[p] != '=' as u8,
{
    assert forall|p: int| 0 <= p < encoded(raw).len() implies is_symbol(
        #[trigger] encoded(raw)[p],
    ) && encoded(raw)[p] != '=' as u8 by {
        let g = p / 4;
        let bits = joined(padded(raw, 3 * g), padded(raw, 3 * g + 1), padded(raw, 3 * g + 2));
        lemma_digit_range(bits, p % 4);
        lemma_symbol_in_alphabet(sextet(raw, p));
    }
}

/// The symbol for the six-bit value `v`.
pub fn symbol_for(v: u8) -> (b: u8)
    requires
        v < 64,
    ensures
        b == symbol(v as int),
        is_symbol(b),
{
    let table: [u8; 64] = [
        0x41, 0x42, 0x43, 0x44, 0x45, 0x46, 0x47, 0x48, 0x49, 0x4a, 0x4b, 0x4c, 0x4d,
        0x4e, 0x4f, 0x50, 0x51, 0x52, 0x53, 0x54, 0x55, 0x56, 0x57, 0x58, 0x59, 0x5a,
        0x61, 0x62, 0x63, 0x64, 0x65, 0x66, 0x67, 0x68, 0x69, 0x6a, 0x6b, 0x6c, 0x6d,
        0x6e, 0x6f, 0x70, 0x71, 0x72, 0x73, 0x74, 0x75, 0x76, 0x77, 0x78, 0x79, 0x7a,
        0x30, 0x31, 0x32, 0x33, 0x34, 0x35, 0x36, 0x37, 0x38, 0x39, 0x2b, 0x2f,
    ];
    table[v as usize]
}

/// Splits three bytes into their four six-bit digits and gives the symbol of
/// each.
pub fn encode_group(b0: u8, b1: u8, b2: u8) -> (out: [u8; 4])
    ensures
        forall|k: int| 0 <= k < 4 ==> out@[k] == symbol(digit(joined(b0, b1, b2), k)),
{
    let d0: u8 = b0 >> 2;
    let d1: u8 = ((b0 & 0b11) << 4) | (b1 >> 4);
    let d2: u8 = ((b1 & 0b1111) << 2) | (b2 >> 6);
    let d3: u8 = b2 & 0b11_1111;
    assert(d0 < 64 && d0 == ((b0 * 65536 + b1 * 256 + b2) / 262144) % 64) by (bit_vector)
        requires
            d0 == b0 >> 2,
    ;
    assert(d1 < 64 && d1 == ((b0 * 65536 + b1 * 256 + b2) / 4096) % 64) by (bit_vector)
        requires
            d1 == ((b0 & 0b11) << 4) | (b1 >> 4),
    ;
    assert(d2 < 64 && d2 == ((b0 * 65536 + b1 * 256 + b2) / 64) % 64) by (bit_vector)
        requires
            d2 == ((b1 & 0b1111) << 2) | (b2 >> 6),
    ;
    assert(d3 < 64 && d3 == (b0 * 65536 + b1 * 256 + b2) % 64) by (bit_vector)
        requires
            d3 == b2 & 0b11_1111,
    ;
    [symbol_for(d0), symbol_for(d1), symbol_for(d2), symbol_for(d3)]
}

} // verus!
