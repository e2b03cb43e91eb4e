//! Big-endian byte encodings of the 128-bit integers that enter a block's
//! hash input.

use vstd::prelude::*;
use vstd::arithmetic::div_mod::lemma_div_denominator;
use vstd::arithmetic::power::{lemma_pow0, lemma_pow_positive, pow};

verus! {

/// The sixteen bytes of `value`, most significant first: byte `k` is the
/// base-256 digit of weight `256^(15 - k)`.
pub open spec fn be_bytes_u128(value: u128) -> Seq<u8> {
    Seq::new(16, |k: int| ((value as int / pow(256, (15 - k) as nat)) % 256) as u8)
}

/// The unsigned integer with the same 128 bits as `value` in two's
/// complement.
pub open spec fn twos_complement(value: i128) -> u128 {
    if value >= 0 {
        value as u128
    } else {
        (value + 0x1_0000_0000_0000_0000_0000_0000_0000_0000) as u128
    }
}

/// The sixteen bytes of `value` in two's complement, most significant first.
pub open spec fn be_bytes_i128(value: i128) -> Seq<u8> {
    be_bytes_u128(twos_complement(value))
}

/// `256^(e + 1)` is `256^e * 256`, and both are positive.
proof fn lemma_pow256_step(e: nat)
    ensures
        pow(256, e) > 0,
        pow(256, e + 1) == pow(256, e) * 256,
{
    reveal(pow);
    lemma_pow_positive(256, e);
}

/// Encodes `value` as sixteen bytes, most significant first.
pub fn u128_to_be_bytes(value: u128) -> (bytes: [u8; 16])
    ensures
        bytes@ == be_bytes_u128(value),
{
    let mut bytes: [u8; 16] = [0u8; 16];
    let mut rest: u128 = value;
    let mut i: usize = 0;
    proof {
        lemma_pow0(256);
    }
    while i < 16
        invariant
            i <= 16,
            rest as int == value as int / pow(256, i as nat),
            forall|k: int|
                16 - i <= k < 16 ==> #[trigger] bytes@[k] as int == (value as int / pow(
                    256,
                    (15 - k) as nat,
                )) % 256,
        decreases 16 - i,
    {
        let digit: u8 = (rest % 256) as u8;
        bytes[15 - i] = digit;
        proof {
            lemma_pow256_step(i as nat);
            lemma_div_denominator(value as int, pow(256, i as nat), 256);
        }
        rest = rest / 256;
        i += 1;
    }
    bytes
}

/// Reads the bits of `value` as an unsigned integer.
pub fn i128_to_bits(value: i128) -> (bits: u128)
    ensures
        bits == twos_complement(value),
{
    if value >= 0 {
        value as u128
    } else {
        let lifted: i128 = value + i128::MAX + 1;
        lifted as u128 + 0x8000_0000_0000_0000_0000_0000_0000_0000u128
    }
}

/// Encodes `value` in two's complement as sixteen bytes, most significant
/// first.
pub fn i128_to_be_bytes(value: i128) -> (bytes: [u8; 16])
    ensures
        bytes@ == be_bytes_i128(value),
{
    u128_to_be_bytes(i128_to_bits(value))
}

} // verus!
