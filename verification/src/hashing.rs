//! SHA-256 digests written as lowercase hexadecimal, and the big-endian framing of
//! integers and byte strings that the library feeds into them.
use vstd::prelude::*;

use vstd::string::*;

use sha2::Digest;

verus! {

/// A lowercase hexadecimal digit.
pub open spec fn lower_hex_digit(c: char) -> bool {
    ('0' <= c <= '9') || ('a' <= c <= 'f')
}

/// Exactly 64 lowercase hexadecimal digits: the shape of a written SHA-256 digest.
pub open spec fn lower_hex_64(s: Seq<char>) -> bool {
    s.len() == 64 && forall|i: int| 0 <= i < s.len() ==> lower_hex_digit(#[trigger] s[i])
}

/// The SHA-256 digest of a byte string, written as lowercase hexadecimal.
pub uninterp spec fn sha256_lower_hex(bytes: Seq<u8>) -> Seq<char>;

/// `format!("{:x}", sha2::Sha256::digest(bytes))`. The digest's value is named, not
/// stated; the contract adds only its shape, which the `LowerHex` impl of the 32-byte
/// digest array fixes: two lowercase digits per byte.
#[verifier::external_body]
pub(crate) fn sha256_hex_bytes(bytes: &[u8]) -> (r: String)
    ensures
        r@ == sha256_lower_hex(bytes@),
        lower_hex_64(r@),
{
    format!("{:x}", sha2::Sha256::digest(bytes))
}

/// The digest of a text's UTF-8 bytes.
pub fn sha256_hex(s: &str) -> (r: String)
    ensures
        r@ == sha256_lower_hex(s.spec_bytes()),
        lower_hex_64(r@),
{
    sha256_hex_bytes(s.as_bytes())
}

/// Big-endian bytes of `v` below `256^k`, most significant first.
pub open spec fn be_bytes(v: nat, k: nat) -> Seq<u8>
    decreases k,
{
    if k == 0 {
        Seq::empty()
    } else {
        be_bytes(v / 256, (k - 1) as nat).push((v % 256) as u8)
    }
}

/// `u64::to_be_bytes`.
pub open spec fn be64(v: u64) -> Seq<u8> {
    be_bytes(v as nat, 8)
}

/// The two's-complement bit pattern of an `i64`, as an unsigned value.
pub open spec fn i64_bits(v: i64) -> u64 {
    if v >= 0 {
        v as u64
    } else {
        (v + 0x1_0000_0000_0000_0000int) as u64
    }
}

/// `i64::to_be_bytes`.
pub open spec fn be64_signed(v: i64) -> Seq<u8> {
    be64(i64_bits(v))
}

/// A byte string framed by its length: eight big-endian length bytes, then the bytes.
pub open spec fn framed(bytes: Seq<u8>) -> Seq<u8> {
    be64(bytes.len() as u64) + bytes
}

/// The two's-complement bits of an `i64`.
pub fn bits_of_i64(v: i64) -> (r: u64)
    ensures
        r == i64_bits(v),
{
    if v >= 0 {
        v as u64
    } else {
        let magnitude_less_one: u64 = (-(v + 1)) as u64;
        u64::MAX - magnitude_less_one
    }
}

/// Appends the eight big-endian bytes of `v`.
pub fn push_u64_be(output: &mut Vec<u8>, v: u64)
    ensures
        final(output)@ == old(output)@ + be64(v),
{
    let mut digits: Vec<u8> = Vec::new();
    let mut rest: u64 = v;
    let mut k: usize = 0;
    let ghost start = v as nat;
    while k < 8
        invariant
            0 <= k <= 8,
            digits@.len() == k,
            be_bytes(start, 8) == be_bytes(rest as nat, (8 - k) as nat) + digits@.reverse(),
        decreases 8 - k,
    {
        let ghost r0 = rest as nat;
        let ghost d0 = digits@;
        assert(be_bytes(r0, (8 - k) as nat) == be_bytes(r0 / 256, (8 - k - 1) as nat).push(
            (r0 % 256) as u8,
        ));
        digits.push((rest % 256) as u8);
        rest = rest / 256;
        k = k + 1;
        assert(digits@.reverse() =~= seq![(r0 % 256) as u8] + d0.reverse());
        assert(be_bytes(r0 / 256, (8 - k) as nat).push((r0 % 256) as u8) + d0.reverse()
            =~= be_bytes(r0 / 256, (8 - k) as nat) + (seq![(r0 % 256) as u8] + d0.reverse()));
    }
    let mut j: usize = 8;
    let ghost before = output@;
    assert(be_bytes(rest as nat, 0) =~= Seq::<u8>::empty());
    assert(be_bytes(start, 8) =~= digits@.reverse());
    while j > 0
        invariant
            0 <= j <= 8,
            digits@.len() == 8,
            output@ == before + digits@.reverse().subrange(0, 8 - j),
        decreases j,
    {
        j = j - 1;
        output.push(digits[j]);
        assert(digits@.reverse()[7 - j as int] == digits@[j as int]);
        assert(output@ =~= before + digits@.reverse().subrange(0, 8 - j));
    }
    assert(digits@.reverse().subrange(0, 8) =~= digits@.reverse());
}

/// Appends the eight big-endian bytes of an `i64`'s two's-complement bits.
pub fn push_i64_be(output: &mut Vec<u8>, v: i64)
    ensures
        final(output)@ == old(output)@ + be64_signed(v),
{
    let bits = bits_of_i64(v);
    push_u64_be(output, bits);
}

/// Appends a byte string framed by its length.
pub fn push_bytes(output: &mut Vec<u8>, value: &[u8])
    ensures
        final(output)@ == old(output)@ + framed(value@),
{
    let n: u64 = value.len() as u64;
    push_u64_be(output, n);
    let ghost mid = output@;
    output.extend_from_slice(value);
    assert(output@ =~= mid + value@);
    assert(old(output)@ + be64(n) + value@ =~= old(output)@ + framed(value@));
}

} // verus!
