//! Byte-level helpers shared by the wire formats.
use vstd::prelude::*;
use vstd::utf8::{decode_utf8, encode_utf8, valid_utf8};

verus! {

/// The number that four bytes encode in little-endian order.
pub open spec fn le_u32(b0: u8, b1: u8, b2: u8, b3: u8) -> int {
    b0 + 256 * b1 + 65536 * b2 + 16777216 * b3
}

/// The four little-endian bytes of `x`.
pub open spec fn le_bytes_u32(x: u32) -> Seq<u8> {
    seq![(x % 256) as u8, ((x / 256) % 256) as u8, ((x / 65536) % 256) as u8, (x / 16777216) as u8]
}

/// The four big-endian bytes of `x`.
pub open spec fn be_bytes_u32(x: u32) -> Seq<u8> {
    seq![(x / 16777216) as u8, ((x / 65536) % 256) as u8, ((x / 256) % 256) as u8, (x % 256) as u8]
}

/// The bytes of `s` cut to 24, or padded with spaces (byte 32) up to 24.
pub open spec fn fit_to_24(s: Seq<u8>) -> Seq<u8> {
    if s.len() >= 24 {
        s.take(24)
    } else {
        s + Seq::new((24 - s.len()) as nat, |i: int| 32u8)
    }
}

/// Reads a `u32` from the first four bytes of `array`, least significant first.
pub fn as_u32(array: Vec<u8>) -> (res: u32)
    requires
        array@.len() >= 4,
    ensures
        res == le_u32(array@[0], array@[1], array@[2], array@[3]),
{
    let b0 = array[0] as u32;
    let b1 = array[1] as u32;
    let b2 = array[2] as u32;
    let b3 = array[3] as u32;
    assert((b0 << 0u32) == b0 && (b1 << 8u32) == 256 * b1 && (b2 << 16u32) == 65536 * b2
        && (b3 << 24u32) == 16777216 * b3) by (bit_vector)
        requires
            b0 < 256 && b1 < 256 && b2 < 256 && b3 < 256,
    ;
    let r = (b0 << 0u32) + (b1 << 8u32) + (b2 << 16u32) + (b3 << 24u32);
    r
}

/// The little-endian bytes of `x`.
pub fn u32_to_le_bytes(x: u32) -> (res: Vec<u8>)
    ensures
        res@ == le_bytes_u32(x),
{
    let mut v: Vec<u8> = Vec::new();
    v.push((x % 256) as u8);
    v.push(((x / 256) % 256) as u8);
    v.push(((x / 65536) % 256) as u8);
    v.push((x / 16777216) as u8);
    assert(v@ =~= le_bytes_u32(x));
    v
}

/// The big-endian bytes of `x`.
pub fn u32_to_be_bytes(x: u32) -> (res: Vec<u8>)
    ensures
        res@ == be_bytes_u32(x),
{
    let mut v: Vec<u8> = Vec::new();
    v.push((x / 16777216) as u8);
    v.push(((x / 65536) % 256) as u8);
    v.push(((x / 256) % 256) as u8);
    v.push((x % 256) as u8);
    assert(v@ =~= be_bytes_u32(x));
    v
}

/// Reading back the little-endian bytes of `x` gives `x`.
pub proof fn lemma_le_round_trip(x: u32)
    ensures
        le_bytes_u32(x).len() == 4,
        le_u32(le_bytes_u32(x)[0], le_bytes_u32(x)[1], le_bytes_u32(x)[2], le_bytes_u32(x)[3]) == x,
{
    let b = le_bytes_u32(x);
    assert(b[0] == x % 256);
    assert(b[1] == (x / 256) % 256);
    assert(b[2] == (x / 65536) % 256);
    assert(b[3] == x / 16777216);
    assert(x % 256 + 256 * ((x / 256) % 256) + 65536 * ((x / 65536) % 256) + 16777216 * (x / 16777216) == x) by (nonlinear_arith)
        requires x <= 0xffff_ffff;
}

/// A name cut or padded to 24 bytes has 24 bytes.
pub proof fn lemma_fit_to_24_len(s: Seq<u8>)
    ensures
        fit_to_24(s).len() == 24,
{
}

/// The bytes of `str`, cut or space-padded to exactly 24 of them.
pub fn string_as_24_bytes(str: String) -> (res: Vec<u8>)
    ensures
        res@ == fit_to_24(encode_utf8(str@)),
        res@.len() == 24,
{
    let mut a = vstd::slice::slice_to_vec(str.as_str().as_bytes());
    let ghost enc = a@;
    while a.len() > 24
        invariant
            a@.len() <= enc.len(),
            a@.len() >= 24 ==> a@ == enc.take(a@.len() as int),
            enc.len() >= 24 ==> a@.len() >= 24,
            enc.len() < 24 ==> a@ == enc,
        decreases a.len(),
    {
        let ghost before = a@;
        let _ = a.pop();
        proof {
            assert(a@ =~= before.take(before.len() - 1));
            if a@.len() >= 24 {
                assert(a@ =~= enc.take(a@.len() as int));
            }
        }
    }
    proof {
        if enc.len() >= 24 {
            assert(a@ =~= enc.take(24));
        }
    }
    while a.len() < 24
        invariant
            a@.len() <= 24,
            enc.len() >= 24 ==> a@ == enc.take(24),
            enc.len() < 24 ==> a@ =~= enc + Seq::new((a@.len() - enc.len()) as nat, |i: int| 32u8),
            enc.len() < 24 ==> a@.len() >= enc.len(),
        decreases 24 - a.len(),
    {
        a.push(32);
    }
    assert(a@ =~= fit_to_24(enc));
    a
}

/// The character of a decimal digit `d < 10`.
pub open spec fn digit_char(d: nat) -> char {
    (d + 48) as char
}

/// The decimal digits of `n`, most significant first, without leading zeros.
pub open spec fn decimal(n: nat) -> Seq<char>
    decreases n,
{
    if n < 10 {
        seq![digit_char(n)]
    } else {
        decimal(n / 10).push(digit_char(n % 10))
    }
}

/// `u32::to_string` (std's `Display` for an unsigned integer): the decimal
/// digits of `n` without sign or leading zeros, as the documentation of integer
/// formatting gives them.
#[verifier::external_body]
pub(crate) fn u32_decimal(n: u32) -> (s: String)
    ensures
        s@ == decimal(n as nat),
{
    n.to_string()
}

/// `String::from_utf8`: the text that `bytes` encode, if they are valid
/// UTF-8, as its documentation states; `None` where it returns an error.
#[verifier::external_body]
pub(crate) fn utf8_to_string(bytes: Vec<u8>) -> (res: Option<String>)
    ensures
        res is Some <==> valid_utf8(bytes@),
        res matches Some(s) ==> s@ == decode_utf8(bytes@),
{
    String::from_utf8(bytes).ok()
}

/// The bytes of `bytes` from `start` up to `end`.
pub fn copy_range(bytes: &Vec<u8>, start: usize, end: usize) -> (res: Vec<u8>)
    requires
        start <= end <= bytes.len(),
    ensures
        res@ == bytes@.subrange(start as int, end as int),
{
    let mut v: Vec<u8> = Vec::new();
    let mut i = start;
    while i < end
        invariant
            start <= i <= end <= bytes.len(),
            v@ == bytes@.subrange(start as int, i as int),
        decreases end - i,
    {
        v.push(bytes[i]);
        assert(v@ =~= bytes@.subrange(start as int, i + 1));
        i = i + 1;
    }
    v
}

} // verus!
