//! Byte views of strings and verified decimal rendering.
//!
//! The sandbox passes strings across process boundaries as raw bytes
//! (`execve` arguments, cgroup control files, the result report), so the
//! contracts in this crate speak of the UTF-8 bytes of a string, and the
//! numbers written into those byte streams are rendered here.

use vstd::prelude::*;
use vstd::string::StrSliceExecFns;
use vstd::utf8::encode_utf8;

verus! {

/// The UTF-8 bytes of a string, as the kernel sees them.
pub open spec fn str_bytes(s: Seq<char>) -> Seq<u8> {
    encode_utf8(s)
}

/// The ASCII decimal digits of a nonnegative value, most significant
/// first.
pub open spec fn spec_dec_u64(n: nat) -> Seq<u8>
    decreases n,
{
    if n < 10 {
        seq![(48 + n) as u8]
    } else {
        spec_dec_u64(n / 10) + seq![(48 + n % 10) as u8]
    }
}

/// The ASCII decimal text of a signed value: a minus sign before the
/// digits of the magnitude when the value is negative.
pub open spec fn spec_dec_i64(v: int) -> Seq<u8> {
    if v < 0 {
        seq![45u8] + spec_dec_u64((-v) as nat)
    } else {
        spec_dec_u64(v as nat)
    }
}

/// Renders an unsigned value as ASCII decimal digits.
pub fn u64_to_dec(n: u64) -> (r: Vec<u8>)
    ensures
        r@ == spec_dec_u64(n as nat),
    decreases n,
{
    if n < 10 {
        let mut r: Vec<u8> = Vec::new();
        r.push(48 + n as u8);
        assert(r@ =~= spec_dec_u64(n as nat));
        r
    } else {
        let mut r = u64_to_dec(n / 10);
        r.push(48 + (n % 10) as u8);
        assert(r@ =~= spec_dec_u64(n as nat));
        r
    }
}

/// Renders a signed value as ASCII decimal text.
pub fn i64_to_dec(v: i64) -> (r: Vec<u8>)
    ensures
        r@ == spec_dec_i64(v as int),
{
    if v >= 0 {
        u64_to_dec(v as u64)
    } else {
        // The magnitude is computed as -(v + 1) + 1 so that the smallest
        // value does not overflow the signed negation.
        let mag: u64 = (-(v + 1)) as u64 + 1;
        assert(mag as int == -(v as int));
        let mut r: Vec<u8> = Vec::new();
        r.push(45);
        let mut digits = u64_to_dec(mag);
        r.append(&mut digits);
        assert(r@ =~= spec_dec_i64(v as int));
        r
    }
}

/// Copies the UTF-8 bytes of a string slice into a fresh vector.
pub fn str_to_bytes(s: &str) -> (r: Vec<u8>)
    ensures
        r@ == str_bytes(s@),
{
    s.as_bytes_vec()
}

} // verus!
