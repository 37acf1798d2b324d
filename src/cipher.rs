//! A byte-wise Caesar substitution.

use crate::session::{parse_decimal, parsed_u64};
use vstd::prelude::*;

verus! {

/// The substitute of byte `b` under `shift`.
pub open spec fn shifted(b: u8, shift: u32) -> u8 {
    ((b as nat + shift as nat) % 256) as u8
}

/// Substitutes one byte: `(b + shift) mod 256`.
pub fn shift_byte(b: u8, shift: u32) -> (r: u8)
    ensures
        r == shifted(b, shift),
{
    let s: u32 = shift % 256;
    let r: u32 = (b as u32 + s) % 256;
    assert((b as nat + shift as nat) % 256 == (b as nat + s as nat) % 256) by (nonlinear_arith)
        requires
            s == shift % 256,
    ;
    r as u8
}

/// Substitutes every byte of `bytes` in place.
pub fn caesar_shift(bytes: &mut Vec<u8>, shift: u32)
    ensures
        final(bytes)@.len() == old(bytes)@.len(),
        forall|i: int|
            0 <= i < old(bytes)@.len() ==> #[trigger] final(bytes)@[i] == shifted(old(bytes)@[i], shift),
{
    let ghost orig = bytes@;
    let mut i: usize = 0;
    while i < bytes.len()
        invariant
            bytes@.len() == orig.len(),
            i <= orig.len(),
            forall|j: int| 0 <= j < i ==> #[trigger] bytes@[j] == shifted(orig[j], shift),
            forall|j: int| i <= j < orig.len() ==> #[trigger] bytes@[j] == orig[j],
        decreases orig.len() - i,
    {
        let b = shift_byte(bytes[i], shift);
        bytes.set(i, b);
        i = i + 1;
    }
}

/// Reads a shift: an unsigned decimal numeral of at most `u32::MAX`.
pub fn parse_shift(s: &str) -> (r: Option<u32>)
    ensures
        r == (match parsed_u64(s@) {
            Some(w) => if w <= u32::MAX {
                Some(w as u32)
            } else {
                None
            },
            None => None,
        }),
{
    match parse_decimal(s) {
        Some(v) => if v <= u32::MAX as u64 {
            Some(v as u32)
        } else {
            None
        },
        None => None,
    }
}

} // verus!
