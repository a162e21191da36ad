//! Bit fields of 32-bit registers.
//!
//! The arithmetic on fields is done by `tock_registers`; the functions that
//! call it are the only unproved ones in this module.

use vstd::prelude::*;

verus! {

/// A setting for some bits of a 32-bit register: `mask` marks the bits that
/// the setting covers, `value` holds what those bits are to be.
#[derive(Clone, Copy, PartialEq, Eq, Structural, Debug)]
pub struct FieldValue {
    pub mask: u32,
    pub value: u32,
}

/// The setting that puts `value` into the field whose unshifted mask is
/// `mask` and whose lowest bit is bit `shift`.
pub open spec fn field(mask: u32, shift: u32, value: u32) -> FieldValue {
    FieldValue { mask: mask << shift, value: (value & mask) << shift }
}

impl FieldValue {
    /// Both settings at once.
    pub open spec fn plus(self, other: FieldValue) -> FieldValue {
        FieldValue {
            mask: self.mask | other.mask,
            value: (self.value & self.mask) | (other.value & other.mask),
        }
    }

    /// `word` with the covered bits replaced by the setting and all other
    /// bits kept.
    pub open spec fn modified(self, word: u32) -> u32 {
        (word & !self.mask) | (self.value & self.mask)
    }

    /// Whether the covered bits of `word` are exactly the setting.
    pub open spec fn matched_by(self, word: u32) -> bool {
        word & self.mask == self.value & self.mask
    }
}

/// Calls `tock_registers::fields::FieldValue::<u32, ()>::new`, which gives
/// the setting that puts `value` into a field: the mask, and the value cut
/// to the mask, shifted left by `shift`. The shift has to stay below the
/// register's width, or the outside function overflows.
#[verifier::external_body]
pub(crate) fn field_value(mask: u32, shift: u32, value: u32) -> (fv: FieldValue)
    requires
        shift < 32,
    ensures
        fv == field(mask, shift, value),
{
    let fv = tock_registers::fields::FieldValue::<u32, ()>::new(mask, shift as usize, value);
    FieldValue { mask: fv.mask(), value: fv.value }
}

/// Calls `tock_registers::fields::Field::<u32, ()>::val`, which gives the
/// setting that puts `value` into the field: the mask, and the value cut to
/// the mask, shifted left by `shift`. The shift has to stay below the
/// register's width, or the outside function overflows.
#[verifier::external_body]
pub(crate) fn field_val(mask: u32, shift: u32, value: u32) -> (fv: FieldValue)
    requires
        shift < 32,
    ensures
        fv == field(mask, shift, value),
{
    let fv = tock_registers::fields::Field::<u32, ()>::new(mask, shift as usize).val(value);
    FieldValue { mask: fv.mask(), value: fv.value }
}

/// Calls `+` of `tock_registers::fields::FieldValue`, which joins the masks
/// and joins the values of the two settings bit by bit.
#[verifier::external_body]
pub(crate) fn field_sum(a: FieldValue, b: FieldValue) -> (fv: FieldValue)
    ensures
        fv == a.plus(b),
{
    let left = tock_registers::fields::FieldValue::<u32, ()>::new(a.mask, 0, a.value);
    let right = tock_registers::fields::FieldValue::<u32, ()>::new(b.mask, 0, b.value);
    let fv = left + right;
    FieldValue { mask: fv.mask(), value: fv.value }
}

/// Calls `tock_registers::fields::FieldValue::modify`, which clears the
/// covered bits of `word` and puts the setting's value in their place.
#[verifier::external_body]
pub(crate) fn field_modify(fv: FieldValue, word: u32) -> (out: u32)
    ensures
        out == fv.modified(word),
{
    tock_registers::fields::FieldValue::<u32, ()>::new(fv.mask, 0, fv.value).modify(word)
}

/// Calls `tock_registers::fields::FieldValue::matches_all`, which tells
/// whether the covered bits of `word` equal the setting's value.
#[verifier::external_body]
pub(crate) fn field_matches_all(fv: FieldValue, word: u32) -> (yes: bool)
    ensures
        yes == fv.matched_by(word),
{
    tock_registers::fields::FieldValue::<u32, ()>::new(fv.mask, 0, fv.value).matches_all(word)
}

} // verus!
