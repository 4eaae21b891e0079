//! Storage widths: the natural integer size that holds a given number of bits.

use crate::model::GenError;
use vstd::prelude::*;

verus! {

/// A natural storage size: 8, 16 or 32 bits.
#[derive(Clone, Copy, Debug, PartialEq, Eq, Structural)]
pub enum BitsTy {
    U8,
    U16,
    U32,
}

/// The widest bit count that any register or field may have.
pub const MAX_WIDTH: u32 = 32;

/// The smallest storage size that holds `width` bits. A width of zero has
/// none, nor has one above 32.
pub open spec fn storage_for(width: u32) -> Result<BitsTy, GenError> {
    if width == 0 {
        Err(GenError::ZeroWidth)
    } else if width <= 8 {
        Ok(BitsTy::U8)
    } else if width <= 16 {
        Ok(BitsTy::U16)
    } else if width <= MAX_WIDTH {
        Ok(BitsTy::U32)
    } else {
        Err(GenError::WidthTooLarge)
    }
}

impl BitsTy {
    /// Number of bits of this storage size.
    pub open spec fn bits(self) -> nat {
        match self {
            BitsTy::U8 => 8,
            BitsTy::U16 => 16,
            BitsTy::U32 => 32,
        }
    }

    /// Number of bits of this storage size.
    pub fn bit_count(self) -> (n: u32)
        ensures
            n == self.bits(),
    {
        match self {
            BitsTy::U8 => 8,
            BitsTy::U16 => 16,
            BitsTy::U32 => 32,
        }
    }
}

/// Classifies a bit width: the smallest of 8, 16 and 32 bits that holds it.
/// A width above 32 is refused, and so is a width of zero.
pub fn to_ty(width: u32) -> (ty: Result<BitsTy, GenError>)
    ensures
        ty == storage_for(width),
        ty == Err::<BitsTy, GenError>(GenError::WidthTooLarge) <==> width > MAX_WIDTH,
        ty == Err::<BitsTy, GenError>(GenError::ZeroWidth) <==> width == 0,
        ty matches Ok(t) ==> width <= t.bits() && forall|s: BitsTy|
            width <= s.bits() ==> t.bits() <= s.bits(),
{
    if width == 0 {
        Err(GenError::ZeroWidth)
    } else if width <= 8 {
        Ok(BitsTy::U8)
    } else if width <= 16 {
        Ok(BitsTy::U16)
    } else if width <= MAX_WIDTH {
        Ok(BitsTy::U32)
    } else {
        Err(GenError::WidthTooLarge)
    }
}

} // verus!
