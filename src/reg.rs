//! 64-bit registers with overflow-checked arithmetic.
use crate::inter::Inter;
use vstd::prelude::*;

verus! {

/// A 64-bit unsigned register.
#[derive(Clone, Copy, Debug, PartialEq, Eq, Structural)]
pub struct Reg(pub u64);

impl Reg {
    /// `self + val`, or `RegOverflow` when the sum does not fit in 64 bits.
    pub fn add(self, val: u64) -> (r: Result<Reg, Inter>)
        ensures
            self.0 + val <= u64::MAX ==> r == Ok::<Reg, Inter>(Reg((self.0 + val) as u64)),
            self.0 + val > u64::MAX ==> r == Err::<Reg, Inter>(Inter::RegOverflow),
    {
        match self.0.checked_add(val) {
            Some(v) => Ok(Reg(v)),
            None => Err(Inter::RegOverflow),
        }
    }

    /// `self - val`, or `RegOverflow` when `val` exceeds the register.
    pub fn sub(self, val: u64) -> (r: Result<Reg, Inter>)
        ensures
            val <= self.0 ==> r == Ok::<Reg, Inter>(Reg((self.0 - val) as u64)),
            val > self.0 ==> r == Err::<Reg, Inter>(Inter::RegOverflow),
    {
        match self.0.checked_sub(val) {
            Some(v) => Ok(Reg(v)),
            None => Err(Inter::RegOverflow),
        }
    }

    /// Adds `val` in place; on overflow the register is left as it was.
    pub fn inc_by(&mut self, val: u64) -> (r: Result<(), Inter>)
        ensures
            old(self).0 + val <= u64::MAX ==> r is Ok && final(self).0 == old(self).0 + val,
            old(self).0 + val > u64::MAX ==> r == Err::<(), Inter>(Inter::RegOverflow)
                && *final(self) == *old(self),
    {
        match self.add(val) {
            Ok(v) => {
                *self = v;
                Ok(())
            },
            Err(e) => Err(e),
        }
    }

    /// Subtracts `val` in place; on underflow the register is left as it was.
    pub fn dec_by(&mut self, val: u64) -> (r: Result<(), Inter>)
        ensures
            val <= old(self).0 ==> r is Ok && final(self).0 == old(self).0 - val,
            val > old(self).0 ==> r == Err::<(), Inter>(Inter::RegOverflow)
                && *final(self) == *old(self),
    {
        match self.sub(val) {
            Ok(v) => {
                *self = v;
                Ok(())
            },
            Err(e) => Err(e),
        }
    }

    /// The register as eight little-endian bytes.
    pub fn to_bytes(self) -> (r: Vec<u8>)
        ensures
            r@ == crate::encoding::le_bytes(self.0 as nat, 8),
    {
        crate::encoding::to_le(self.0 as u128, 8)
    }

    pub fn set(&mut self, val: u64)
        ensures
            final(self).0 == val,
    {
        self.0 = val;
    }

    pub fn as_u64(self) -> (r: u64)
        ensures
            r == self.0,
    {
        self.0
    }

    /// The register as an index, where it fits in `usize`.
    pub fn as_usize(self) -> (r: Option<usize>)
        ensures
            self.0 <= usize::MAX ==> r == Some(self.0 as usize),
            self.0 > usize::MAX ==> r is None,
    {
        if self.0 <= usize::MAX as u64 {
            Some(self.0 as usize)
        } else {
            None
        }
    }
}

} // verus!
