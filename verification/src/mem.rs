//! The simple byte-addressed memory interface, and the one mirroring helper
//! that every aliased bus region goes through.

use vstd::prelude::*;
use crate::EmuError;

verus! {

/// A byte-addressed memory: total over the 16-bit bus except where it
/// reports a fault.  `read_spec`/`write_spec` are the mathematical model
/// (over the type's view) that the executable methods are held to.
pub trait Mem where Self: Sized + View {
    /// Structural well-formedness (fixed buffer sizes); constructors
    /// establish it and every operation preserves it.
    spec fn inv(&self) -> bool;

    /// What a read at `addr` returns, or the fault it raises.
    spec fn read_spec(m: Self::V, addr: u16) -> Result<u8, EmuError>;

    /// The state after a write at `addr`, or the fault it raises (a faulting
    /// write leaves the memory unchanged).
    spec fn write_spec(m: Self::V, addr: u16, val: u8) -> Result<Self::V, EmuError>;

    fn read(&self, addr: u16) -> (r: Result<u8, EmuError>)
        requires
            self.inv(),
        ensures
            r == Self::read_spec(self@, addr),
    ;

    fn write(&mut self, addr: u16, val: u8) -> (r: Result<(), EmuError>)
        requires
            old(self).inv(),
        ensures
            final(self).inv(),
            match Self::write_spec(old(self)@, addr, val) {
                Ok(m) => r == Ok::<(), EmuError>(()) && final(self)@ == m,
                Err(e) => r == Err::<(), EmuError>(e) && final(self)@ == old(self)@,
            },
    ;
}

/// Maps an address inside the aliased range starting at `to_start` back into
/// the canonical range `[from_start, from_end]`, by wrapping the offset
/// modulo the canonical range's size.
pub open spec fn mirror_spec(from_start: u16, from_end: u16, to_start: u16, addr: u16) -> int
    recommends
        from_start <= from_end,
        to_start <= addr,
{
    from_start + (addr - to_start) % (from_end - from_start + 1)
}

/// Folds a mirrored address into its canonical range.  Every aliased region
/// of the machine (RAM echoes, register echoes, palette shadows, the
/// picture processor's wrap-around of its own bus) resolves through this one
/// function, so aliases behave identically by construction.
pub fn mirror_addr(from_start: u16, from_end: u16, to_start: u16, addr: u16) -> (r: u16)
    requires
        from_start <= from_end,
        from_end - from_start < 0xFFFF,
        to_start <= addr,
    ensures
        r == mirror_spec(from_start, from_end, to_start, addr),
        from_start <= r <= from_end,
{
    let size: u16 = from_end - from_start + 1;
    let offset: u16 = (addr - to_start) % size;
    from_start + offset
}

} // verus!
