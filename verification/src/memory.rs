//! The CPU-visible memory fabric: the cartridge mapper interface, the
//! mapper-aware memory interface, and the 2 KiB internal RAM with its
//! mirrors.

use vstd::prelude::*;
use crate::EmuError;
use crate::mem::{mirror_spec, mirror_addr};

verus! {

/// The cartridge side of the bus.  CPU-space calls serve `0x4020..=0xFFFF`;
/// picture-bus calls serve the pattern tables at `0x0000..=0x1FFF`.  The
/// core assumes nothing beyond these contracts: each call either returns a
/// result that matches the mapper's own model or reports a fault, and a
/// faulting write leaves the mapper unchanged.
pub trait Mapper where Self: Sized + View {
    /// Structural well-formedness; preserved by every operation.
    spec fn inv(&self) -> bool;

    spec fn read_spec(m: Self::V, addr: u16) -> Result<u8, EmuError>;

    spec fn write_spec(m: Self::V, addr: u16, val: u8) -> Result<Self::V, EmuError>;

    spec fn read_ppu_spec(m: Self::V, addr: u16) -> Result<u8, EmuError>;

    spec fn write_ppu_spec(m: Self::V, addr: u16, val: u8) -> Result<Self::V, EmuError>;

    fn read(&self, addr: u16) -> (r: Result<u8, EmuError>)
        requires
            self.inv(),
        ensures
            r == Self::read_spec(self@, addr),
    ;

    fn write(&mut self, addr: u16, val: u8) -> (r: Result<(), EmuError>)
        requires
            old(self).inv(),
        ensures
            final(self).inv(),
            match Self::write_spec(old(self)@, addr, val) {
                Ok(m) => r == Ok::<(), EmuError>(()) && final(self)@ == m,
                Err(e) => r == Err::<(), EmuError>(e) && final(self)@ == old(self)@,
            },
    ;

    fn read_ppu(&self, addr: u16) -> (r: Result<u8, EmuError>)
        requires
            self.inv(),
        ensures
            r == Self::read_ppu_spec(self@, addr),
    ;

    fn write_ppu(&mut self, addr: u16, val: u8) -> (r: Result<(), EmuError>)
        requires
            old(self).inv(),
        ensures
            final(self).inv(),
            match Self::write_ppu_spec(old(self)@, addr, val) {
                Ok(m) => r == Ok::<(), EmuError>(()) && final(self)@ == m,
                Err(e) => r == Err::<(), EmuError>(e) && final(self)@ == old(self)@,
            },
    ;
}

/// A memory that resolves some of its addresses itself and delegates the
/// cartridge range to a mapper.
pub trait Mem<M: Mapper> where Self: Sized + View {
    spec fn inv(&self) -> bool;

    spec fn read_spec(m: Self::V, mapper: M::V, addr: u16) -> Result<u8, EmuError>;

    /// The joint state after a write: the memory's own model and the
    /// mapper's, since a cartridge-space write lands in the mapper.
    spec fn write_spec(m: Self::V, mapper: M::V, addr: u16, val: u8) -> Result<
        (Self::V, M::V),
        EmuError,
    >;

    fn read(&self, mapper: &M, addr: u16) -> (r: Result<u8, EmuError>)
        requires
            self.inv(),
            mapper.inv(),
        ensures
            r == Self::read_spec(self@, mapper@, addr),
    ;

    fn write(&mut self, mapper: &mut M, addr: u16, val: u8) -> (r: Result<(), EmuError>)
        requires
            old(self).inv(),
            old(mapper).inv(),
        ensures
            final(self).inv(),
            final(mapper).inv(),
            match Self::write_spec(old(self)@, old(mapper)@, addr, val) {
                Ok((m, mp)) => r == Ok::<(), EmuError>(()) && final(self)@ == m
                    && final(mapper)@ == mp,
                Err(e) => r == Err::<(), EmuError>(e) && final(self)@ == old(self)@
                    && final(mapper)@ == old(mapper)@,
            },
    ;
}

/// The 2 KiB internal RAM, echoed through `0x1FFF`; everything from
/// `0x4020` up belongs to the mapper, and the hole in between is not this
/// memory's to serve.
pub struct Memory {
    pub ram: Vec<u8>,
}

pub struct MemoryView {
    pub ram: Seq<u8>,
}

impl View for Memory {
    type V = MemoryView;

    open spec fn view(&self) -> MemoryView {
        MemoryView { ram: self.ram@ }
    }
}

impl Memory {
    /// Structural well-formedness: the RAM buffer keeps its 2 KiB size.
    pub open spec fn wf(&self) -> bool {
        self.ram@.len() == 2048
    }

    pub fn new() -> (m: Memory)
        ensures
            m.wf(),
            m@.ram == Seq::<u8>::new(2048, |i: int| 0u8),
    {
        Memory { ram: crate::main_memory::alloc_zeroed(2048) }
    }
}

impl<M: Mapper> Mem<M> for Memory {
    open spec fn inv(&self) -> bool {
        self.wf()
    }

    open spec fn read_spec(m: MemoryView, mapper: M::V, addr: u16) -> Result<u8, EmuError>
        decreases addr,
    {
        if addr <= 0x07FF {
            Ok(m.ram[addr as int])
        } else if addr <= 0x1FFF {
            <Memory as Mem<M>>::read_spec(m, mapper, mirror_spec(0, 0x07FF, 0x0800, addr) as u16)
        } else if 0x4020 <= addr {
            M::read_spec(mapper, addr)
        } else {
            Err(EmuError::BusFault(addr))
        }
    }

    open spec fn write_spec(m: MemoryView, mapper: M::V, addr: u16, val: u8) -> Result<
        (MemoryView, M::V),
        EmuError,
    >
        decreases addr,
    {
        if addr <= 0x07FF {
            Ok((MemoryView { ram: m.ram.update(addr as int, val) }, mapper))
        } else if addr <= 0x1FFF {
            <Memory as Mem<M>>::write_spec(m, mapper, mirror_spec(0, 0x07FF, 0x0800, addr) as u16, val)
        } else if 0x4020 <= addr {
            match M::write_spec(mapper, addr, val) {
                Ok(mp) => Ok((m, mp)),
                Err(e) => Err(e),
            }
        } else {
            Err(EmuError::BusFault(addr))
        }
    }

    fn read(&self, mapper: &M, addr: u16) -> (r: Result<u8, EmuError>) {
        if addr <= 0x07FF {
            Ok(self.ram[addr as usize])
        } else if addr <= 0x1FFF {
            let canonical: u16 = mirror_addr(0, 0x07FF, 0x0800, addr);
            proof {
                assert(<Memory as Mem<M>>::read_spec(self@, mapper@, addr)
                    == <Memory as Mem<M>>::read_spec(self@, mapper@, canonical));
            }
            Ok(self.ram[canonical as usize])
        } else if 0x4020 <= addr {
            mapper.read(addr)
        } else {
            Err(EmuError::BusFault(addr))
        }
    }

    fn write(&mut self, mapper: &mut M, addr: u16, val: u8) -> (r: Result<(), EmuError>) {
        if addr <= 0x07FF {
            self.ram[addr as usize] = val;
            Ok(())
        } else if addr <= 0x1FFF {
            let canonical: u16 = mirror_addr(0, 0x07FF, 0x0800, addr);
            proof {
                assert(<Memory as Mem<M>>::write_spec(old(self)@, old(mapper)@, addr, val)
                    == <Memory as Mem<M>>::write_spec(old(self)@, old(mapper)@, canonical, val));
            }
            self.ram[canonical as usize] = val;
            Ok(())
        } else if 0x4020 <= addr {
            mapper.write(addr, val)
        } else {
            Err(EmuError::BusFault(addr))
        }
    }
}

} // verus!
