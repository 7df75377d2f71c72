//! A self-contained CPU-space memory: 2 KiB of internal RAM plus the
//! cartridge's program banks held directly, for hosts that run without a
//! bank-switching mapper.

use vstd::prelude::*;
use crate::EmuError;
use crate::mem::{Mem, mirror_spec, mirror_addr};

verus! {

pub struct MainMemory {
    pub prg: Vec<u8>,
    pub prg_ram: Vec<u8>,
    pub ram: Vec<u8>,
}

/// The mathematical model of a `MainMemory`: the three buffers as sequences.
pub struct MainMemoryView {
    pub prg: Seq<u8>,
    pub prg_ram: Seq<u8>,
    pub ram: Seq<u8>,
}

impl View for MainMemory {
    type V = MainMemoryView;

    open spec fn view(&self) -> MainMemoryView {
        MainMemoryView { prg: self.prg@, prg_ram: self.prg_ram@, ram: self.ram@ }
    }
}

/// Where an address lands after mirroring: an index into one of the three
/// backing buffers.
#[derive(Clone, Copy, Debug, PartialEq, Eq, Structural)]
pub enum MemoryRef {
    Ram(usize),
    Prg(usize),
    PrgRam(usize),
}

/// The routing model: internal RAM below `0x2000` (mirrored past `0x07FF`),
/// cartridge space from `0x4020` up, everything else a bus fault.  The
/// program banks demand the fixed geometry (8 KiB work RAM, 16 or 32 KiB
/// program), and a 16 KiB program bank echoes through the upper half of
/// cartridge space.
pub open spec fn mem_ref_spec(m: MainMemoryView, addr: u16) -> Result<MemoryRef, EmuError>
    decreases addr, 1int,
{
    if addr <= 0x07FF {
        Ok(MemoryRef::Ram(addr as usize))
    } else if 0x0800 <= addr <= 0x1FFF {
        mem_ref_spec(m, mirror_spec(0, 0x07FF, 0x0800, addr) as u16)
    } else if 0x2008 <= addr <= 0x3FFF {
        mem_ref_spec(m, mirror_spec(0x2000, 0x2007, 0x2008, addr) as u16)
    } else if 0x4020 <= addr {
        mapper_ref_spec(m, addr)
    } else {
        Err(EmuError::BusFault(addr))
    }
}

pub open spec fn mapper_ref_spec(m: MainMemoryView, addr: u16) -> Result<MemoryRef, EmuError>
    decreases addr, 0int,
{
    if m.prg_ram.len() != 8 * 1024 || !(m.prg.len() == 16 * 1024 || m.prg.len() == 32 * 1024) {
        Err(EmuError::MapperFault(addr))
    } else if 0x6000 <= addr <= 0x7FFF {
        Ok(MemoryRef::PrgRam((addr - 0x6000) as usize))
    } else if 0x8000 <= addr <= 0xBFFF {
        Ok(MemoryRef::Prg((addr - 0x8000) as usize))
    } else if 0xC000 <= addr {
        if m.prg.len() == 32 * 1024 {
            Ok(MemoryRef::Prg((addr - 0x8000) as usize))
        } else {
            mem_ref_spec(m, mirror_spec(0x8000, 0xBFFF, 0xC000, addr) as u16)
        }
    } else {
        Err(EmuError::MapperFault(addr))
    }
}

/// A resolved reference indexes inside its buffer; this is what keeps the
/// read and write bodies free of bounds faults.
pub open spec fn ref_in_bounds(m: MainMemoryView, r: MemoryRef) -> bool {
    match r {
        MemoryRef::Ram(i) => i < m.ram.len(),
        MemoryRef::Prg(i) => i < m.prg.len(),
        MemoryRef::PrgRam(i) => i < m.prg_ram.len(),
    }
}

impl MainMemory {
    pub fn new(prg: Vec<u8>, prg_ram_size: usize) -> (m: MainMemory)
        ensures
            m.inv(),
            m@.prg == prg@,
            m@.prg_ram == Seq::<u8>::new(prg_ram_size as nat, |i: int| 0u8),
            m@.ram == Seq::<u8>::new(2048, |i: int| 0u8),
    {
        MainMemory { prg, prg_ram: alloc_zeroed(prg_ram_size), ram: alloc_zeroed(2048) }
    }

    fn mem_ref(&self, addr: u16) -> (r: Result<MemoryRef, EmuError>)
        requires
            self.inv(),
        ensures
            r == mem_ref_spec(self@, addr),
            r matches Ok(m) ==> ref_in_bounds(self@, m),
        decreases addr, 1int,
    {
        if addr <= 0x07FF {
            Ok(MemoryRef::Ram(addr as usize))
        } else if addr <= 0x1FFF {
            self.mem_ref(mirror_addr(0, 0x07FF, 0x0800, addr))
        } else if 0x2008 <= addr && addr <= 0x3FFF {
            self.mem_ref(mirror_addr(0x2000, 0x2007, 0x2008, addr))
        } else if 0x4020 <= addr {
            self.mapper_ref(addr)
        } else {
            Err(EmuError::BusFault(addr))
        }
    }

    fn mapper_ref(&self, addr: u16) -> (r: Result<MemoryRef, EmuError>)
        requires
            self.inv(),
        ensures
            r == mapper_ref_spec(self@, addr),
            r matches Ok(m) ==> ref_in_bounds(self@, m),
        decreases addr, 0int,
    {
        if self.prg_ram.len() != 8 * 1024 || !(self.prg.len() == 16 * 1024 || self.prg.len() == 32
            * 1024) {
            Err(EmuError::MapperFault(addr))
        } else if 0x6000 <= addr && addr <= 0x7FFF {
            Ok(MemoryRef::PrgRam((addr - 0x6000) as usize))
        } else if 0x8000 <= addr && addr <= 0xBFFF {
            Ok(MemoryRef::Prg((addr - 0x8000) as usize))
        } else if 0xC000 <= addr {
            if self.prg.len() == 32 * 1024 {
                Ok(MemoryRef::Prg((addr - 0x8000) as usize))
            } else {
                self.mem_ref(mirror_addr(0x8000, 0xBFFF, 0xC000, addr))
            }
        } else {
            Err(EmuError::MapperFault(addr))
        }
    }
}

impl Mem for MainMemory {
    open spec fn inv(&self) -> bool {
        self.ram@.len() == 2048
    }

    open spec fn read_spec(m: MainMemoryView, addr: u16) -> Result<u8, EmuError> {
        match mem_ref_spec(m, addr) {
            Ok(MemoryRef::Ram(i)) => Ok(m.ram[i as int]),
            Ok(MemoryRef::Prg(i)) => Ok(m.prg[i as int]),
            Ok(MemoryRef::PrgRam(i)) => Ok(m.prg_ram[i as int]),
            Err(e) => Err(e),
        }
    }

    open spec fn write_spec(m: MainMemoryView, addr: u16, val: u8) -> Result<
        MainMemoryView,
        EmuError,
    > {
        match mem_ref_spec(m, addr) {
            Ok(MemoryRef::Ram(i)) => Ok(
                MainMemoryView { ram: m.ram.update(i as int, val), ..m },
            ),
            Ok(MemoryRef::Prg(i)) => Ok(MainMemoryView { prg: m.prg.update(i as int, val), ..m }),
            Ok(MemoryRef::PrgRam(i)) => Ok(
                MainMemoryView { prg_ram: m.prg_ram.update(i as int, val), ..m },
            ),
            Err(e) => Err(e),
        }
    }

    fn read(&self, addr: u16) -> (r: Result<u8, EmuError>) {
        match self.mem_ref(addr) {
            Ok(MemoryRef::Ram(i)) => Ok(self.ram[i]),
            Ok(MemoryRef::Prg(i)) => Ok(self.prg[i]),
            Ok(MemoryRef::PrgRam(i)) => Ok(self.prg_ram[i]),
            Err(e) => Err(e),
        }
    }

    fn write(&mut self, addr: u16, val: u8) -> (r: Result<(), EmuError>) {
        match self.mem_ref(addr) {
            Ok(MemoryRef::Ram(i)) => {
                self.ram[i] = val;
                Ok(())
            },
            Ok(MemoryRef::Prg(i)) => {
                self.prg[i] = val;
                Ok(())
            },
            Ok(MemoryRef::PrgRam(i)) => {
                self.prg_ram[i] = val;
                Ok(())
            },
            Err(e) => Err(e),
        }
    }
}

/// Builds an all-zero buffer of the requested size.
pub fn alloc_zeroed(n: usize) -> (v: Vec<u8>)
    ensures
        v@ == Seq::<u8>::new(n as nat, |i: int| 0u8),
{
    let mut v: Vec<u8> = Vec::new();
    while v.len() < n
        invariant
            v@.len() <= n,
            forall|i: int| 0 <= i < v@.len() ==> v@[i] == 0u8,
        decreases n - v@.len(),
    {
        v.push(0);
    }
    proof {
        assert(v@ =~= Seq::<u8>::new(n as nat, |i: int| 0u8));
    }
    v
}

} // verus!
