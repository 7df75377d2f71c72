//! The simplest cartridge board: fixed program and pattern banks, no bank
//! switching.  A 16 KiB program bank is echoed through the upper half of
//! cartridge space; work RAM sits at `0x6000..=0x7FFF`.

use vstd::prelude::*;
use crate::EmuError;
use crate::mem::{mirror_spec, mirror_addr};
use crate::memory::Mapper;

verus! {

pub struct Mapper0 {
    prg: Vec<u8>,
    prg_ram: Vec<u8>,
    chr: Vec<u8>,
}

/// The model of a cartridge board: its three banks as sequences.
pub struct MapperBanks {
    pub prg: Seq<u8>,
    pub prg_ram: Seq<u8>,
    pub chr: Seq<u8>,
}

impl View for Mapper0 {
    type V = MapperBanks;

    closed spec fn view(&self) -> MapperBanks {
        MapperBanks { prg: self.prg@, prg_ram: self.prg_ram@, chr: self.chr@ }
    }
}

/// This board demands 8 KiB of work RAM and a 16 or 32 KiB program bank;
/// anything else is a mapper contract violation, reported on first use.
pub open spec fn geometry_ok(m: MapperBanks) -> bool {
    m.prg_ram.len() == 8 * 1024 && (m.prg.len() == 16 * 1024 || m.prg.len() == 32 * 1024)
}

/// Where a CPU-space address lands on this board: the work-RAM index or the
/// program-bank index, with the 16 KiB echo folded down.
pub open spec fn prg_index_spec(m: MapperBanks, addr: u16) -> Result<(bool, int), EmuError> {
    if !geometry_ok(m) {
        Err(EmuError::MapperFault(addr))
    } else if 0x6000 <= addr <= 0x7FFF {
        Ok((true, addr - 0x6000))
    } else if 0x8000 <= addr <= 0xBFFF {
        Ok((false, addr - 0x8000))
    } else if 0xC000 <= addr {
        if m.prg.len() == 32 * 1024 {
            Ok((false, addr - 0x8000))
        } else {
            Ok((false, mirror_spec(0x8000, 0xBFFF, 0xC000, addr) - 0x8000))
        }
    } else {
        Err(EmuError::MapperFault(addr))
    }
}

impl Mapper0 {
    pub fn new(prg: Vec<u8>, prg_ram_size: usize, chr: Vec<u8>) -> (m: Mapper0)
        ensures
            m@.prg == prg@,
            m@.prg_ram == Seq::<u8>::new(prg_ram_size as nat, |i: int| 0u8),
            m@.chr == chr@,
    {
        Mapper0 { prg, prg_ram: crate::main_memory::alloc_zeroed(prg_ram_size), chr }
    }

    /// Resolves a CPU-space address to a bank and index, in bounds when `Ok`.
    fn prg_index(&self, addr: u16) -> (r: Result<(bool, usize), EmuError>)
        ensures
            match prg_index_spec(self@, addr) {
                Ok((ram, i)) => r matches Ok(p) && p.0 == ram && p.1 == i && (if ram {
                    i < self@.prg_ram.len()
                } else {
                    i < self@.prg.len()
                }),
                Err(e) => r == Err::<(bool, usize), EmuError>(e),
            },
    {
        if self.prg_ram.len() != 8 * 1024 || !(self.prg.len() == 16 * 1024 || self.prg.len() == 32
            * 1024) {
            Err(EmuError::MapperFault(addr))
        } else if 0x6000 <= addr && addr <= 0x7FFF {
            Ok((true, (addr - 0x6000) as usize))
        } else if 0x8000 <= addr && addr <= 0xBFFF {
            Ok((false, (addr - 0x8000) as usize))
        } else if 0xC000 <= addr {
            if self.prg.len() == 32 * 1024 {
                Ok((false, (addr - 0x8000) as usize))
            } else {
                Ok((false, (mirror_addr(0x8000, 0xBFFF, 0xC000, addr) - 0x8000) as usize))
            }
        } else {
            Err(EmuError::MapperFault(addr))
        }
    }
}

impl Mapper for Mapper0 {
    open spec fn inv(&self) -> bool {
        true
    }

    open spec fn read_spec(m: MapperBanks, addr: u16) -> Result<u8, EmuError> {
        match prg_index_spec(m, addr) {
            Ok((true, i)) => Ok(m.prg_ram[i]),
            Ok((false, i)) => Ok(m.prg[i]),
            Err(e) => Err(e),
        }
    }

    open spec fn write_spec(m: MapperBanks, addr: u16, val: u8) -> Result<MapperBanks, EmuError> {
        match prg_index_spec(m, addr) {
            Ok((true, i)) => Ok(MapperBanks { prg_ram: m.prg_ram.update(i, val), ..m }),
            Ok((false, i)) => Ok(MapperBanks { prg: m.prg.update(i, val), ..m }),
            Err(e) => Err(e),
        }
    }

    open spec fn read_ppu_spec(m: MapperBanks, addr: u16) -> Result<u8, EmuError> {
        if addr <= 0x1FFF && addr < m.chr.len() {
            Ok(m.chr[addr as int])
        } else {
            Err(EmuError::MapperFault(addr))
        }
    }

    open spec fn write_ppu_spec(m: MapperBanks, addr: u16, val: u8) -> Result<
        MapperBanks,
        EmuError,
    > {
        if addr <= 0x1FFF && addr < m.chr.len() {
            Ok(MapperBanks { chr: m.chr.update(addr as int, val), ..m })
        } else {
            Err(EmuError::MapperFault(addr))
        }
    }

    fn read(&self, addr: u16) -> (r: Result<u8, EmuError>) {
        match self.prg_index(addr) {
            Ok((true, i)) => Ok(self.prg_ram[i]),
            Ok((false, i)) => Ok(self.prg[i]),
            Err(e) => Err(e),
        }
    }

    fn write(&mut self, addr: u16, val: u8) -> (r: Result<(), EmuError>) {
        match self.prg_index(addr) {
            Ok((true, i)) => {
                self.prg_ram[i] = val;
                Ok(())
            },
            Ok((false, i)) => {
                self.prg[i] = val;
                Ok(())
            },
            Err(e) => Err(e),
        }
    }

    fn read_ppu(&self, addr: u16) -> (r: Result<u8, EmuError>) {
        if addr <= 0x1FFF && (addr as usize) < self.chr.len() {
            Ok(self.chr[addr as usize])
        } else {
            Err(EmuError::MapperFault(addr))
        }
    }

    fn write_ppu(&mut self, addr: u16, val: u8) -> (r: Result<(), EmuError>) {
        if addr <= 0x1FFF && (addr as usize) < self.chr.len() {
            self.chr[addr as usize] = val;
            Ok(())
        } else {
            Err(EmuError::MapperFault(addr))
        }
    }
}

} // verus!
