//! The bank-switching cartridge board in its present, fixed-bank form: the
//! same address layout as the simple board, but tolerant of whatever bank
//! sizes the cartridge supplies, faulting only on an out-of-range index.

use vstd::prelude::*;
use crate::EmuError;
use crate::mem::{mirror_spec, mirror_addr};
use crate::memory::Mapper;
use crate::mapper_0::MapperBanks;

verus! {

pub struct Mapper4 {
    prg: Vec<u8>,
    prg_ram: Vec<u8>,
    chr: Vec<u8>,
}

impl View for Mapper4 {
    type V = MapperBanks;

    closed spec fn view(&self) -> MapperBanks {
        MapperBanks { prg: self.prg@, prg_ram: self.prg_ram@, chr: self.chr@ }
    }
}

/// Where a CPU-space address lands on this board: the work-RAM index or the
/// program-bank index; the upper half of cartridge space folds down unless
/// the program bank fills all 32 KiB.
pub open spec fn prg_index4_spec(m: MapperBanks, addr: u16) -> Result<(bool, int), EmuError> {
    if 0x6000 <= addr <= 0x7FFF {
        let i = addr - 0x6000;
        if i < m.prg_ram.len() {
            Ok((true, i))
        } else {
            Err(EmuError::MapperFault(addr))
        }
    } else if 0x8000 <= addr {
        let i = if addr <= 0xBFFF || m.prg.len() == 32 * 1024 {
            addr - 0x8000
        } else {
            mirror_spec(0x8000, 0xBFFF, 0xC000, addr) - 0x8000
        };
        if i < m.prg.len() {
            Ok((false, i))
        } else {
            Err(EmuError::MapperFault(addr))
        }
    } else {
        Err(EmuError::MapperFault(addr))
    }
}

impl Mapper4 {
    pub fn new(prg: Vec<u8>, prg_ram_size: usize, chr: Vec<u8>) -> (m: Mapper4)
        ensures
            m@.prg == prg@,
            m@.prg_ram == Seq::<u8>::new(prg_ram_size as nat, |i: int| 0u8),
            m@.chr == chr@,
    {
        Mapper4 { prg, prg_ram: crate::main_memory::alloc_zeroed(prg_ram_size), chr }
    }

    /// Resolves a CPU-space address to a bank and index, in bounds when `Ok`.
    fn prg_index(&self, addr: u16) -> (r: Result<(bool, usize), EmuError>)
        ensures
            match prg_index4_spec(self@, addr) {
                Ok((ram, i)) => r matches Ok(p) && p.0 == ram && p.1 == i && (if ram {
                    i < self@.prg_ram.len()
                } else {
                    i < self@.prg.len()
                }),
                Err(e) => r == Err::<(bool, usize), EmuError>(e),
            },
    {
        if 0x6000 <= addr && addr <= 0x7FFF {
            let i: usize = (addr - 0x6000) as usize;
            if i < self.prg_ram.len() {
                Ok((true, i))
            } else {
                Err(EmuError::MapperFault(addr))
            }
        } else if 0x8000 <= addr {
            let i: usize = if addr <= 0xBFFF || self.prg.len() == 32 * 1024 {
                (addr - 0x8000) as usize
            } else {
                (mirror_addr(0x8000, 0xBFFF, 0xC000, addr) - 0x8000) as usize
            };
            if i < self.prg.len() {
                Ok((false, i))
            } else {
                Err(EmuError::MapperFault(addr))
            }
        } else {
            Err(EmuError::MapperFault(addr))
        }
    }
}

impl Mapper for Mapper4 {
    open spec fn inv(&self) -> bool {
        true
    }

    open spec fn read_spec(m: MapperBanks, addr: u16) -> Result<u8, EmuError> {
        match prg_index4_spec(m, addr) {
            Ok((true, i)) => Ok(m.prg_ram[i]),
            Ok((false, i)) => Ok(m.prg[i]),
            Err(e) => Err(e),
        }
    }

    open spec fn write_spec(m: MapperBanks, addr: u16, val: u8) -> Result<MapperBanks, EmuError> {
        match prg_index4_spec(m, addr) {
            Ok((true, i)) => Ok(MapperBanks { prg_ram: m.prg_ram.update(i, val), ..m }),
            Ok((false, i)) => Ok(MapperBanks { prg: m.prg.update(i, val), ..m }),
            Err(e) => Err(e),
        }
    }

    open spec fn read_ppu_spec(m: MapperBanks, addr: u16) -> Result<u8, EmuError> {
        if addr <= 0x1FFF && addr < m.chr.len() {
            Ok(m.chr[addr as int])
        } else {
            Err(EmuError::MapperFault(addr))
        }
    }

    open spec fn write_ppu_spec(m: MapperBanks, addr: u16, val: u8) -> Result<
        MapperBanks,
        EmuError,
    > {
        if addr <= 0x1FFF && addr < m.chr.len() {
            Ok(MapperBanks { chr: m.chr.update(addr as int, val), ..m })
        } else {
            Err(EmuError::MapperFault(addr))
        }
    }

    fn read(&self, addr: u16) -> (r: Result<u8, EmuError>) {
        match self.prg_index(addr) {
            Ok((true, i)) => Ok(self.prg_ram[i]),
            Ok((false, i)) => Ok(self.prg[i]),
            Err(e) => Err(e),
        }
    }

    fn write(&mut self, addr: u16, val: u8) -> (r: Result<(), EmuError>) {
        match self.prg_index(addr) {
            Ok((true, i)) => {
                self.prg_ram[i] = val;
                Ok(())
            },
            Ok((false, i)) => {
                self.prg[i] = val;
                Ok(())
            },
            Err(e) => Err(e),
        }
    }

    fn read_ppu(&self, addr: u16) -> (r: Result<u8, EmuError>) {
        if addr <= 0x1FFF && (addr as usize) < self.chr.len() {
            Ok(self.chr[addr as usize])
        } else {
            Err(EmuError::MapperFault(addr))
        }
    }

    fn write_ppu(&mut self, addr: u16, val: u8) -> (r: Result<(), EmuError>) {
        if addr <= 0x1FFF && (addr as usize) < self.chr.len() {
            self.chr[addr as usize] = val;
            Ok(())
        } else {
            Err(EmuError::MapperFault(addr))
        }
    }
}

} // verus!
