//! The machine: the CPU-visible bus that routes every address to RAM, the
//! picture processor's registers, the input latches or the cartridge, and
//! the frame driver that interleaves the processor and the picture
//! processor cycle for cycle.

use vstd::prelude::*;
use crate::EmuError;
use crate::controller::{Controller, read_value, read_next, write_spec as controller_write_spec};
use crate::cpu::{Cpu, tick_step};
use crate::mem::{mirror_spec, mirror_addr};
use crate::memory::{Mapper, Mem, Memory, MemoryView};
use crate::mapper_0::{Mapper0, MapperBanks};
use crate::mapper_4::Mapper4;
use crate::ppu::{Ppu, PpuView, ppu_wf, read_main_step, write_main_step, dma_step, tick_post, init_ppu_view};

verus! {

/// One of the cartridge boards this core knows how to drive, behind the
/// common mapper interface.
pub enum AnyMapper {
    Board0(Mapper0),
    Board4(Mapper4),
}

/// The model of a board choice: which board, with its banks.
pub enum AnyBanks {
    Board0(MapperBanks),
    Board4(MapperBanks),
}

impl View for AnyMapper {
    type V = AnyBanks;

    closed spec fn view(&self) -> AnyBanks {
        match self {
            AnyMapper::Board0(m) => AnyBanks::Board0(m@),
            AnyMapper::Board4(m) => AnyBanks::Board4(m@),
        }
    }
}

impl Mapper for AnyMapper {
    open spec fn inv(&self) -> bool {
        true
    }

    open spec fn read_spec(m: AnyBanks, addr: u16) -> Result<u8, EmuError> {
        match m {
            AnyBanks::Board0(b) => <Mapper0 as Mapper>::read_spec(b, addr),
            AnyBanks::Board4(b) => <Mapper4 as Mapper>::read_spec(b, addr),
        }
    }

    open spec fn write_spec(m: AnyBanks, addr: u16, val: u8) -> Result<AnyBanks, EmuError> {
        match m {
            AnyBanks::Board0(b) => match <Mapper0 as Mapper>::write_spec(b, addr, val) {
                Ok(b2) => Ok(AnyBanks::Board0(b2)),
                Err(e) => Err(e),
            },
            AnyBanks::Board4(b) => match <Mapper4 as Mapper>::write_spec(b, addr, val) {
                Ok(b2) => Ok(AnyBanks::Board4(b2)),
                Err(e) => Err(e),
            },
        }
    }

    open spec fn read_ppu_spec(m: AnyBanks, addr: u16) -> Result<u8, EmuError> {
        match m {
            AnyBanks::Board0(b) => <Mapper0 as Mapper>::read_ppu_spec(b, addr),
            AnyBanks::Board4(b) => <Mapper4 as Mapper>::read_ppu_spec(b, addr),
        }
    }

    open spec fn write_ppu_spec(m: AnyBanks, addr: u16, val: u8) -> Result<AnyBanks, EmuError> {
        match m {
            AnyBanks::Board0(b) => match <Mapper0 as Mapper>::write_ppu_spec(b, addr, val) {
                Ok(b2) => Ok(AnyBanks::Board0(b2)),
                Err(e) => Err(e),
            },
            AnyBanks::Board4(b) => match <Mapper4 as Mapper>::write_ppu_spec(b, addr, val) {
                Ok(b2) => Ok(AnyBanks::Board4(b2)),
                Err(e) => Err(e),
            },
        }
    }

    fn read(&self, addr: u16) -> (r: Result<u8, EmuError>) {
        match self {
            AnyMapper::Board0(m) => m.read(addr),
            AnyMapper::Board4(m) => m.read(addr),
        }
    }

    fn write(&mut self, addr: u16, val: u8) -> (r: Result<(), EmuError>) {
        match self {
            AnyMapper::Board0(m) => m.write(addr, val),
            AnyMapper::Board4(m) => m.write(addr, val),
        }
    }

    fn read_ppu(&self, addr: u16) -> (r: Result<u8, EmuError>) {
        match self {
            AnyMapper::Board0(m) => m.read_ppu(addr),
            AnyMapper::Board4(m) => m.read_ppu(addr),
        }
    }

    fn write_ppu(&mut self, addr: u16, val: u8) -> (r: Result<(), EmuError>) {
        match self {
            AnyMapper::Board0(m) => m.write_ppu(addr, val),
            AnyMapper::Board4(m) => m.write_ppu(addr, val),
        }
    }
}

/// Everything the CPU can reach over the bus, plus the transfer request and
/// the queue of picture-register writes deferred until the picture
/// processor's next advance.
pub struct Chipset<M: Mapper> {
    pub mapper: M,
    pub mem: Memory,
    pub ppu: Ppu,
    pub controller1: Controller,
    pub controller2: Controller,
    pub ppu_dma_requested: bool,
    pub ppu_dma_val: u8,
    pub ppu_writes_requested: Vec<(u16, u8)>,
}

/// The model of the whole bus side of the machine.
pub struct ChipsetView<M: Mapper> {
    pub mapper: M::V,
    pub mem: MemoryView,
    pub ppu: PpuView,
    pub controller1: Controller,
    pub controller2: Controller,
    pub ppu_dma_requested: bool,
    pub ppu_dma_val: u8,
    pub ppu_writes_requested: Seq<(u16, u8)>,
}

impl<M: Mapper> View for Chipset<M> {
    type V = ChipsetView<M>;

    open spec fn view(&self) -> ChipsetView<M> {
        ChipsetView {
            mapper: self.mapper@,
            mem: self.mem@,
            ppu: self.ppu@,
            controller1: self.controller1,
            controller2: self.controller2,
            ppu_dma_requested: self.ppu_dma_requested,
            ppu_dma_val: self.ppu_dma_val,
            ppu_writes_requested: self.ppu_writes_requested@,
        }
    }
}

/// Structural well-formedness of the bus side.
pub open spec fn cs_wf<M: Mapper>(c: ChipsetView<M>) -> bool {
    &&& c.mem.ram.len() == 2048
    &&& ppu_wf(c.ppu)
}

/// One CPU-space read as a single step: the bus afterwards and the byte, or
/// the fault.  Reads of the picture registers act through their side
/// effects at once; reads of the input ports advance the latches; the
/// unimplemented sound range reads zero.
pub open spec fn cs_read_step<M: Mapper>(c: ChipsetView<M>, addr: u16) -> (
    ChipsetView<M>,
    Result<u8, EmuError>,
)
    decreases addr,
{
    if 0x2000 <= addr <= 0x2007 || addr == 0x4014 {
        let (p2, r) = read_main_step::<M>(c.ppu, c.mapper, addr);
        (ChipsetView { ppu: p2, ..c }, r)
    } else if 0x2008 <= addr <= 0x3FFF {
        cs_read_step(c, mirror_spec(0x2000, 0x2007, 0x2008, addr) as u16)
    } else if addr == 0x4016 {
        (
            ChipsetView { controller1: read_next(c.controller1), ..c },
            Ok(read_value(c.controller1)),
        )
    } else if addr == 0x4017 {
        (
            ChipsetView { controller2: read_next(c.controller2), ..c },
            Ok(read_value(c.controller2)),
        )
    } else if 0x4000 <= addr <= 0x4017 {
        (c, Ok(0))
    } else {
        (c, <Memory as Mem<M>>::read_spec(c.mem, c.mapper, addr))
    }
}

/// One CPU-space write as a single step.  Picture-register writes are
/// queued for the picture processor's next advance; a transfer-port write
/// latches the request; an input-port write strobes both latches; sound
/// range writes are dropped.
pub open spec fn cs_write_step<M: Mapper>(c: ChipsetView<M>, addr: u16, val: u8) -> (
    ChipsetView<M>,
    Result<(), EmuError>,
)
    decreases addr,
{
    if 0x2000 <= addr <= 0x2007 {
        (ChipsetView { ppu_writes_requested: c.ppu_writes_requested.push((addr, val)), ..c }, Ok(()))
    } else if 0x2008 <= addr <= 0x3FFF {
        cs_write_step(c, mirror_spec(0x2000, 0x2007, 0x2008, addr) as u16, val)
    } else if addr == 0x4014 {
        (ChipsetView { ppu_dma_requested: true, ppu_dma_val: val, ..c }, Ok(()))
    } else if addr == 0x4016 {
        (
            ChipsetView {
                controller1: controller_write_spec(c.controller1, val),
                controller2: controller_write_spec(c.controller2, val),
                ..c
            },
            Ok(()),
        )
    } else if 0x4000 <= addr <= 0x4017 {
        (c, Ok(()))
    } else {
        match <Memory as Mem<M>>::write_spec(c.mem, c.mapper, addr, val) {
            Ok((m2, mp2)) => (ChipsetView { mem: m2, mapper: mp2, ..c }, Ok(())),
            Err(e) => (c, Err(e)),
        }
    }
}

/// Two consecutive writes as a single step, low byte first.
pub open spec fn cs_write16_step<M: Mapper>(c: ChipsetView<M>, addr: u16, val: u16) -> (
    ChipsetView<M>,
    Result<(), EmuError>,
) {
    let (c1, lo) = cs_write_step(c, addr, (val % 0x100) as u8);
    match lo {
        Ok(_) => cs_write_step(c1, ((addr + 1) % 0x10000) as u16, (val / 0x100) as u8),
        Err(e) => (c1, Err(e)),
    }
}

/// Two consecutive reads assembled little-endian.
pub open spec fn cs_read16_step<M: Mapper>(c: ChipsetView<M>, addr: u16) -> (
    ChipsetView<M>,
    Result<u16, EmuError>,
) {
    let (c1, lo) = cs_read_step(c, addr);
    match lo {
        Ok(l) => {
            let (c2, hi) = cs_read_step(c1, (((addr + 1) % 0x10000) as u16));
            match hi {
                Ok(h) => (c2, Ok((l + h * 0x100) as u16)),
                Err(e) => (c2, Err(e)),
            }
        },
        Err(e) => (c1, Err(e)),
    }
}

impl<M: Mapper> Chipset<M> {
    /// One CPU-space read, with whatever side effects the target has.
    pub fn read(&mut self, addr: u16) -> (r: Result<u8, EmuError>)
        requires
            cs_wf(old(self)@),
            old(self).mapper.inv(),
        ensures
            cs_wf(final(self)@),
            final(self).mapper.inv(),
            (final(self)@, r) == cs_read_step::<M>(old(self)@, addr),
        decreases addr,
    {
        if 0x2000 <= addr && addr <= 0x2007 || addr == 0x4014 {
            self.ppu.read_main(&self.mapper, addr)
        } else if 0x2008 <= addr && addr <= 0x3FFF {
            self.read(mirror_addr(0x2000, 0x2007, 0x2008, addr))
        } else if addr == 0x4016 {
            Ok(self.controller1.read())
        } else if addr == 0x4017 {
            Ok(self.controller2.read())
        } else if 0x4000 <= addr && addr <= 0x4017 {
            Ok(0)
        } else {
            self.mem.read(&self.mapper, addr)
        }
    }

    /// One CPU-space write, with whatever side effects the target has.
    pub fn write(&mut self, addr: u16, val: u8) -> (r: Result<(), EmuError>)
        requires
            cs_wf(old(self)@),
            old(self).mapper.inv(),
        ensures
            cs_wf(final(self)@),
            final(self).mapper.inv(),
            (final(self)@, r) == cs_write_step::<M>(old(self)@, addr, val),
        decreases addr,
    {
        if 0x2000 <= addr && addr <= 0x2007 {
            self.ppu_writes_requested.push((addr, val));
            Ok(())
        } else if 0x2008 <= addr && addr <= 0x3FFF {
            self.write(mirror_addr(0x2000, 0x2007, 0x2008, addr), val)
        } else if addr == 0x4014 {
            self.ppu_dma_requested = true;
            self.ppu_dma_val = val;
            Ok(())
        } else if addr == 0x4016 {
            self.controller1.write(val);
            self.controller2.write(val);
            Ok(())
        } else if 0x4000 <= addr && addr <= 0x4017 {
            Ok(())
        } else {
            self.mem.write(&mut self.mapper, addr, val)
        }
    }

    /// Two consecutive reads assembled little-endian.
    pub fn read16(&mut self, addr: u16) -> (r: Result<u16, EmuError>)
        requires
            cs_wf(old(self)@),
            old(self).mapper.inv(),
        ensures
            cs_wf(final(self)@),
            final(self).mapper.inv(),
            (final(self)@, r) == cs_read16_step::<M>(old(self)@, addr),
    {
        let lo = match self.read(addr) {
            Ok(v) => v,
            Err(e) => {
                return Err(e);
            },
        };
        let hi = match self.read(addr.wrapping_add(1)) {
            Ok(v) => v,
            Err(e) => {
                return Err(e);
            },
        };
        proof {
            assert((lo as u16) + ((hi as u16) << 8) == lo + hi * 0x100) by (bit_vector);
        }
        Ok(lo as u16 + ((hi as u16) << 8))
    }

    /// Two consecutive writes, low byte first.
    pub fn write16(&mut self, addr: u16, val: u16) -> (r: Result<(), EmuError>)
        requires
            cs_wf(old(self)@),
            old(self).mapper.inv(),
        ensures
            cs_wf(final(self)@),
            final(self).mapper.inv(),
            (final(self)@, r) == cs_write16_step::<M>(old(self)@, addr, val),
    {
        proof {
            assert(val & 0x00FF == val % 0x100 && (val & 0xFF00) >> 8 == val / 0x100)
                by (bit_vector);
        }
        let r1 = self.write(addr, (val & 0x00FF) as u8);
        if let Err(e) = r1 {
            return Err(e);
        }
        self.write(addr.wrapping_add(1), ((val & 0xFF00) >> 8) as u8)
    }
}

impl<M: Mapper> Chipset<M> {
    /// Hands every queued picture-register write to the register file in
    /// first-in, first-out order, stamped with the CPU cycle, then empties
    /// the queue.  A faulting write stops the flush and leaves the queue as
    /// it was.
    pub fn flush_writes(&mut self, count: u32) -> (r: Result<(), EmuError>)
        requires
            cs_wf(old(self)@),
            old(self).mapper.inv(),
        ensures
            cs_wf(final(self)@),
            final(self).mapper.inv(),
            ({
                let (p2, mp2, r2) = flush_step::<M>(
                    old(self)@.ppu,
                    old(self)@.mapper,
                    old(self)@.ppu_writes_requested,
                    count,
                );
                &&& r == r2
                &&& final(self)@ == (ChipsetView {
                    ppu: p2,
                    mapper: mp2,
                    ppu_writes_requested: if r2 matches Ok(_) {
                        Seq::<(u16, u8)>::empty()
                    } else {
                        old(self)@.ppu_writes_requested
                    },
                    ..old(self)@
                })
            }),
    {
        let ghost q0 = self.ppu_writes_requested@;
        let ghost p0 = self.ppu@;
        let ghost mp0 = self.mapper@;
        proof {
            assert(q0.skip(0) =~= q0);
        }
        let mut i: usize = 0;
        let n: usize = self.ppu_writes_requested.len();
        while i < n
            invariant
                i <= n,
                n == q0.len(),
                q0 == self.ppu_writes_requested@,
                cs_wf(self@),
                self.mapper.inv(),
                ppu_wf(self@.ppu),
                self@ == (ChipsetView { ppu: self@.ppu, mapper: self@.mapper, ..old(self)@ }),
                flush_step::<M>(p0, mp0, q0, count) == flush_step::<M>(
                    self@.ppu,
                    self@.mapper,
                    q0.skip(i as int),
                    count,
                ),
                p0 == old(self)@.ppu,
                mp0 == old(self)@.mapper,
            decreases n - i,
        {
            let pair: (u16, u8) = self.ppu_writes_requested[i];
            let r = self.ppu.write_main(&mut self.mapper, pair.0, pair.1, count);
            proof {
                assert(q0.skip(i as int).skip(1) =~= q0.skip(i as int + 1));
            }
            if let Err(e) = r {
                return Err(e);
            }
            i = i + 1;
        }
        proof {
            assert(q0.skip(n as int) =~= Seq::<(u16, u8)>::empty());
        }
        self.ppu_writes_requested.clear();
        Ok(())
    }
}

/// The queued picture-register writes applied in order: the picture
/// processor and mapper after the whole queue, or after the first fault.
pub open spec fn flush_step<M: Mapper>(p: PpuView, mp: M::V, q: Seq<(u16, u8)>, count: u32) -> (
    PpuView,
    M::V,
    Result<(), EmuError>,
)
    decreases q.len(),
{
    if q.len() == 0 {
        (p, mp, Ok(()))
    } else {
        let (p1, mp1, r) = write_main_step::<M>(p, mp, q[0].0, q[0].1, count);
        match r {
            Ok(_) => flush_step::<M>(p1, mp1, q.skip(1), count),
            Err(e) => (p1, mp1, Err(e)),
        }
    }
}

/// The machine: the processor and everything it reaches over the bus.
pub struct Nes<M: Mapper> {
    pub cpu: Cpu,
    pub chipset: Chipset<M>,
}

/// The model of the whole machine.
pub struct NesView<M: Mapper> {
    pub cpu: Cpu,
    pub chipset: ChipsetView<M>,
}

impl<M: Mapper> View for Nes<M> {
    type V = NesView<M>;

    open spec fn view(&self) -> NesView<M> {
        NesView { cpu: self.cpu, chipset: self.chipset@ }
    }
}

/// Structural well-formedness of the machine.
pub open spec fn nes_wf<M: Mapper>(n: NesView<M>) -> bool {
    cs_wf(n.chipset)
}

/// The cycle budget of one video frame.
pub const FRAME_CYCLES: u32 = 262 * 341 / 3;

/// Serving what the last instruction left pending: a latched transfer
/// request runs first and its cycles land on the CPU, then the queued
/// picture-register writes flush in order.  Both are done before the next
/// instruction executes, so its reads see them.
pub open spec fn service_step<M: Mapper>(n: NesView<M>) -> (NesView<M>, Result<(), EmuError>) {
    let cs = n.chipset;
    let (p1, cpu1, r1) = if cs.ppu_dma_requested {
        dma_step::<M>(cs.ppu, cs.mem, cs.mapper, cs.ppu_dma_val, n.cpu)
    } else {
        (cs.ppu, n.cpu, Ok(()))
    };
    let cs1 = ChipsetView { ppu: p1, ppu_dma_requested: false, ..cs };
    match r1 {
        Ok(_) => {
            let (p2, mp2, r2) = flush_step::<M>(cs1.ppu, cs1.mapper, cs1.ppu_writes_requested, cpu1.count);
            match r2 {
                Ok(_) => (
                    NesView {
                        cpu: cpu1,
                        chipset: ChipsetView {
                            ppu: p2,
                            mapper: mp2,
                            ppu_writes_requested: Seq::empty(),
                            ..cs1
                        },
                    },
                    Ok(()),
                ),
                Err(e) => (
                    NesView { cpu: cpu1, chipset: ChipsetView { ppu: p2, mapper: mp2, ..cs1 } },
                    Err(e),
                ),
            }
        },
        Err(e) => (NesView { cpu: cpu1, chipset: cs1 }, Err(e)),
    }
}

/// One iteration of the frame driver, in its load-bearing order: pending
/// work is served, one instruction executes, and the picture processor
/// advances to the new cycle.  The first two parts are fixed exactly; the
/// picture advance is fixed by its own step contract.
#[verifier::opaque]
pub open spec fn nes_iter_post<M: Mapper>(
    n0: NesView<M>,
    n1: NesView<M>,
    r: Result<(), EmuError>,
) -> bool {
    let (ns, rs) = service_step::<M>(n0);
    match rs {
        Ok(_) => {
            let (cpu2, cs2, rt) = tick_step::<M>(ns.cpu, ns.chipset);
            match rt {
                Ok(_) => {
                    &&& tick_post::<M>(cs2.ppu, cpu2, cs2.mapper, n1.chipset.ppu, n1.cpu, r)
                    &&& n1.chipset == (ChipsetView { ppu: n1.chipset.ppu, ..cs2 })
                },
                Err(e) => n1 == (NesView { cpu: cpu2, chipset: cs2 }) && r == Err::<(), EmuError>(e),
            }
        },
        Err(e) => n1 == ns && r == Err::<(), EmuError>(e),
    }
}

/// A chain of driver iterations: `trace` starts at `n0`, ends at `n1`, and
/// every consecutive pair is one successful iteration of the driver.
pub open spec fn driver_trace<M: Mapper>(
    n0: NesView<M>,
    n1: NesView<M>,
    trace: Seq<NesView<M>>,
    results: Seq<Result<(), EmuError>>,
) -> bool {
    &&& trace.len() >= 1
    &&& results.len() == trace.len() - 1
    &&& trace[0] == n0
    &&& trace[trace.len() - 1] == n1
    &&& forall|i: int|
        0 <= i < results.len() ==> (#[trigger] nes_iter_post::<M>(trace[i], trace[i + 1], results[i]))
            && results[i] matches Ok(_)
}

/// Whether some chain of successful driver iterations leads from `n0` to
/// `n1`.
pub open spec fn frame_reached<M: Mapper>(n0: NesView<M>, n1: NesView<M>) -> bool {
    exists|trace: Seq<NesView<M>>, results: Seq<Result<(), EmuError>>|
        #[trigger] driver_trace::<M>(n0, n1, trace, results)
}

impl Nes<AnyMapper> {
    /// Builds the machine around the banks a cartridge loader extracted:
    /// the board is chosen by the mapper id (anything unsupported is
    /// rejected here, before any ticking), an absent pattern bank defaults
    /// to 8 KiB of RAM, and execution starts at the reset vector.
    pub fn new(
        prg: Vec<u8>,
        chr: Vec<u8>,
        mapper: u8,
        prg_ram_size: usize,
        horiz_mapping: bool,
    ) -> (r: Result<Nes<AnyMapper>, EmuError>)
        ensures
            mapper != 0 && mapper != 4 ==> r == Err::<Nes<AnyMapper>, EmuError>(
                EmuError::UnsupportedMapper(mapper),
            ),
            r matches Ok(n) ==> {
                let banks = MapperBanks {
                    prg: prg@,
                    prg_ram: Seq::new(prg_ram_size as nat, |i: int| 0u8),
                    chr: if chr@.len() == 0 {
                        Seq::new(8192, |i: int| 0u8)
                    } else {
                        chr@
                    },
                };
                let lo = <AnyMapper as Mapper>::read_spec(n@.chipset.mapper, 0xFFFC);
                let hi = <AnyMapper as Mapper>::read_spec(n@.chipset.mapper, 0xFFFD);
                &&& nes_wf(n@)
                &&& n.chipset.mapper.inv()
                &&& n@.chipset.mapper == (if mapper == 0 {
                    AnyBanks::Board0(banks)
                } else {
                    AnyBanks::Board4(banks)
                })
                &&& lo matches Ok(l) && hi matches Ok(h) && n@.cpu == Cpu::new_spec(
                    (l + h * 0x100) as u16,
                )
                &&& n@.chipset.mem.ram == Seq::new(2048, |i: int| 0u8)
                &&& n@.chipset.ppu == init_ppu_view(horiz_mapping)
                &&& n@.chipset.controller1 == Controller::new_spec()
                &&& n@.chipset.controller2 == Controller::new_spec()
                &&& !n@.chipset.ppu_dma_requested
                &&& n@.chipset.ppu_writes_requested == Seq::<(u16, u8)>::empty()
            },
    {
        let chr_banks: Vec<u8> = if chr.len() == 0 {
            crate::main_memory::alloc_zeroed(8192)
        } else {
            chr
        };
        let board: AnyMapper = if mapper == 0 {
            AnyMapper::Board0(Mapper0::new(prg, prg_ram_size, chr_banks))
        } else if mapper == 4 {
            AnyMapper::Board4(Mapper4::new(prg, prg_ram_size, chr_banks))
        } else {
            return Err(EmuError::UnsupportedMapper(mapper));
        };
        let lo = match board.read(0xFFFC) {
            Ok(v) => v,
            Err(e) => {
                return Err(e);
            },
        };
        let hi = match board.read(0xFFFD) {
            Ok(v) => v,
            Err(e) => {
                return Err(e);
            },
        };
        proof {
            assert((lo as u16) + ((hi as u16) << 8) == lo + hi * 0x100) by (bit_vector);
        }
        let pc: u16 = lo as u16 + ((hi as u16) << 8);
        let n = Nes {
            cpu: Cpu::new(pc),
            chipset: Chipset {
                mapper: board,
                mem: Memory::new(),
                ppu: Ppu::new(horiz_mapping),
                controller1: Controller::new(),
                controller2: Controller::new(),
                ppu_dma_requested: false,
                ppu_dma_val: 0,
                ppu_writes_requested: Vec::new(),
            },
        };
        proof {
            assert(n@.chipset.ppu_writes_requested =~= Seq::<(u16, u8)>::empty());
        }
        Ok(n)
    }
}

impl<M: Mapper> Nes<M> {
    /// One iteration of the frame driver: serve a pending transfer, flush
    /// the queued register writes, execute one instruction, advance the
    /// picture processor.  A successful iteration always moves the cycle
    /// counter forward.
    #[verifier::rlimit(100)]
    #[verifier::spinoff_prover]
    pub fn step(&mut self) -> (r: Result<(), EmuError>)
        requires
            nes_wf(old(self)@),
            old(self).chipset.mapper.inv(),
            old(self).cpu.count <= 0xD000_0000,
        ensures
            nes_wf(final(self)@),
            final(self).chipset.mapper.inv(),
            nes_iter_post::<M>(old(self)@, final(self)@, r),
            old(self).cpu.count <= final(self).cpu.count <= old(self).cpu.count + 600,
            r matches Ok(_) ==> final(self).cpu.count >= old(self).cpu.count + 2,
    {
        proof {
            reveal(nes_iter_post);
        }
        if self.chipset.ppu_dma_requested {
            self.chipset.ppu_dma_requested = false;
            let rd = self.chipset.ppu.ppudma(
                &self.chipset.mapper,
                self.chipset.ppu_dma_val,
                &mut self.cpu,
                &self.chipset.mem,
            );
            if let Err(e) = rd {
                return Err(e);
            }
        }
        let rf = self.chipset.flush_writes(self.cpu.count);
        if let Err(e) = rf {
            return Err(e);
        }
        let rt = self.cpu.tick(&mut self.chipset);
        if let Err(e) = rt {
            return Err(e);
        }
        self.chipset.ppu.tick(&mut self.cpu, &self.chipset.mapper)
    }

    /// Drives one video frame: iterations of the driver until the cycle
    /// counter reaches the frame budget, which is then paid off so the
    /// next frame starts from the remainder.  On success the final state
    /// (before the budget is paid) is reachable from the start by driver
    /// iterations alone.
    #[verifier::rlimit(100)]
    #[verifier::spinoff_prover]
    pub fn tick(&mut self) -> (r: Result<(), EmuError>)
        requires
            nes_wf(old(self)@),
            old(self).chipset.mapper.inv(),
            old(self).cpu.count <= FRAME_CYCLES + 600,
        ensures
            nes_wf(final(self)@),
            final(self).chipset.mapper.inv(),
            r matches Ok(_) ==> final(self).cpu.count < 700,
            r matches Ok(_) ==> frame_reached::<M>(
                old(self)@,
                NesView {
                    cpu: Cpu {
                        count: (final(self).cpu.count + FRAME_CYCLES) as u32,
                        ..final(self).cpu
                    },
                    chipset: final(self)@.chipset,
                },
            ),
    {
        let ghost n0 = self@;
        let ghost mut trace: Seq<NesView<M>> = seq![self@];
        let ghost mut results: Seq<Result<(), EmuError>> = Seq::empty();
        while self.cpu.count < FRAME_CYCLES
            invariant
                nes_wf(self@),
                self.chipset.mapper.inv(),
                self.cpu.count <= FRAME_CYCLES + 600,
                driver_trace::<M>(n0, self@, trace, results),
            decreases FRAME_CYCLES + 600 - self.cpu.count,
        {
            let ghost mid = self@;
            let r = self.step();
            if let Err(e) = r {
                return Err(e);
            }
            proof {
                trace = trace.push(self@);
                results = results.push(r);
                assert(trace[trace.len() - 2] == mid && trace[trace.len() - 1] == self@);
                assert(driver_trace::<M>(n0, self@, trace, results));
            }
        }
        let ghost exit = self@;
        self.cpu = Cpu { count: self.cpu.count - FRAME_CYCLES, ..self.cpu };
        proof {
            assert(exit == (NesView {
                cpu: Cpu { count: (self.cpu.count + FRAME_CYCLES) as u32, ..self.cpu },
                chipset: self@.chipset,
            }));
            assert(frame_reached::<M>(n0, exit)) by {
                assert(driver_trace::<M>(n0, exit, trace, results));
            }
        }
        Ok(())
    }
}

} // verus!
