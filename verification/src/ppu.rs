//! The picture processor: the register file the CPU sees, object attribute
//! memory, the internal video bus with its mirrored regions, the mid-frame
//! register-change log, and the per-frame rasterizer that replays that log
//! into a finished RGBA pixel buffer.

use vstd::prelude::*;
use crate::EmuError;
use crate::mem::{mirror_spec, mirror_addr};
use crate::memory::{Mapper, Mem, Memory, MemoryView};
use crate::cpu::Cpu;

verus! {

/// The scanline on which vertical blanking ends, in the cycle-to-scanline
/// scale used throughout (`count * 3 / 341`).
pub const VBL: u32 = 21;

/// Output geometry: 32 by 30 tiles of 8 by 8 pixels.
pub const FRAME_W: u16 = 256;

pub const FRAME_H: u16 = 240;

/// A snapshot of every render-affecting register, recorded at the cycle it
/// changed so the rasterizer can replay mid-frame effects band by band.
#[derive(Clone, Copy, Debug, PartialEq, Eq, Structural)]
pub struct MidframeState {
    pub count: u32,
    pub nametable: u8,
    pub ppuscroll_x: u8,
    pub ppuscroll_y: u8,
    pub spritetable: u8,
    pub backgroundtable: u8,
    pub sprite_size: u8,
    pub greyscale: bool,
    pub show_background: bool,
    pub show_sprites: bool,
}

/// Every scalar register and latch of the picture processor.  Keeping them
/// in one plain struct lets specifications speak of register states as
/// ordinary values.
#[derive(Clone, Copy, Debug, PartialEq, Eq, Structural)]
pub struct PpuRegs {
    pub horiz_mapping: bool,
    pub oamaddr: u8,
    pub ppuscroll_x: u8,
    pub ppuscroll_y: u8,
    pub ppuscroll_ppuaddr_pick: bool,
    pub ppuaddr_hi: u8,
    pub ppuaddr_lo: u8,
    pub nametable: u8,
    pub vram_inc: u8,
    pub spritetable: u8,
    pub backgroundtable: u8,
    pub sprite_size: u8,
    pub ppu_mss: bool,
    pub generate_nmi: bool,
    pub ppu_chr_rom_delay_buffer: u8,
    pub greyscale: bool,
    pub mask_left_background: bool,
    pub mask_left_sprites: bool,
    pub show_background: bool,
    pub show_sprites: bool,
    pub em_red: bool,
    pub em_green: bool,
    pub em_blue: bool,
    pub sprite_overflow: bool,
    pub sprite_0_hit: bool,
    pub vertical_blanking: bool,
    pub has_blanked: bool,
    pub has_drawn_sprite0_background: bool,
}

pub struct Ppu {
    pub regs: PpuRegs,
    pub vram: Vec<u8>,
    pub palette_ram: Vec<u8>,
    pub oam: Vec<u8>,
    pub frame: Vec<u8>,
    pub sprite_output: Vec<u16>,
    pub bg_output: Vec<u16>,
    pub sprite_priority: Vec<bool>,
    pub pixel_greyscale: Vec<bool>,
    pub states: Vec<MidframeState>,
}

/// The mathematical model of the picture processor: the registers as they
/// stand and each buffer as a sequence.
pub struct PpuView {
    pub regs: PpuRegs,
    pub vram: Seq<u8>,
    pub palette_ram: Seq<u8>,
    pub oam: Seq<u8>,
    pub frame: Seq<u8>,
    pub sprite_output: Seq<u16>,
    pub bg_output: Seq<u16>,
    pub sprite_priority: Seq<bool>,
    pub pixel_greyscale: Seq<bool>,
    pub states: Seq<MidframeState>,
}

impl View for Ppu {
    type V = PpuView;

    open spec fn view(&self) -> PpuView {
        PpuView {
            regs: self.regs,
            vram: self.vram@,
            palette_ram: self.palette_ram@,
            oam: self.oam@,
            frame: self.frame@,
            sprite_output: self.sprite_output@,
            bg_output: self.bg_output@,
            sprite_priority: self.sprite_priority@,
            pixel_greyscale: self.pixel_greyscale@,
            states: self.states@,
        }
    }
}

/// Structural well-formedness of the model: fixed buffer sizes, and the
/// mid-frame log is never empty while rendering is enabled (every path that
/// enables rendering also records a snapshot).
pub open spec fn ppu_wf(p: PpuView) -> bool {
    &&& p.vram.len() == 2048
    &&& p.palette_ram.len() == 32
    &&& p.oam.len() == 256
    &&& p.frame.len() == 256 * 240 * 4
    &&& p.sprite_output.len() == 256 * 240
    &&& p.bg_output.len() == 256 * 240
    &&& p.sprite_priority.len() == 256 * 240
    &&& p.pixel_greyscale.len() == 256 * 240
    &&& (p.regs.show_background || p.regs.show_sprites ==> p.states.len() >= 1)
}

/// Where an address on the picture processor's own bus lands once every
/// mirror is folded away: a pattern-table address served by the mapper, an
/// index into the 2 KiB of video RAM, or a palette entry.
#[derive(Clone, Copy, Debug, PartialEq, Eq, Structural)]
pub enum PpuTarget {
    Pattern(u16),
    Vram(usize),
    Palette(usize),
}

/// Resolves a video-bus address.  Pattern tables belong to the mapper; the
/// four name tables fold onto 2 KiB of video RAM according to the
/// cartridge's mirroring; the palette sits at `0x3F00` with its four shadow
/// entries; and the whole map repeats past `0x3FFF`.
#[verifier::opaque]
pub open spec fn ppu_target_spec(horiz_mapping: bool, addr: u16) -> PpuTarget
    decreases addr,
{
    if addr <= 0x1FFF {
        PpuTarget::Pattern(addr)
    } else if addr <= 0x23FF {
        PpuTarget::Vram((addr - 0x2000) as usize)
    } else if addr <= 0x27FF {
        PpuTarget::Vram(
            if horiz_mapping {
                (addr - 0x2400) as usize
            } else {
                (addr - 0x2000) as usize
            },
        )
    } else if addr <= 0x2BFF {
        PpuTarget::Vram(
            if horiz_mapping {
                (addr - 0x2400) as usize
            } else {
                (addr - 0x2800) as usize
            },
        )
    } else if addr <= 0x2FFF {
        PpuTarget::Vram((addr - 0x2800) as usize)
    } else if addr <= 0x3EFF {
        ppu_target_spec(horiz_mapping, mirror_spec(0x2000, 0x2FFF, 0x3000, addr) as u16)
    } else if addr == 0x3F10 || addr == 0x3F14 || addr == 0x3F18 || addr == 0x3F1C {
        ppu_target_spec(horiz_mapping, (addr - 0x10) as u16)
    } else if addr <= 0x3F1F {
        PpuTarget::Palette((addr - 0x3F00) as usize)
    } else if addr <= 0x3FFF {
        ppu_target_spec(horiz_mapping, mirror_spec(0x3F00, 0x3F1F, 0x3F20, addr) as u16)
    } else {
        ppu_target_spec(horiz_mapping, mirror_spec(0x0000, 0x3FFF, 0x4000, addr) as u16)
    }
}

/// A resolved target stays inside its buffer (for the fixed buffer sizes)
/// and inside pattern space.
pub open spec fn target_in_bounds(t: PpuTarget) -> bool {
    match t {
        PpuTarget::Pattern(a) => a <= 0x1FFF,
        PpuTarget::Vram(i) => i < 2048,
        PpuTarget::Palette(i) => i < 32,
    }
}

/// Whether the cartridge answers every pattern-table read: the one
/// condition under which the video bus itself can fault.
pub open spec fn pattern_reads_total<M: Mapper>(mp: M::V) -> bool {
    forall|a: u16| a <= 0x1FFF ==> (#[trigger] M::read_ppu_spec(mp, a)) matches Ok(_)
}

/// Every resolved target is in bounds.
pub proof fn lemma_target_bounds(horiz_mapping: bool, addr: u16)
    ensures
        target_in_bounds(ppu_target_spec(horiz_mapping, addr)),
    decreases addr,
{
    reveal(ppu_target_spec);
    if addr <= 0x2FFF {
    } else if addr <= 0x3EFF {
        lemma_target_bounds(horiz_mapping, mirror_spec(0x2000, 0x2FFF, 0x3000, addr) as u16);
    } else if addr == 0x3F10 || addr == 0x3F14 || addr == 0x3F18 || addr == 0x3F1C {
        lemma_target_bounds(horiz_mapping, (addr - 0x10) as u16);
    } else if addr <= 0x3F1F {
    } else if addr <= 0x3FFF {
        lemma_target_bounds(horiz_mapping, mirror_spec(0x3F00, 0x3F1F, 0x3F20, addr) as u16);
    } else {
        lemma_target_bounds(horiz_mapping, mirror_spec(0x0000, 0x3FFF, 0x4000, addr) as u16);
    }
}

/// While the cartridge answers its pattern space, no read of the video bus
/// can fault: everything else it serves is plain video or palette RAM.
pub proof fn lemma_ppu_read_total<M: Mapper>(p: PpuView, mp: M::V, addr: u16)
    requires
        pattern_reads_total::<M>(mp),
    ensures
        ppu_read_spec::<M>(p, mp, addr) matches Ok(_),
{
    lemma_target_bounds(p.regs.horiz_mapping, addr);
}

/// The model with one video-RAM cell replaced.
pub open spec fn with_vram(p: PpuView, i: int, val: u8) -> PpuView {
    PpuView { vram: p.vram.update(i, val), ..p }
}

/// The model with one palette entry replaced.
pub open spec fn with_palette(p: PpuView, i: int, val: u8) -> PpuView {
    PpuView { palette_ram: p.palette_ram.update(i, val), ..p }
}

/// A read of the picture processor's own bus.
pub open spec fn ppu_read_spec<M: Mapper>(p: PpuView, mp: M::V, addr: u16) -> Result<u8, EmuError> {
    match ppu_target_spec(p.regs.horiz_mapping, addr) {
        PpuTarget::Pattern(a) => M::read_ppu_spec(mp, a),
        PpuTarget::Vram(i) => Ok(p.vram[i as int]),
        PpuTarget::Palette(i) => Ok(p.palette_ram[i as int]),
    }
}

/// A write to the picture processor's own bus, routed exactly as reads are.
pub open spec fn ppu_write_spec<M: Mapper>(p: PpuView, mp: M::V, addr: u16, val: u8) -> Result<
    (PpuView, M::V),
    EmuError,
> {
    match ppu_target_spec(p.regs.horiz_mapping, addr) {
        PpuTarget::Pattern(a) => match M::write_ppu_spec(mp, a, val) {
            Ok(mp2) => Ok((p, mp2)),
            Err(e) => Err(e),
        },
        PpuTarget::Vram(i) => Ok((with_vram(p, i as int, val), mp)),
        PpuTarget::Palette(i) => Ok((with_palette(p, i as int, val), mp)),
    }
}

/// Folds every mirror of the video bus away, leaving the canonical target.
pub fn ppu_target(horiz_mapping: bool, addr: u16) -> (t: PpuTarget)
    ensures
        t == ppu_target_spec(horiz_mapping, addr),
        target_in_bounds(t),
    decreases addr,
{
    proof {
        reveal(ppu_target_spec);
    }
    if addr <= 0x1FFF {
        PpuTarget::Pattern(addr)
    } else if addr <= 0x23FF {
        PpuTarget::Vram((addr - 0x2000) as usize)
    } else if addr <= 0x27FF {
        if horiz_mapping {
            PpuTarget::Vram((addr - 0x2400) as usize)
        } else {
            PpuTarget::Vram((addr - 0x2000) as usize)
        }
    } else if addr <= 0x2BFF {
        if horiz_mapping {
            PpuTarget::Vram((addr - 0x2400) as usize)
        } else {
            PpuTarget::Vram((addr - 0x2800) as usize)
        }
    } else if addr <= 0x2FFF {
        PpuTarget::Vram((addr - 0x2800) as usize)
    } else if addr <= 0x3EFF {
        ppu_target(horiz_mapping, mirror_addr(0x2000, 0x2FFF, 0x3000, addr))
    } else if addr == 0x3F10 || addr == 0x3F14 || addr == 0x3F18 || addr == 0x3F1C {
        ppu_target(horiz_mapping, addr - 0x10)
    } else if 0x3F00 <= addr && addr <= 0x3F1F {
        PpuTarget::Palette((addr - 0x3F00) as usize)
    } else if addr <= 0x3FFF {
        ppu_target(horiz_mapping, mirror_addr(0x3F00, 0x3F1F, 0x3F20, addr))
    } else {
        ppu_target(horiz_mapping, mirror_addr(0x0000, 0x3FFF, 0x4000, addr))
    }
}

impl<M: Mapper> Mem<M> for Ppu {
    open spec fn inv(&self) -> bool {
        ppu_wf(self@)
    }

    open spec fn read_spec(p: PpuView, mp: M::V, addr: u16) -> Result<u8, EmuError> {
        ppu_read_spec::<M>(p, mp, addr)
    }

    open spec fn write_spec(p: PpuView, mp: M::V, addr: u16, val: u8) -> Result<
        (PpuView, M::V),
        EmuError,
    > {
        ppu_write_spec::<M>(p, mp, addr, val)
    }

    fn read(&self, mapper: &M, addr: u16) -> (r: Result<u8, EmuError>) {
        match ppu_target(self.regs.horiz_mapping, addr) {
            PpuTarget::Pattern(a) => mapper.read_ppu(a),
            PpuTarget::Vram(i) => Ok(self.vram[i]),
            PpuTarget::Palette(i) => Ok(self.palette_ram[i]),
        }
    }

    fn write(&mut self, mapper: &mut M, addr: u16, val: u8) -> (r: Result<(), EmuError>) {
        match ppu_target(self.regs.horiz_mapping, addr) {
            PpuTarget::Pattern(a) => mapper.write_ppu(a, val),
            PpuTarget::Vram(i) => {
                self.vram[i] = val;
                Ok(())
            },
            PpuTarget::Palette(i) => {
                self.palette_ram[i] = val;
                Ok(())
            },
        }
    }
}

/// The 16-bit video address held in the two pointer bytes.
#[verifier::opaque]
pub open spec fn ppuaddr_spec(r: PpuRegs) -> u16 {
    (r.ppuaddr_lo + r.ppuaddr_hi * 0x100) as u16
}

/// The video address after one data-port access: forward by 1 (across) or
/// by 32 (down), wrapping at the top of the address space.
#[verifier::opaque]
pub open spec fn next_ppuaddr(r: PpuRegs) -> u16 {
    let step: u16 = if r.vram_inc == 0 {
        1
    } else {
        32
    };
    ((ppuaddr_spec(r) + step) % 0x10000) as u16
}

/// The registers after one data-port access: only the two pointer bytes
/// move, to the split halves of the stepped address.
pub open spec fn increment_ppuaddr_spec(r: PpuRegs) -> PpuRegs {
    PpuRegs {
        ppuaddr_lo: (next_ppuaddr(r) % 0x100) as u8,
        ppuaddr_hi: (next_ppuaddr(r) / 0x100) as u8,
        ..r
    }
}

/// The status byte handed out at `0x2002`: vertical blank, sprite-zero hit
/// and sprite overflow in the top three bits.
pub open spec fn status_byte_spec(r: PpuRegs) -> u8 {
    ((if r.vertical_blanking {
        0x80u8
    } else {
        0u8
    }) + (if r.sprite_0_hit {
        0x40u8
    } else {
        0u8
    }) + (if r.sprite_overflow {
        0x20u8
    } else {
        0u8
    })) as u8
}

/// The registers after the status register is read: the vertical-blank flag
/// and the shared scroll/address write-toggle both clear.
pub open spec fn status_read_spec(r: PpuRegs) -> PpuRegs {
    PpuRegs { vertical_blanking: false, ppuscroll_ppuaddr_pick: false, ..r }
}

/// The registers after a control-register write: name-table select, address
/// increment direction, pattern-table selects, sprite size and the
/// interrupt enable.
pub open spec fn ctrl_write_spec(r: PpuRegs, val: u8) -> PpuRegs {
    PpuRegs {
        nametable: val & 0b00000011,
        vram_inc: (val & 0b00000100) >> 2,
        spritetable: (val & 0b00001000) >> 3,
        backgroundtable: (val & 0b00010000) >> 4,
        sprite_size: (val & 0b00100000) >> 5,
        ppu_mss: val & 0b01000000 > 0,
        generate_nmi: val & 0b10000000 > 0,
        ..r
    }
}

/// The registers after a mask-register write: the six render-control bits
/// and the emphasis bits.
pub open spec fn mask_write_spec(r: PpuRegs, val: u8) -> PpuRegs {
    PpuRegs {
        greyscale: val & 0b00000001 > 0,
        mask_left_background: val & 0b00000010 > 0,
        mask_left_sprites: val & 0b00000100 > 0,
        show_background: val & 0b00001000 > 0,
        show_sprites: val & 0b00010000 > 0,
        em_red: val & 0b00100000 > 0,
        em_green: val & 0b01000000 > 0,
        em_blue: val & 0b10000000 > 0,
        ..r
    }
}

/// The registers after a scroll-register write: the shared write-toggle
/// picks the axis and then flips.
pub open spec fn scroll_write_spec(r: PpuRegs, val: u8) -> PpuRegs {
    if r.ppuscroll_ppuaddr_pick {
        PpuRegs { ppuscroll_y: val, ppuscroll_ppuaddr_pick: false, ..r }
    } else {
        PpuRegs { ppuscroll_x: val, ppuscroll_ppuaddr_pick: true, ..r }
    }
}

/// The registers after a video-address write: the shared write-toggle picks
/// the byte and then flips; a low-byte write re-derives the name-table
/// select bits from the high byte already latched.
pub open spec fn addr_write_spec(r: PpuRegs, val: u8) -> PpuRegs {
    if r.ppuscroll_ppuaddr_pick {
        PpuRegs {
            ppuaddr_lo: val,
            nametable: (r.ppuaddr_hi & 0b00001100) >> 2,
            ppuscroll_ppuaddr_pick: false,
            ..r
        }
    } else {
        PpuRegs { ppuaddr_hi: val, ppuscroll_ppuaddr_pick: true, ..r }
    }
}

/// The render-affecting registers as they stand, stamped with the cycle.
pub open spec fn make_midframe_spec(r: PpuRegs, count: u32) -> MidframeState {
    MidframeState {
        count,
        nametable: r.nametable,
        ppuscroll_x: r.ppuscroll_x,
        ppuscroll_y: r.ppuscroll_y,
        spritetable: r.spritetable,
        backgroundtable: r.backgroundtable,
        sprite_size: r.sprite_size,
        greyscale: r.greyscale,
        show_background: r.show_background,
        show_sprites: r.show_sprites,
    }
}

/// One status-register read as a single step: the registers afterwards and
/// the byte returned.
pub open spec fn status_read_step(r: PpuRegs) -> (PpuRegs, u8) {
    (status_read_spec(r), status_byte_spec(r))
}

impl PpuRegs {
    /// A read of the status register, with its side effects on the
    /// vertical-blank flag and the shared write-toggle.
    #[verifier::rlimit(30)]
    fn read_status(&mut self) -> (r: u8)
        ensures
            (*final(self), r) == status_read_step(*old(self)),
    {
        let blanking = self.vertical_blanking;
        self.vertical_blanking = false;
        self.ppuscroll_ppuaddr_pick = false;
        (if blanking {
            0x80u8
        } else {
            0u8
        }) + (if self.sprite_0_hit {
            0x40u8
        } else {
            0u8
        }) + (if self.sprite_overflow {
            0x20u8
        } else {
            0u8
        })
    }

    /// The 16-bit video address currently held in the pointer bytes.
    fn ppuaddr(&self) -> (a: u16)
        ensures
            a == ppuaddr_spec(*self),
    {
        proof {
            reveal(ppuaddr_spec);
        }
        let lo: u8 = self.ppuaddr_lo;
        let hi: u8 = self.ppuaddr_hi;
        proof {
            assert(((lo as u16) & 0x00FF) + (((hi as u16) & 0xFF) << 8) == lo + hi * 0x100)
                by (bit_vector);
        }
        ((lo as u16) & 0x00FF) + (((hi as u16) & 0xFF) << 8)
    }

    /// Advances the video address pointer after a data-port access.
    #[verifier::rlimit(100)]
    #[verifier::spinoff_prover]
    fn increment_ppuaddr(&mut self)
        ensures
            *final(self) == increment_ppuaddr_spec(*old(self)),
    {
        proof {
            reveal(next_ppuaddr);
        }
        let addr: u16 = self.ppuaddr();
        let step: u16 = if self.vram_inc == 0 {
            1
        } else {
            32
        };
        let a: u16 = addr.wrapping_add(step);
        proof {
            assert(a == (addr + step) % 0x10000 ==> (a & 0x00FF) == ((addr + step) % 0x10000)
                % 0x100 && ((a & 0xFF00) >> 8) == ((addr + step) % 0x10000) / 0x100)
                by (bit_vector);
            assert(a == (addr + step) % 0x10000);
        }
        self.ppuaddr_lo = (a & 0x00FF) as u8;
        self.ppuaddr_hi = ((a & 0xFF00) >> 8) as u8;
    }

    fn write_ctrl(&mut self, val: u8)
        ensures
            *final(self) == ctrl_write_spec(*old(self), val),
    {
        self.nametable = val & 0b00000011;
        self.vram_inc = (val & 0b00000100) >> 2;
        self.spritetable = (val & 0b00001000) >> 3;
        self.backgroundtable = (val & 0b00010000) >> 4;
        self.sprite_size = (val & 0b00100000) >> 5;
        self.ppu_mss = val & 0b01000000 > 0;
        self.generate_nmi = val & 0b10000000 > 0;
    }

    fn write_mask(&mut self, val: u8)
        ensures
            *final(self) == mask_write_spec(*old(self), val),
    {
        self.greyscale = val & 0b00000001 > 0;
        self.mask_left_background = val & 0b00000010 > 0;
        self.mask_left_sprites = val & 0b00000100 > 0;
        self.show_background = val & 0b00001000 > 0;
        self.show_sprites = val & 0b00010000 > 0;
        self.em_red = val & 0b00100000 > 0;
        self.em_green = val & 0b01000000 > 0;
        self.em_blue = val & 0b10000000 > 0;
    }

    fn write_scroll(&mut self, val: u8)
        ensures
            *final(self) == scroll_write_spec(*old(self), val),
    {
        if self.ppuscroll_ppuaddr_pick {
            self.ppuscroll_y = val;
        } else {
            self.ppuscroll_x = val;
        }
        self.ppuscroll_ppuaddr_pick = !self.ppuscroll_ppuaddr_pick;
    }

    fn write_addr(&mut self, val: u8)
        ensures
            *final(self) == addr_write_spec(*old(self), val),
    {
        if self.ppuscroll_ppuaddr_pick {
            self.nametable = (self.ppuaddr_hi & 0b00001100) >> 2;
            self.ppuaddr_lo = val;
        } else {
            self.ppuaddr_hi = val;
        }
        self.ppuscroll_ppuaddr_pick = !self.ppuscroll_ppuaddr_pick;
    }
}

/// The model after a snapshot is appended to the mid-frame log.
pub open spec fn push_state_spec(p: PpuView, count: u32) -> PpuView {
    PpuView { states: p.states.push(make_midframe_spec(p.regs, count)), ..p }
}

/// The model with its registers replaced.
pub open spec fn with_regs(p: PpuView, r: PpuRegs) -> PpuView {
    PpuView { regs: r, ..p }
}

/// The model after a write to the object attribute data port: the byte
/// lands at the current attribute address, which then advances with wrap.
pub open spec fn oam_write_spec(p: PpuView, val: u8) -> PpuView {
    PpuView {
        oam: p.oam.update(p.regs.oamaddr as int, val),
        regs: PpuRegs { oamaddr: ((p.regs.oamaddr + 1) % 256) as u8, ..p.regs },
        ..p
    }
}

/// One read of the video data port as a single step: the model afterwards
/// and the byte handed back, or the fault.  A pattern-table read answers
/// with the latched byte from the previous such read and refills the latch.
pub open spec fn data_read_step<M: Mapper>(p: PpuView, mp: M::V) -> (PpuView, Result<
    u8,
    EmuError,
>) {
    let a = ppuaddr_spec(p.regs);
    match ppu_target_spec(p.regs.horiz_mapping, a) {
        PpuTarget::Pattern(pa) => match M::read_ppu_spec(mp, pa) {
            Ok(v) => (
                with_regs(
                    p,
                    increment_ppuaddr_spec(PpuRegs { ppu_chr_rom_delay_buffer: v, ..p.regs }),
                ),
                Ok(p.regs.ppu_chr_rom_delay_buffer),
            ),
            Err(e) => (p, Err(e)),
        },
        PpuTarget::Vram(i) => (with_regs(p, increment_ppuaddr_spec(p.regs)), Ok(p.vram[i as int])),
        PpuTarget::Palette(i) => (
            with_regs(p, increment_ppuaddr_spec(p.regs)),
            Ok(p.palette_ram[i as int]),
        ),
    }
}

/// A CPU read of the register file, as a single step: the model afterwards
/// and what the read returned.  Only the status register, the object
/// attribute data port and the video data port are readable; the data port
/// answers pattern-table reads one access late, through the internal latch.
/// A faulting read leaves the model unchanged.
pub open spec fn read_main_step<M: Mapper>(p: PpuView, mp: M::V, addr: u16) -> (PpuView, Result<
    u8,
    EmuError,
>) {
    if addr == 0x2002 {
        (with_regs(p, status_read_spec(p.regs)), Ok(status_byte_spec(p.regs)))
    } else if addr == 0x2004 {
        (p, Ok(p.oam[p.regs.oamaddr as int]))
    } else if addr == 0x2007 {
        data_read_step::<M>(p, mp)
    } else {
        (p, Err(EmuError::BusFault(addr)))
    }
}

/// One write of the video data port as a single step.
pub open spec fn data_write_step<M: Mapper>(p: PpuView, mp: M::V, val: u8) -> (
    PpuView,
    M::V,
    Result<(), EmuError>,
) {
    match ppu_write_spec::<M>(p, mp, ppuaddr_spec(p.regs), val) {
        Ok((p2, mp2)) => (with_regs(p2, increment_ppuaddr_spec(p2.regs)), mp2, Ok(())),
        Err(e) => (p, mp, Err(e)),
    }
}

/// The model after a control-register write and its snapshot.
pub open spec fn ctrl_main_step(p: PpuView, val: u8, count: u32) -> PpuView {
    push_state_spec(with_regs(p, ctrl_write_spec(p.regs, val)), count)
}

/// The model after a mask-register write and its snapshot.
pub open spec fn mask_main_step(p: PpuView, val: u8, count: u32) -> PpuView {
    push_state_spec(with_regs(p, mask_write_spec(p.regs, val)), count)
}

/// The model after a write to the attribute address register.
pub open spec fn oamaddr_main_step(p: PpuView, val: u8) -> PpuView {
    with_regs(p, PpuRegs { oamaddr: val, ..p.regs })
}

/// The model after a scroll write: a horizontal (first) write records a
/// snapshot, a vertical (second) one does not.
pub open spec fn scroll_main_step(p: PpuView, val: u8, count: u32) -> PpuView {
    let p2 = with_regs(p, scroll_write_spec(p.regs, val));
    if p.regs.ppuscroll_ppuaddr_pick {
        p2
    } else {
        push_state_spec(p2, count)
    }
}

/// The model after a video-address write: a low-byte write records a
/// snapshot when it changes the name-table select.
pub open spec fn addr_main_step(p: PpuView, val: u8, count: u32) -> PpuView {
    let p2 = with_regs(p, addr_write_spec(p.regs, val));
    if p.regs.ppuscroll_ppuaddr_pick && p2.regs.nametable != p.regs.nametable {
        push_state_spec(p2, count)
    } else {
        p2
    }
}

/// A CPU write to the register file at `addr`, stamped with the CPU cycle
/// for the mid-frame log, as a single step: the model and mapper afterwards
/// and the outcome.  Control, mask and horizontal-scroll writes are
/// render-affecting and record a snapshot; a low address-byte write records
/// one only when it changes the name-table select.  A faulting write leaves
/// both models unchanged.
pub open spec fn write_main_step<M: Mapper>(
    p: PpuView,
    mp: M::V,
    addr: u16,
    val: u8,
    count: u32,
) -> (PpuView, M::V, Result<(), EmuError>) {
    if addr == 0x2000 {
        (ctrl_main_step(p, val, count), mp, Ok(()))
    } else if addr == 0x2001 {
        (mask_main_step(p, val, count), mp, Ok(()))
    } else if addr == 0x2003 {
        (oamaddr_main_step(p, val), mp, Ok(()))
    } else if addr == 0x2004 {
        (oam_write_spec(p, val), mp, Ok(()))
    } else if addr == 0x2005 {
        (scroll_main_step(p, val, count), mp, Ok(()))
    } else if addr == 0x2006 {
        (addr_main_step(p, val, count), mp, Ok(()))
    } else if addr == 0x2007 {
        data_write_step::<M>(p, mp, val)
    } else {
        (p, mp, Err(EmuError::BusFault(addr)))
    }
}

impl Ppu {
    /// Records a mid-frame snapshot of the render-affecting registers.
    pub fn push_state(&mut self, count: u32)
        ensures
            final(self)@ == push_state_spec(old(self)@, count),
    {
        let state = MidframeState {
            count,
            nametable: self.regs.nametable,
            ppuscroll_x: self.regs.ppuscroll_x,
            ppuscroll_y: self.regs.ppuscroll_y,
            spritetable: self.regs.spritetable,
            backgroundtable: self.regs.backgroundtable,
            sprite_size: self.regs.sprite_size,
            greyscale: self.regs.greyscale,
            show_background: self.regs.show_background,
            show_sprites: self.regs.show_sprites,
        };
        self.states.push(state);
    }

    /// A read of the video data port, honoring the pattern-read latch.
    #[verifier::rlimit(100)]
    #[verifier::spinoff_prover]
    fn read_data<M: Mapper>(&mut self, mapper: &M) -> (r: Result<u8, EmuError>)
        requires
            ppu_wf(old(self)@),
            mapper.inv(),
        ensures
            (final(self)@, r) == data_read_step::<M>(old(self)@, mapper@),
    {
        let mut regs: PpuRegs = self.regs;
        let a: u16 = regs.ppuaddr();
        match ppu_target(regs.horiz_mapping, a) {
            PpuTarget::Pattern(pa) => match mapper.read_ppu(pa) {
                Ok(v) => {
                    let out = regs.ppu_chr_rom_delay_buffer;
                    regs.ppu_chr_rom_delay_buffer = v;
                    regs.increment_ppuaddr();
                    self.regs = regs;
                    Ok(out)
                },
                Err(e) => Err(e),
            },
            PpuTarget::Vram(i) => {
                let out = self.vram[i];
                regs.increment_ppuaddr();
                self.regs = regs;
                Ok(out)
            },
            PpuTarget::Palette(i) => {
                let out = self.palette_ram[i];
                regs.increment_ppuaddr();
                self.regs = regs;
                Ok(out)
            },
        }
    }

    /// A CPU read of the register file.
    pub fn read_main<M: Mapper>(&mut self, mapper: &M, addr: u16) -> (r: Result<u8, EmuError>)
        requires
            ppu_wf(old(self)@),
            mapper.inv(),
        ensures
            ppu_wf(final(self)@),
            (final(self)@, r) == read_main_step::<M>(old(self)@, mapper@, addr),
    {
        if addr == 0x2002 {
            Ok(self.regs.read_status())
        } else if addr == 0x2004 {
            Ok(self.oam[self.regs.oamaddr as usize])
        } else if addr == 0x2007 {
            self.read_data(mapper)
        } else {
            Err(EmuError::BusFault(addr))
        }
    }

    /// A write to the object attribute data port.
    #[verifier::rlimit(100)]
    #[verifier::spinoff_prover]
    fn write_oam_data(&mut self, val: u8)
        requires
            old(self).oam@.len() == 256,
        ensures
            final(self)@ == oam_write_spec(old(self)@, val),
            ppu_wf(old(self)@) ==> ppu_wf(final(self)@),
    {
        let i: usize = self.regs.oamaddr as usize;
        self.oam[i] = val;
        self.regs = PpuRegs { oamaddr: self.regs.oamaddr.wrapping_add(1), ..self.regs };
    }

    /// A write to the video data port.
    fn write_data<M: Mapper>(&mut self, mapper: &mut M, val: u8) -> (r: Result<(), EmuError>)
        requires
            ppu_wf(old(self)@),
            old(mapper).inv(),
        ensures
            final(mapper).inv(),
            ppu_wf(final(self)@),
            (final(self)@, final(mapper)@, r) == data_write_step::<M>(old(self)@, old(mapper)@, val),
    {
        let a: u16 = self.regs.ppuaddr();
        let r = <Ppu as Mem<M>>::write(self, mapper, a, val);
        match r {
            Ok(()) => {
                self.regs.increment_ppuaddr();
                Ok(())
            },
            Err(e) => Err(e),
        }
    }

    /// A CPU write to the register file.
    #[verifier::rlimit(100)]
    #[verifier::spinoff_prover]
    pub fn write_main<M: Mapper>(
        &mut self,
        mapper: &mut M,
        addr: u16,
        val: u8,
        count: u32,
    ) -> (r: Result<(), EmuError>)
        requires
            ppu_wf(old(self)@),
            old(mapper).inv(),
        ensures
            ppu_wf(final(self)@),
            final(mapper).inv(),
            (final(self)@, final(mapper)@, r) == write_main_step::<M>(
                old(self)@,
                old(mapper)@,
                addr,
                val,
                count,
            ),
    {
        if addr == 0x2000 {
            self.ctrl_main(val, count);
            Ok(())
        } else if addr == 0x2001 {
            self.mask_main(val, count);
            Ok(())
        } else if addr == 0x2003 {
            self.oamaddr_main(val);
            Ok(())
        } else if addr == 0x2004 {
            self.write_oam_data(val);
            Ok(())
        } else if addr == 0x2005 {
            self.scroll_main(val, count);
            Ok(())
        } else if addr == 0x2006 {
            self.addr_main(val, count);
            Ok(())
        } else if addr == 0x2007 {
            self.write_data(mapper, val)
        } else {
            Err(EmuError::BusFault(addr))
        }
    }

    /// The control-register write with its snapshot.
    fn ctrl_main(&mut self, val: u8, count: u32)
        ensures
            final(self)@ == ctrl_main_step(old(self)@, val, count),
            ppu_wf(old(self)@) ==> ppu_wf(final(self)@),
    {
        self.regs.write_ctrl(val);
        self.push_state(count);
    }

    /// The mask-register write with its snapshot.
    fn mask_main(&mut self, val: u8, count: u32)
        ensures
            final(self)@ == mask_main_step(old(self)@, val, count),
            ppu_wf(old(self)@) ==> ppu_wf(final(self)@),
    {
        self.regs.write_mask(val);
        self.push_state(count);
    }

    /// The attribute-address write.
    fn oamaddr_main(&mut self, val: u8)
        ensures
            final(self)@ == oamaddr_main_step(old(self)@, val),
            ppu_wf(old(self)@) ==> ppu_wf(final(self)@),
    {
        self.regs = PpuRegs { oamaddr: val, ..self.regs };
    }

    /// The scroll write, with a snapshot on the horizontal half.
    fn scroll_main(&mut self, val: u8, count: u32)
        ensures
            final(self)@ == scroll_main_step(old(self)@, val, count),
            ppu_wf(old(self)@) ==> ppu_wf(final(self)@),
    {
        let push = !self.regs.ppuscroll_ppuaddr_pick;
        self.regs.write_scroll(val);
        if push {
            self.push_state(count);
        }
    }

    /// The video-address write, with a snapshot when the name-table select
    /// changes.
    fn addr_main(&mut self, val: u8, count: u32)
        ensures
            final(self)@ == addr_main_step(old(self)@, val, count),
            ppu_wf(old(self)@) ==> ppu_wf(final(self)@),
    {
        let old_nt: u8 = self.regs.nametable;
        let pick = self.regs.ppuscroll_ppuaddr_pick;
        self.regs.write_addr(val);
        if pick && self.regs.nametable != old_nt {
            self.push_state(count);
        }
    }

}

impl Ppu {
    fn set_bg(&mut self, i: usize, v: u16)
        requires
            i < old(self).bg_output@.len(),
        ensures
            final(self)@ == (PpuView { bg_output: old(self)@.bg_output.update(i as int, v), ..old(self)@ }),
    {
        self.bg_output[i] = v;
    }

    fn set_grey(&mut self, i: usize, v: bool)
        requires
            i < old(self).pixel_greyscale@.len(),
        ensures
            final(self)@ == (PpuView {
                pixel_greyscale: old(self)@.pixel_greyscale.update(i as int, v),
                ..old(self)@
            }),
    {
        self.pixel_greyscale[i] = v;
    }

    fn set_sprite(&mut self, i: usize, v: u16)
        requires
            i < old(self).sprite_output@.len(),
        ensures
            final(self)@ == (PpuView {
                sprite_output: old(self)@.sprite_output.update(i as int, v),
                ..old(self)@
            }),
    {
        self.sprite_output[i] = v;
    }

    fn set_prio(&mut self, i: usize, v: bool)
        requires
            i < old(self).sprite_priority@.len(),
        ensures
            final(self)@ == (PpuView {
                sprite_priority: old(self)@.sprite_priority.update(i as int, v),
                ..old(self)@
            }),
    {
        self.sprite_priority[i] = v;
    }
}

/// One in-band write to an empty sprite cell preserves the band clipping
/// and the first-write-wins discipline.
proof fn lemma_sprite_write_layer(
    base: PpuView,
    pre: PpuView,
    post: PpuView,
    cell: int,
    real_x: u16,
    real_y: u16,
    start_y: u16,
    end_y: u16,
    val: u16,
    prio: bool,
)
    requires
        post == (PpuView {
            sprite_output: pre.sprite_output.update(cell, val),
            sprite_priority: pre.sprite_priority.update(cell, prio),
            ..pre
        }),
        0 <= cell < 61440,
        cell == real_x * 240 + real_y,
        real_x <= 255,
        start_y <= real_y <= end_y <= 239,
        pre.sprite_output[cell] == 0,
        pre.sprite_output.len() == 61440,
        pre.sprite_priority.len() == 61440,
        base.sprite_output.len() == 61440,
        base.sprite_priority.len() == 61440,
        band_clipped(base, pre, start_y, end_y),
        sprite_first_wins(base, pre),
    ensures
        band_clipped(base, post, start_y, end_y),
        sprite_first_wins(base, post),
{
    if base.sprite_output[cell] != 0 {
        assert(pre.sprite_output[cell] == base.sprite_output[cell]);
    }
    assert(base.sprite_output[cell] == 0);
    assert(cell % 240 == real_y) by (nonlinear_arith)
        requires
            cell == real_x * 240 + real_y,
            0 <= real_y < 240,
            real_x >= 0,
    ;
    assert forall|c2: int|
        0 <= c2 < 61440 && base.sprite_output[c2] != 0 implies post.sprite_output[c2]
        == base.sprite_output[c2] && post.sprite_priority[c2] == base.sprite_priority[c2] by {
        assert(c2 != cell);
    }
    assert forall|c2: int|
        0 <= c2 < 61440 && !(start_y <= c2 % 240 <= end_y) implies post.bg_output[c2]
        == base.bg_output[c2] && post.pixel_greyscale[c2] == base.pixel_greyscale[c2]
        && post.sprite_output[c2] == base.sprite_output[c2] && post.sprite_priority[c2]
        == base.sprite_priority[c2] by {
        assert(pre.bg_output[c2] == base.bg_output[c2] && pre.pixel_greyscale[c2]
            == base.pixel_greyscale[c2] && pre.sprite_output[c2] == base.sprite_output[c2]
            && pre.sprite_priority[c2] == base.sprite_priority[c2]);
        assert(c2 != cell);
    }
}

/// The scanline-equivalent position of a CPU cycle count.
pub open spec fn scan_y(count: u32) -> int {
    count * 3 / 341
}

/// The rendering-to-blanking transition fires when the scan position first
/// drops below the blanking line while not yet latched.
pub open spec fn blank_start(p: PpuView, count: u32) -> bool {
    scan_y(count) < VBL && !p.regs.has_blanked
}

/// The blanking-to-rendering transition fires when the scan position rises
/// past the blanking line while latched.
pub open spec fn blank_end(p: PpuView, count: u32) -> bool {
    scan_y(count) >= VBL && p.regs.has_blanked
}

/// Whether one advance of the picture processor raises the CPU's pending
/// interrupt: only on the rendering-to-blanking transition, and only while
/// interrupt generation is enabled.
pub open spec fn tick_raises_nmi(p: PpuView, count: u32) -> bool {
    blank_start(p, count) && p.regs.generate_nmi
}

/// The blanking state machine of one tick.  Entering blanking sets the
/// vertical-blank flag and rewinds the attribute address; leaving it clears
/// the per-frame latches and restarts the mid-frame log with one fresh
/// snapshot.
pub open spec fn tick_control_spec(p: PpuView, count: u32) -> PpuView {
    if blank_start(p, count) {
        with_regs(
            p,
            PpuRegs { has_blanked: true, vertical_blanking: true, oamaddr: 0, ..p.regs },
        )
    } else if blank_end(p, count) {
        let p2 = with_regs(
            p,
            PpuRegs {
                has_blanked: false,
                vertical_blanking: false,
                has_drawn_sprite0_background: false,
                sprite_0_hit: false,
                ..p.regs
            },
        );
        push_state_spec(PpuView { states: Seq::empty(), ..p2 }, count)
    } else {
        p
    }
}

/// Whether the scan position sits inside the rows of the first sprite while
/// both layers render and no hit is latched yet: the window in which the
/// incremental sprite-zero test runs.
pub open spec fn sprite0_window(p: PpuView, count: u32) -> bool {
    let s0y = p.oam[p.regs.oamaddr as int] + 1;
    &&& p.regs.show_sprites
    &&& p.regs.show_background
    &&& !p.regs.sprite_0_hit
    &&& scan_y(count) >= s0y + VBL + 1
    &&& scan_y(count) < s0y + VBL + 9
}

/// Everything the sprite-zero test may not touch follows the blanking step:
/// all registers but the two sprite-zero latches, and every buffer but the
/// four working grids.
pub open spec fn tick_frame(p2: PpuView, q: PpuView) -> bool {
    q == (PpuView {
        regs: (PpuRegs {
            sprite_0_hit: q.regs.sprite_0_hit,
            has_drawn_sprite0_background: q.regs.has_drawn_sprite0_background,
            ..p2.regs
        }),
        bg_output: q.bg_output,
        pixel_greyscale: q.pixel_greyscale,
        sprite_output: q.sprite_output,
        sprite_priority: q.sprite_priority,
        ..p2
    })
}

/// The attributes of sprite `s` under the snapshot at `idx`: screen x, top
/// row (plus one), pixel height, pattern address, palette base, priority,
/// and the two flips.
pub open spec fn sprite_attrs_spec(p: PpuView, s: u8, idx: int) -> (u8, u16, u8, u16, u16, bool, bool, bool) {
    let st = p.states[idx];
    let y = (p.oam[((p.regs.oamaddr + 4 * s) % 256) as int] + 1) as u16;
    let tile = p.oam[((p.regs.oamaddr + 4 * s + 1) % 256) as int];
    let height: u8 = if st.sprite_size == 0 {
        8
    } else {
        16
    };
    let table: u8 = if st.sprite_size == 0 {
        st.spritetable
    } else {
        tile & 0b00000001
    };
    let index: u8 = if st.sprite_size == 0 {
        tile
    } else {
        tile & 0b11111110
    };
    let base: u16 = if table == 0 {
        0x0000
    } else {
        0x1000
    };
    let flags = p.oam[((p.regs.oamaddr + 4 * s + 2) % 256) as int];
    let x = p.oam[((p.regs.oamaddr + 4 * s + 3) % 256) as int];
    (
        x,
        y,
        height,
        (base + 16 * index) as u16,
        (0x3F10 + ((flags & 0b00000011) as u16) * 4) as u16,
        flags & 0b00100000 == 0,
        flags & 0b01000000 > 0,
        flags & 0b10000000 > 0,
    )
}

/// Only the two background working grids differ, and no buffer changed
/// size.
pub open spec fn bg_grids_only(p0: PpuView, p: PpuView) -> bool {
    &&& p == (PpuView { bg_output: p.bg_output, pixel_greyscale: p.pixel_greyscale, ..p0 })
    &&& p.bg_output.len() == p0.bg_output.len()
    &&& p.pixel_greyscale.len() == p0.pixel_greyscale.len()
}

/// Rows outside the band `[start_y, end_y]` are untouched in all four
/// working grids.
pub open spec fn band_clipped(p0: PpuView, q: PpuView, start_y: u16, end_y: u16) -> bool {
    forall|cell: int|
        0 <= cell < 61440 && !(start_y <= cell % 240 <= end_y) ==> #[trigger] q.bg_output[cell]
            == p0.bg_output[cell] && q.pixel_greyscale[cell] == p0.pixel_greyscale[cell]
            && q.sprite_output[cell] == p0.sprite_output[cell] && q.sprite_priority[cell]
            == p0.sprite_priority[cell]
}

/// An already-opaque sprite pixel is never overwritten: where the sprite
/// grid held something on entry it holds the same afterwards, priority
/// included -- the hardware's attribute-order sprite priority.
pub open spec fn sprite_first_wins(p0: PpuView, q: PpuView) -> bool {
    forall|cell: int|
        0 <= cell < 61440 && #[trigger] p0.sprite_output[cell] != 0 ==> q.sprite_output[cell]
            == p0.sprite_output[cell] && q.sprite_priority[cell] == p0.sprite_priority[cell]
}

/// The contribution of sprite `s` to screen cell `(cx, cy)` when a band
/// `[band_start, band_end]` is drawn: nothing when the sprite is off-screen
/// or outside the band or does not cover the cell or its pattern bit pair
/// is transparent there; otherwise the palette entry selected by the
/// pattern bits (honoring both flips) with the sprite's priority bit.
#[verifier::opaque]
pub open spec fn sprite_pixel_at<M: Mapper>(
    p0: PpuView,
    mp: M::V,
    state_idx: int,
    band_start: u16,
    band_end: u16,
    s: int,
    cx: int,
    cy: int,
) -> Option<(u16, bool)> {
    let a = sprite_attrs_spec(p0, s as u8, state_idx);
    if a.1 >= 0xF0 || a.1 <= 2 || a.1 > band_end || a.1 + a.2 < band_start {
        None
    } else if !(a.0 <= cx <= a.0 + 7 && a.1 <= cy < a.1 + a.2) {
        None
    } else {
        let ry = cy - a.1;
        let dx = cx - a.0;
        let q = if a.7 {
            a.2 - 1 - ry
        } else {
            ry
        };
        let bitpos = (if a.6 {
            dx
        } else {
            7 - dx
        }) as u8;
        let lo = read_ok::<M>(p0, mp, (a.3 + 16 * (q / 8) + q % 8) as u16);
        let hi = read_ok::<M>(p0, mp, (a.3 + 16 * (q / 8) + q % 8 + 8) as u16);
        let bits = ((lo >> bitpos) & 1) + 2 * ((hi >> bitpos) & 1);
        if bits != 0 {
            Some(((bits + a.4) as u16, a.5))
        } else {
            None
        }
    }
}

/// The first opaque contribution among sprites `[s, upto)` covering the
/// cell: the lowest attribute index wins, as on hardware.
#[verifier::opaque]
pub open spec fn first_sprite_pixel<M: Mapper>(
    p0: PpuView,
    mp: M::V,
    state_idx: int,
    band_start: u16,
    band_end: u16,
    s: int,
    upto: int,
    cx: int,
    cy: int,
) -> Option<(u16, bool)>
    decreases upto - s,
{
    if s >= upto {
        None
    } else {
        match sprite_pixel_at::<M>(p0, mp, state_idx, band_start, band_end, s, cx, cy) {
            Some(v) => Some(v),
            None => first_sprite_pixel::<M>(
                p0,
                mp,
                state_idx,
                band_start,
                band_end,
                s + 1,
                upto,
                cx,
                cy,
            ),
        }
    }
}

/// Scanning one more sprite extends the first-match fold at its tail.
pub proof fn lemma_first_sprite_snoc<M: Mapper>(
    p0: PpuView,
    mp: M::V,
    state_idx: int,
    band_start: u16,
    band_end: u16,
    s: int,
    upto: int,
    cx: int,
    cy: int,
)
    requires
        s <= upto,
    ensures
        first_sprite_pixel::<M>(p0, mp, state_idx, band_start, band_end, s, upto + 1, cx, cy)
            == match first_sprite_pixel::<M>(
            p0,
            mp,
            state_idx,
            band_start,
            band_end,
            s,
            upto,
            cx,
            cy,
        ) {
            Some(v) => Some(v),
            None => sprite_pixel_at::<M>(p0, mp, state_idx, band_start, band_end, upto, cx, cy),
        },
    decreases upto - s,
{
    reveal_with_fuel(first_sprite_pixel, 3);
    if s < upto {
        lemma_first_sprite_snoc::<M>(p0, mp, state_idx, band_start, band_end, s + 1, upto, cx, cy);
    }
}

/// What the band writes into the sprite grids, for every cell of the band
/// that held no sprite pixel yet: while sprites show, the first opaque
/// contribution in attribute order among sprites below `upto` (value and
/// priority), and nothing at all otherwise.
#[verifier::opaque]
pub open spec fn band_sprites_drawn<M: Mapper>(
    p0: PpuView,
    q: PpuView,
    mp: M::V,
    state_idx: int,
    band_start: u16,
    band_end: u16,
    upto: int,
) -> bool {
    forall|cx: int, cy: int|
        0 <= cx < 256 && band_start <= cy <= band_end && p0.sprite_output[#[trigger] cell_of(
            cx,
            cy,
        )] == 0 ==> {
            if p0.states[state_idx].show_sprites {
                sprite_cell_matches::<M>(p0, q, mp, state_idx, band_start, band_end, upto, cx, cy)
            } else {
                q.sprite_output[cell_of(cx, cy)] == 0 && q.sprite_priority[cell_of(cx, cy)]
                    == p0.sprite_priority[cell_of(cx, cy)]
            }
        }
}

/// Whether the sprite grids of `q` hold, at one cell, exactly the
/// first-match fold of sprites below `upto` (or nothing, with the original
/// priority bit, when none covers it).
pub open spec fn sprite_cell_matches<M: Mapper>(
    p0: PpuView,
    q: PpuView,
    mp: M::V,
    state_idx: int,
    band_start: u16,
    band_end: u16,
    upto: int,
    cx: int,
    cy: int,
) -> bool {
    match first_sprite_pixel::<M>(p0, mp, state_idx, band_start, band_end, 0, upto, cx, cy) {
        Some(v) => q.sprite_output[cell_of(cx, cy)] == v.0 && q.sprite_priority[cell_of(cx, cy)]
            == v.1,
        None => q.sprite_output[cell_of(cx, cy)] == 0 && q.sprite_priority[cell_of(cx, cy)]
            == p0.sprite_priority[cell_of(cx, cy)],
    }
}

/// A fold hit always carries a nonzero palette entry, so a cell the fold
/// filled can never read as empty.
pub proof fn lemma_first_sprite_nonzero<M: Mapper>(
    p0: PpuView,
    mp: M::V,
    state_idx: int,
    band_start: u16,
    band_end: u16,
    s: int,
    upto: int,
    cx: int,
    cy: int,
)
    ensures
        first_sprite_pixel::<M>(p0, mp, state_idx, band_start, band_end, s, upto, cx, cy) matches
            Some(v) ==> v.0 != 0,
    decreases upto - s,
{
    reveal(first_sprite_pixel);
    reveal(sprite_pixel_at);
    if s < upto {
        lemma_first_sprite_nonzero::<M>(
            p0,
            mp,
            state_idx,
            band_start,
            band_end,
            s + 1,
            upto,
            cx,
            cy,
        );
        let a = sprite_attrs_spec(p0, s as u8, state_idx);
        let flags = p0.oam[((p0.regs.oamaddr + 4 * (s as u8) + 2) % 256) as int];
        assert(flags & 0b00000011 <= 3) by (bit_vector);
        if a.1 < 0xF0 && a.1 > 2 && a.1 <= band_end && a.1 + a.2 >= band_start && a.0 <= cx <= a.0
            + 7 && a.1 <= cy < a.1 + a.2 {
            let ry = cy - a.1;
            let dx = cx - a.0;
            let q = if a.7 {
                a.2 - 1 - ry
            } else {
                ry
            };
            let bitpos = (if a.6 {
                dx
            } else {
                7 - dx
            }) as u8;
            let lo = read_ok::<M>(p0, mp, (a.3 + 16 * (q / 8) + q % 8) as u16);
            let hi = read_ok::<M>(p0, mp, (a.3 + 16 * (q / 8) + q % 8 + 8) as u16);
            assert(((lo >> bitpos) & 1) + 2 * ((hi >> bitpos) & 1) <= 3) by (bit_vector);
        }
    }
}

/// A drawn tile stays drawn while none of its cells change.
pub proof fn lemma_tile_cells_transfer<M: Mapper>(
    p0: PpuView,
    bg1: Seq<u16>,
    grey1: Seq<bool>,
    bg2: Seq<u16>,
    grey2: Seq<bool>,
    mp: M::V,
    state_idx: int,
    n: u8,
    tile_x: u16,
    tile_y: u16,
    sxs: u16,
    sys: u16,
    sxe: u16,
    sye: u16,
    xo: u16,
    yo: u16,
)
    requires
        tile_cells_drawn::<M>(p0, bg1, grey1, mp, state_idx, n, tile_x, tile_y, sxs, sys, sxe, sye, xo, yo),
        forall|cx: int, cy: int|
            sxs <= cx <= sxe && sys <= cy <= sye ==> bg2[#[trigger] cell_of(cx, cy)] == bg1[cell_of(
                cx,
                cy,
            )] && grey2[cell_of(cx, cy)] == grey1[cell_of(cx, cy)],
    ensures
        tile_cells_drawn::<M>(p0, bg2, grey2, mp, state_idx, n, tile_x, tile_y, sxs, sys, sxe, sye, xo, yo),
{
    reveal(tile_cells_drawn);
}

/// Drawing one more tile of the band advances the tiles-drawn fold: the
/// new tile's cells are exact and every earlier tile's cells, which lie in
/// columns or rows before it, are untouched by it.
pub proof fn lemma_band_tile_advance<M: Mapper>(
    p0: PpuView,
    bg1: Seq<u16>,
    grey1: Seq<bool>,
    bg2: Seq<u16>,
    grey2: Seq<bool>,
    mp: M::V,
    state_idx: int,
    bs: u16,
    be: u16,
    k: int,
    g: int,
)
    requires
        0 <= k < 33,
        bs / 8 <= g <= be / 8 + 1,
        bs <= be <= 239,
        tile_visible(p0.states[state_idx], bs, be, k, g),
        ({
            let a = tile_args(p0.states[state_idx], bs, be, k, g);
            tile_cells_drawn::<M>(
                p0,
                bg2,
                grey2,
                mp,
                state_idx,
                a.0,
                a.1,
                a.2,
                a.3,
                a.4,
                a.5,
                a.6,
                a.7,
                a.8,
            )
        }),
        ({
            let a = tile_args(p0.states[state_idx], bs, be, k, g);
            forall|cell: int|
                0 <= cell < 61440 && !(a.3 <= cell / 240 <= a.5 && a.4 <= cell % 240 <= a.6)
                    ==> #[trigger] bg2[cell] == bg1[cell] && grey2[cell] == grey1[cell]
        }),
        forall|k2: int, g2: int|
            0 <= k2 < 33 && bs / 8 <= g2 <= be / 8 + 1 && (k2 < k || (k2 == k && g2 < g))
                && #[trigger] tile_visible(p0.states[state_idx], bs, be, k2, g2) ==> ({
                let a2 = tile_args(p0.states[state_idx], bs, be, k2, g2);
                tile_cells_drawn::<M>(
                    p0,
                    bg1,
                    grey1,
                    mp,
                    state_idx,
                    a2.0,
                    a2.1,
                    a2.2,
                    a2.3,
                    a2.4,
                    a2.5,
                    a2.6,
                    a2.7,
                    a2.8,
                )
            }),
    ensures
        forall|k2: int, g2: int|
            0 <= k2 < 33 && bs / 8 <= g2 <= be / 8 + 1 && (k2 < k || (k2 == k && g2 <= g))
                && #[trigger] tile_visible(p0.states[state_idx], bs, be, k2, g2) ==> ({
                let a2 = tile_args(p0.states[state_idx], bs, be, k2, g2);
                tile_cells_drawn::<M>(
                    p0,
                    bg2,
                    grey2,
                    mp,
                    state_idx,
                    a2.0,
                    a2.1,
                    a2.2,
                    a2.3,
                    a2.4,
                    a2.5,
                    a2.6,
                    a2.7,
                    a2.8,
                )
            }),
{
    let st = p0.states[state_idx];
    let a = tile_args(st, bs, be, k, g);
    assert forall|k2: int, g2: int|
        0 <= k2 < 33 && bs / 8 <= g2 <= be / 8 + 1 && (k2 < k || (k2 == k && g2 <= g))
            && #[trigger] tile_visible(st, bs, be, k2, g2) implies ({
        let a2 = tile_args(st, bs, be, k2, g2);
        tile_cells_drawn::<M>(
            p0,
            bg2,
            grey2,
            mp,
            state_idx,
            a2.0,
            a2.1,
            a2.2,
            a2.3,
            a2.4,
            a2.5,
            a2.6,
            a2.7,
            a2.8,
        )
    }) by {
        let a2 = tile_args(st, bs, be, k2, g2);
        if k2 == k && g2 == g {
        } else {
            assert(tile_cells_drawn::<M>(
                p0,
                bg1,
                grey1,
                mp,
                state_idx,
                a2.0,
                a2.1,
                a2.2,
                a2.3,
                a2.4,
                a2.5,
                a2.6,
                a2.7,
                a2.8,
            ));
            let sxm = (st.ppuscroll_x as int) % 8;
            let sym = (st.ppuscroll_y as int) % 8;
            if k2 < k {
                assert(k >= 1);
                assert(k2 <= 31);
                assert(a2.5 <= k2 * 8 + 7 - sxm || a2.5 == 255);
                assert(a.3 == k * 8 - sxm);
                assert(a2.5 == 255 ==> k2 == 31 && sxm == 0 && k == 32);
                assert(a2.5 < a.3);
            } else {
                assert(g2 * 8 + 8 - sym > bs);
                if g * 8 <= bs + sym {
                    assert(g2 * 8 + 8 <= g * 8);
                    assert(false);
                } else {
                    assert(a.4 == g * 8 - sym);
                    assert(a2.6 <= g2 * 8 + 7 - sym);
                    assert(a2.6 < a.4);
                }
                assert(a2.6 < a.4);
            }
            assert forall|cx: int, cy: int|
                a2.3 <= cx <= a2.5 && a2.4 <= cy <= a2.6 implies bg2[#[trigger] cell_of(cx, cy)]
                == bg1[cell_of(cx, cy)] && grey2[cell_of(cx, cy)] == grey1[cell_of(cx, cy)] by {
                if k2 < k {
                    assert(a2.5 < a.3);
                } else {
                    assert(a2.6 < a.4);
                }
                assert(cell_of(cx, cy) == cx * 240 + cy);
                assert(cell_of(cx, cy) / 240 == cx && cell_of(cx, cy) % 240 == cy)
                    by (nonlinear_arith)
                    requires
                        cell_of(cx, cy) == cx * 240 + cy,
                        0 <= cy < 240,
                        0 <= cx,
                ;
                assert(0 <= cell_of(cx, cy) < 61440);
                assert(!(a.3 <= cell_of(cx, cy) / 240 <= a.5 && a.4 <= cell_of(cx, cy) % 240
                    <= a.6));
            }
            lemma_tile_cells_transfer::<M>(
                p0,
                bg1,
                grey1,
                bg2,
                grey2,
                mp,
                state_idx,
                a2.0,
                a2.1,
                a2.2,
                a2.3,
                a2.4,
                a2.5,
                a2.6,
                a2.7,
                a2.8,
            );
        }
    }
}

/// While the snapshot hides the background, drawing a tile leaves the
/// whole background grid as it started.
pub proof fn lemma_hidden_bg_unchanged<M: Mapper>(
    p0: PpuView,
    bg1: Seq<u16>,
    bg2: Seq<u16>,
    grey2: Seq<bool>,
    mp: M::V,
    state_idx: int,
    n: u8,
    tile_x: u16,
    tile_y: u16,
    sxs: u16,
    sys: u16,
    sxe: u16,
    sye: u16,
    xo: u16,
    yo: u16,
)
    requires
        !p0.states[state_idx].show_background,
        bg1 == p0.bg_output,
        bg1.len() == 61440,
        bg2.len() == 61440,
        sxe < 256,
        sye < 240,
        tile_cells_drawn::<M>(p0, bg2, grey2, mp, state_idx, n, tile_x, tile_y, sxs, sys, sxe, sye, xo, yo),
        forall|cell: int|
            0 <= cell < 61440 && !(sxs <= cell / 240 <= sxe && sys <= cell % 240 <= sye)
                ==> #[trigger] bg2[cell] == bg1[cell],
    ensures
        bg2 == p0.bg_output,
{
    reveal(tile_cells_drawn);
    assert forall|c: int| 0 <= c < 61440 implies bg2[c] == p0.bg_output[c] by {
        let cxx = c / 240;
        let cyy = c % 240;
        assert(c == cxx * 240 + cyy) by (nonlinear_arith)
            requires
                c >= 0,
                cxx == c / 240,
                cyy == c % 240,
        ;
        assert(cell_of(cxx, cyy) == c);
        if sxs <= cxx <= sxe && sys <= cyy <= sye {
            assert(bg2[cell_of(cxx, cyy)] == p0.bg_output[cell_of(cxx, cyy)]);
        } else {
            assert(bg2[c] == bg1[c]);
        }
    }
    assert(bg2 =~= p0.bg_output);
}

/// Only the four working grids differ, and no buffer changed size.
pub open spec fn grids_only(p0: PpuView, p: PpuView) -> bool {
    &&& p == (PpuView {
        bg_output: p.bg_output,
        pixel_greyscale: p.pixel_greyscale,
        sprite_output: p.sprite_output,
        sprite_priority: p.sprite_priority,
        ..p0
    })
    &&& p.bg_output.len() == p0.bg_output.len()
    &&& p.pixel_greyscale.len() == p0.pixel_greyscale.len()
    &&& p.sprite_output.len() == p0.sprite_output.len()
    &&& p.sprite_priority.len() == p0.sprite_priority.len()
}

/// The flattened grid index of screen column `cx`, row `cy`.
pub open spec fn cell_of(cx: int, cy: int) -> int {
    cx * 240 + cy
}

/// The canonical bus address of a name table select.
pub open spec fn nametable_base(nametable: u8) -> u16 {
    if nametable == 0 {
        0x2000
    } else if nametable == 1 {
        0x2400
    } else if nametable == 2 {
        0x2800
    } else {
        0x2C00
    }
}

/// The background palette entry of tile column `tx`, given the row's two
/// pattern bytes and the tile's attribute colour bits: the two pattern
/// bits select inside the palette group, and a zero index is the
/// universal background colour.
#[verifier::opaque]
pub open spec fn tile_pixel(lo: u8, hi: u8, colour_bits: u8, tx: int) -> u16 {
    let bit = (7 - tx) as u8;
    let idx = ((lo >> bit) & 1) + 2 * ((hi >> bit) & 1);
    if idx != 0 {
        (0x3F00 + idx + colour_bits) as u16
    } else {
        0x3F00
    }
}

/// What drawing one tile band guarantees, pixel by pixel: inside the
/// screen rectangle the background grid holds the tile's palette entries
/// (when the snapshot shows the background) and the greyscale grid holds
/// the snapshot's greyscale bit; outside it both grids are untouched.
/// The tile's pattern and attribute bytes are read over the starting
/// state, whose memories the draw never changes.
#[verifier::opaque]
pub open spec fn tile_cells_drawn<M: Mapper>(
    p0: PpuView,
    bg: Seq<u16>,
    grey: Seq<bool>,
    mp: M::V,
    state_idx: int,
    nametable: u8,
    tile_x: u16,
    tile_y: u16,
    sxs: u16,
    sys: u16,
    sxe: u16,
    sye: u16,
    xo: u16,
    yo: u16,
) -> bool {
    let st = p0.states[state_idx];
    let nt_base = nametable_base(nametable);
    let bg_pattern: u16 = if st.backgroundtable == 0 {
        0x0000
    } else {
        0x1000
    };
    let pattern_number = read_ok::<M>(p0, mp, (nt_base + tile_x + 32 * tile_y) as u16);
    let attr = read_ok::<M>(p0, mp, (nt_base + 0x3C0 + tile_x / 4 + 8 * (tile_y / 4)) as u16);
    let shift = (4 * ((tile_y / 2) % 2) + 2 * ((tile_x / 2) % 2)) as u8;
    let colour_bits = ((attr >> shift) & 0b00000011) << 2;
    let pattern_addr = (bg_pattern + 16 * pattern_number) as u16;
    forall|cx: int, cy: int|
        sxs <= cx <= sxe && sys <= cy <= sye ==> {
            let lo = read_ok::<M>(p0, mp, (pattern_addr + (cy - sys + yo)) as u16);
            let hi = read_ok::<M>(p0, mp, (pattern_addr + (cy - sys + yo) + 8) as u16);
            &&& bg[#[trigger] cell_of(cx, cy)] == (if st.show_background {
                tile_pixel(lo, hi, colour_bits, cx - sxs + xo)
            } else {
                p0.bg_output[cell_of(cx, cy)]
            })
            &&& grey[cell_of(cx, cy)] == st.greyscale
        }
}

/// The name-table quadrant a base select starts in.
pub open spec fn base_quadrant(nametable: u8) -> (u16, u16) {
    if nametable == 0 {
        (0, 0)
    } else if nametable == 1 {
        (1, 0)
    } else if nametable == 2 {
        (0, 1)
    } else {
        (1, 1)
    }
}

/// The tile and screen-rectangle arguments of column group `k`, row group
/// `g` of a band under a snapshot: which of the four name tables, which
/// tile in it, and the clipped screen rectangle with its in-tile offsets.
pub open spec fn tile_args(st: MidframeState, bs: u16, be: u16, k: int, g: int) -> (
    u8,
    u16,
    u16,
    u16,
    u16,
    u16,
    u16,
    u16,
    u16,
) {
    let sx = st.ppuscroll_x as int;
    let sy = st.ppuscroll_y as int;
    let bq = base_quadrant(st.nametable);
    let wide_x = (sx / 8 + k + 32 * bq.0) % 64;
    let wide_y = (sy / 8 + g + 30 * bq.1) % 60;
    let n = ((wide_x / 32) + 2 * (wide_y / 30)) as u8;
    let tile_x = (wide_x % 32) as u16;
    let tile_y = (wide_y % 30) as u16;
    let start_x: u16 = if k == 0 {
        0
    } else {
        (k * 8 - sx % 8) as u16
    };
    let off_x: u16 = if k == 0 {
        (sx % 8) as u16
    } else {
        0
    };
    let start_y: u16 = if g * 8 <= bs + sy % 8 {
        bs
    } else {
        (g * 8 - sy % 8) as u16
    };
    let off_y: u16 = if g * 8 <= bs + sy % 8 {
        (bs + sy % 8 - g * 8) as u16
    } else {
        0
    };
    let end_x: u16 = if k * 8 + 8 - sx % 8 - 1 < 255 {
        (k * 8 + 8 - sx % 8 - 1) as u16
    } else {
        255
    };
    let end_y: u16 = if g * 8 + 8 - sy % 8 - 1 < be {
        (g * 8 + 8 - sy % 8 - 1) as u16
    } else {
        be
    };
    (n, tile_x, tile_y, start_x, start_y, end_x, end_y, off_x, off_y)
}

/// Whether the band loop draws that tile at all: its rows reach past the
/// band's top and its clipped rectangle is nonempty.
pub open spec fn tile_visible(st: MidframeState, bs: u16, be: u16, k: int, g: int) -> bool {
    let a = tile_args(st, bs, be, k, g);
    &&& g * 8 + 8 - (st.ppuscroll_y as int) % 8 > bs
    &&& a.3 <= a.5
    &&& a.4 <= a.6
}

/// What the band writes into the background grids: every tile the band
/// loop visits has left its pixels, per the snapshot's scroll and
/// name-table select.
#[verifier::opaque]
pub open spec fn band_bg_drawn<M: Mapper>(
    p0: PpuView,
    bg: Seq<u16>,
    grey: Seq<bool>,
    mp: M::V,
    state_idx: int,
    bs: u16,
    be: u16,
) -> bool {
    forall|k: int, g: int|
        0 <= k < 33 && bs / 8 <= g <= be / 8 + 1 && #[trigger] tile_visible(
            p0.states[state_idx],
            bs,
            be,
            k,
            g,
        ) ==> {
            let a = tile_args(p0.states[state_idx], bs, be, k, g);
            tile_cells_drawn::<M>(
                p0,
                bg,
                grey,
                mp,
                state_idx,
                a.0,
                a.1,
                a.2,
                a.3,
                a.4,
                a.5,
                a.6,
                a.7,
                a.8,
            )
        }
}

impl Ppu {
    /// Reads sprite `s`'s four attribute bytes under the snapshot at
    /// `state_idx`.  The returned pattern address leaves room for the whole
    /// sprite inside pattern space.
    #[verifier::rlimit(100)]
    #[verifier::spinoff_prover]
    fn get_sprite_attrs(&self, s: u8, state_idx: usize) -> (r: (u8, u16, u8, u16, u16, bool, bool, bool))
        requires
            ppu_wf(self@),
            s < 64,
            state_idx < self@.states.len(),
        ensures
            r == sprite_attrs_spec(self@, s, state_idx as int),
            r.2 == 8 || r.2 == 16,
            r.3 + 16 * ((r.2 as u16) / 8 - 1) + 15 <= 0x1FFF,
            r.1 <= 256,
            r.4 + 3 <= 0x3F1F,
    {
        let st = &self.states[state_idx];
        let y: u16 = self.oam[self.regs.oamaddr.wrapping_add(4 * s) as usize] as u16 + 1;
        let tile: u8 = self.oam[self.regs.oamaddr.wrapping_add(4 * s + 1) as usize];
        let (height, table, index): (u8, u8, u8) = if st.sprite_size == 0 {
            (8, st.spritetable, tile)
        } else {
            (16, tile & 0b00000001, tile & 0b11111110)
        };
        let base: u16 = if table == 0 {
            0x0000
        } else {
            0x1000
        };
        proof {
            assert(tile & 0b11111110 <= 254 && tile & 0b00000001 <= 1 && (tile & 0b11111110) % 2
                == 0) by (bit_vector);
        }
        let flags: u8 = self.oam[self.regs.oamaddr.wrapping_add(4 * s + 2) as usize];
        let x: u8 = self.oam[self.regs.oamaddr.wrapping_add(4 * s + 3) as usize];
        let pattern_addr: u16 = base + 16 * (index as u16);
        let palette: u16 = 0x3F10 + ((flags & 0b00000011) as u16) * 4;
        proof {
            assert(flags & 0b00000011 <= 3 && (flags & 0b00100000 == 0) == (flags & 0b00100000
                == 0)) by (bit_vector);
        }
        (x, y, height, pattern_addr, palette, flags & 0b00100000 == 0, flags & 0b01000000 > 0,
        flags & 0b10000000 > 0)
    }

    /// Draws one background tile band: the tile row slice `[y_offset,
    /// y_offset + (screen_y_end - screen_y_start)]` of tile `(tile_x,
    /// tile_y)` of the given name table, at the given screen position,
    /// through the snapshot at `state_idx`.  Touches only the background
    /// grids.
    #[verifier::rlimit(100)]
    #[verifier::spinoff_prover]
    fn draw_tile<M: Mapper>(
        &mut self,
        state_idx: usize,
        nametable: u8,
        tile_x: u16,
        tile_y: u16,
        screen_x_start: u16,
        screen_y_start: u16,
        screen_x_end: u16,
        screen_y_end: u16,
        x_offset: u16,
        y_offset: u16,
        base: Ghost<PpuView>,
        mapper: &M,
    ) -> (r: Result<(), EmuError>)
        requires
            ppu_wf(old(self)@),
            mapper.inv(),
            grids_only(base@, old(self)@),
            !base@.states[state_idx as int].show_background ==> old(self)@.bg_output
                == base@.bg_output,
            state_idx < old(self)@.states.len(),
            state_idx < base@.states.len(),
            nametable <= 3,
            tile_x < 32,
            tile_y < 30,
            screen_x_start <= screen_x_end < 256,
            screen_y_start <= screen_y_end < 240,
            x_offset <= 7,
            y_offset <= 7,
            screen_x_end - screen_x_start + x_offset <= 7,
            screen_y_end - screen_y_start + y_offset <= 7,
        ensures
            ppu_wf(final(self)@),
            bg_grids_only(old(self)@, final(self)@),
            forall|cell: int|
                0 <= cell < 61440 && !(screen_x_start <= cell / 240 <= screen_x_end
                    && screen_y_start <= cell % 240 <= screen_y_end)
                    ==> #[trigger] final(self)@.bg_output[cell] == old(self)@.bg_output[cell],
            forall|cell: int|
                0 <= cell < 61440 && !(screen_x_start <= cell / 240 <= screen_x_end
                    && screen_y_start <= cell % 240 <= screen_y_end)
                    ==> #[trigger] final(self)@.pixel_greyscale[cell]
                    == old(self)@.pixel_greyscale[cell],
            pattern_reads_total::<M>(mapper@) ==> r matches Ok(_),
            r matches Ok(_) ==> tile_cells_drawn::<M>(
                base@,
                final(self)@.bg_output,
                final(self)@.pixel_greyscale,
                mapper@,
                state_idx as int,
                nametable,
                tile_x,
                tile_y,
                screen_x_start,
                screen_y_start,
                screen_x_end,
                screen_y_end,
                x_offset,
                y_offset,
            ),
    {
        let ghost p0 = base@;
        let ghost q0 = self@;
        let ghost mp = mapper@;
        let nt_base: u16 = if nametable == 0 {
            0x2000
        } else if nametable == 1 {
            0x2400
        } else if nametable == 2 {
            0x2800
        } else {
            0x2C00
        };
        proof {
            assert(nt_base == nametable_base(nametable));
        }
        let bg_pattern: u16 = if self.states[state_idx].backgroundtable == 0 {
            0x0000
        } else {
            0x1000
        };
        let pattern_number = match <Ppu as Mem<M>>::read(self, mapper, nt_base + tile_x + 32
            * tile_y) {
            Ok(v) => v,
            Err(e) => {
                proof {
                    if pattern_reads_total::<M>(mp) {
                        lemma_ppu_read_total::<M>(self@, mp, ((nt_base + tile_x + 32 * tile_y) as u16));
                    }
                }
                return Err(e);
            },
        };
        proof {
            assert(pattern_number == read_ok::<M>(p0, mp, (nt_base + tile_x + 32 * tile_y) as u16));
        }
        let attr_x: u16 = tile_x / 4;
        let attr_y: u16 = tile_y / 4;
        let over_x: u16 = (tile_x / 2) % 2;
        let over_y: u16 = (tile_y / 2) % 2;
        let attr = match <Ppu as Mem<M>>::read(self, mapper, nt_base + 0x3C0 + attr_x + 8
            * attr_y) {
            Ok(v) => v,
            Err(e) => {
                proof {
                    if pattern_reads_total::<M>(mp) {
                        lemma_ppu_read_total::<M>(self@, mp, ((nt_base + 0x3C0 + attr_x + 8 * attr_y) as u16));
                    }
                }
                return Err(e);
            },
        };
        proof {
            assert(attr == read_ok::<M>(
                p0,
                mp,
                (nt_base + 0x3C0 + tile_x / 4 + 8 * (tile_y / 4)) as u16,
            ));
        }
        let shift: u8 = (4 * over_y + 2 * over_x) as u8;
        let colour_bits: u8 = ((attr >> shift) & 0b00000011) << 2;
        proof {
            assert(((attr >> shift) & 0b00000011) << 2 <= 12) by (bit_vector);
        }
        let pattern_addr: u16 = bg_pattern + 16 * (pattern_number as u16);
        let greyscale: bool = self.states[state_idx].greyscale;
        let show_background: bool = self.states[state_idx].show_background;
        let mut y: u16 = y_offset;
        while y <= screen_y_end - screen_y_start + y_offset
            invariant
                p0 == base@,
                q0 == old(self)@,
                mp == mapper@,
                ppu_wf(self@),
                bg_grids_only(q0, self@),
                grids_only(p0, self@),
                mapper.inv(),
                state_idx < p0.states.len(),
                colour_bits <= 12,
                y_offset <= y <= 8,
                y <= screen_y_end - screen_y_start + y_offset + 1,
                screen_x_start <= screen_x_end < 256,
                screen_y_start <= screen_y_end < 240,
                x_offset <= 7,
                y_offset <= 7,
                screen_x_end - screen_x_start + x_offset <= 7,
                screen_y_end - screen_y_start + y_offset <= 7,
                pattern_addr <= 0x1FF0,
                nt_base == nametable_base(nametable),
                pattern_number == read_ok::<M>(p0, mp, (nt_base + tile_x + 32 * tile_y) as u16),
                attr == read_ok::<M>(
                    p0,
                    mp,
                    (nt_base + 0x3C0 + tile_x / 4 + 8 * (tile_y / 4)) as u16,
                ),
                colour_bits == ((attr >> ((4 * ((tile_y / 2) % 2) + 2 * ((tile_x / 2) % 2)) as u8))
                    & 0b00000011) << 2,
                pattern_addr == (if p0.states[state_idx as int].backgroundtable == 0 {
                    0x0000u16
                } else {
                    0x1000u16
                }) + 16 * pattern_number,
                show_background == p0.states[state_idx as int].show_background,
                !show_background ==> q0.bg_output == p0.bg_output,
                greyscale == p0.states[state_idx as int].greyscale,
                forall|cx: int, cy: int|
                    screen_x_start <= cx <= screen_x_end && screen_y_start <= cy
                        < screen_y_start + (y - y_offset) ==> {
                        let lo_r = read_ok::<M>(
                            p0,
                            mp,
                            (pattern_addr + (cy - screen_y_start + y_offset)) as u16,
                        );
                        let hi_r = read_ok::<M>(
                            p0,
                            mp,
                            (pattern_addr + (cy - screen_y_start + y_offset) + 8) as u16,
                        );
                        &&& self@.bg_output[#[trigger] cell_of(cx, cy)] == (if show_background {
                            tile_pixel(lo_r, hi_r, colour_bits, cx - screen_x_start + x_offset)
                        } else {
                            p0.bg_output[cell_of(cx, cy)]
                        })
                        &&& self@.pixel_greyscale[cell_of(cx, cy)] == greyscale
                    },
                forall|cell: int|
                    0 <= cell < 61440 && !(screen_x_start <= cell / 240 <= screen_x_end
                        && screen_y_start <= cell % 240 < screen_y_start + (y - y_offset))
                        ==> #[trigger] self@.bg_output[cell] == q0.bg_output[cell],
                forall|cell: int|
                    0 <= cell < 61440 && !(screen_x_start <= cell / 240 <= screen_x_end
                        && screen_y_start <= cell % 240 < screen_y_start + (y - y_offset))
                        ==> #[trigger] self@.pixel_greyscale[cell] == q0.pixel_greyscale[cell],
            decreases 8 - y,
        {
            proof {
                assert(ppu_read_spec::<M>(self@, mp, ((pattern_addr + y) as u16))
                    == ppu_read_spec::<M>(p0, mp, ((pattern_addr + y) as u16)));
                assert(ppu_read_spec::<M>(self@, mp, ((pattern_addr + y + 8) as u16))
                    == ppu_read_spec::<M>(p0, mp, ((pattern_addr + y + 8) as u16)));
            }
            let lo = match <Ppu as Mem<M>>::read(self, mapper, pattern_addr + y) {
                Ok(v) => v,
                Err(e) => {
                    proof {
                        if pattern_reads_total::<M>(mp) {
                            lemma_ppu_read_total::<M>(self@, mp, ((pattern_addr + y) as u16));
                        }
                    }
                    return Err(e);
                },
            };
            let hi = match <Ppu as Mem<M>>::read(self, mapper, pattern_addr + y + 8) {
                Ok(v) => v,
                Err(e) => {
                    proof {
                        if pattern_reads_total::<M>(mp) {
                            lemma_ppu_read_total::<M>(self@, mp, ((pattern_addr + y + 8) as u16));
                        }
                    }
                    return Err(e);
                },
            };
            proof {
                assert(lo == read_ok::<M>(p0, mp, (pattern_addr + y) as u16));
                assert(hi == read_ok::<M>(p0, mp, (pattern_addr + y + 8) as u16));
            }
            let py: u16 = y + screen_y_start - y_offset;
            let mut x: u16 = x_offset;
            while x <= screen_x_end - screen_x_start + x_offset
                invariant
                    p0 == base@,
                q0 == old(self)@,
                    mp == mapper@,
                    ppu_wf(self@),
                    bg_grids_only(q0, self@),
                    state_idx < p0.states.len(),
                    colour_bits <= 12,
                    x_offset <= x <= 8,
                    x <= screen_x_end - screen_x_start + x_offset + 1,
                    y_offset <= y,
                    y <= screen_y_end - screen_y_start + y_offset,
                    py == y + screen_y_start - y_offset,
                    screen_x_start <= screen_x_end < 256,
                    screen_y_start <= screen_y_end < 240,
                    x_offset <= 7,
                    y_offset <= 7,
                    screen_x_end - screen_x_start + x_offset <= 7,
                    screen_y_end - screen_y_start + y_offset <= 7,
                    lo == read_ok::<M>(p0, mp, (pattern_addr + y) as u16),
                    hi == read_ok::<M>(p0, mp, (pattern_addr + y + 8) as u16),
                    show_background == p0.states[state_idx as int].show_background,
                    !show_background ==> q0.bg_output == p0.bg_output,
                !show_background ==> q0.bg_output == p0.bg_output,
                    greyscale == p0.states[state_idx as int].greyscale,
                    forall|cx: int, cy: int|
                        screen_x_start <= cx <= screen_x_end && screen_y_start <= cy
                            < screen_y_start + (y - y_offset) ==> {
                            let lo_r = read_ok::<M>(
                                p0,
                                mp,
                                (pattern_addr + (cy - screen_y_start + y_offset)) as u16,
                            );
                            let hi_r = read_ok::<M>(
                                p0,
                                mp,
                                (pattern_addr + (cy - screen_y_start + y_offset) + 8) as u16,
                            );
                            &&& self@.bg_output[#[trigger] cell_of(cx, cy)] == (if show_background {
                                tile_pixel(lo_r, hi_r, colour_bits, cx - screen_x_start + x_offset)
                            } else {
                                p0.bg_output[cell_of(cx, cy)]
                            })
                            &&& self@.pixel_greyscale[cell_of(cx, cy)] == greyscale
                        },
                    forall|cx: int|
                        screen_x_start <= cx < screen_x_start + (x - x_offset) ==> {
                            &&& self@.bg_output[#[trigger] cell_of(cx, py as int)] == (
                            if show_background {
                                tile_pixel(lo, hi, colour_bits, cx - screen_x_start + x_offset)
                            } else {
                                p0.bg_output[cell_of(cx, py as int)]
                            })
                            &&& self@.pixel_greyscale[cell_of(cx, py as int)] == greyscale
                        },
                    forall|cell: int|
                        0 <= cell < 61440 && !(screen_x_start <= cell / 240 <= screen_x_end
                            && screen_y_start <= cell % 240 < screen_y_start + (y - y_offset))
                            && !(cell % 240 == py && screen_x_start <= cell / 240 < screen_x_start
                            + (x - x_offset)) ==> #[trigger] self@.bg_output[cell]
                            == q0.bg_output[cell],
                    forall|cell: int|
                        0 <= cell < 61440 && !(screen_x_start <= cell / 240 <= screen_x_end
                            && screen_y_start <= cell % 240 < screen_y_start + (y - y_offset))
                            && !(cell % 240 == py && screen_x_start <= cell / 240 < screen_x_start
                            + (x - x_offset)) ==> #[trigger] self@.pixel_greyscale[cell]
                            == q0.pixel_greyscale[cell],
                decreases 8 - x,
            {
                let bit: u8 = (7 - x) as u8;
                let lo_bit: u8 = (lo >> bit) & 1;
                let hi_bit: u8 = (hi >> bit) & 1;
                proof {
                    assert((lo >> bit) & 1 <= 1 && (hi >> bit) & 1 <= 1) by (bit_vector);
                }
                let mut palette_idx: u16 = lo_bit as u16 + 2 * (hi_bit as u16);
                if palette_idx != 0 {
                    palette_idx = palette_idx + colour_bits as u16;
                }
                let px: usize = (x + screen_x_start - x_offset) as usize;
                let cell: usize = px * 240 + py as usize;
                proof {
                    assert(cell == cell_of(px as int, py as int));
                }
                if show_background {
                    self.set_bg(cell, 0x3F00 + palette_idx);
                }
                self.set_grey(cell, greyscale);
                proof {
                    reveal(tile_pixel);
                    assert(show_background ==> self@.bg_output[cell_of(px as int, py as int)]
                        == tile_pixel(lo, hi, colour_bits, x as int));
                    assert(px as int == cell_of(px as int, py as int) / 240 && py as int == cell_of(
                        px as int,
                        py as int,
                    ) % 240);
                }
                x = x + 1;
            }
            proof {
                assert((pattern_addr + (py as int - screen_y_start + y_offset)) as u16 == (
                pattern_addr + y) as u16);
                assert(forall|cx: int, cy: int|
                    screen_x_start <= cx <= screen_x_end && cy == py as int ==> {
                        let lo_r = read_ok::<M>(
                            p0,
                            mp,
                            (pattern_addr + (cy - screen_y_start + y_offset)) as u16,
                        );
                        let hi_r = read_ok::<M>(
                            p0,
                            mp,
                            (pattern_addr + (cy - screen_y_start + y_offset) + 8) as u16,
                        );
                        &&& self@.bg_output[#[trigger] cell_of(cx, cy)] == (if show_background {
                            tile_pixel(lo_r, hi_r, colour_bits, cx - screen_x_start + x_offset)
                        } else {
                            p0.bg_output[cell_of(cx, cy)]
                        })
                        &&& self@.pixel_greyscale[cell_of(cx, cy)] == greyscale
                    });
                assert forall|cell: int|
                    0 <= cell < 61440 && !(screen_x_start <= cell / 240 <= screen_x_end
                        && screen_y_start <= cell % 240 < screen_y_start + (y + 1
                        - y_offset)) implies self@.bg_output[cell] == q0.bg_output[cell]
                    && self@.pixel_greyscale[cell] == q0.pixel_greyscale[cell] by {
                    if cell % 240 == py {
                        assert(!(screen_x_start <= cell / 240 <= screen_x_end));
                        assert(!(screen_x_start <= cell / 240 < screen_x_start + (x - x_offset)));
                    } else {
                        assert(!(screen_x_start <= cell / 240 <= screen_x_end && screen_y_start
                            <= cell % 240 < screen_y_start + (y - y_offset)));
                    }
                }
            }
            y = y + 1;
        }
        proof {
            reveal(tile_cells_drawn);
            assert(tile_cells_drawn::<M>(
                p0,
                self@.bg_output,
                self@.pixel_greyscale,
                mp,
                state_idx as int,
                nametable,
                tile_x,
                tile_y,
                screen_x_start,
                screen_y_start,
                screen_x_end,
                screen_y_end,
                x_offset,
                y_offset,
            ));
        }
        Ok(())
    }
}

/// The fixed 64-entry palette, as red, green, blue byte triples.
pub const PALETTE: [u8; 192] = [
    124, 124, 124, 0, 0, 252, 0, 0, 188, 68, 40, 188, 148, 0, 132, 168, 0, 32, 168, 16, 0, 136,
    20, 0, 80, 48, 0, 0, 120, 0, 0, 104, 0, 0, 88, 0, 0, 64, 88, 0, 0, 0, 0, 0, 0, 0, 0, 0, 188,
    188, 188, 0, 120, 248, 0, 88, 248, 104, 68, 252, 216, 0, 204, 228, 0, 88, 248, 56, 0, 228,
    92, 16, 172, 124, 0, 0, 184, 0, 0, 168, 0, 0, 168, 68, 0, 136, 136, 0, 0, 0, 0, 0, 0, 0, 0,
    0, 248, 248, 248, 60, 188, 252, 104, 136, 252, 152, 120, 248, 248, 120, 248, 248, 88, 152,
    248, 120, 88, 252, 160, 68, 248, 184, 0, 184, 248, 24, 88, 216, 84, 88, 248, 152, 0, 232,
    216, 120, 120, 120, 0, 0, 0, 0, 0, 0, 252, 252, 252, 164, 228, 252, 184, 184, 248, 216, 184,
    248, 248, 184, 248, 248, 164, 192, 240, 208, 176, 252, 224, 168, 248, 216, 120, 216, 248,
    120, 184, 248, 184, 184, 248, 216, 0, 252, 252, 248, 216, 248, 0, 0, 0, 0, 0, 0,
];

/// Builds a buffer of `n` copies of `t`.
pub fn filled<T: Copy>(n: usize, t: T) -> (v: Vec<T>)
    ensures
        v@ == Seq::new(n as nat, |i: int| t),
{
    let mut v: Vec<T> = Vec::new();
    while v.len() < n
        invariant
            v@.len() <= n,
            forall|i: int| 0 <= i < v@.len() ==> v@[i] == t,
        decreases n - v@.len(),
    {
        v.push(t);
    }
    proof {
        assert(v@ =~= Seq::<T>::new(n as nat, |i: int| t));
    }
    v
}

/// The power-on register state.
pub open spec fn init_regs(horiz_mapping: bool) -> PpuRegs {
    PpuRegs {
        horiz_mapping,
        oamaddr: 0,
        ppuscroll_x: 0,
        ppuscroll_y: 0,
        ppuscroll_ppuaddr_pick: false,
        ppuaddr_hi: 0,
        ppuaddr_lo: 0,
        nametable: 0,
        vram_inc: 0,
        spritetable: 0,
        backgroundtable: 0,
        sprite_size: 0,
        ppu_mss: false,
        generate_nmi: false,
        ppu_chr_rom_delay_buffer: 0,
        greyscale: false,
        mask_left_background: false,
        mask_left_sprites: false,
        show_background: false,
        show_sprites: false,
        em_red: false,
        em_green: false,
        em_blue: false,
        sprite_overflow: false,
        sprite_0_hit: false,
        vertical_blanking: false,
        has_blanked: false,
        has_drawn_sprite0_background: false,
    }
}

/// One chunk of direct-memory transfer: the first `n` bytes read from CPU
/// space starting at `base`, or the first fault met.
pub open spec fn dma_bytes<M: Mapper>(mem: MemoryView, mp: M::V, base: u16, n: nat) -> Result<
    Seq<u8>,
    EmuError,
>
    decreases n,
{
    if n == 0 {
        Ok(Seq::empty())
    } else {
        match dma_bytes::<M>(mem, mp, base, (n - 1) as nat) {
            Ok(s) => match <Memory as Mem<M>>::read_spec(mem, mp, (base + n - 1) as u16) {
                Ok(v) => Ok(s.push(v)),
                Err(e) => Err(e),
            },
            Err(e) => Err(e),
        }
    }
}

/// One attribute-memory transfer as a single step: 256 bytes from CPU page
/// `val` land in attribute memory starting at the current attribute address
/// with wrap-around, and the CPU pays 513 cycles, or 514 when its counter
/// was odd.  A faulting read charges the cycles but leaves the memory
/// untouched.
pub open spec fn dma_step<M: Mapper>(p: PpuView, mem: MemoryView, mp: M::V, val: u8, c: Cpu) -> (
    PpuView,
    Cpu,
    Result<(), EmuError>,
) {
    let base = ((val as u16) * 0x100) as u16;
    let c2 = Cpu { count: (c.count + 513 + c.count % 2) as u32, ..c };
    match dma_bytes::<M>(mem, mp, base, 256) {
        Ok(bytes) => (
            PpuView { oam: Seq::new(256, |j: int| bytes[(j - p.regs.oamaddr) % 256]), ..p },
            c2,
            Ok(()),
        ),
        Err(e) => (p, c2, Err(e)),
    }
}

/// A fault anywhere in a transfer prefix poisons every longer prefix.
proof fn lemma_dma_err<M: Mapper>(mem: MemoryView, mp: M::V, base: u16, k: nat, n: nat, e: EmuError)
    requires
        dma_bytes::<M>(mem, mp, base, k) == Err::<Seq<u8>, EmuError>(e),
        k <= n,
    ensures
        dma_bytes::<M>(mem, mp, base, n) == Err::<Seq<u8>, EmuError>(e),
    decreases n,
{
    if n > k {
        lemma_dma_err::<M>(mem, mp, base, k, (n - 1) as nat, e);
    }
}

/// The power-on picture processor model: every buffer zeroed, every
/// register clear, the mid-frame log empty.
pub open spec fn init_ppu_view(horiz_mapping: bool) -> PpuView {
    PpuView {
        regs: init_regs(horiz_mapping),
        vram: Seq::new(2048, |i: int| 0u8),
        palette_ram: Seq::new(32, |i: int| 0u8),
        oam: Seq::new(256, |i: int| 0u8),
        frame: Seq::new(245760, |i: int| 0u8),
        sprite_output: Seq::new(61440, |i: int| 0u16),
        bg_output: Seq::new(61440, |i: int| 0u16),
        sprite_priority: Seq::new(61440, |i: int| false),
        pixel_greyscale: Seq::new(61440, |i: int| false),
        states: Seq::empty(),
    }
}

impl Ppu {
    /// The power-on picture processor.
    pub fn new(horiz_mapping: bool) -> (p: Ppu)
        ensures
            ppu_wf(p@),
            p@ == init_ppu_view(horiz_mapping),
    {
        let p = Ppu {
            regs: PpuRegs {
                horiz_mapping,
                oamaddr: 0,
                ppuscroll_x: 0,
                ppuscroll_y: 0,
                ppuscroll_ppuaddr_pick: false,
                ppuaddr_hi: 0,
                ppuaddr_lo: 0,
                nametable: 0,
                vram_inc: 0,
                spritetable: 0,
                backgroundtable: 0,
                sprite_size: 0,
                ppu_mss: false,
                generate_nmi: false,
                ppu_chr_rom_delay_buffer: 0,
                greyscale: false,
                mask_left_background: false,
                mask_left_sprites: false,
                show_background: false,
                show_sprites: false,
                em_red: false,
                em_green: false,
                em_blue: false,
                sprite_overflow: false,
                sprite_0_hit: false,
                vertical_blanking: false,
                has_blanked: false,
                has_drawn_sprite0_background: false,
            },
            vram: filled(2048, 0u8),
            palette_ram: filled(32, 0u8),
            oam: filled(256, 0u8),
            frame: filled(245760, 0u8),
            sprite_output: filled(61440, 0u16),
            bg_output: filled(61440, 0u16),
            sprite_priority: filled(61440, false),
            pixel_greyscale: filled(61440, false),
            states: Vec::new(),
        };
        proof {
            assert(p@.states =~= Seq::<MidframeState>::empty());
        }
        p
    }

    /// Serves one attribute-memory transfer request.
    pub fn ppudma<M: Mapper>(
        &mut self,
        mapper: &M,
        val: u8,
        cpu: &mut Cpu,
        mem: &Memory,
    ) -> (r: Result<(), EmuError>)
        requires
            ppu_wf(old(self)@),
            mapper.inv(),
            <Memory as Mem<M>>::inv(mem),
            old(cpu).count <= 0xF000_0000,
        ensures
            ppu_wf(final(self)@),
            (final(self)@, *final(cpu), r) == dma_step::<M>(
                old(self)@,
                mem@,
                mapper@,
                val,
                *old(cpu),
            ),
    {
        let extra: u32 = 513 + cpu.count % 2;
        *cpu = Cpu { count: cpu.count + extra, ..*cpu };
        let base: u16 = (val as u16) * 0x100;
        let ghost memv = mem@;
        let ghost mpv = mapper@;
        let mut buf: Vec<u8> = Vec::new();
        let mut i: usize = 0;
        while i < 256
            invariant
                i == buf@.len(),
                i <= 256,
                base == (val as u16) * 0x100,
                memv == mem@,
                mpv == mapper@,
                self@ == old(self)@,
                ppu_wf(self@),
                *cpu == (Cpu {
                    count: (old(cpu).count + 513 + old(cpu).count % 2) as u32,
                    ..*old(cpu)
                }),
                <Memory as Mem<M>>::inv(mem),
                mapper.inv(),
                dma_bytes::<M>(memv, mpv, base, i as nat) == Ok::<Seq<u8>, EmuError>(buf@),
            decreases 256 - i,
        {
            match mem.read(mapper, base + i as u16) {
                Ok(v) => {
                    buf.push(v);
                },
                Err(e) => {
                    proof {
                        assert(dma_bytes::<M>(memv, mpv, base, (i + 1) as nat) == Err::<
                            Seq<u8>,
                            EmuError,
                        >(e));
                        lemma_dma_err::<M>(memv, mpv, base, (i + 1) as nat, 256, e);
                    }
                    return Err(e);
                },
            }
            i = i + 1;
        }
        let ghost bytes = buf@;
        let mut new_oam: Vec<u8> = Vec::new();
        let mut j: usize = 0;
        while j < 256
            invariant
                j == new_oam@.len(),
                j <= 256,
                buf@ == bytes,
                bytes.len() == 256,
                self@ == old(self)@,
                ppu_wf(self@),
                *cpu == (Cpu {
                    count: (old(cpu).count + 513 + old(cpu).count % 2) as u32,
                    ..*old(cpu)
                }),
                dma_bytes::<M>(mem@, mapper@, base, 256) == Ok::<Seq<u8>, EmuError>(bytes),
                base == (val as u16) * 0x100,
                forall|k: int|
                    0 <= k < j ==> new_oam@[k] == bytes[(k - self.regs.oamaddr) % 256],
            decreases 256 - j,
        {
            let idx: usize = (j + 256 - self.regs.oamaddr as usize) % 256;
            proof {
                assert(idx == (j - self.regs.oamaddr) % 256);
            }
            new_oam.push(buf[idx]);
            j = j + 1;
        }
        proof {
            assert(new_oam@ =~= Seq::new(
                256,
                |j: int| bytes[(j - old(self)@.regs.oamaddr) % 256],
            ));
        }
        self.oam = new_oam;
        Ok(())
    }

    /// Advances the blanking state machine to the CPU's current cycle, and
    /// runs the incremental sprite-zero test while the scan position sits in
    /// the first sprite's rows.  Entering blanking raises the CPU's pending
    /// interrupt when enabled; nothing else about the CPU changes.
    #[verifier::rlimit(100)]
    #[verifier::spinoff_prover]
    pub fn tick<M: Mapper>(&mut self, cpu: &mut Cpu, mapper: &M) -> (r: Result<(), EmuError>)
        requires
            ppu_wf(old(self)@),
            mapper.inv(),
        ensures
            ppu_wf(final(self)@),
            tick_post::<M>(old(self)@, *old(cpu), mapper@, final(self)@, *final(cpu), r),
    {
        self.tick_control(cpu);
        let ghost p2 = self@;
        let s0y: u16 = self.oam[self.regs.oamaddr as usize] as u16 + 1;
        let y: u32 = ((cpu.count as u64) * 3 / 341) as u32;
        proof {
            assert(y == scan_y(cpu.count));
        }
        if self.regs.show_sprites && self.regs.show_background && !self.regs.sprite_0_hit && (y
            as u64) >= s0y as u64 + VBL as u64 + 1 && (y as u64) < s0y as u64 + VBL as u64 + 9 {
            self.sprite0_scan(cpu.count, mapper)
        } else {
            Ok(())
        }
    }
}

impl Ppu {
    /// Draws the band `[state_start_y, state_end_y]` of the frame under the
    /// snapshot at `state_idx`: the four name-table quadrants composited by
    /// the snapshot's scroll, then all 64 sprites in attribute order, where
    /// an earlier sprite's opaque pixel is never overwritten.  Touches only
    /// the four working grids.
    #[verifier::rlimit(100)]
    #[verifier::spinoff_prover]
    pub fn draw_with_state<M: Mapper>(
        &mut self,
        state_idx: usize,
        state_start_y: u16,
        state_end_y: u16,
        mapper: &M,
    ) -> (r: Result<(), EmuError>)
        requires
            ppu_wf(old(self)@),
            mapper.inv(),
            state_idx < old(self)@.states.len(),
            state_start_y <= state_end_y <= 239,
        ensures
            ppu_wf(final(self)@),
            grids_only(old(self)@, final(self)@),
            band_clipped(old(self)@, final(self)@, state_start_y, state_end_y),
            sprite_first_wins(old(self)@, final(self)@),
            pattern_reads_total::<M>(mapper@) ==> r matches Ok(_),
            r matches Ok(_) ==> band_bg_drawn::<M>(
                old(self)@,
                final(self)@.bg_output,
                final(self)@.pixel_greyscale,
                mapper@,
                state_idx as int,
                state_start_y,
                state_end_y,
            ),
            r matches Ok(_) ==> band_sprites_drawn::<M>(
                old(self)@,
                final(self)@,
                mapper@,
                state_idx as int,
                state_start_y,
                state_end_y,
                64,
            ),
    {
        let ghost p0 = self@;
        let ghost mp = mapper@;
        let sx: u16 = self.states[state_idx].ppuscroll_x as u16;
        let sy: u16 = self.states[state_idx].ppuscroll_y as u16;
        let base_nt: u8 = self.states[state_idx].nametable;
        let (bx, by): (u16, u16) = if base_nt == 0 {
            (0, 0)
        } else if base_nt == 1 {
            (1, 0)
        } else if base_nt == 2 {
            (0, 1)
        } else {
            (1, 1)
        };
        let show_bg: bool = self.states[state_idx].show_background;
        let mut screen_x: u16 = 0;
        while screen_x < 33
            invariant
                p0 == old(self)@,
                ppu_wf(self@),
                grids_only(p0, self@),
                band_clipped(p0, self@, state_start_y, state_end_y),
                sprite_first_wins(p0, self@),
                self@.sprite_output == p0.sprite_output,
                self@.sprite_priority == p0.sprite_priority,
                mp == mapper@,
                mapper.inv(),
                state_idx < self@.states.len(),
                state_start_y <= state_end_y <= 239,
                sx <= 255,
                sy <= 255,
                bx <= 1,
                by <= 1,
                sx == p0.states[state_idx as int].ppuscroll_x,
                sy == p0.states[state_idx as int].ppuscroll_y,
                (bx, by) == base_quadrant(p0.states[state_idx as int].nametable),
                show_bg == p0.states[state_idx as int].show_background,
                !show_bg ==> self@.bg_output == p0.bg_output,
                screen_x <= 33,
                forall|k2: int, g2: int|
                    0 <= k2 < screen_x && state_start_y / 8 <= g2 <= state_end_y / 8 + 1
                        && #[trigger] tile_visible(
                        p0.states[state_idx as int],
                        state_start_y,
                        state_end_y,
                        k2,
                        g2,
                    ) ==> ({
                        let a2 = tile_args(
                            p0.states[state_idx as int],
                            state_start_y,
                            state_end_y,
                            k2,
                            g2,
                        );
                        tile_cells_drawn::<M>(
                            p0,
                            self@.bg_output,
                            self@.pixel_greyscale,
                            mp,
                            state_idx as int,
                            a2.0,
                            a2.1,
                            a2.2,
                            a2.3,
                            a2.4,
                            a2.5,
                            a2.6,
                            a2.7,
                            a2.8,
                        )
                    }),
            decreases 33 - screen_x,
        {
            let mut screen_y: u16 = state_start_y / 8;
            while screen_y <= state_end_y / 8 + 1
                invariant
                    p0 == old(self)@,
                    ppu_wf(self@),
                    grids_only(p0, self@),
                    band_clipped(p0, self@, state_start_y, state_end_y),
                    sprite_first_wins(p0, self@),
                    self@.sprite_output == p0.sprite_output,
                    self@.sprite_priority == p0.sprite_priority,
                    mp == mapper@,
                    mapper.inv(),
                    state_idx < self@.states.len(),
                    state_start_y <= state_end_y <= 239,
                    sx == p0.states[state_idx as int].ppuscroll_x,
                    sy == p0.states[state_idx as int].ppuscroll_y,
                    (bx, by) == base_quadrant(p0.states[state_idx as int].nametable),
                    show_bg == p0.states[state_idx as int].show_background,
                    !show_bg ==> self@.bg_output == p0.bg_output,
                    forall|k2: int, g2: int|
                        0 <= k2 < 33 && state_start_y / 8 <= g2 <= state_end_y / 8 + 1 && (k2
                            < screen_x || (k2 == screen_x && g2 < screen_y))
                            && #[trigger] tile_visible(
                            p0.states[state_idx as int],
                            state_start_y,
                            state_end_y,
                            k2,
                            g2,
                        ) ==> ({
                            let a2 = tile_args(
                                p0.states[state_idx as int],
                                state_start_y,
                                state_end_y,
                                k2,
                                g2,
                            );
                            tile_cells_drawn::<M>(
                                p0,
                                self@.bg_output,
                                self@.pixel_greyscale,
                                mp,
                                state_idx as int,
                                a2.0,
                                a2.1,
                                a2.2,
                                a2.3,
                                a2.4,
                                a2.5,
                                a2.6,
                                a2.7,
                                a2.8,
                            )
                        }),
                    sx <= 255,
                    sy <= 255,
                    bx <= 1,
                    by <= 1,
                    screen_x <= 32,
                    state_start_y / 8 <= screen_y,
                    screen_y <= state_end_y / 8 + 2,
                decreases state_end_y / 8 + 2 - screen_y,
            {
                let wide_x: u16 = (sx / 8 + screen_x + 32 * bx) % 64;
                let wide_y: u16 = (sy / 8 + screen_y + 30 * by) % 60;
                let n: u8 = ((wide_x / 32) + 2 * (wide_y / 30)) as u8;
                let tile_x: u16 = wide_x % 32;
                let tile_y: u16 = wide_y % 30;
                let (start_x, off_x): (u16, u16) = if screen_x == 0 {
                    (0, sx % 8)
                } else {
                    (screen_x * 8 - sx % 8, 0)
                };
                if screen_y * 8 + 8 - sy % 8 <= state_start_y {
                    proof {
                        assert(!tile_visible(
                            p0.states[state_idx as int],
                            state_start_y,
                            state_end_y,
                            screen_x as int,
                            screen_y as int,
                        ));
                    }
                    screen_y = screen_y + 1;
                    continue ;
                }
                let (start_y, off_y): (u16, u16) = if screen_y * 8 <= state_start_y + sy % 8 {
                    (state_start_y, state_start_y + sy % 8 - screen_y * 8)
                } else {
                    (screen_y * 8 - sy % 8, 0)
                };
                let ex: u16 = screen_x * 8 + 8 - sx % 8 - 1;
                let end_x: u16 = if ex < 255 {
                    ex
                } else {
                    255
                };
                let ey: u16 = screen_y * 8 + 8 - sy % 8 - 1;
                let end_y: u16 = if ey < state_end_y {
                    ey
                } else {
                    state_end_y
                };
                if start_x > end_x || start_y > end_y {
                    proof {
                        let a9 = tile_args(
                            p0.states[state_idx as int],
                            state_start_y,
                            state_end_y,
                            screen_x as int,
                            screen_y as int,
                        );
                        assert(start_x == a9.3);
                        assert(start_y == a9.4);
                        assert(end_x == a9.5);
                        assert(end_y == a9.6);
                        assert(!tile_visible(
                            p0.states[state_idx as int],
                            state_start_y,
                            state_end_y,
                            screen_x as int,
                            screen_y as int,
                        ));
                    }
                    screen_y = screen_y + 1;
                    continue ;
                }
                let ghost before = self@;
                let res = self.draw_tile(
                    state_idx,
                    n,
                    tile_x,
                    tile_y,
                    start_x,
                    start_y,
                    end_x,
                    end_y,
                    off_x,
                    off_y,
                    Ghost(p0),
                    mapper,
                );
                proof {
                    let st = p0.states[state_idx as int];
                    assert((n, tile_x, tile_y, start_x, start_y, end_x, end_y, off_x, off_y)
                        == tile_args(
                        st,
                        state_start_y,
                        state_end_y,
                        screen_x as int,
                        screen_y as int,
                    ));
                    assert(tile_visible(
                        st,
                        state_start_y,
                        state_end_y,
                        screen_x as int,
                        screen_y as int,
                    ));
                    if res matches Ok(_) {
                        assert(tile_cells_drawn::<M>(
                            p0,
                            self@.bg_output,
                            self@.pixel_greyscale,
                            mp,
                            state_idx as int,
                            n,
                            tile_x,
                            tile_y,
                            start_x,
                            start_y,
                            end_x,
                            end_y,
                            off_x,
                            off_y,
                        ));
                        if !show_bg {
                            lemma_hidden_bg_unchanged::<M>(
                                p0,
                                before.bg_output,
                                self@.bg_output,
                                self@.pixel_greyscale,
                                mp,
                                state_idx as int,
                                n,
                                tile_x,
                                tile_y,
                                start_x,
                                start_y,
                                end_x,
                                end_y,
                                off_x,
                                off_y,
                            );
                        }
                        lemma_band_tile_advance::<M>(
                            p0,
                            before.bg_output,
                            before.pixel_greyscale,
                            self@.bg_output,
                            self@.pixel_greyscale,
                            mp,
                            state_idx as int,
                            state_start_y,
                            state_end_y,
                            screen_x as int,
                            screen_y as int,
                        );
                    }
                    assert forall|c2: int|
                        0 <= c2 < 61440 && !(state_start_y <= c2 % 240
                            <= state_end_y) implies self@.bg_output[c2] == p0.bg_output[c2]
                        && self@.pixel_greyscale[c2] == p0.pixel_greyscale[c2]
                        && self@.sprite_output[c2] == p0.sprite_output[c2]
                        && self@.sprite_priority[c2] == p0.sprite_priority[c2] by {
                        assert(!(start_y <= c2 % 240 <= end_y));
                        assert(self@.bg_output[c2] == before.bg_output[c2]
                            && self@.pixel_greyscale[c2] == before.pixel_greyscale[c2]);
                        assert(before.bg_output[c2] == p0.bg_output[c2]
                            && before.pixel_greyscale[c2] == p0.pixel_greyscale[c2]
                            && before.sprite_output[c2] == p0.sprite_output[c2]
                            && before.sprite_priority[c2] == p0.sprite_priority[c2]);
                    }
                    assert forall|c2: int|
                        0 <= c2 < 61440 && p0.sprite_output[c2] != 0 implies self@.sprite_output[
                        c2] == p0.sprite_output[c2] && self@.sprite_priority[c2]
                        == p0.sprite_priority[c2] by {
                        assert(sprite_first_wins(p0, before));
                        assert(before.sprite_output[c2] == p0.sprite_output[c2]
                            && before.sprite_priority[c2] == p0.sprite_priority[c2]);
                    }
                }
                if let Err(e) = res {
                    return Err(e);
                }
                screen_y = screen_y + 1;
            }
            screen_x = screen_x + 1;
        }
        let ghost bg_mid = self@.bg_output;
        let ghost grey_mid = self@.pixel_greyscale;
        proof {
            reveal(band_bg_drawn);
            assert(band_bg_drawn::<M>(
                p0,
                bg_mid,
                grey_mid,
                mp,
                state_idx as int,
                state_start_y,
                state_end_y,
            ));
        }
        let show: bool = self.states[state_idx].show_sprites;
        proof {
            reveal(first_sprite_pixel);
            reveal(band_sprites_drawn);
            assert(band_sprites_drawn::<M>(
                p0,
                self@,
                mp,
                state_idx as int,
                state_start_y,
                state_end_y,
                0,
            ));
        }
        let mut s: u8 = 0;
        while s < 64
            invariant
                p0 == old(self)@,
                mp == mapper@,
                ppu_wf(self@),
                grids_only(p0, self@),
                band_clipped(p0, self@, state_start_y, state_end_y),
                sprite_first_wins(p0, self@),
                mapper.inv(),
                state_idx < p0.states.len(),
                state_start_y <= state_end_y <= 239,
                show == p0.states[state_idx as int].show_sprites,
                s <= 64,
                self@.bg_output == bg_mid,
                self@.pixel_greyscale == grey_mid,
                band_bg_drawn::<M>(
                    p0,
                    bg_mid,
                    grey_mid,
                    mp,
                    state_idx as int,
                    state_start_y,
                    state_end_y,
                ),
                band_sprites_drawn::<M>(
                    p0,
                    self@,
                    mp,
                    state_idx as int,
                    state_start_y,
                    state_end_y,
                    s as int,
                ),
            decreases 64 - s,
        {
            let res = self.draw_sprite(s, state_idx, state_start_y, state_end_y, Ghost(p0), mapper);
            if let Err(e) = res {
                return Err(e);
            }
            s = s + 1;
        }
        Ok(())
    }

    /// Draws one sprite of the band: its rows intersected with the band, a
    /// pixel only where the cell is still empty, honoring both flips.
    /// Extends the first-match fold by exactly this sprite.
    #[verifier::rlimit(100)]
    #[verifier::spinoff_prover]
    fn draw_sprite<M: Mapper>(
        &mut self,
        s: u8,
        state_idx: usize,
        state_start_y: u16,
        state_end_y: u16,
        base: Ghost<PpuView>,
        mapper: &M,
    ) -> (r: Result<(), EmuError>)
        requires
            ppu_wf(old(self)@),
            mapper.inv(),
            s < 64,
            state_idx < base@.states.len(),
            state_start_y <= state_end_y <= 239,
            grids_only(base@, old(self)@),
            band_clipped(base@, old(self)@, state_start_y, state_end_y),
            sprite_first_wins(base@, old(self)@),
            band_sprites_drawn::<M>(
                base@,
                old(self)@,
                mapper@,
                state_idx as int,
                state_start_y,
                state_end_y,
                s as int,
            ),
        ensures
            ppu_wf(final(self)@),
            grids_only(base@, final(self)@),
            band_clipped(base@, final(self)@, state_start_y, state_end_y),
            sprite_first_wins(base@, final(self)@),
            final(self)@.bg_output == old(self)@.bg_output,
            final(self)@.pixel_greyscale == old(self)@.pixel_greyscale,
            pattern_reads_total::<M>(mapper@) ==> r matches Ok(_),
            r matches Ok(_) ==> band_sprites_drawn::<M>(
                base@,
                final(self)@,
                mapper@,
                state_idx as int,
                state_start_y,
                state_end_y,
                s as int + 1,
            ),
    {
        let ghost p0 = base@;
        let ghost mp = mapper@;
        let show: bool = self.states[state_idx].show_sprites;
        proof {
            reveal(band_sprites_drawn);
            assert(show == p0.states[state_idx as int].show_sprites);
        }
            let attrs = self.get_sprite_attrs(s, state_idx);
            proof {
                assert(attrs == sprite_attrs_spec(p0, s, state_idx as int));
            }
            let (spr_x, spr_y, height, pattern_addr, palette, priority, fh, fv) = attrs;
            if spr_y >= 0xF0 || spr_y <= 2 || spr_y > state_end_y || spr_y + (height as u16)
                < state_start_y {
                proof {
                    reveal(band_sprites_drawn);
                    assert forall|cx: int, cy: int| true implies #[trigger] first_sprite_pixel::<
                        M,
                    >(
                        p0,
                        mp,
                        state_idx as int,
                        state_start_y,
                        state_end_y,
                        0,
                        s as int + 1,
                        cx,
                        cy,
                    ) == first_sprite_pixel::<M>(
                        p0,
                        mp,
                        state_idx as int,
                        state_start_y,
                        state_end_y,
                        0,
                        s as int,
                        cx,
                        cy,
                    ) by {
                        reveal(sprite_pixel_at);
                        assert(sprite_pixel_at::<M>(
                            p0,
                            mp,
                            state_idx as int,
                            state_start_y,
                            state_end_y,
                            s as int,
                            cx,
                            cy,
                        ) == None::<(u16, bool)>);
                        lemma_first_sprite_snoc::<M>(
                            p0,
                            mp,
                            state_idx as int,
                            state_start_y,
                            state_end_y,
                            0,
                            s as int,
                            cx,
                            cy,
                        );
                    }
                }
                return Ok(());
            }
            let bands: u16 = (height / 8) as u16;
            let hh: u16 = height as u16;
            proof {
                reveal(band_sprites_drawn);
                assert forall|cx: int, cy: int|
                    0 <= cx < 256 && state_start_y <= cy <= state_end_y
                        && p0.sprite_output[#[trigger] cell_of(cx, cy)] == 0
                        && show implies sprite_cell_matches::<M>(
                    p0,
                    self@,
                    mp,
                    state_idx as int,
                    state_start_y,
                    state_end_y,
                    s as int,
                    cx,
                    cy,
                ) by {}
                assert forall|cx: int, cy: int|
                    0 <= cx < 256 && state_start_y <= cy <= state_end_y
                        && p0.sprite_output[#[trigger] cell_of(cx, cy)] == 0
                        && !show implies self@.sprite_output[cell_of(cx, cy)] == 0
                    && self@.sprite_priority[cell_of(cx, cy)] == p0.sprite_priority[cell_of(
                    cx,
                    cy,
                )] by {}
                assert forall|cx: int, cy: int|
                    0 <= cx < 256 && state_start_y <= cy <= state_end_y
                        && p0.sprite_output[#[trigger] cell_of(cx, cy)] == 0 && show && cy
                        < spr_y implies sprite_cell_matches::<M>(
                    p0,
                    self@,
                    mp,
                    state_idx as int,
                    state_start_y,
                    state_end_y,
                    s as int + 1,
                    cx,
                    cy,
                ) by {
                    reveal(sprite_pixel_at);
                    lemma_first_sprite_snoc::<M>(
                        p0,
                        mp,
                        state_idx as int,
                        state_start_y,
                        state_end_y,
                        0,
                        s as int,
                        cx,
                        cy,
                    );
                }
            }
            let mut ry: u16 = 0;
            while ry < hh
                invariant
                    p0 == base@,
                    mp == mapper@,
                    self@.bg_output == old(self)@.bg_output,
                    self@.pixel_greyscale == old(self)@.pixel_greyscale,
                    ppu_wf(self@),
                    grids_only(p0, self@),
                    band_clipped(p0, self@, state_start_y, state_end_y),
                    sprite_first_wins(p0, self@),
                    mapper.inv(),
                    state_idx < p0.states.len(),
                    state_start_y <= state_end_y <= 239,
                    show == p0.states[state_idx as int].show_sprites,
                    s < 64,
                    (spr_x, spr_y, height, pattern_addr, palette, priority, fh, fv)
                        == sprite_attrs_spec(p0, s, state_idx as int),
                    hh == height,
                    bands == height / 8,
                    height == 8 || height == 16,
                    pattern_addr + 16 * (bands - 1) + 15 <= 0x1FFF,
                    palette + 3 <= 0x3F1F,
                    3 <= spr_y <= 239,
                    spr_y <= state_end_y,
                    spr_y + hh >= state_start_y,
                    ry <= hh,
                    forall|cx: int, cy: int|
                        0 <= cx < 256 && state_start_y <= cy <= state_end_y
                            && p0.sprite_output[#[trigger] cell_of(cx, cy)] == 0 ==> {
                            if show {
                                if cy < spr_y + ry {
                                    sprite_cell_matches::<M>(
                                        p0,
                                        self@,
                                        mp,
                                        state_idx as int,
                                        state_start_y,
                                        state_end_y,
                                        s as int + 1,
                                        cx,
                                        cy,
                                    )
                                } else {
                                    sprite_cell_matches::<M>(
                                        p0,
                                        self@,
                                        mp,
                                        state_idx as int,
                                        state_start_y,
                                        state_end_y,
                                        s as int,
                                        cx,
                                        cy,
                                    )
                                }
                            } else {
                                self@.sprite_output[cell_of(cx, cy)] == 0
                                    && self@.sprite_priority[cell_of(cx, cy)]
                                    == p0.sprite_priority[cell_of(cx, cy)]
                            }
                        },
                decreases hh - ry,
            {
                let q: u16 = if fv {
                    hh - 1 - ry
                } else {
                    ry
                };
                proof {
                    assert(ppu_read_spec::<M>(
                        self@,
                        mp,
                        ((pattern_addr + 16 * (q / 8) + q % 8) as u16),
                    ) == ppu_read_spec::<M>(p0, mp, ((pattern_addr + 16 * (q / 8) + q % 8) as u16)));
                    assert(ppu_read_spec::<M>(
                        self@,
                        mp,
                        ((pattern_addr + 16 * (q / 8) + q % 8 + 8) as u16),
                    ) == ppu_read_spec::<M>(
                        p0,
                        mp,
                        ((pattern_addr + 16 * (q / 8) + q % 8 + 8) as u16),
                    ));
                }
                let lo = match <Ppu as Mem<M>>::read(self, mapper, pattern_addr + 16 * (q / 8) + q
                    % 8) {
                    Ok(v) => v,
                    Err(e) => {
                        proof {
                            if pattern_reads_total::<M>(mp) {
                                lemma_ppu_read_total::<M>(
                                    self@,
                                    mp,
                                    ((pattern_addr + 16 * (q / 8) + q % 8) as u16),
                                );
                            }
                        }
                        return Err(e);
                    },
                };
                let hi = match <Ppu as Mem<M>>::read(self, mapper, pattern_addr + 16 * (q / 8) + q
                    % 8 + 8) {
                    Ok(v) => v,
                    Err(e) => {
                        proof {
                            if pattern_reads_total::<M>(mp) {
                                lemma_ppu_read_total::<M>(
                                    self@,
                                    mp,
                                    ((pattern_addr + 16 * (q / 8) + q % 8 + 8) as u16),
                                );
                            }
                        }
                        return Err(e);
                    },
                };
                let rrow: u16 = spr_y + ry;
                if state_start_y <= rrow && rrow <= state_end_y {
                    let mut dx: u16 = 0;
                    while dx < 8
                        invariant
                            p0 == base@,
                            mp == mapper@,
                            self@.bg_output == old(self)@.bg_output,
                            self@.pixel_greyscale == old(self)@.pixel_greyscale,
                            ppu_wf(self@),
                            grids_only(p0, self@),
                            band_clipped(p0, self@, state_start_y, state_end_y),
                            sprite_first_wins(p0, self@),
                            state_idx < p0.states.len(),
                            state_start_y <= state_end_y <= 239,
                            show == p0.states[state_idx as int].show_sprites,
                            s < 64,
                            (spr_x, spr_y, height, pattern_addr, palette, priority, fh, fv)
                                == sprite_attrs_spec(p0, s, state_idx as int),
                            hh == height,
                            height == 8 || height == 16,
                            palette + 3 <= 0x3F1F,
                            3 <= spr_y <= 239,
                            ry < hh,
                            rrow == spr_y + ry,
                            state_start_y <= rrow <= state_end_y,
                            q == (if fv {
                                hh - 1 - ry
                            } else {
                                ry as int
                            }),
                            lo == read_ok::<M>(
                                p0,
                                mp,
                                ((pattern_addr + 16 * (q / 8) + q % 8) as u16),
                            ),
                            hi == read_ok::<M>(
                                p0,
                                mp,
                                ((pattern_addr + 16 * (q / 8) + q % 8 + 8) as u16),
                            ),
                            dx <= 8,
                            forall|cx: int, cy: int|
                                0 <= cx < 256 && state_start_y <= cy <= state_end_y
                                    && p0.sprite_output[#[trigger] cell_of(cx, cy)] == 0 ==> {
                                    if show {
                                        if cy < spr_y + ry || (cy == rrow && spr_x <= cx < spr_x + dx) {
                                            sprite_cell_matches::<M>(
                                                p0,
                                                self@,
                                                mp,
                                                state_idx as int,
                                                state_start_y,
                                                state_end_y,
                                                s as int + 1,
                                                cx,
                                                cy,
                                            )
                                        } else {
                                            sprite_cell_matches::<M>(
                                                p0,
                                                self@,
                                                mp,
                                                state_idx as int,
                                                state_start_y,
                                                state_end_y,
                                                s as int,
                                                cx,
                                                cy,
                                            )
                                        }
                                    } else {
                                        self@.sprite_output[cell_of(cx, cy)] == 0
                                            && self@.sprite_priority[cell_of(cx, cy)]
                                            == p0.sprite_priority[cell_of(cx, cy)]
                                    }
                                },
                        decreases 8 - dx,
                    {
                        let cxx: u16 = spr_x as u16 + dx;
                        if cxx <= 255 {
                            let cell: usize = cxx as usize * 240 + rrow as usize;
                            proof {
                                assert(cell == cell_of(cxx as int, rrow as int));
                            }
                            let bitpos: u8 = if fh {
                                dx as u8
                            } else {
                                (7 - dx) as u8
                            };
                            let lo_bit: u8 = (lo >> bitpos) & 1;
                            let hi_bit: u8 = (hi >> bitpos) & 1;
                            proof {
                                assert((lo >> bitpos) & 1 <= 1 && (hi >> bitpos) & 1 <= 1)
                                    by (bit_vector);
                            }
                            let bits: u16 = lo_bit as u16 + 2 * (hi_bit as u16);
                            let ghost spx = sprite_pixel_at::<M>(
                                p0,
                                mp,
                                state_idx as int,
                                state_start_y,
                                state_end_y,
                                s as int,
                                cxx as int,
                                rrow as int,
                            );
                            proof {
                                reveal(sprite_pixel_at);
                                assert(spx == (if bits != 0 {
                                    Some((((bits + palette) as u16), priority))
                                } else {
                                    None::<(u16, bool)>
                                }));
                                lemma_first_sprite_snoc::<M>(
                                    p0,
                                    mp,
                                    state_idx as int,
                                    state_start_y,
                                    state_end_y,
                                    0,
                                    s as int,
                                    cxx as int,
                                    rrow as int,
                                );
                                lemma_first_sprite_nonzero::<M>(
                                    p0,
                                    mp,
                                    state_idx as int,
                                    state_start_y,
                                    state_end_y,
                                    0,
                                    s as int,
                                    cxx as int,
                                    rrow as int,
                                );
                            }
                            if self.sprite_output[cell] == 0 {
                                if bits != 0 && show {
                                    self.sprite_pixel_write(
                                        cell,
                                        Ghost(p0),
                                        state_start_y,
                                        state_end_y,
                                        cxx,
                                        rrow,
                                        bits + palette,
                                        priority,
                                    );
                                }
                            }
                            proof {
                                assert forall|cx: int, cy: int|
                                    0 <= cx < 256 && state_start_y <= cy <= state_end_y
                                        && p0.sprite_output[cell_of(cx, cy)] == 0 && show && (cy
                                        < spr_y + ry || (cy == rrow && spr_x <= cx < spr_x + dx
                                        + 1)) implies sprite_cell_matches::<M>(
                                    p0,
                                    self@,
                                    mp,
                                    state_idx as int,
                                    state_start_y,
                                    state_end_y,
                                    s as int + 1,
                                    cx,
                                    cy,
                                ) by {
                                    lemma_first_sprite_snoc::<M>(
                                        p0,
                                        mp,
                                        state_idx as int,
                                        state_start_y,
                                        state_end_y,
                                        0,
                                        s as int,
                                        cx,
                                        cy,
                                    );
                                    lemma_first_sprite_nonzero::<M>(
                                        p0,
                                        mp,
                                        state_idx as int,
                                        state_start_y,
                                        state_end_y,
                                        0,
                                        s as int,
                                        cx,
                                        cy,
                                    );
                                    if !(cx == cxx as int && cy == rrow as int) {
                                        reveal(sprite_pixel_at);
                                    }
                                }
                            }
                        } else {
                            proof {
                                assert forall|cx: int, cy: int|
                                    0 <= cx < 256 && state_start_y <= cy <= state_end_y
                                        && p0.sprite_output[cell_of(cx, cy)] == 0 && show && cy
                                        == rrow && spr_x + dx <= cx < spr_x + dx
                                        + 1 implies sprite_cell_matches::<M>(
                                    p0,
                                    self@,
                                    mp,
                                    state_idx as int,
                                    state_start_y,
                                    state_end_y,
                                    s as int + 1,
                                    cx,
                                    cy,
                                ) by {
                                    assert(cx > 255);
                                }
                            }
                        }
                        dx = dx + 1;
                    }
                    proof {
                        assert forall|cx: int, cy: int|
                            0 <= cx < 256 && state_start_y <= cy <= state_end_y
                                && p0.sprite_output[cell_of(cx, cy)] == 0 && show && cy
                                == rrow implies sprite_cell_matches::<M>(
                            p0,
                            self@,
                            mp,
                            state_idx as int,
                            state_start_y,
                            state_end_y,
                            s as int + 1,
                            cx,
                            cy,
                        ) by {
                            if !(spr_x <= cx < spr_x + 8) {
                                reveal(sprite_pixel_at);
                                lemma_first_sprite_snoc::<M>(
                                    p0,
                                    mp,
                                    state_idx as int,
                                    state_start_y,
                                    state_end_y,
                                    0,
                                    s as int,
                                    cx,
                                    cy,
                                );
                            }
                        }
                    }
                }
                ry = ry + 1;
            }
            proof {
                assert forall|cx: int, cy: int|
                    0 <= cx < 256 && state_start_y <= cy <= state_end_y
                        && p0.sprite_output[cell_of(cx, cy)] == 0 && show && cy >= spr_y
                        + hh implies sprite_cell_matches::<M>(
                    p0,
                    self@,
                    mp,
                    state_idx as int,
                    state_start_y,
                    state_end_y,
                    s as int + 1,
                    cx,
                    cy,
                ) by {
                    reveal(sprite_pixel_at);
                    lemma_first_sprite_snoc::<M>(
                        p0,
                        mp,
                        state_idx as int,
                        state_start_y,
                        state_end_y,
                        0,
                        s as int,
                        cx,
                        cy,
                    );
                }
                reveal(band_sprites_drawn);
                assert(band_sprites_drawn::<M>(
                    p0,
                    self@,
                    mp,
                    state_idx as int,
                    state_start_y,
                    state_end_y,
                    s as int + 1,
                ));
            }
        Ok(())
    }

    /// Rasterizes the frame: clears the working grids, replays the
    /// mid-frame log band by band, then composites background and sprites
    /// into the RGBA output, masking greyscale pixels and resolving sprite
    /// priority against the universal background colour.  The registers,
    /// memories and the log itself are left untouched.
    pub fn prepare_draw<M: Mapper>(&mut self, mapper: &M) -> (r: Result<(), EmuError>)
        requires
            ppu_wf(old(self)@),
            mapper.inv(),
        ensures
            ppu_wf(final(self)@),
            final(self)@ == (PpuView {
                bg_output: final(self)@.bg_output,
                pixel_greyscale: final(self)@.pixel_greyscale,
                sprite_output: final(self)@.sprite_output,
                sprite_priority: final(self)@.sprite_priority,
                frame: final(self)@.frame,
                ..old(self)@
            }),
            final(self)@.frame.len() == old(self)@.frame.len(),
            pattern_reads_total::<M>(mapper@) ==> r matches Ok(_),
            r matches Ok(_) ==> forall|cx: int, cy: int|
                0 <= cx < 256 && 0 <= cy < 240 ==> #[trigger] frame_pixel_set::<M>(
                    final(self)@,
                    final(self)@.frame,
                    mapper@,
                    cx,
                    cy,
                ),
    {
        let ghost p0 = self@;
        let ghost mp = mapper@;
        let mut cell: usize = 0;
        while cell < 61440
            invariant
                p0 == old(self)@,
                ppu_wf(self@),
                grids_only(p0, self@),
                mapper.inv(),
                cell <= 61440,
            decreases 61440 - cell,
        {
            self.set_sprite(cell, 0);
            self.set_bg(cell, 0);
            self.set_prio(cell, false);
            cell = cell + 1;
        }
        let mut i: usize = 0;
        while i < self.states.len()
            invariant
                p0 == old(self)@,
                ppu_wf(self@),
                grids_only(p0, self@),
                mapper.inv(),
                i <= self@.states.len(),
            decreases self@.states.len() - i,
        {
            let scan: u32 = ((self.states[i].count as u64) * 3 / 341) as u32;
            if scan < VBL || scan - VBL > 239 {
                i = i + 1;
                continue ;
            }
            let start_y: u16 = (scan - VBL) as u16;
            let end_y: u16 = if i + 1 < self.states.len() {
                let scan2: u32 = ((self.states[i + 1].count as u64) * 3 / 341) as u32;
                if scan2 < VBL {
                    240
                } else if scan2 - VBL < 1 {
                    1
                } else if scan2 - VBL > 240 {
                    240
                } else {
                    (scan2 - VBL) as u16
                }
            } else {
                240
            };
            if end_y <= start_y {
                i = i + 1;
                continue ;
            }
            let res = self.draw_with_state(i, start_y, end_y - 1, mapper);
            if let Err(e) = res {
                return Err(e);
            }
            i = i + 1;
        }
        self.composite_frame(mapper)
    }

    /// Composites the working grids into the RGBA output.
    #[verifier::rlimit(100)]
    #[verifier::spinoff_prover]
    fn composite_frame<M: Mapper>(&mut self, mapper: &M) -> (r: Result<(), EmuError>)
        requires
            ppu_wf(old(self)@),
            mapper.inv(),
        ensures
            ppu_wf(final(self)@),
            final(self)@ == (PpuView { frame: final(self)@.frame, ..old(self)@ }),
            final(self)@.frame.len() == old(self)@.frame.len(),
            pattern_reads_total::<M>(mapper@) ==> r matches Ok(_),
            r matches Ok(_) ==> forall|cx: int, cy: int|
                0 <= cx < 256 && 0 <= cy < 240 ==> #[trigger] frame_pixel_set::<M>(
                    final(self)@,
                    final(self)@.frame,
                    mapper@,
                    cx,
                    cy,
                ),
    {
        let ghost p0 = self@;
        let ghost mp = mapper@;
        let ghost pc = self@;
        let mut x: u16 = 0;
        while x < 256
            invariant
                p0 == old(self)@,
                mp == mapper@,
                ppu_wf(self@),
                self@ == (PpuView { frame: self@.frame, ..pc }),
                pc == p0,
                pc == (PpuView {
                    bg_output: pc.bg_output,
                    pixel_greyscale: pc.pixel_greyscale,
                    sprite_output: pc.sprite_output,
                    sprite_priority: pc.sprite_priority,
                    frame: pc.frame,
                    ..p0
                }),
                self@.frame.len() == p0.frame.len(),
                pc.frame.len() == p0.frame.len(),
                mapper.inv(),
                x <= 256,
                forall|cx: int, cy: int|
                    0 <= cx < x && 0 <= cy < 240 ==> #[trigger] frame_pixel_set::<M>(
                        pc,
                        self@.frame,
                        mp,
                        cx,
                        cy,
                    ),
            decreases 256 - x,
        {
            let mut y: u16 = 0;
            while y < 240
                invariant
                    p0 == old(self)@,
                    mp == mapper@,
                    ppu_wf(self@),
                    self@ == (PpuView { frame: self@.frame, ..pc }),
                    pc == p0,
                pc == (PpuView {
                        bg_output: pc.bg_output,
                        pixel_greyscale: pc.pixel_greyscale,
                        sprite_output: pc.sprite_output,
                        sprite_priority: pc.sprite_priority,
                        frame: pc.frame,
                        ..p0
                    }),
                    self@.frame.len() == p0.frame.len(),
                    pc.frame.len() == p0.frame.len(),
                    mapper.inv(),
                    x <= 255,
                    y <= 240,
                    forall|cx: int, cy: int|
                        0 <= cx < x && 0 <= cy < 240 ==> #[trigger] frame_pixel_set::<M>(
                            pc,
                            self@.frame,
                            mp,
                            cx,
                            cy,
                        ),
                    forall|cy: int|
                        0 <= cy < y ==> #[trigger] frame_pixel_set::<M>(
                            pc,
                            self@.frame,
                            mp,
                            x as int,
                            cy,
                        ),
                decreases 240 - y,
            {
                let ghost f0 = self@.frame;
                let cell: usize = x as usize * 240 + y as usize;
                proof {
                    assert(cell == cell_of(x as int, y as int));
                }
                let sprite: u16 = self.sprite_output[cell];
                let bg: u16 = self.bg_output[cell];
                let mask: u8 = if self.pixel_greyscale[cell] {
                    0x30
                } else {
                    0xFF
                };
                let p_idx: u16 = if sprite > 0 && (self.sprite_priority[cell] || bg == 0x3F00) {
                    sprite
                } else {
                    bg
                };
                proof {
                    assert(ppu_read_spec::<M>(self@, mp, p_idx) == ppu_read_spec::<M>(
                        pc,
                        mp,
                        p_idx,
                    ));
                }
                let raw = match <Ppu as Mem<M>>::read(self, mapper, p_idx) {
                    Ok(v) => v,
                    Err(e) => {
                        proof {
                            if pattern_reads_total::<M>(mp) {
                                lemma_ppu_read_total::<M>(self@, mp, p_idx);
                            }
                        }
                        return Err(e);
                    },
                };
                let hsv: usize = ((raw & mask) & 0x3F) as usize;
                proof {
                    assert((raw & mask) & 0x3F < 64) by (bit_vector);
                    assert(raw == read_ok::<M>(pc, mp, p_idx));
                }
                let base: usize = 4 * ((y as usize) * 256 + x as usize);
                self.set_frame(base, PALETTE[hsv * 3]);
                self.set_frame(base + 1, PALETTE[hsv * 3 + 1]);
                self.set_frame(base + 2, PALETTE[hsv * 3 + 2]);
                self.set_frame(base + 3, 0xFF);
                proof {
                    reveal(frame_pixel_set);
                    assert(frame_pixel_set::<M>(pc, self@.frame, mp, x as int, y as int));
                    assert forall|cx2: int, cy2: int|
                        (0 <= cx2 < x && 0 <= cy2 < 240) || (cx2 == x && 0 <= cy2
                            < y) implies frame_pixel_set::<M>(pc, self@.frame, mp, cx2, cy2) by {
                        assert(frame_pixel_set::<M>(pc, f0, mp, cx2, cy2));
                        let b2 = 4 * (cy2 * 256 + cx2);
                        assert(b2 + 3 < base || b2 > base + 3);
                        assert(self@.frame[b2] == f0[b2] && self@.frame[b2 + 1] == f0[b2 + 1]
                            && self@.frame[b2 + 2] == f0[b2 + 2] && self@.frame[b2 + 3] == f0[b2
                            + 3]);
                    }
                }
                y = y + 1;
            }
            x = x + 1;
        }
        proof {
            reveal(frame_pixel_set);
            assert forall|cx: int, cy: int|
                0 <= cx < 256 && 0 <= cy < 240 implies frame_pixel_set::<M>(
                self@,
                self@.frame,
                mp,
                cx,
                cy,
            ) by {
                assert(frame_pixel_set::<M>(pc, self@.frame, mp, cx, cy));
                assert(ppu_read_spec::<M>(self@, mp, (if pc.sprite_output[cell_of(cx, cy)] > 0 && (
                pc.sprite_priority[cell_of(cx, cy)] || pc.bg_output[cell_of(cx, cy)] == 0x3F00) {
                    pc.sprite_output[cell_of(cx, cy)]
                } else {
                    pc.bg_output[cell_of(cx, cy)]
                })) == ppu_read_spec::<M>(pc, mp, (if pc.sprite_output[cell_of(cx, cy)] > 0 && (
                pc.sprite_priority[cell_of(cx, cy)] || pc.bg_output[cell_of(cx, cy)] == 0x3F00) {
                    pc.sprite_output[cell_of(cx, cy)]
                } else {
                    pc.bg_output[cell_of(cx, cy)]
                })));
            }
        }
        Ok(())
    }

    fn set_frame(&mut self, i: usize, v: u8)
        requires
            i < old(self).frame@.len(),
        ensures
            final(self)@ == (PpuView { frame: old(self)@.frame.update(i as int, v), ..old(self)@ }),
    {
        self.frame[i] = v;
    }
}

/// A successful read of the picture processor's own bus, as a plain value;
/// only applied where the read is known to succeed.
pub open spec fn read_ok<M: Mapper>(p: PpuView, mp: M::V, a: u16) -> u8 {
    match ppu_read_spec::<M>(p, mp, a) {
        Ok(v) => v,
        Err(_) => 0,
    }
}

/// What the compositor writes for screen pixel `(cx, cy)`: the sprite
/// entry wins over the background when one is there and either its
/// priority allows it or the background shows the universal colour; a
/// greyscale pixel is masked to the grey column before the palette lookup;
/// and the four output bytes are the palette's colour with full alpha.
#[verifier::opaque]
pub open spec fn frame_pixel_set<M: Mapper>(
    pc: PpuView,
    q: Seq<u8>,
    mp: M::V,
    cx: int,
    cy: int,
) -> bool {
    let cell = cell_of(cx, cy);
    let sprite = pc.sprite_output[cell];
    let bg = pc.bg_output[cell];
    let mask: u8 = if pc.pixel_greyscale[cell] {
        0x30
    } else {
        0xFF
    };
    let p_idx = if sprite > 0 && (pc.sprite_priority[cell] || bg == 0x3F00) {
        sprite
    } else {
        bg
    };
    let hsv = ((read_ok::<M>(pc, mp, p_idx) & mask) & 0x3F) as int;
    let base = 4 * (cy * 256 + cx);
    &&& q[base] == PALETTE@[3 * hsv]
    &&& q[base + 1] == PALETTE@[3 * hsv + 1]
    &&& q[base + 2] == PALETTE@[3 * hsv + 2]
    &&& q[base + 3] == 0xFF
}

/// Whether pixel `px` of the first sprite's current pattern row is opaque
/// and lies, inside the canvas, over a background cell whose low two
/// palette bits are nonzero.
#[verifier::opaque]
pub open spec fn sprite0_pixel_hits(
    s0x: u8,
    s0y: int,
    py: int,
    lo: u8,
    hi: u8,
    grid: Seq<u16>,
    px: int,
) -> bool {
    let bit = (7 - px) as u8;
    let col = s0x + px;
    let row = s0y + py;
    &&& ((lo >> bit) & 1) + 2 * ((hi >> bit) & 1) != 0
    &&& col <= 255
    &&& row <= 239
    &&& grid[col * 240 + row] & 0b00000011 != 0
}

/// Whether the sprite-zero test fires: some opaque pixel of the first
/// sprite's current pattern row (read from its pattern table) covers an
/// opaque background pixel of `grid`, the background grid as the test sees
/// it after any first-entry pre-render.
#[verifier::opaque]
pub open spec fn sprite0_hit_found<M: Mapper>(
    p2: PpuView,
    grid: Seq<u16>,
    mp: M::V,
    count: u32,
) -> bool {
    let s0y = p2.oam[p2.regs.oamaddr as int] + 1;
    let attrs = sprite_attrs_spec(p2, 0, p2.states.len() - 1);
    let py = scan_y(count) - s0y - VBL - 1;
    let lo = read_ok::<M>(p2, mp, (attrs.3 + py) as u16);
    let hi = read_ok::<M>(p2, mp, (attrs.3 + py + 8) as u16);
    exists|px: int|
        0 <= px < 8 && #[trigger] sprite0_pixel_hits(attrs.0, s0y, py, lo, hi, grid, px)
}

/// A fully transparent first sprite can never latch the hit: when both
/// pattern bytes of its current row are zero, no pixel is opaque, so the
/// test finds nothing whatever the background holds.
pub proof fn lemma_transparent_sprite0_never_hits<M: Mapper>(
    p2: PpuView,
    grid: Seq<u16>,
    mp: M::V,
    count: u32,
)
    requires
        ({
            let s0y = p2.oam[p2.regs.oamaddr as int] + 1;
            let attrs = sprite_attrs_spec(p2, 0, p2.states.len() - 1);
            let py = scan_y(count) - s0y - VBL - 1;
            read_ok::<M>(p2, mp, (attrs.3 + py) as u16) == 0 && read_ok::<M>(
                p2,
                mp,
                (attrs.3 + py + 8) as u16,
            ) == 0
        }),
    ensures
        !sprite0_hit_found::<M>(p2, grid, mp, count),
{
    reveal(sprite0_hit_found);
    reveal(sprite0_pixel_hits);
    let s0y = p2.oam[p2.regs.oamaddr as int] + 1;
    let attrs = sprite_attrs_spec(p2, 0, p2.states.len() - 1);
    let py = scan_y(count) - s0y - VBL - 1;
    assert forall|px: int| 0 <= px < 8 implies !sprite0_pixel_hits(
        attrs.0,
        s0y,
        py,
        0,
        0,
        grid,
        px,
    ) by {
        let bit = (7 - px) as u8;
        assert(((0u8 >> bit) & 1) + 2 * ((0u8 >> bit) & 1) == 0) by (bit_vector);
    }
}

/// What the sprite-zero test guarantees, from the blanking-adjusted state
/// `p2` it starts in: everything outside its own latches and the working
/// grids is untouched; the first-entry latch is set; and the hit flag
/// latches exactly when an opaque sprite pixel covers an opaque background
/// pixel -- never for a transparent sprite row, and never on a fault.
pub open spec fn scan_post<M: Mapper>(
    p2: PpuView,
    q: PpuView,
    mp: M::V,
    count: u32,
    r: Result<(), EmuError>,
) -> bool {
    &&& tick_frame(p2, q)
    &&& q.regs.has_drawn_sprite0_background
    &&& (r matches Ok(_) ==> q.regs.sprite_0_hit == sprite0_hit_found::<M>(
        p2,
        q.bg_output,
        mp,
        count,
    ))
    &&& (r matches Err(_) ==> q.regs.sprite_0_hit == p2.regs.sprite_0_hit)
}

/// What one tick guarantees: the CPU is touched only through the interrupt
/// latch; everything outside the sprite-zero test follows the blanking step;
/// and outside the sprite-zero window the tick is exactly the blanking step
/// and cannot fault.
pub open spec fn tick_post<M: Mapper>(
    p0: PpuView,
    c0: Cpu,
    mp: M::V,
    q: PpuView,
    c1: Cpu,
    r: Result<(), EmuError>,
) -> bool {
    let p2 = tick_control_spec(p0, c0.count);
    &&& c1 == (Cpu { nmi_waiting: c0.nmi_waiting || tick_raises_nmi(p0, c0.count), ..c0 })
    &&& tick_frame(p2, q)
    &&& (!sprite0_window(p2, c0.count) ==> q == p2 && r == Ok::<(), EmuError>(()))
    &&& (sprite0_window(p2, c0.count) ==> scan_post::<M>(p2, q, mp, c0.count, r))
}

impl Ppu {
    /// The blanking state machine of one tick, and the interrupt it may
    /// raise.
    fn tick_control(&mut self, cpu: &mut Cpu)
        requires
            ppu_wf(old(self)@),
        ensures
            ppu_wf(final(self)@),
            final(self)@ == tick_control_spec(old(self)@, old(cpu).count),
            *final(cpu) == (Cpu {
                nmi_waiting: old(cpu).nmi_waiting || tick_raises_nmi(old(self)@, old(cpu).count),
                ..*old(cpu)
            }),
    {
        let y: u32 = ((cpu.count as u64) * 3 / 341) as u32;
        proof {
            assert(y == scan_y(cpu.count));
        }
        if y < VBL && !self.regs.has_blanked {
            self.regs = PpuRegs {
                has_blanked: true,
                vertical_blanking: true,
                oamaddr: 0,
                ..self.regs
            };
            if self.regs.generate_nmi {
                cpu.nmi();
            }
        } else if y >= VBL && self.regs.has_blanked {
            self.regs = PpuRegs {
                has_blanked: false,
                vertical_blanking: false,
                has_drawn_sprite0_background: false,
                sprite_0_hit: false,
                ..self.regs
            };
            self.states.clear();
            self.push_state(cpu.count);
        }
    }
}

impl Ppu {
    /// The incremental sprite-zero test for the scanline the CPU has
    /// reached: on first entry into the sprite's rows the background is
    /// rendered for them, and afterwards any opaque sprite pixel over an
    /// opaque background pixel latches the hit flag.
    #[verifier::rlimit(100)]
    #[verifier::spinoff_prover]
    fn sprite0_scan<M: Mapper>(&mut self, count: u32, mapper: &M) -> (r: Result<(), EmuError>)
        requires
            ppu_wf(old(self)@),
            mapper.inv(),
            sprite0_window(old(self)@, count),
        ensures
            ppu_wf(final(self)@),
            scan_post::<M>(old(self)@, final(self)@, mapper@, count, r),
    {
        let ghost p2 = self@;
        let ghost mp = mapper@;
        let ghost s0y_s = p2.oam[p2.regs.oamaddr as int] + 1;
        let ghost attrs_s = sprite_attrs_spec(p2, 0, p2.states.len() - 1);
        let ghost py_s = scan_y(count) - s0y_s - VBL - 1;
        let s0y: u16 = self.oam[self.regs.oamaddr as usize] as u16 + 1;
        let y: u32 = ((count as u64) * 3 / 341) as u32;
        proof {
            assert(y == scan_y(count));
        }
        let idx: usize = self.states.len() - 1;
        let attrs = self.get_sprite_attrs(0, idx);
        let s0x: u8 = attrs.0;
        let pattern_addr: u16 = attrs.3;
        proof {
            assert(attrs == attrs_s && s0y == s0y_s);
        }
        if !self.regs.has_drawn_sprite0_background {
            self.regs = PpuRegs { has_drawn_sprite0_background: true, ..self.regs };
            if s0y <= 231 {
                let res = self.draw_with_state(idx, s0y, s0y + 8, mapper);
                if let Err(e) = res {
                    return Err(e);
                }
            }
        }
        let py: u16 = (((y as u64) - s0y as u64 - VBL as u64 - 1) as u32) as u16;
        proof {
            assert(py == py_s);
            assert(ppu_read_spec::<M>(self@, mp, ((pattern_addr + py) as u16))
                == ppu_read_spec::<M>(p2, mp, ((pattern_addr + py) as u16)));
            assert(ppu_read_spec::<M>(self@, mp, ((pattern_addr + py + 8) as u16))
                == ppu_read_spec::<M>(p2, mp, ((pattern_addr + py + 8) as u16)));
        }
        let lo = match <Ppu as Mem<M>>::read(self, mapper, pattern_addr + py) {
            Ok(v) => v,
            Err(e) => {
                return Err(e);
            },
        };
        let hi = match <Ppu as Mem<M>>::read(self, mapper, pattern_addr + py + 8) {
            Ok(v) => v,
            Err(e) => {
                return Err(e);
            },
        };
        proof {
            assert(lo == read_ok::<M>(p2, mp, (attrs_s.3 + py_s) as u16) && hi == read_ok::<M>(
                p2,
                mp,
                (attrs_s.3 + py_s + 8) as u16,
            ));
        }
        let mut px: u16 = 0;
        while px < 8
            invariant
                ppu_wf(self@),
                tick_frame(p2, self@),
                p2 == old(self)@,
                mp == mapper@,
                self@.regs.has_drawn_sprite0_background,
                self@.regs.sprite_0_hit == p2.regs.sprite_0_hit,
                !p2.regs.sprite_0_hit,
                s0y_s == p2.oam[p2.regs.oamaddr as int] + 1,
                attrs_s == sprite_attrs_spec(p2, 0, p2.states.len() - 1),
                py_s == scan_y(count) - s0y_s - VBL - 1,
                lo == read_ok::<M>(p2, mp, (attrs_s.3 + py_s) as u16),
                hi == read_ok::<M>(p2, mp, (attrs_s.3 + py_s + 8) as u16),
                s0x == attrs_s.0,
                s0y == s0y_s,
                py == py_s,
                forall|j: int|
                    0 <= j < px ==> !sprite0_pixel_hits(
                        attrs_s.0,
                        s0y_s,
                        py_s,
                        lo,
                        hi,
                        self@.bg_output,
                        j,
                    ),
                px <= 8,
                py <= 7,
                s0y <= 256,
            decreases 8 - px,
        {
            let bit: u8 = (7 - px) as u8;
            let lo_bit: u8 = (lo >> bit) & 1;
            let hi_bit: u8 = (hi >> bit) & 1;
            proof {
                assert((lo >> bit) & 1 <= 1 && (hi >> bit) & 1 <= 1) by (bit_vector);
            }
            let solid: bool = lo_bit + 2 * hi_bit != 0;
            if solid {
                let col: u16 = s0x as u16 + px;
                let row: u16 = s0y + py;
                if col <= 255 && row <= 239 {
                    let cell: usize = col as usize * 240 + row as usize;
                    let bg: u16 = self.bg_output[cell];
                    if bg & 0b00000011 != 0 {
                        proof {
                            reveal(sprite0_pixel_hits);
                            reveal(sprite0_hit_found);
                            assert(sprite0_pixel_hits(
                                attrs_s.0,
                                s0y_s,
                                py_s,
                                lo,
                                hi,
                                self@.bg_output,
                                px as int,
                            ));
                            assert(sprite0_hit_found::<M>(p2, self@.bg_output, mp, count));
                        }
                        self.regs = PpuRegs { sprite_0_hit: true, ..self.regs };
                        return Ok(());
                    }
                }
            }
            proof {
                reveal(sprite0_pixel_hits);
                assert(!sprite0_pixel_hits(
                    attrs_s.0,
                    s0y_s,
                    py_s,
                    lo,
                    hi,
                    self@.bg_output,
                    px as int,
                ));
            }
            px = px + 1;
        }
        proof {
            reveal(sprite0_pixel_hits);
            reveal(sprite0_hit_found);
            assert(!sprite0_hit_found::<M>(p2, self@.bg_output, mp, count));
        }
        Ok(())
    }
}

impl Ppu {
    /// Records one opaque sprite pixel, preserving the band clipping and
    /// the first-write-wins discipline relative to the draw's start state.
    #[verifier::rlimit(100)]
    #[verifier::spinoff_prover]
    fn sprite_pixel_write(
        &mut self,
        cell: usize,
        base: Ghost<PpuView>,
        start_y: u16,
        end_y: u16,
        real_x: u16,
        real_y: u16,
        val: u16,
        prio: bool,
    )
        requires
            ppu_wf(old(self)@),
            cell == real_x * 240 + real_y,
            real_x <= 255,
            start_y <= real_y <= end_y <= 239,
            old(self)@.sprite_output[cell as int] == 0,
            grids_only(base@, old(self)@),
            band_clipped(base@, old(self)@, start_y, end_y),
            sprite_first_wins(base@, old(self)@),
        ensures
            ppu_wf(final(self)@),
            grids_only(base@, final(self)@),
            band_clipped(base@, final(self)@, start_y, end_y),
            sprite_first_wins(base@, final(self)@),
            final(self)@ == (PpuView {
                sprite_output: old(self)@.sprite_output.update(cell as int, val),
                sprite_priority: old(self)@.sprite_priority.update(cell as int, prio),
                ..old(self)@
            }),
    {
        let ghost pre = self@;
        self.set_sprite(cell, val);
        self.set_prio(cell, prio);
        proof {
            lemma_sprite_write_layer(
                base@,
                pre,
                self@,
                cell as int,
                real_x,
                real_y,
                start_y,
                end_y,
                val,
                prio,
            );
        }
    }
}

} // verus!
