//! The processor core: the register file, flag packing, the arithmetic
//! unit, the addressing modes with their exact cycle costs, the opcode
//! dispatch table, and the instruction engine itself.

use vstd::prelude::*;
use crate::EmuError;
use crate::memory::Mapper;
use crate::nes::{Chipset, ChipsetView, cs_wf, cs_read_step, cs_read16_step, cs_write_step};

verus! {

/// The processor's registers and flags, plus the running cycle counter that
/// paces the whole machine and the pending-interrupt latch.
#[derive(Clone, Copy, Debug, PartialEq, Eq, Structural)]
pub struct Cpu {
    pub a: u8,
    pub x: u8,
    pub y: u8,
    pub s: u8,
    pub pc: u16,
    pub negative: bool,
    pub overflow: bool,
    pub interrupt: bool,
    pub irq_disable: bool,
    pub zero: bool,
    pub carry: bool,
    pub decimal: bool,
    pub count: u32,
    pub nmi_waiting: bool,
}

/// The flags packed into a byte: negative, overflow, the reserved bit that
/// always reads 1, interrupt, decimal, interrupt-disable, zero, carry.
pub open spec fn get_p_spec(c: Cpu) -> u8 {
    (((if c.negative {
        128int
    } else {
        0int
    }) + (if c.overflow {
        64int
    } else {
        0int
    }) + 32 + (if c.interrupt {
        16int
    } else {
        0int
    }) + (if c.decimal {
        8int
    } else {
        0int
    }) + (if c.irq_disable {
        4int
    } else {
        0int
    }) + (if c.zero {
        2int
    } else {
        0int
    }) + (if c.carry {
        1int
    } else {
        0int
    })) as u8)
}

/// The flags unpacked from a byte.  The interrupt flag only exists in
/// copies pushed to the stack, so it is not restored here.
pub open spec fn set_p_spec(c: Cpu, val: u8) -> Cpu {
    Cpu {
        negative: val & 0b10000000 > 0,
        overflow: val & 0b01000000 > 0,
        decimal: val & 0b00001000 > 0,
        irq_disable: val & 0b00000100 > 0,
        zero: val & 0b00000010 > 0,
        carry: val & 0b00000001 > 0,
        ..c
    }
}

/// A byte read as a two's-complement signed value.
pub open spec fn signed(b: u8) -> int {
    if b < 128 {
        b as int
    } else {
        b - 256
    }
}

/// Addition with carry into the accumulator: the sum's low byte lands in
/// `a`; carry is the unsigned overflow of the 9-bit sum; overflow is the
/// signed sum escaping the signed byte range; zero and negative follow the
/// result byte.
pub open spec fn adc_spec(c: Cpu, val: u8) -> Cpu {
    let cin: int = if c.carry {
        1int
    } else {
        0int
    };
    let total = c.a + val + cin;
    let res = (total % 256) as u8;
    let stotal = signed(c.a) + signed(val) + cin;
    Cpu {
        a: res,
        carry: total > 0xFF,
        overflow: stotal > 127 || stotal < -128,
        zero: res == 0,
        negative: res >= 128,
        ..c
    }
}

impl Cpu {
    /// The power-on state: registers cleared, the stack pointer at its
    /// conventional reset position, execution starting at `pc`.
    pub open spec fn new_spec(pc: u16) -> Cpu {
        Cpu {
            a: 0,
            x: 0,
            y: 0,
            s: 0xFD,
            pc,
            negative: true,
            overflow: false,
            interrupt: true,
            irq_disable: false,
            zero: false,
            carry: false,
            decimal: false,
            count: 0,
            nmi_waiting: false,
        }
    }

    /// The power-on state.
    pub fn new(pc: u16) -> (c: Cpu)
        ensures
            c == Cpu::new_spec(pc),
    {
        Cpu {
            a: 0,
            x: 0,
            y: 0,
            s: 0xFD,
            pc,
            negative: true,
            overflow: false,
            interrupt: true,
            irq_disable: false,
            zero: false,
            carry: false,
            decimal: false,
            count: 0,
            nmi_waiting: false,
        }
    }

    /// Packs the flags into a byte for a stack push.
    pub fn get_p(&self) -> (p: u8)
        ensures
            p == get_p_spec(*self),
    {
        (if self.negative {
            128u8
        } else {
            0u8
        }) + (if self.overflow {
            64u8
        } else {
            0u8
        }) + 32 + (if self.interrupt {
            16u8
        } else {
            0u8
        }) + (if self.decimal {
            8u8
        } else {
            0u8
        }) + (if self.irq_disable {
            4u8
        } else {
            0u8
        }) + (if self.zero {
            2u8
        } else {
            0u8
        }) + (if self.carry {
            1u8
        } else {
            0u8
        })
    }

    /// Unpacks a byte pulled from the stack into the flags.
    pub fn set_p(&mut self, val: u8)
        ensures
            *final(self) == set_p_spec(*old(self), val),
    {
        *self = Cpu {
            negative: val & 0b10000000 > 0,
            overflow: val & 0b01000000 > 0,
            decimal: val & 0b00001000 > 0,
            irq_disable: val & 0b00000100 > 0,
            zero: val & 0b00000010 > 0,
            carry: val & 0b00000001 > 0,
            ..*self
        };
    }

    /// Latches a pending non-maskable interrupt; the engine services it
    /// after the current instruction.
    pub fn nmi(&mut self)
        ensures
            *final(self) == (Cpu { nmi_waiting: true, ..*old(self) }),
    {
        *self = Cpu { nmi_waiting: true, ..*self };
    }
}

/// Adds `val` and the carry flag into the accumulator, deriving all four
/// arithmetic flags.  Subtraction passes the operand's complement here.
pub fn add_with_carry(cpu: &mut Cpu, val: u8)
    ensures
        *final(cpu) == adc_spec(*old(cpu), val),
{
    let cin: u16 = if cpu.carry {
        1
    } else {
        0
    };
    let total: u16 = val as u16 + cpu.a as u16 + cin;
    let res: u8 = (total % 256) as u8;
    let a_neg: bool = cpu.a >= 128;
    let v_neg: bool = val >= 128;
    let r_neg: bool = res >= 128;
    *cpu = Cpu {
        a: res,
        carry: total > 0xFF,
        overflow: a_neg == v_neg && r_neg != a_neg,
        zero: res == 0,
        negative: r_neg,
        ..*cpu
    };
}

/// The packed flag byte always carries the reserved bit, and unpacking a
/// byte the flags were just packed into restores the processor exactly.
pub proof fn lemma_flags_round_trip(c: Cpu)
    ensures
        get_p_spec(c) & 0x20 == 0x20,
        set_p_spec(c, get_p_spec(c)) == c,
{
    let n: u8 = if c.negative {
        1
    } else {
        0
    };
    let v: u8 = if c.overflow {
        1
    } else {
        0
    };
    let i: u8 = if c.interrupt {
        1
    } else {
        0
    };
    let d: u8 = if c.decimal {
        1
    } else {
        0
    };
    let q: u8 = if c.irq_disable {
        1
    } else {
        0
    };
    let z: u8 = if c.zero {
        1
    } else {
        0
    };
    let cr: u8 = if c.carry {
        1
    } else {
        0
    };
    let b: u8 = (n * 128 + v * 64 + 32 + i * 16 + d * 8 + q * 4 + z * 2 + cr) as u8;
    assert(b & 0x20 == 0x20 && (b & 0b10000000 > 0 <==> n == 1) && (b & 0b01000000 > 0 <==> v == 1)
        && (b & 0b00001000 > 0 <==> d == 1) && (b & 0b00000100 > 0 <==> q == 1) && (b & 0b00000010
        > 0 <==> z == 1) && (b & 0b00000001 > 0 <==> cr == 1)) by (bit_vector)
        requires
            n <= 1,
            v <= 1,
            i <= 1,
            d <= 1,
            q <= 1,
            z <= 1,
            cr <= 1,
            b == n * 128 + v * 64 + 32 + i * 16 + d * 8 + q * 4 + z * 2 + cr,
    ;
    assert(b == get_p_spec(c));
}

/// What an addressing mode resolves to: an immediate value, a bus address,
/// or one of the registers.  Only the latter two can be written back.
#[derive(Clone, Copy, Debug, PartialEq, Eq, Structural)]
pub enum AddressModeResult {
    Val(u8),
    Addr(u16),
    Accumulator,
    X,
    Y,
}

/// Reading through a resolved operand location: an immediate or register
/// read is free of bus effects, an address reads through the bus.
pub open spec fn amr_read_step<M: Mapper>(
    r: AddressModeResult,
    cpu: Cpu,
    c: ChipsetView<M>,
) -> (ChipsetView<M>, Result<u8, EmuError>) {
    match r {
        AddressModeResult::Val(v) => (c, Ok(v)),
        AddressModeResult::Addr(a) => cs_read_step::<M>(c, a),
        AddressModeResult::Accumulator => (c, Ok(cpu.a)),
        AddressModeResult::X => (c, Ok(cpu.x)),
        AddressModeResult::Y => (c, Ok(cpu.y)),
    }
}

/// Writing through a resolved operand location; immediate results are not
/// writable and are ruled out by the caller.
pub open spec fn amr_write_step<M: Mapper>(
    r: AddressModeResult,
    cpu: Cpu,
    c: ChipsetView<M>,
    val: u8,
) -> (Cpu, ChipsetView<M>, Result<(), EmuError>) {
    match r {
        AddressModeResult::Addr(a) => {
            let (c2, w) = cs_write_step::<M>(c, a, val);
            (cpu, c2, w)
        },
        AddressModeResult::Accumulator => (Cpu { a: val, ..cpu }, c, Ok(())),
        AddressModeResult::X => (Cpu { x: val, ..cpu }, c, Ok(())),
        AddressModeResult::Y => (Cpu { y: val, ..cpu }, c, Ok(())),
        AddressModeResult::Val(_) => (cpu, c, Ok(())),
    }
}

impl AddressModeResult {
    /// Reads the operand this location denotes.
    pub fn read<M: Mapper>(&self, cpu: &Cpu, mem: &mut Chipset<M>) -> (r: Result<u8, EmuError>)
        requires
            cs_wf(old(mem)@),
            old(mem).mapper.inv(),
        ensures
            cs_wf(final(mem)@),
            final(mem).mapper.inv(),
            (final(mem)@, r) == amr_read_step::<M>(*self, *cpu, old(mem)@),
    {
        match self {
            AddressModeResult::Val(v) => Ok(*v),
            AddressModeResult::Addr(a) => mem.read(*a),
            AddressModeResult::Accumulator => Ok(cpu.a),
            AddressModeResult::X => Ok(cpu.x),
            AddressModeResult::Y => Ok(cpu.y),
        }
    }

    /// Writes `val` back through this location.
    pub fn write<M: Mapper>(&self, cpu: &mut Cpu, mem: &mut Chipset<M>, val: u8) -> (r: Result<
        (),
        EmuError,
    >)
        requires
            cs_wf(old(mem)@),
            old(mem).mapper.inv(),
            !(*self is Val),
        ensures
            cs_wf(final(mem)@),
            final(mem).mapper.inv(),
            (*final(cpu), final(mem)@, r) == amr_write_step::<M>(*self, *old(cpu), old(mem)@, val),
    {
        match self {
            AddressModeResult::Addr(a) => mem.write(*a, val),
            AddressModeResult::Accumulator => {
                *cpu = Cpu { a: val, ..*cpu };
                Ok(())
            },
            AddressModeResult::X => {
                *cpu = Cpu { x: val, ..*cpu };
                Ok(())
            },
            AddressModeResult::Y => {
                *cpu = Cpu { y: val, ..*cpu };
                Ok(())
            },
            AddressModeResult::Val(_) => Ok(()),
        }
    }
}

/// The processor after its program counter moved forward `n` bytes (with
/// wrap) and `cost` cycles were charged.
pub open spec fn advanced(cpu: Cpu, n: u16, cost: u32) -> Cpu {
    Cpu { pc: ((cpu.pc + n) % 0x10000) as u16, count: (cpu.count + cost) as u32, ..cpu }
}

/// One operand fetch under the immediate mode: the byte after the opcode,
/// for 2 cycles.
pub open spec fn immediate_step<M: Mapper>(cpu: Cpu, c: ChipsetView<M>) -> (
    Cpu,
    ChipsetView<M>,
    Result<AddressModeResult, EmuError>,
) {
    let (c1, r) = cs_read_step::<M>(c, cpu.pc);
    match r {
        Ok(v) => (advanced(cpu, 1, 2), c1, Ok(AddressModeResult::Val(v))),
        Err(e) => (advanced(cpu, 1, 2), c1, Err(e)),
    }
}

/// Zero-page addressing: the operand byte names an address below `0x100`,
/// for 3 cycles.
pub open spec fn zero_page_step<M: Mapper>(cpu: Cpu, c: ChipsetView<M>) -> (
    Cpu,
    ChipsetView<M>,
    Result<AddressModeResult, EmuError>,
) {
    let (c1, r) = cs_read_step::<M>(c, cpu.pc);
    match r {
        Ok(v) => (advanced(cpu, 1, 3), c1, Ok(AddressModeResult::Addr(v as u16))),
        Err(e) => (advanced(cpu, 1, 3), c1, Err(e)),
    }
}

/// Zero-page addressing indexed by a register, wrapping inside the page,
/// for 4 cycles.
pub open spec fn zero_page_indexed_step<M: Mapper>(cpu: Cpu, c: ChipsetView<M>, idx: u8) -> (
    Cpu,
    ChipsetView<M>,
    Result<AddressModeResult, EmuError>,
) {
    let (c1, r) = cs_read_step::<M>(c, cpu.pc);
    match r {
        Ok(v) => (
            advanced(cpu, 1, 4),
            c1,
            Ok(AddressModeResult::Addr(((v + idx) % 256) as u16)),
        ),
        Err(e) => (advanced(cpu, 1, 4), c1, Err(e)),
    }
}

/// Absolute addressing: the two operand bytes name the address, for 4
/// cycles.
pub open spec fn absolute_step<M: Mapper>(cpu: Cpu, c: ChipsetView<M>) -> (
    Cpu,
    ChipsetView<M>,
    Result<AddressModeResult, EmuError>,
) {
    let (c1, r) = cs_read16_step::<M>(c, cpu.pc);
    match r {
        Ok(v) => (advanced(cpu, 2, 4), c1, Ok(AddressModeResult::Addr(v))),
        Err(e) => (advanced(cpu, 2, 4), c1, Err(e)),
    }
}

/// Absolute addressing indexed by a register: 4 cycles, plus one when the
/// indexed address crosses a page boundary or the caller always pays the
/// write-back penalty.
pub open spec fn absolute_indexed_step<M: Mapper>(
    cpu: Cpu,
    c: ChipsetView<M>,
    idx: u8,
    page_matters: bool,
) -> (Cpu, ChipsetView<M>, Result<AddressModeResult, EmuError>) {
    let (c1, r) = cs_read16_step::<M>(c, cpu.pc);
    match r {
        Ok(v) => {
            let a = ((v + idx) % 0x10000) as u16;
            let cost: u32 = if !page_matters || a / 256 != v / 256 {
                5
            } else {
                4
            };
            (advanced(cpu, 2, cost), c1, Ok(AddressModeResult::Addr(a)))
        },
        Err(e) => (advanced(cpu, 2, 4), c1, Err(e)),
    }
}

/// Indexed indirect addressing: the operand plus `x` names a zero-page
/// pointer, read with page wrap, for 6 cycles.
pub open spec fn indirect_x_step<M: Mapper>(cpu: Cpu, c: ChipsetView<M>) -> (
    Cpu,
    ChipsetView<M>,
    Result<AddressModeResult, EmuError>,
) {
    let (c1, r) = cs_read_step::<M>(c, cpu.pc);
    match r {
        Ok(arg) => {
            let (c2, lo) = cs_read_step::<M>(c1, (((arg + cpu.x) % 256) as u16));
            match lo {
                Ok(l) => {
                    let (c3, hi) = cs_read_step::<M>(c2, (((arg + cpu.x + 1) % 256) as u16));
                    match hi {
                        Ok(h) => (
                            advanced(cpu, 1, 6),
                            c3,
                            Ok(AddressModeResult::Addr((l + h * 256) as u16)),
                        ),
                        Err(e) => (advanced(cpu, 1, 6), c3, Err(e)),
                    }
                },
                Err(e) => (advanced(cpu, 1, 6), c2, Err(e)),
            }
        },
        Err(e) => (advanced(cpu, 1, 6), c1, Err(e)),
    }
}

/// Indirect indexed addressing: a zero-page pointer plus `y`, for 5 cycles,
/// plus one on a page crossing or when the caller always pays it.  The
/// indexed address wraps at the top of memory.
pub open spec fn indirect_y_step<M: Mapper>(cpu: Cpu, c: ChipsetView<M>, page_matters: bool) -> (
    Cpu,
    ChipsetView<M>,
    Result<AddressModeResult, EmuError>,
) {
    let (c1, r) = cs_read_step::<M>(c, cpu.pc);
    match r {
        Ok(arg) => {
            let (c2, lo) = cs_read_step::<M>(c1, arg as u16);
            match lo {
                Ok(l) => {
                    let (c3, hi) = cs_read_step::<M>(c2, (((arg + 1) % 256) as u16));
                    match hi {
                        Ok(h) => {
                            let base = (l + h * 256) as u16;
                            let a = ((base + cpu.y) % 0x10000) as u16;
                            let cost: u32 = if !page_matters || a / 256 != base / 256 {
                                6
                            } else {
                                5
                            };
                            (advanced(cpu, 1, cost), c3, Ok(AddressModeResult::Addr(a)))
                        },
                        Err(e) => (advanced(cpu, 1, 5), c3, Err(e)),
                    }
                },
                Err(e) => (advanced(cpu, 1, 5), c2, Err(e)),
            }
        },
        Err(e) => (advanced(cpu, 1, 5), c1, Err(e)),
    }
}

/// Relative addressing for branches: the signed operand is added to the
/// advanced program counter; one cycle always, one more on a page crossing
/// or when the caller always pays it.
pub open spec fn relative_step<M: Mapper>(cpu: Cpu, c: ChipsetView<M>, page_matters: bool) -> (
    Cpu,
    ChipsetView<M>,
    Result<AddressModeResult, EmuError>,
) {
    let (c1, r) = cs_read_step::<M>(c, cpu.pc);
    match r {
        Ok(arg) => {
            let pc1 = ((cpu.pc + 1) % 0x10000) as u16;
            let rel: u16 = if arg <= 127 {
                if pc1 + arg <= 0xFFFF {
                    (pc1 + arg) as u16
                } else {
                    (pc1 + arg - 0x10000) as u16
                }
            } else {
                let back = (256 - arg) as u16;
                if pc1 >= back {
                    (pc1 - back) as u16
                } else {
                    (pc1 + 0x10000 - back) as u16
                }
            };
            let cost: u32 = if !page_matters || pc1 / 256 != rel / 256 {
                2
            } else {
                1
            };
            (advanced(cpu, 1, cost), c1, Ok(AddressModeResult::Addr(rel)))
        },
        Err(e) => (advanced(cpu, 1, 1), c1, Err(e)),
    }
}

/// The addressing modes of the dispatch table.
#[derive(Clone, Copy, Debug, PartialEq, Eq, Structural)]
pub enum Mode {
    Immediate,
    ZeroPage,
    ZeroPageX,
    ZeroPageY,
    Absolute,
    AbsoluteX,
    AbsoluteY,
    IndirectX,
    IndirectY,
    ImpliedA,
    ImpliedX,
    ImpliedY,
    Relative,
}

/// One operand resolution: the processor and bus afterwards and the operand
/// location, or the fault met while fetching it.
pub open spec fn mode_step<M: Mapper>(
    mode: Mode,
    page_matters: bool,
    cpu: Cpu,
    c: ChipsetView<M>,
) -> (Cpu, ChipsetView<M>, Result<AddressModeResult, EmuError>) {
    match mode {
        Mode::Immediate => immediate_step::<M>(cpu, c),
        Mode::ZeroPage => zero_page_step::<M>(cpu, c),
        Mode::ZeroPageX => zero_page_indexed_step::<M>(cpu, c, cpu.x),
        Mode::ZeroPageY => zero_page_indexed_step::<M>(cpu, c, cpu.y),
        Mode::Absolute => absolute_step::<M>(cpu, c),
        Mode::AbsoluteX => absolute_indexed_step::<M>(cpu, c, cpu.x, page_matters),
        Mode::AbsoluteY => absolute_indexed_step::<M>(cpu, c, cpu.y, page_matters),
        Mode::IndirectX => indirect_x_step::<M>(cpu, c),
        Mode::IndirectY => indirect_y_step::<M>(cpu, c, page_matters),
        Mode::ImpliedA => (cpu, c, Ok(AddressModeResult::Accumulator)),
        Mode::ImpliedX => (cpu, c, Ok(AddressModeResult::X)),
        Mode::ImpliedY => (cpu, c, Ok(AddressModeResult::Y)),
        Mode::Relative => relative_step::<M>(cpu, c, page_matters),
    }
}

/// Resolves one operand under `mode`, advancing the program counter and
/// charging the mode's exact cycle cost, page-crossing penalties included.
#[verifier::rlimit(100)]
#[verifier::spinoff_prover]
pub fn run_mode<M: Mapper>(
    mode: Mode,
    page_matters: bool,
    cpu: &mut Cpu,
    mem: &mut Chipset<M>,
) -> (r: Result<AddressModeResult, EmuError>)
    requires
        cs_wf(old(mem)@),
        old(mem).mapper.inv(),
        old(cpu).count <= 0xF000_0000,
    ensures
        cs_wf(final(mem)@),
        final(mem).mapper.inv(),
        (*final(cpu), final(mem)@, r) == mode_step::<M>(mode, page_matters, *old(cpu), old(mem)@),
        old(cpu).count <= final(cpu).count <= old(cpu).count + 6,
        is_fetch_mode(mode) ==> final(cpu).count >= old(cpu).count + 2,
        mode == Mode::Relative ==> final(cpu).count >= old(cpu).count + 1,
{
    match mode {
        Mode::Immediate => run_immediate(cpu, mem),
        Mode::ZeroPage => run_zero_page(cpu, mem),
        Mode::ZeroPageX => run_zero_page_indexed(cpu.x, cpu, mem),
        Mode::ZeroPageY => run_zero_page_indexed(cpu.y, cpu, mem),
        Mode::Absolute => run_absolute(cpu, mem),
        Mode::AbsoluteX => run_absolute_indexed(cpu.x, page_matters, cpu, mem),
        Mode::AbsoluteY => run_absolute_indexed(cpu.y, page_matters, cpu, mem),
        Mode::IndirectX => run_indirect_x(cpu, mem),
        Mode::IndirectY => run_indirect_y(page_matters, cpu, mem),
        Mode::ImpliedA => Ok(AddressModeResult::Accumulator),
        Mode::ImpliedX => Ok(AddressModeResult::X),
        Mode::ImpliedY => Ok(AddressModeResult::Y),
        Mode::Relative => run_relative(page_matters, cpu, mem),
    }
}

/// The immediate fetch.
#[verifier::rlimit(100)]
#[verifier::spinoff_prover]
fn run_immediate<M: Mapper>(cpu: &mut Cpu, mem: &mut Chipset<M>) -> (r: Result<
    AddressModeResult,
    EmuError,
>)
    requires
        cs_wf(old(mem)@),
        old(mem).mapper.inv(),
        old(cpu).count <= 0xF000_0000,
    ensures
        cs_wf(final(mem)@),
        final(mem).mapper.inv(),
        (*final(cpu), final(mem)@, r) == immediate_step::<M>(*old(cpu), old(mem)@),
        final(cpu).count <= old(cpu).count + 6,
        final(cpu).count >= old(cpu).count + 2,
{
    let v = mem.read(cpu.pc);
    *cpu = Cpu { pc: cpu.pc.wrapping_add(1), count: cpu.count + 2, ..*cpu };
    match v {
        Ok(v) => Ok(AddressModeResult::Val(v)),
        Err(e) => Err(e),
    }
}

/// The zero-page fetch.
#[verifier::rlimit(100)]
#[verifier::spinoff_prover]
fn run_zero_page<M: Mapper>(cpu: &mut Cpu, mem: &mut Chipset<M>) -> (r: Result<
    AddressModeResult,
    EmuError,
>)
    requires
        cs_wf(old(mem)@),
        old(mem).mapper.inv(),
        old(cpu).count <= 0xF000_0000,
    ensures
        cs_wf(final(mem)@),
        final(mem).mapper.inv(),
        (*final(cpu), final(mem)@, r) == zero_page_step::<M>(*old(cpu), old(mem)@),
        final(cpu).count <= old(cpu).count + 6,
        final(cpu).count >= old(cpu).count + 3,
{
    let v = mem.read(cpu.pc);
    *cpu = Cpu { pc: cpu.pc.wrapping_add(1), count: cpu.count + 3, ..*cpu };
    match v {
        Ok(v) => Ok(AddressModeResult::Addr(v as u16)),
        Err(e) => Err(e),
    }
}

/// The indexed zero-page fetch shared by both index registers.
#[verifier::rlimit(100)]
#[verifier::spinoff_prover]
fn run_zero_page_indexed<M: Mapper>(idx: u8, cpu: &mut Cpu, mem: &mut Chipset<M>) -> (r: Result<
    AddressModeResult,
    EmuError,
>)
    requires
        cs_wf(old(mem)@),
        old(mem).mapper.inv(),
        old(cpu).count <= 0xF000_0000,
    ensures
        cs_wf(final(mem)@),
        final(mem).mapper.inv(),
        (*final(cpu), final(mem)@, r) == zero_page_indexed_step::<M>(*old(cpu), old(mem)@, idx),
        final(cpu).count <= old(cpu).count + 6,
        final(cpu).count >= old(cpu).count + 4,
{
    let v = mem.read(cpu.pc);
    *cpu = Cpu { pc: cpu.pc.wrapping_add(1), count: cpu.count + 4, ..*cpu };
    match v {
        Ok(v) => Ok(AddressModeResult::Addr((v as u16 + idx as u16) % 256)),
        Err(e) => Err(e),
    }
}

/// The absolute fetch.
#[verifier::rlimit(100)]
#[verifier::spinoff_prover]
fn run_absolute<M: Mapper>(cpu: &mut Cpu, mem: &mut Chipset<M>) -> (r: Result<
    AddressModeResult,
    EmuError,
>)
    requires
        cs_wf(old(mem)@),
        old(mem).mapper.inv(),
        old(cpu).count <= 0xF000_0000,
    ensures
        cs_wf(final(mem)@),
        final(mem).mapper.inv(),
        (*final(cpu), final(mem)@, r) == absolute_step::<M>(*old(cpu), old(mem)@),
        final(cpu).count <= old(cpu).count + 6,
        final(cpu).count >= old(cpu).count + 4,
{
    let v = mem.read16(cpu.pc);
    *cpu = Cpu { pc: cpu.pc.wrapping_add(2), count: cpu.count + 4, ..*cpu };
    match v {
        Ok(v) => Ok(AddressModeResult::Addr(v)),
        Err(e) => Err(e),
    }
}

/// The absolute indexed fetch shared by both index registers.
#[verifier::rlimit(100)]
#[verifier::spinoff_prover]
fn run_absolute_indexed<M: Mapper>(
    idx: u8,
    page_matters: bool,
    cpu: &mut Cpu,
    mem: &mut Chipset<M>,
) -> (r: Result<AddressModeResult, EmuError>)
    requires
        cs_wf(old(mem)@),
        old(mem).mapper.inv(),
        old(cpu).count <= 0xF000_0000,
    ensures
        cs_wf(final(mem)@),
        final(mem).mapper.inv(),
        (*final(cpu), final(mem)@, r) == absolute_indexed_step::<M>(
            *old(cpu),
            old(mem)@,
            idx,
            page_matters,
        ),
        final(cpu).count <= old(cpu).count + 6,
        final(cpu).count >= old(cpu).count + 4,
{
    let v = match mem.read16(cpu.pc) {
        Ok(v) => v,
        Err(e) => {
            *cpu = Cpu { pc: cpu.pc.wrapping_add(2), count: cpu.count + 4, ..*cpu };
            return Err(e);
        },
    };
    let a: u16 = v.wrapping_add(idx as u16);
    let cost: u32 = if !page_matters || a / 256 != v / 256 {
        5
    } else {
        4
    };
    *cpu = Cpu { pc: cpu.pc.wrapping_add(2), count: cpu.count + cost, ..*cpu };
    Ok(AddressModeResult::Addr(a))
}

/// The indexed indirect fetch.
#[verifier::rlimit(100)]
#[verifier::spinoff_prover]
fn run_indirect_x<M: Mapper>(cpu: &mut Cpu, mem: &mut Chipset<M>) -> (r: Result<
    AddressModeResult,
    EmuError,
>)
    requires
        cs_wf(old(mem)@),
        old(mem).mapper.inv(),
        old(cpu).count <= 0xF000_0000,
    ensures
        cs_wf(final(mem)@),
        final(mem).mapper.inv(),
        (*final(cpu), final(mem)@, r) == indirect_x_step::<M>(*old(cpu), old(mem)@),
        final(cpu).count <= old(cpu).count + 6,
        final(cpu).count >= old(cpu).count + 6,
{
    let x: u8 = cpu.x;
    let arg = match mem.read(cpu.pc) {
        Ok(v) => v,
        Err(e) => {
            *cpu = Cpu { pc: cpu.pc.wrapping_add(1), count: cpu.count + 6, ..*cpu };
            return Err(e);
        },
    };
    let lo = match mem.read((arg as u16 + x as u16) % 256) {
        Ok(v) => v,
        Err(e) => {
            *cpu = Cpu { pc: cpu.pc.wrapping_add(1), count: cpu.count + 6, ..*cpu };
            return Err(e);
        },
    };
    let hi = match mem.read((arg as u16 + x as u16 + 1) % 256) {
        Ok(v) => v,
        Err(e) => {
            *cpu = Cpu { pc: cpu.pc.wrapping_add(1), count: cpu.count + 6, ..*cpu };
            return Err(e);
        },
    };
    *cpu = Cpu { pc: cpu.pc.wrapping_add(1), count: cpu.count + 6, ..*cpu };
    Ok(AddressModeResult::Addr(lo as u16 + (hi as u16) * 256))
}

/// The indirect indexed fetch.
#[verifier::rlimit(100)]
#[verifier::spinoff_prover]
fn run_indirect_y<M: Mapper>(page_matters: bool, cpu: &mut Cpu, mem: &mut Chipset<M>) -> (r:
    Result<AddressModeResult, EmuError>)
    requires
        cs_wf(old(mem)@),
        old(mem).mapper.inv(),
        old(cpu).count <= 0xF000_0000,
    ensures
        cs_wf(final(mem)@),
        final(mem).mapper.inv(),
        (*final(cpu), final(mem)@, r) == indirect_y_step::<M>(*old(cpu), old(mem)@, page_matters),
        final(cpu).count <= old(cpu).count + 6,
        final(cpu).count >= old(cpu).count + 5,
{
    let y: u8 = cpu.y;
    let arg = match mem.read(cpu.pc) {
        Ok(v) => v,
        Err(e) => {
            *cpu = Cpu { pc: cpu.pc.wrapping_add(1), count: cpu.count + 5, ..*cpu };
            return Err(e);
        },
    };
    let lo = match mem.read(arg as u16) {
        Ok(v) => v,
        Err(e) => {
            *cpu = Cpu { pc: cpu.pc.wrapping_add(1), count: cpu.count + 5, ..*cpu };
            return Err(e);
        },
    };
    let hi = match mem.read((arg as u16 + 1) % 256) {
        Ok(v) => v,
        Err(e) => {
            *cpu = Cpu { pc: cpu.pc.wrapping_add(1), count: cpu.count + 5, ..*cpu };
            return Err(e);
        },
    };
    let base: u16 = lo as u16 + (hi as u16) * 256;
    let a: u16 = base.wrapping_add(y as u16);
    let cost: u32 = if !page_matters || a / 256 != base / 256 {
        6
    } else {
        5
    };
    *cpu = Cpu { pc: cpu.pc.wrapping_add(1), count: cpu.count + cost, ..*cpu };
    Ok(AddressModeResult::Addr(a))
}

/// The relative fetch for branches.
#[verifier::rlimit(100)]
#[verifier::spinoff_prover]
fn run_relative<M: Mapper>(page_matters: bool, cpu: &mut Cpu, mem: &mut Chipset<M>) -> (r: Result<
    AddressModeResult,
    EmuError,
>)
    requires
        cs_wf(old(mem)@),
        old(mem).mapper.inv(),
        old(cpu).count <= 0xF000_0000,
    ensures
        cs_wf(final(mem)@),
        final(mem).mapper.inv(),
        (*final(cpu), final(mem)@, r) == relative_step::<M>(*old(cpu), old(mem)@, page_matters),
        final(cpu).count <= old(cpu).count + 6,
        final(cpu).count >= old(cpu).count + 1,
{
    let arg = match mem.read(cpu.pc) {
        Ok(v) => v,
        Err(e) => {
            *cpu = Cpu { pc: cpu.pc.wrapping_add(1), count: cpu.count + 1, ..*cpu };
            return Err(e);
        },
    };
    let pc1: u16 = cpu.pc.wrapping_add(1);
    let rel: u16 = if arg <= 127 {
        pc1.wrapping_add(arg as u16)
    } else {
        pc1.wrapping_sub(256 - arg as u16)
    };
    let cost: u32 = if !page_matters || pc1 / 256 != rel / 256 {
        2
    } else {
        1
    };
    *cpu = Cpu { pc: pc1, count: cpu.count + cost, ..*cpu };
    Ok(AddressModeResult::Addr(rel))
}

/// Bitwise AND into the accumulator, with the zero and negative flags.
pub open spec fn and_spec(c: Cpu, v: u8) -> Cpu {
    Cpu { a: c.a & v, zero: c.a & v == 0, negative: (c.a & v) & 0x80 > 0, ..c }
}

/// Bitwise OR into the accumulator.
pub open spec fn ora_spec(c: Cpu, v: u8) -> Cpu {
    Cpu { a: c.a | v, zero: c.a | v == 0, negative: (c.a | v) & 0x80 > 0, ..c }
}

/// Bitwise exclusive OR into the accumulator.
pub open spec fn eor_spec(c: Cpu, v: u8) -> Cpu {
    Cpu { a: c.a ^ v, zero: c.a ^ v == 0, negative: (c.a ^ v) & 0x80 > 0, ..c }
}

/// The bit test: zero from the masked accumulator, negative and overflow
/// copied from the operand's top bits.
pub open spec fn bit_spec(c: Cpu, v: u8) -> Cpu {
    Cpu { zero: v & c.a == 0, negative: v & 0x80 > 0, overflow: v & 0x40 > 0, ..c }
}

/// A load into the accumulator.
pub open spec fn lda_spec(c: Cpu, v: u8) -> Cpu {
    Cpu { a: v, zero: v == 0, negative: v & 0x80 > 0, ..c }
}

/// A load into the first index register.
pub open spec fn ldx_spec(c: Cpu, v: u8) -> Cpu {
    Cpu { x: v, zero: v == 0, negative: v & 0x80 > 0, ..c }
}

/// A load into the second index register.
pub open spec fn ldy_spec(c: Cpu, v: u8) -> Cpu {
    Cpu { y: v, zero: v == 0, negative: v & 0x80 > 0, ..c }
}

/// A comparison is a borrow-free subtraction on a scratch copy: the
/// accumulator and overflow flag are preserved, the other flags follow.
pub open spec fn cmp_spec(c: Cpu, v: u8) -> Cpu {
    let t = adc_spec(Cpu { carry: true, ..c }, !v);
    Cpu { a: c.a, overflow: c.overflow, ..t }
}

/// The comparison against the first index register.
pub open spec fn cpx_spec(c: Cpu, v: u8) -> Cpu {
    let t = adc_spec(Cpu { a: c.x, carry: true, ..c }, !v);
    Cpu { a: c.a, overflow: c.overflow, ..t }
}

/// The comparison against the second index register.
pub open spec fn cpy_spec(c: Cpu, v: u8) -> Cpu {
    let t = adc_spec(Cpu { a: c.y, carry: true, ..c }, !v);
    Cpu { a: c.a, overflow: c.overflow, ..t }
}

/// An arithmetic shift left: the old top bit becomes the carry.
pub open spec fn asl_spec(c: Cpu, v: u8) -> (Cpu, u8) {
    let res = v << 1;
    (Cpu { carry: v & 0x80 > 0, zero: res == 0, negative: res & 0x80 > 0, ..c }, res)
}

/// A logical shift right: the old bottom bit becomes the carry.
pub open spec fn lsr_spec(c: Cpu, v: u8) -> (Cpu, u8) {
    let res = v >> 1;
    (Cpu { carry: v & 0x01 > 0, zero: res == 0, negative: res & 0x80 > 0, ..c }, res)
}

/// A rotate left through the carry.
pub open spec fn rol_spec(c: Cpu, v: u8) -> (Cpu, u8) {
    let res = (v << 1) | (if c.carry {
        1u8
    } else {
        0u8
    });
    (Cpu { carry: v & 0x80 > 0, zero: res == 0, negative: res & 0x80 > 0, ..c }, res)
}

/// A rotate right through the carry.
pub open spec fn ror_spec(c: Cpu, v: u8) -> (Cpu, u8) {
    let res = (v >> 1) | (if c.carry {
        0x80u8
    } else {
        0u8
    });
    (Cpu { carry: v & 0x01 > 0, zero: res == 0, negative: res & 0x80 > 0, ..c }, res)
}

/// An increment, wrapping at the byte boundary; the carry is untouched.
pub open spec fn inc_spec(c: Cpu, v: u8) -> (Cpu, u8) {
    let res = ((v + 1) % 256) as u8;
    (Cpu { zero: res == 0, negative: res & 0x80 > 0, ..c }, res)
}

/// A decrement, wrapping at the byte boundary; the carry is untouched.
pub open spec fn dec_spec(c: Cpu, v: u8) -> (Cpu, u8) {
    let res = ((v + 255) % 256) as u8;
    (Cpu { zero: res == 0, negative: res & 0x80 > 0, ..c }, res)
}

/// One operand fetch and read: the mode resolves a location, then the value
/// is read through it.
pub open spec fn fetch_step<M: Mapper>(mode: Mode, cpu: Cpu, c: ChipsetView<M>) -> (
    Cpu,
    ChipsetView<M>,
    Result<u8, EmuError>,
) {
    let (cpu1, c1, ar) = mode_step::<M>(mode, true, cpu, c);
    match ar {
        Ok(amr) => {
            let (c2, v) = amr_read_step::<M>(amr, cpu1, c1);
            (cpu1, c2, v)
        },
        Err(e) => (cpu1, c1, Err(e)),
    }
}

/// Resolves the operand under `mode` and reads it.
#[verifier::rlimit(100)]
#[verifier::spinoff_prover]
pub fn fetch_operand<M: Mapper>(mode: Mode, cpu: &mut Cpu, mem: &mut Chipset<M>) -> (r: Result<
    u8,
    EmuError,
>)
    requires
        cs_wf(old(mem)@),
        old(mem).mapper.inv(),
        old(cpu).count <= 0xF000_0000,
    ensures
        cs_wf(final(mem)@),
        final(mem).mapper.inv(),
        (*final(cpu), final(mem)@, r) == fetch_step::<M>(mode, *old(cpu), old(mem)@),
        old(cpu).count <= final(cpu).count <= old(cpu).count + 6,
        is_fetch_mode(mode) ==> final(cpu).count >= old(cpu).count + 2,
{
    let amr = match run_mode(mode, true, cpu, mem) {
        Ok(a) => a,
        Err(e) => {
            return Err(e);
        },
    };
    amr.read(cpu, mem)
}

/// One stack push as a single step: the byte lands in page one at the stack
/// pointer, which then walks down with wrap.
pub open spec fn push_step<M: Mapper>(cpu: Cpu, c: ChipsetView<M>, val: u8) -> (
    Cpu,
    ChipsetView<M>,
    Result<(), EmuError>,
) {
    let (c1, w) = cs_write_step::<M>(c, (0x100 + cpu.s) as u16, val);
    (Cpu { s: ((cpu.s + 255) % 256) as u8, ..cpu }, c1, w)
}

/// One stack pull as a single step: the stack pointer walks up with wrap,
/// then the byte at it is read.
pub open spec fn pull_step<M: Mapper>(cpu: Cpu, c: ChipsetView<M>) -> (
    Cpu,
    ChipsetView<M>,
    Result<u8, EmuError>,
) {
    let s2 = ((cpu.s + 1) % 256) as u8;
    let (c1, r) = cs_read_step::<M>(c, (0x100 + s2) as u16);
    (Cpu { s: s2, ..cpu }, c1, r)
}

/// A 16-bit push: high byte first, so the low byte ends up lower.
pub open spec fn push16_step<M: Mapper>(cpu: Cpu, c: ChipsetView<M>, val: u16) -> (
    Cpu,
    ChipsetView<M>,
    Result<(), EmuError>,
) {
    let (cpu1, c1, w1) = push_step::<M>(cpu, c, (val / 0x100) as u8);
    match w1 {
        Ok(_) => push_step::<M>(cpu1, c1, (val % 0x100) as u8),
        Err(e) => (cpu1, c1, Err(e)),
    }
}

/// A 16-bit pull: low byte first.
pub open spec fn pull16_step<M: Mapper>(cpu: Cpu, c: ChipsetView<M>) -> (
    Cpu,
    ChipsetView<M>,
    Result<u16, EmuError>,
) {
    let (cpu1, c1, lo) = pull_step::<M>(cpu, c);
    match lo {
        Ok(l) => {
            let (cpu2, c2, hi) = pull_step::<M>(cpu1, c1);
            match hi {
                Ok(h) => (cpu2, c2, Ok((l + h * 0x100) as u16)),
                Err(e) => (cpu2, c2, Err(e)),
            }
        },
        Err(e) => (cpu1, c1, Err(e)),
    }
}

/// Pushes one byte onto the page-one stack.
#[verifier::rlimit(100)]
#[verifier::spinoff_prover]
pub fn push<M: Mapper>(cpu: &mut Cpu, mem: &mut Chipset<M>, val: u8) -> (r: Result<(), EmuError>)
    requires
        cs_wf(old(mem)@),
        old(mem).mapper.inv(),
    ensures
        cs_wf(final(mem)@),
        final(mem).mapper.inv(),
        (*final(cpu), final(mem)@, r) == push_step::<M>(*old(cpu), old(mem)@, val),
{
    let r = mem.write(0x100 + cpu.s as u16, val);
    *cpu = Cpu { s: cpu.s.wrapping_sub(1), ..*cpu };
    r
}

/// Pulls one byte off the page-one stack.
#[verifier::rlimit(100)]
#[verifier::spinoff_prover]
pub fn pull<M: Mapper>(cpu: &mut Cpu, mem: &mut Chipset<M>) -> (r: Result<u8, EmuError>)
    requires
        cs_wf(old(mem)@),
        old(mem).mapper.inv(),
    ensures
        cs_wf(final(mem)@),
        final(mem).mapper.inv(),
        (*final(cpu), final(mem)@, r) == pull_step::<M>(*old(cpu), old(mem)@),
{
    *cpu = Cpu { s: cpu.s.wrapping_add(1), ..*cpu };
    mem.read(0x100 + cpu.s as u16)
}

/// Pushes a 16-bit value, high byte first.
#[verifier::rlimit(100)]
#[verifier::spinoff_prover]
pub fn push16<M: Mapper>(cpu: &mut Cpu, mem: &mut Chipset<M>, val: u16) -> (r: Result<
    (),
    EmuError,
>)
    requires
        cs_wf(old(mem)@),
        old(mem).mapper.inv(),
    ensures
        cs_wf(final(mem)@),
        final(mem).mapper.inv(),
        (*final(cpu), final(mem)@, r) == push16_step::<M>(*old(cpu), old(mem)@, val),
{
    let hi: u8 = ((val & 0xFF00) >> 8) as u8;
    let lo: u8 = (val & 0x00FF) as u8;
    proof {
        assert((val & 0xFF00) >> 8 == val / 0x100 && val & 0x00FF == val % 0x100) by (bit_vector);
    }
    let r1 = push(cpu, mem, hi);
    if let Err(e) = r1 {
        return Err(e);
    }
    push(cpu, mem, lo)
}

/// Pulls a 16-bit value, low byte first.
#[verifier::rlimit(100)]
#[verifier::spinoff_prover]
pub fn pull16<M: Mapper>(cpu: &mut Cpu, mem: &mut Chipset<M>) -> (r: Result<u16, EmuError>)
    requires
        cs_wf(old(mem)@),
        old(mem).mapper.inv(),
    ensures
        cs_wf(final(mem)@),
        final(mem).mapper.inv(),
        (*final(cpu), final(mem)@, r) == pull16_step::<M>(*old(cpu), old(mem)@),
{
    let lo = match pull(cpu, mem) {
        Ok(v) => v,
        Err(e) => {
            return Err(e);
        },
    };
    let hi = match pull(cpu, mem) {
        Ok(v) => v,
        Err(e) => {
            return Err(e);
        },
    };
    proof {
        assert((lo as u16) + ((hi as u16) << 8) == lo + hi * 0x100) by (bit_vector);
    }
    Ok(lo as u16 + ((hi as u16) << 8))
}


/// The operand-fetching modes: everything except the register-implied
/// forms and the branch-relative form.
pub open spec fn is_fetch_mode(mode: Mode) -> bool {
    mode != Mode::ImpliedA && mode != Mode::ImpliedX && mode != Mode::ImpliedY && mode
        != Mode::Relative
}

/// Addition with carry from a fetched operand.
pub open spec fn adc_op_step<M: Mapper>(mode: Mode, cpu: Cpu, c: ChipsetView<M>) -> (
    Cpu,
    ChipsetView<M>,
    Result<(), EmuError>,
) {
    let (cpu1, c1, v) = fetch_step::<M>(mode, cpu, c);
    match v {
        Ok(b) => (adc_spec(cpu1, b), c1, Ok(())),
        Err(e) => (cpu1, c1, Err(e)),
    }
}

/// Addition with carry from a fetched operand.
#[verifier::rlimit(100)]
#[verifier::spinoff_prover]
pub fn adc<M: Mapper>(cpu: &mut Cpu, mem: &mut Chipset<M>, mode: Mode) -> (r: Result<
    (),
    EmuError,
>)
    requires
        cs_wf(old(mem)@),
        old(mem).mapper.inv(),
        old(cpu).count <= 0xE000_0000,
    ensures
        cs_wf(final(mem)@),
        final(mem).mapper.inv(),
        (*final(cpu), final(mem)@, r) == adc_op_step::<M>(mode, *old(cpu), old(mem)@),
        old(cpu).count <= final(cpu).count <= old(cpu).count + 8,
        is_fetch_mode(mode) ==> final(cpu).count >= old(cpu).count + 2,
{
    let v = match fetch_operand(mode, cpu, mem) {
        Ok(v) => v,
        Err(e) => {
            return Err(e);
        },
    };
    add_with_carry(cpu, v);
    Ok(())
}

/// Subtraction with borrow: addition of the operand's complement.
pub open spec fn sbc_op_step<M: Mapper>(mode: Mode, cpu: Cpu, c: ChipsetView<M>) -> (
    Cpu,
    ChipsetView<M>,
    Result<(), EmuError>,
) {
    let (cpu1, c1, v) = fetch_step::<M>(mode, cpu, c);
    match v {
        Ok(b) => (adc_spec(cpu1, !b), c1, Ok(())),
        Err(e) => (cpu1, c1, Err(e)),
    }
}

/// Subtraction with borrow: addition of the operand's complement.
#[verifier::rlimit(100)]
#[verifier::spinoff_prover]
pub fn sbc<M: Mapper>(cpu: &mut Cpu, mem: &mut Chipset<M>, mode: Mode) -> (r: Result<
    (),
    EmuError,
>)
    requires
        cs_wf(old(mem)@),
        old(mem).mapper.inv(),
        old(cpu).count <= 0xE000_0000,
    ensures
        cs_wf(final(mem)@),
        final(mem).mapper.inv(),
        (*final(cpu), final(mem)@, r) == sbc_op_step::<M>(mode, *old(cpu), old(mem)@),
        old(cpu).count <= final(cpu).count <= old(cpu).count + 8,
        is_fetch_mode(mode) ==> final(cpu).count >= old(cpu).count + 2,
{
    let v = match fetch_operand(mode, cpu, mem) {
        Ok(v) => v,
        Err(e) => {
            return Err(e);
        },
    };
    add_with_carry(cpu, !v);
    Ok(())
}

/// Bitwise AND from a fetched operand.
pub open spec fn and_acc_op_step<M: Mapper>(mode: Mode, cpu: Cpu, c: ChipsetView<M>) -> (
    Cpu,
    ChipsetView<M>,
    Result<(), EmuError>,
) {
    let (cpu1, c1, v) = fetch_step::<M>(mode, cpu, c);
    match v {
        Ok(b) => (and_spec(cpu1, b), c1, Ok(())),
        Err(e) => (cpu1, c1, Err(e)),
    }
}

/// Bitwise AND from a fetched operand.
#[verifier::rlimit(100)]
#[verifier::spinoff_prover]
pub fn and_acc<M: Mapper>(cpu: &mut Cpu, mem: &mut Chipset<M>, mode: Mode) -> (r: Result<
    (),
    EmuError,
>)
    requires
        cs_wf(old(mem)@),
        old(mem).mapper.inv(),
        old(cpu).count <= 0xE000_0000,
    ensures
        cs_wf(final(mem)@),
        final(mem).mapper.inv(),
        (*final(cpu), final(mem)@, r) == and_acc_op_step::<M>(mode, *old(cpu), old(mem)@),
        old(cpu).count <= final(cpu).count <= old(cpu).count + 8,
        is_fetch_mode(mode) ==> final(cpu).count >= old(cpu).count + 2,
{
    let v = match fetch_operand(mode, cpu, mem) {
        Ok(v) => v,
        Err(e) => {
            return Err(e);
        },
    };
    *cpu = Cpu { a: cpu.a & v, zero: cpu.a & v == 0, negative: (cpu.a & v) & 0x80 > 0, ..*cpu };
    Ok(())
}

/// Bitwise OR from a fetched operand.
pub open spec fn ora_op_step<M: Mapper>(mode: Mode, cpu: Cpu, c: ChipsetView<M>) -> (
    Cpu,
    ChipsetView<M>,
    Result<(), EmuError>,
) {
    let (cpu1, c1, v) = fetch_step::<M>(mode, cpu, c);
    match v {
        Ok(b) => (ora_spec(cpu1, b), c1, Ok(())),
        Err(e) => (cpu1, c1, Err(e)),
    }
}

/// Bitwise OR from a fetched operand.
#[verifier::rlimit(100)]
#[verifier::spinoff_prover]
pub fn ora<M: Mapper>(cpu: &mut Cpu, mem: &mut Chipset<M>, mode: Mode) -> (r: Result<
    (),
    EmuError,
>)
    requires
        cs_wf(old(mem)@),
        old(mem).mapper.inv(),
        old(cpu).count <= 0xE000_0000,
    ensures
        cs_wf(final(mem)@),
        final(mem).mapper.inv(),
        (*final(cpu), final(mem)@, r) == ora_op_step::<M>(mode, *old(cpu), old(mem)@),
        old(cpu).count <= final(cpu).count <= old(cpu).count + 8,
        is_fetch_mode(mode) ==> final(cpu).count >= old(cpu).count + 2,
{
    let v = match fetch_operand(mode, cpu, mem) {
        Ok(v) => v,
        Err(e) => {
            return Err(e);
        },
    };
    *cpu = Cpu { a: cpu.a | v, zero: cpu.a | v == 0, negative: (cpu.a | v) & 0x80 > 0, ..*cpu };
    Ok(())
}

/// Bitwise exclusive OR from a fetched operand.
pub open spec fn eor_op_step<M: Mapper>(mode: Mode, cpu: Cpu, c: ChipsetView<M>) -> (
    Cpu,
    ChipsetView<M>,
    Result<(), EmuError>,
) {
    let (cpu1, c1, v) = fetch_step::<M>(mode, cpu, c);
    match v {
        Ok(b) => (eor_spec(cpu1, b), c1, Ok(())),
        Err(e) => (cpu1, c1, Err(e)),
    }
}

/// Bitwise exclusive OR from a fetched operand.
#[verifier::rlimit(100)]
#[verifier::spinoff_prover]
pub fn eor<M: Mapper>(cpu: &mut Cpu, mem: &mut Chipset<M>, mode: Mode) -> (r: Result<
    (),
    EmuError,
>)
    requires
        cs_wf(old(mem)@),
        old(mem).mapper.inv(),
        old(cpu).count <= 0xE000_0000,
    ensures
        cs_wf(final(mem)@),
        final(mem).mapper.inv(),
        (*final(cpu), final(mem)@, r) == eor_op_step::<M>(mode, *old(cpu), old(mem)@),
        old(cpu).count <= final(cpu).count <= old(cpu).count + 8,
        is_fetch_mode(mode) ==> final(cpu).count >= old(cpu).count + 2,
{
    let v = match fetch_operand(mode, cpu, mem) {
        Ok(v) => v,
        Err(e) => {
            return Err(e);
        },
    };
    *cpu = Cpu { a: cpu.a ^ v, zero: cpu.a ^ v == 0, negative: (cpu.a ^ v) & 0x80 > 0, ..*cpu };
    Ok(())
}

/// The bit test against a fetched operand.
pub open spec fn bit_op_step<M: Mapper>(mode: Mode, cpu: Cpu, c: ChipsetView<M>) -> (
    Cpu,
    ChipsetView<M>,
    Result<(), EmuError>,
) {
    let (cpu1, c1, v) = fetch_step::<M>(mode, cpu, c);
    match v {
        Ok(b) => (bit_spec(cpu1, b), c1, Ok(())),
        Err(e) => (cpu1, c1, Err(e)),
    }
}

/// The bit test against a fetched operand.
#[verifier::rlimit(100)]
#[verifier::spinoff_prover]
pub fn bit<M: Mapper>(cpu: &mut Cpu, mem: &mut Chipset<M>, mode: Mode) -> (r: Result<
    (),
    EmuError,
>)
    requires
        cs_wf(old(mem)@),
        old(mem).mapper.inv(),
        old(cpu).count <= 0xE000_0000,
    ensures
        cs_wf(final(mem)@),
        final(mem).mapper.inv(),
        (*final(cpu), final(mem)@, r) == bit_op_step::<M>(mode, *old(cpu), old(mem)@),
        old(cpu).count <= final(cpu).count <= old(cpu).count + 8,
        is_fetch_mode(mode) ==> final(cpu).count >= old(cpu).count + 2,
{
    let v = match fetch_operand(mode, cpu, mem) {
        Ok(v) => v,
        Err(e) => {
            return Err(e);
        },
    };
    *cpu = Cpu { zero: v & cpu.a == 0, negative: v & 0x80 > 0, overflow: v & 0x40 > 0, ..*cpu };
    Ok(())
}

/// Comparison of the accumulator with a fetched operand.
pub open spec fn cmp_op_step<M: Mapper>(mode: Mode, cpu: Cpu, c: ChipsetView<M>) -> (
    Cpu,
    ChipsetView<M>,
    Result<(), EmuError>,
) {
    let (cpu1, c1, v) = fetch_step::<M>(mode, cpu, c);
    match v {
        Ok(b) => (cmp_spec(cpu1, b), c1, Ok(())),
        Err(e) => (cpu1, c1, Err(e)),
    }
}

/// Comparison of the accumulator with a fetched operand.
#[verifier::rlimit(100)]
#[verifier::spinoff_prover]
pub fn cmp<M: Mapper>(cpu: &mut Cpu, mem: &mut Chipset<M>, mode: Mode) -> (r: Result<
    (),
    EmuError,
>)
    requires
        cs_wf(old(mem)@),
        old(mem).mapper.inv(),
        old(cpu).count <= 0xE000_0000,
    ensures
        cs_wf(final(mem)@),
        final(mem).mapper.inv(),
        (*final(cpu), final(mem)@, r) == cmp_op_step::<M>(mode, *old(cpu), old(mem)@),
        old(cpu).count <= final(cpu).count <= old(cpu).count + 8,
        is_fetch_mode(mode) ==> final(cpu).count >= old(cpu).count + 2,
{
    let v = match fetch_operand(mode, cpu, mem) {
        Ok(v) => v,
        Err(e) => {
            return Err(e);
        },
    };
    let a0: u8 = cpu.a;
    let ov: bool = cpu.overflow;
    *cpu = Cpu { carry: true, ..*cpu };
    add_with_carry(cpu, !v);
    *cpu = Cpu { a: a0, overflow: ov, ..*cpu };
    Ok(())
}

/// Comparison of the first index register with a fetched operand.
pub open spec fn cpx_op_step<M: Mapper>(mode: Mode, cpu: Cpu, c: ChipsetView<M>) -> (
    Cpu,
    ChipsetView<M>,
    Result<(), EmuError>,
) {
    let (cpu1, c1, v) = fetch_step::<M>(mode, cpu, c);
    match v {
        Ok(b) => (cpx_spec(cpu1, b), c1, Ok(())),
        Err(e) => (cpu1, c1, Err(e)),
    }
}

/// Comparison of the first index register with a fetched operand.
#[verifier::rlimit(100)]
#[verifier::spinoff_prover]
pub fn cpx<M: Mapper>(cpu: &mut Cpu, mem: &mut Chipset<M>, mode: Mode) -> (r: Result<
    (),
    EmuError,
>)
    requires
        cs_wf(old(mem)@),
        old(mem).mapper.inv(),
        old(cpu).count <= 0xE000_0000,
    ensures
        cs_wf(final(mem)@),
        final(mem).mapper.inv(),
        (*final(cpu), final(mem)@, r) == cpx_op_step::<M>(mode, *old(cpu), old(mem)@),
        old(cpu).count <= final(cpu).count <= old(cpu).count + 8,
        is_fetch_mode(mode) ==> final(cpu).count >= old(cpu).count + 2,
{
    let v = match fetch_operand(mode, cpu, mem) {
        Ok(v) => v,
        Err(e) => {
            return Err(e);
        },
    };
    let a0: u8 = cpu.a;
    let ov: bool = cpu.overflow;
    *cpu = Cpu { a: cpu.x, carry: true, ..*cpu };
    add_with_carry(cpu, !v);
    *cpu = Cpu { a: a0, overflow: ov, ..*cpu };
    Ok(())
}

/// Comparison of the second index register with a fetched operand.
pub open spec fn cpy_op_step<M: Mapper>(mode: Mode, cpu: Cpu, c: ChipsetView<M>) -> (
    Cpu,
    ChipsetView<M>,
    Result<(), EmuError>,
) {
    let (cpu1, c1, v) = fetch_step::<M>(mode, cpu, c);
    match v {
        Ok(b) => (cpy_spec(cpu1, b), c1, Ok(())),
        Err(e) => (cpu1, c1, Err(e)),
    }
}

/// Comparison of the second index register with a fetched operand.
#[verifier::rlimit(100)]
#[verifier::spinoff_prover]
pub fn cpy<M: Mapper>(cpu: &mut Cpu, mem: &mut Chipset<M>, mode: Mode) -> (r: Result<
    (),
    EmuError,
>)
    requires
        cs_wf(old(mem)@),
        old(mem).mapper.inv(),
        old(cpu).count <= 0xE000_0000,
    ensures
        cs_wf(final(mem)@),
        final(mem).mapper.inv(),
        (*final(cpu), final(mem)@, r) == cpy_op_step::<M>(mode, *old(cpu), old(mem)@),
        old(cpu).count <= final(cpu).count <= old(cpu).count + 8,
        is_fetch_mode(mode) ==> final(cpu).count >= old(cpu).count + 2,
{
    let v = match fetch_operand(mode, cpu, mem) {
        Ok(v) => v,
        Err(e) => {
            return Err(e);
        },
    };
    let a0: u8 = cpu.a;
    let ov: bool = cpu.overflow;
    *cpu = Cpu { a: cpu.y, carry: true, ..*cpu };
    add_with_carry(cpu, !v);
    *cpu = Cpu { a: a0, overflow: ov, ..*cpu };
    Ok(())
}

/// A load into the accumulator.
pub open spec fn lda_op_step<M: Mapper>(mode: Mode, cpu: Cpu, c: ChipsetView<M>) -> (
    Cpu,
    ChipsetView<M>,
    Result<(), EmuError>,
) {
    let (cpu1, c1, v) = fetch_step::<M>(mode, cpu, c);
    match v {
        Ok(b) => (lda_spec(cpu1, b), c1, Ok(())),
        Err(e) => (cpu1, c1, Err(e)),
    }
}

/// A load into the accumulator.
#[verifier::rlimit(100)]
#[verifier::spinoff_prover]
pub fn lda<M: Mapper>(cpu: &mut Cpu, mem: &mut Chipset<M>, mode: Mode) -> (r: Result<
    (),
    EmuError,
>)
    requires
        cs_wf(old(mem)@),
        old(mem).mapper.inv(),
        old(cpu).count <= 0xE000_0000,
    ensures
        cs_wf(final(mem)@),
        final(mem).mapper.inv(),
        (*final(cpu), final(mem)@, r) == lda_op_step::<M>(mode, *old(cpu), old(mem)@),
        old(cpu).count <= final(cpu).count <= old(cpu).count + 8,
        is_fetch_mode(mode) ==> final(cpu).count >= old(cpu).count + 2,
{
    let v = match fetch_operand(mode, cpu, mem) {
        Ok(v) => v,
        Err(e) => {
            return Err(e);
        },
    };
    *cpu = Cpu { a: v, zero: v == 0, negative: v & 0x80 > 0, ..*cpu };
    Ok(())
}

/// A load into the first index register.
pub open spec fn ldx_op_step<M: Mapper>(mode: Mode, cpu: Cpu, c: ChipsetView<M>) -> (
    Cpu,
    ChipsetView<M>,
    Result<(), EmuError>,
) {
    let (cpu1, c1, v) = fetch_step::<M>(mode, cpu, c);
    match v {
        Ok(b) => (ldx_spec(cpu1, b), c1, Ok(())),
        Err(e) => (cpu1, c1, Err(e)),
    }
}

/// A load into the first index register.
#[verifier::rlimit(100)]
#[verifier::spinoff_prover]
pub fn ldx<M: Mapper>(cpu: &mut Cpu, mem: &mut Chipset<M>, mode: Mode) -> (r: Result<
    (),
    EmuError,
>)
    requires
        cs_wf(old(mem)@),
        old(mem).mapper.inv(),
        old(cpu).count <= 0xE000_0000,
    ensures
        cs_wf(final(mem)@),
        final(mem).mapper.inv(),
        (*final(cpu), final(mem)@, r) == ldx_op_step::<M>(mode, *old(cpu), old(mem)@),
        old(cpu).count <= final(cpu).count <= old(cpu).count + 8,
        is_fetch_mode(mode) ==> final(cpu).count >= old(cpu).count + 2,
{
    let v = match fetch_operand(mode, cpu, mem) {
        Ok(v) => v,
        Err(e) => {
            return Err(e);
        },
    };
    *cpu = Cpu { x: v, zero: v == 0, negative: v & 0x80 > 0, ..*cpu };
    Ok(())
}

/// A load into the second index register.
pub open spec fn ldy_op_step<M: Mapper>(mode: Mode, cpu: Cpu, c: ChipsetView<M>) -> (
    Cpu,
    ChipsetView<M>,
    Result<(), EmuError>,
) {
    let (cpu1, c1, v) = fetch_step::<M>(mode, cpu, c);
    match v {
        Ok(b) => (ldy_spec(cpu1, b), c1, Ok(())),
        Err(e) => (cpu1, c1, Err(e)),
    }
}

/// A load into the second index register.
#[verifier::rlimit(100)]
#[verifier::spinoff_prover]
pub fn ldy<M: Mapper>(cpu: &mut Cpu, mem: &mut Chipset<M>, mode: Mode) -> (r: Result<
    (),
    EmuError,
>)
    requires
        cs_wf(old(mem)@),
        old(mem).mapper.inv(),
        old(cpu).count <= 0xE000_0000,
    ensures
        cs_wf(final(mem)@),
        final(mem).mapper.inv(),
        (*final(cpu), final(mem)@, r) == ldy_op_step::<M>(mode, *old(cpu), old(mem)@),
        old(cpu).count <= final(cpu).count <= old(cpu).count + 8,
        is_fetch_mode(mode) ==> final(cpu).count >= old(cpu).count + 2,
{
    let v = match fetch_operand(mode, cpu, mem) {
        Ok(v) => v,
        Err(e) => {
            return Err(e);
        },
    };
    *cpu = Cpu { y: v, zero: v == 0, negative: v & 0x80 > 0, ..*cpu };
    Ok(())
}

/// An arithmetic shift left through the operand location.
pub open spec fn asl_op_step<M: Mapper>(mode: Mode, cpu: Cpu, c: ChipsetView<M>) -> (
    Cpu,
    ChipsetView<M>,
    Result<(), EmuError>,
) {
    let (cpu1, c1, ar) = mode_step::<M>(mode, false, cpu, c);
    match ar {
        Ok(amr) => {
            let (c2, rv) = amr_read_step::<M>(amr, cpu1, c1);
            match rv {
                Ok(v) => {
                    let cpu2 = Cpu { count: (cpu1.count + 2) as u32, ..cpu1 };
                    let (cpuf, res) = asl_spec(cpu2, v);
                    amr_write_step::<M>(amr, cpuf, c2, res)
                },
                Err(e) => (cpu1, c2, Err(e)),
            }
        },
        Err(e) => (cpu1, c1, Err(e)),
    }
}

/// An arithmetic shift left through the operand location.
#[verifier::rlimit(100)]
#[verifier::spinoff_prover]
pub fn asl<M: Mapper>(cpu: &mut Cpu, mem: &mut Chipset<M>, mode: Mode) -> (r: Result<
    (),
    EmuError,
>)
    requires
        cs_wf(old(mem)@),
        old(mem).mapper.inv(),
        old(cpu).count <= 0xF000_0000,
        mode != Mode::Immediate,
    ensures
        cs_wf(final(mem)@),
        final(mem).mapper.inv(),
        (*final(cpu), final(mem)@, r) == asl_op_step::<M>(mode, *old(cpu), old(mem)@),
        old(cpu).count <= final(cpu).count <= old(cpu).count + 8,
        r matches Ok(_) ==> final(cpu).count >= old(cpu).count + 2,
{
    let amr = match run_mode(mode, false, cpu, mem) {
        Ok(a) => a,
        Err(e) => {
            return Err(e);
        },
    };
    proof {
        lemma_mode_not_val::<M>(mode, false, *old(cpu), old(mem)@);
    }
    let v = match amr.read(cpu, mem) {
        Ok(v) => v,
        Err(e) => {
            return Err(e);
        },
    };
    *cpu = Cpu { count: cpu.count + 2, ..*cpu };
    let res: u8 = v << 1;
    *cpu = Cpu { carry: v & 0x80 > 0, zero: res == 0, negative: res & 0x80 > 0, ..*cpu };
    amr.write(cpu, mem, res)
}

/// A logical shift right through the operand location.
pub open spec fn lsr_op_step<M: Mapper>(mode: Mode, cpu: Cpu, c: ChipsetView<M>) -> (
    Cpu,
    ChipsetView<M>,
    Result<(), EmuError>,
) {
    let (cpu1, c1, ar) = mode_step::<M>(mode, false, cpu, c);
    match ar {
        Ok(amr) => {
            let (c2, rv) = amr_read_step::<M>(amr, cpu1, c1);
            match rv {
                Ok(v) => {
                    let cpu2 = Cpu { count: (cpu1.count + 2) as u32, ..cpu1 };
                    let (cpuf, res) = lsr_spec(cpu2, v);
                    amr_write_step::<M>(amr, cpuf, c2, res)
                },
                Err(e) => (cpu1, c2, Err(e)),
            }
        },
        Err(e) => (cpu1, c1, Err(e)),
    }
}

/// A logical shift right through the operand location.
#[verifier::rlimit(100)]
#[verifier::spinoff_prover]
pub fn lsr<M: Mapper>(cpu: &mut Cpu, mem: &mut Chipset<M>, mode: Mode) -> (r: Result<
    (),
    EmuError,
>)
    requires
        cs_wf(old(mem)@),
        old(mem).mapper.inv(),
        old(cpu).count <= 0xF000_0000,
        mode != Mode::Immediate,
    ensures
        cs_wf(final(mem)@),
        final(mem).mapper.inv(),
        (*final(cpu), final(mem)@, r) == lsr_op_step::<M>(mode, *old(cpu), old(mem)@),
        old(cpu).count <= final(cpu).count <= old(cpu).count + 8,
        r matches Ok(_) ==> final(cpu).count >= old(cpu).count + 2,
{
    let amr = match run_mode(mode, false, cpu, mem) {
        Ok(a) => a,
        Err(e) => {
            return Err(e);
        },
    };
    proof {
        lemma_mode_not_val::<M>(mode, false, *old(cpu), old(mem)@);
    }
    let v = match amr.read(cpu, mem) {
        Ok(v) => v,
        Err(e) => {
            return Err(e);
        },
    };
    *cpu = Cpu { count: cpu.count + 2, ..*cpu };
    let res: u8 = v >> 1;
    *cpu = Cpu { carry: v & 0x01 > 0, zero: res == 0, negative: res & 0x80 > 0, ..*cpu };
    amr.write(cpu, mem, res)
}

/// A rotate left through the carry and the operand location.
pub open spec fn rol_op_step<M: Mapper>(mode: Mode, cpu: Cpu, c: ChipsetView<M>) -> (
    Cpu,
    ChipsetView<M>,
    Result<(), EmuError>,
) {
    let (cpu1, c1, ar) = mode_step::<M>(mode, false, cpu, c);
    match ar {
        Ok(amr) => {
            let (c2, rv) = amr_read_step::<M>(amr, cpu1, c1);
            match rv {
                Ok(v) => {
                    let cpu2 = Cpu { count: (cpu1.count + 2) as u32, ..cpu1 };
                    let (cpuf, res) = rol_spec(cpu2, v);
                    amr_write_step::<M>(amr, cpuf, c2, res)
                },
                Err(e) => (cpu1, c2, Err(e)),
            }
        },
        Err(e) => (cpu1, c1, Err(e)),
    }
}

/// A rotate left through the carry and the operand location.
#[verifier::rlimit(100)]
#[verifier::spinoff_prover]
pub fn rol<M: Mapper>(cpu: &mut Cpu, mem: &mut Chipset<M>, mode: Mode) -> (r: Result<
    (),
    EmuError,
>)
    requires
        cs_wf(old(mem)@),
        old(mem).mapper.inv(),
        old(cpu).count <= 0xF000_0000,
        mode != Mode::Immediate,
    ensures
        cs_wf(final(mem)@),
        final(mem).mapper.inv(),
        (*final(cpu), final(mem)@, r) == rol_op_step::<M>(mode, *old(cpu), old(mem)@),
        old(cpu).count <= final(cpu).count <= old(cpu).count + 8,
        r matches Ok(_) ==> final(cpu).count >= old(cpu).count + 2,
{
    let amr = match run_mode(mode, false, cpu, mem) {
        Ok(a) => a,
        Err(e) => {
            return Err(e);
        },
    };
    proof {
        lemma_mode_not_val::<M>(mode, false, *old(cpu), old(mem)@);
    }
    let v = match amr.read(cpu, mem) {
        Ok(v) => v,
        Err(e) => {
            return Err(e);
        },
    };
    *cpu = Cpu { count: cpu.count + 2, ..*cpu };
    let res: u8 = (v << 1) | (if cpu.carry { 1u8 } else { 0u8 });
    *cpu = Cpu { carry: v & 0x80 > 0, zero: res == 0, negative: res & 0x80 > 0, ..*cpu };
    amr.write(cpu, mem, res)
}

/// A rotate right through the carry and the operand location.
pub open spec fn ror_op_step<M: Mapper>(mode: Mode, cpu: Cpu, c: ChipsetView<M>) -> (
    Cpu,
    ChipsetView<M>,
    Result<(), EmuError>,
) {
    let (cpu1, c1, ar) = mode_step::<M>(mode, false, cpu, c);
    match ar {
        Ok(amr) => {
            let (c2, rv) = amr_read_step::<M>(amr, cpu1, c1);
            match rv {
                Ok(v) => {
                    let cpu2 = Cpu { count: (cpu1.count + 2) as u32, ..cpu1 };
                    let (cpuf, res) = ror_spec(cpu2, v);
                    amr_write_step::<M>(amr, cpuf, c2, res)
                },
                Err(e) => (cpu1, c2, Err(e)),
            }
        },
        Err(e) => (cpu1, c1, Err(e)),
    }
}

/// A rotate right through the carry and the operand location.
#[verifier::rlimit(100)]
#[verifier::spinoff_prover]
pub fn ror<M: Mapper>(cpu: &mut Cpu, mem: &mut Chipset<M>, mode: Mode) -> (r: Result<
    (),
    EmuError,
>)
    requires
        cs_wf(old(mem)@),
        old(mem).mapper.inv(),
        old(cpu).count <= 0xF000_0000,
        mode != Mode::Immediate,
    ensures
        cs_wf(final(mem)@),
        final(mem).mapper.inv(),
        (*final(cpu), final(mem)@, r) == ror_op_step::<M>(mode, *old(cpu), old(mem)@),
        old(cpu).count <= final(cpu).count <= old(cpu).count + 8,
        r matches Ok(_) ==> final(cpu).count >= old(cpu).count + 2,
{
    let amr = match run_mode(mode, false, cpu, mem) {
        Ok(a) => a,
        Err(e) => {
            return Err(e);
        },
    };
    proof {
        lemma_mode_not_val::<M>(mode, false, *old(cpu), old(mem)@);
    }
    let v = match amr.read(cpu, mem) {
        Ok(v) => v,
        Err(e) => {
            return Err(e);
        },
    };
    *cpu = Cpu { count: cpu.count + 2, ..*cpu };
    let res: u8 = (v >> 1) | (if cpu.carry { 0x80u8 } else { 0u8 });
    *cpu = Cpu { carry: v & 0x01 > 0, zero: res == 0, negative: res & 0x80 > 0, ..*cpu };
    amr.write(cpu, mem, res)
}

/// An increment through the operand location, wrapping at the byte.
pub open spec fn inc_op_step<M: Mapper>(mode: Mode, cpu: Cpu, c: ChipsetView<M>) -> (
    Cpu,
    ChipsetView<M>,
    Result<(), EmuError>,
) {
    let (cpu1, c1, ar) = mode_step::<M>(mode, false, cpu, c);
    match ar {
        Ok(amr) => {
            let (c2, rv) = amr_read_step::<M>(amr, cpu1, c1);
            match rv {
                Ok(v) => {
                    let cpu2 = Cpu { count: (cpu1.count + 2) as u32, ..cpu1 };
                    let (cpuf, res) = inc_spec(cpu2, v);
                    amr_write_step::<M>(amr, cpuf, c2, res)
                },
                Err(e) => (cpu1, c2, Err(e)),
            }
        },
        Err(e) => (cpu1, c1, Err(e)),
    }
}

/// An increment through the operand location, wrapping at the byte.
#[verifier::rlimit(100)]
#[verifier::spinoff_prover]
pub fn inc<M: Mapper>(cpu: &mut Cpu, mem: &mut Chipset<M>, mode: Mode) -> (r: Result<
    (),
    EmuError,
>)
    requires
        cs_wf(old(mem)@),
        old(mem).mapper.inv(),
        old(cpu).count <= 0xF000_0000,
        mode != Mode::Immediate,
    ensures
        cs_wf(final(mem)@),
        final(mem).mapper.inv(),
        (*final(cpu), final(mem)@, r) == inc_op_step::<M>(mode, *old(cpu), old(mem)@),
        old(cpu).count <= final(cpu).count <= old(cpu).count + 8,
        r matches Ok(_) ==> final(cpu).count >= old(cpu).count + 2,
{
    let amr = match run_mode(mode, false, cpu, mem) {
        Ok(a) => a,
        Err(e) => {
            return Err(e);
        },
    };
    proof {
        lemma_mode_not_val::<M>(mode, false, *old(cpu), old(mem)@);
    }
    let v = match amr.read(cpu, mem) {
        Ok(v) => v,
        Err(e) => {
            return Err(e);
        },
    };
    *cpu = Cpu { count: cpu.count + 2, ..*cpu };
    let res: u8 = v.wrapping_add(1);
    *cpu = Cpu { zero: res == 0, negative: res & 0x80 > 0, ..*cpu };
    amr.write(cpu, mem, res)
}

/// A decrement through the operand location, wrapping at the byte.
pub open spec fn dec_op_step<M: Mapper>(mode: Mode, cpu: Cpu, c: ChipsetView<M>) -> (
    Cpu,
    ChipsetView<M>,
    Result<(), EmuError>,
) {
    let (cpu1, c1, ar) = mode_step::<M>(mode, false, cpu, c);
    match ar {
        Ok(amr) => {
            let (c2, rv) = amr_read_step::<M>(amr, cpu1, c1);
            match rv {
                Ok(v) => {
                    let cpu2 = Cpu { count: (cpu1.count + 2) as u32, ..cpu1 };
                    let (cpuf, res) = dec_spec(cpu2, v);
                    amr_write_step::<M>(amr, cpuf, c2, res)
                },
                Err(e) => (cpu1, c2, Err(e)),
            }
        },
        Err(e) => (cpu1, c1, Err(e)),
    }
}

/// A decrement through the operand location, wrapping at the byte.
#[verifier::rlimit(100)]
#[verifier::spinoff_prover]
pub fn dec<M: Mapper>(cpu: &mut Cpu, mem: &mut Chipset<M>, mode: Mode) -> (r: Result<
    (),
    EmuError,
>)
    requires
        cs_wf(old(mem)@),
        old(mem).mapper.inv(),
        old(cpu).count <= 0xF000_0000,
        mode != Mode::Immediate,
    ensures
        cs_wf(final(mem)@),
        final(mem).mapper.inv(),
        (*final(cpu), final(mem)@, r) == dec_op_step::<M>(mode, *old(cpu), old(mem)@),
        old(cpu).count <= final(cpu).count <= old(cpu).count + 8,
        r matches Ok(_) ==> final(cpu).count >= old(cpu).count + 2,
{
    let amr = match run_mode(mode, false, cpu, mem) {
        Ok(a) => a,
        Err(e) => {
            return Err(e);
        },
    };
    proof {
        lemma_mode_not_val::<M>(mode, false, *old(cpu), old(mem)@);
    }
    let v = match amr.read(cpu, mem) {
        Ok(v) => v,
        Err(e) => {
            return Err(e);
        },
    };
    *cpu = Cpu { count: cpu.count + 2, ..*cpu };
    let res: u8 = v.wrapping_sub(1);
    *cpu = Cpu { zero: res == 0, negative: res & 0x80 > 0, ..*cpu };
    amr.write(cpu, mem, res)
}

/// A store of the accumulator.
pub open spec fn sta_op_step<M: Mapper>(mode: Mode, cpu: Cpu, c: ChipsetView<M>) -> (
    Cpu,
    ChipsetView<M>,
    Result<(), EmuError>,
) {
    let (cpu1, c1, ar) = mode_step::<M>(mode, false, cpu, c);
    match ar {
        Ok(amr) => amr_write_step::<M>(amr, cpu1, c1, cpu1.a),
        Err(e) => (cpu1, c1, Err(e)),
    }
}

/// A store of the accumulator.
#[verifier::rlimit(100)]
#[verifier::spinoff_prover]
pub fn sta<M: Mapper>(cpu: &mut Cpu, mem: &mut Chipset<M>, mode: Mode) -> (r: Result<
    (),
    EmuError,
>)
    requires
        cs_wf(old(mem)@),
        old(mem).mapper.inv(),
        old(cpu).count <= 0xF000_0000,
        mode != Mode::Immediate,
        is_fetch_mode(mode),
    ensures
        cs_wf(final(mem)@),
        final(mem).mapper.inv(),
        (*final(cpu), final(mem)@, r) == sta_op_step::<M>(mode, *old(cpu), old(mem)@),
        old(cpu).count + 2 <= final(cpu).count <= old(cpu).count + 8,
{
    let amr = match run_mode(mode, false, cpu, mem) {
        Ok(a) => a,
        Err(e) => {
            return Err(e);
        },
    };
    proof {
        lemma_mode_not_val::<M>(mode, false, *old(cpu), old(mem)@);
    }
    let val: u8 = cpu.a;
    amr.write(cpu, mem, val)
}

/// A store of the first index register.
pub open spec fn stx_op_step<M: Mapper>(mode: Mode, cpu: Cpu, c: ChipsetView<M>) -> (
    Cpu,
    ChipsetView<M>,
    Result<(), EmuError>,
) {
    let (cpu1, c1, ar) = mode_step::<M>(mode, false, cpu, c);
    match ar {
        Ok(amr) => amr_write_step::<M>(amr, cpu1, c1, cpu1.x),
        Err(e) => (cpu1, c1, Err(e)),
    }
}

/// A store of the first index register.
#[verifier::rlimit(100)]
#[verifier::spinoff_prover]
pub fn stx<M: Mapper>(cpu: &mut Cpu, mem: &mut Chipset<M>, mode: Mode) -> (r: Result<
    (),
    EmuError,
>)
    requires
        cs_wf(old(mem)@),
        old(mem).mapper.inv(),
        old(cpu).count <= 0xF000_0000,
        mode != Mode::Immediate,
        is_fetch_mode(mode),
    ensures
        cs_wf(final(mem)@),
        final(mem).mapper.inv(),
        (*final(cpu), final(mem)@, r) == stx_op_step::<M>(mode, *old(cpu), old(mem)@),
        old(cpu).count + 2 <= final(cpu).count <= old(cpu).count + 8,
{
    let amr = match run_mode(mode, false, cpu, mem) {
        Ok(a) => a,
        Err(e) => {
            return Err(e);
        },
    };
    proof {
        lemma_mode_not_val::<M>(mode, false, *old(cpu), old(mem)@);
    }
    let val: u8 = cpu.x;
    amr.write(cpu, mem, val)
}

/// A store of the second index register.
pub open spec fn sty_op_step<M: Mapper>(mode: Mode, cpu: Cpu, c: ChipsetView<M>) -> (
    Cpu,
    ChipsetView<M>,
    Result<(), EmuError>,
) {
    let (cpu1, c1, ar) = mode_step::<M>(mode, false, cpu, c);
    match ar {
        Ok(amr) => amr_write_step::<M>(amr, cpu1, c1, cpu1.y),
        Err(e) => (cpu1, c1, Err(e)),
    }
}

/// A store of the second index register.
#[verifier::rlimit(100)]
#[verifier::spinoff_prover]
pub fn sty<M: Mapper>(cpu: &mut Cpu, mem: &mut Chipset<M>, mode: Mode) -> (r: Result<
    (),
    EmuError,
>)
    requires
        cs_wf(old(mem)@),
        old(mem).mapper.inv(),
        old(cpu).count <= 0xF000_0000,
        mode != Mode::Immediate,
        is_fetch_mode(mode),
    ensures
        cs_wf(final(mem)@),
        final(mem).mapper.inv(),
        (*final(cpu), final(mem)@, r) == sty_op_step::<M>(mode, *old(cpu), old(mem)@),
        old(cpu).count + 2 <= final(cpu).count <= old(cpu).count + 8,
{
    let amr = match run_mode(mode, false, cpu, mem) {
        Ok(a) => a,
        Err(e) => {
            return Err(e);
        },
    };
    proof {
        lemma_mode_not_val::<M>(mode, false, *old(cpu), old(mem)@);
    }
    let val: u8 = cpu.y;
    amr.write(cpu, mem, val)
}

/// A non-immediate operand resolution never yields a bare value, so it can
/// always be written back through.
pub proof fn lemma_mode_not_val<M: Mapper>(mode: Mode, page_matters: bool, cpu: Cpu, c: ChipsetView<M>)
    ensures
        mode != Mode::Immediate ==> !(mode_step::<M>(mode, page_matters, cpu, c).2 matches Ok(
        AddressModeResult::Val(_))),
{
}

/// One conditional branch: two cycles to decide, the relative operand
/// resolved with its page penalties, and the jump taken only when the
/// condition holds -- an untaken branch pays for the decision alone.
pub open spec fn branch_step<M: Mapper>(cond: bool, cpu: Cpu, c: ChipsetView<M>) -> (
    Cpu,
    ChipsetView<M>,
    Result<(), EmuError>,
) {
    let cpu1 = Cpu { count: (cpu.count + 2) as u32, ..cpu };
    let (cpu2, c1, ar) = mode_step::<M>(Mode::Relative, true, cpu1, c);
    match ar {
        Ok(amr) => match amr {
            AddressModeResult::Addr(a) => if cond {
                (Cpu { pc: a, ..cpu2 }, c1, Ok(()))
            } else {
                (Cpu { count: cpu1.count, ..cpu2 }, c1, Ok(()))
            },
            _ => (cpu2, c1, Ok(())),
        },
        Err(e) => (cpu2, c1, Err(e)),
    }
}

/// Decides and, when the condition holds, takes one branch.
#[verifier::rlimit(100)]
#[verifier::spinoff_prover]
pub fn jump<M: Mapper>(cpu: &mut Cpu, mem: &mut Chipset<M>, cond: bool) -> (r: Result<
    (),
    EmuError,
>)
    requires
        cs_wf(old(mem)@),
        old(mem).mapper.inv(),
        old(cpu).count <= 0xE000_0000,
    ensures
        cs_wf(final(mem)@),
        final(mem).mapper.inv(),
        (*final(cpu), final(mem)@, r) == branch_step::<M>(cond, *old(cpu), old(mem)@),
        old(cpu).count + 2 <= final(cpu).count <= old(cpu).count + 8,
{
    *cpu = Cpu { count: cpu.count + 2, ..*cpu };
    let saved: u32 = cpu.count;
    let amr = match run_mode(Mode::Relative, true, cpu, mem) {
        Ok(a) => a,
        Err(e) => {
            return Err(e);
        },
    };
    match amr {
        AddressModeResult::Addr(a) => {
            if cond {
                *cpu = Cpu { pc: a, ..*cpu };
            } else {
                *cpu = Cpu { count: saved, ..*cpu };
            }
            Ok(())
        },
        _ => Ok(()),
    }
}

/// A jump to subroutine: the address of the instruction's last byte is
/// saved on the stack before control moves.
pub open spec fn jsr_op_step<M: Mapper>(cpu: Cpu, c: ChipsetView<M>) -> (
    Cpu,
    ChipsetView<M>,
    Result<(), EmuError>,
) {
    let cpu1 = Cpu { count: (cpu.count + 2) as u32, ..cpu };
    let (cpu2, c1, ar) = mode_step::<M>(Mode::Absolute, false, cpu1, c);
    match ar {
        Ok(amr) => match amr {
            AddressModeResult::Addr(a) => {
                let ret = ((cpu2.pc + 0xFFFF) % 0x10000) as u16;
                let (cpu3, c2, w) = push16_step::<M>(cpu2, c1, ret);
                match w {
                    Ok(_) => (Cpu { pc: a, ..cpu3 }, c2, Ok(())),
                    Err(e) => (cpu3, c2, Err(e)),
                }
            },
            _ => (cpu2, c1, Ok(())),
        },
        Err(e) => (cpu2, c1, Err(e)),
    }
}

/// A jump to subroutine.
#[verifier::rlimit(100)]
#[verifier::spinoff_prover]
pub fn jsr<M: Mapper>(cpu: &mut Cpu, mem: &mut Chipset<M>) -> (r: Result<(), EmuError>)
    requires
        cs_wf(old(mem)@),
        old(mem).mapper.inv(),
        old(cpu).count <= 0xE000_0000,
    ensures
        cs_wf(final(mem)@),
        final(mem).mapper.inv(),
        (*final(cpu), final(mem)@, r) == jsr_op_step::<M>(*old(cpu), old(mem)@),
        old(cpu).count + 2 <= final(cpu).count <= old(cpu).count + 8,
{
    *cpu = Cpu { count: cpu.count + 2, ..*cpu };
    let amr = match run_mode(Mode::Absolute, false, cpu, mem) {
        Ok(a) => a,
        Err(e) => {
            return Err(e);
        },
    };
    match amr {
        AddressModeResult::Addr(a) => {
            let ret: u16 = cpu.pc.wrapping_sub(1);
            let w = push16(cpu, mem, ret);
            if let Err(e) = w {
                return Err(e);
            }
            *cpu = Cpu { pc: a, ..*cpu };
            Ok(())
        },
        _ => Ok(()),
    }
}

/// The operations of the dispatch table.
#[derive(Clone, Copy, Debug, PartialEq, Eq, Structural)]
pub enum Op {
    Adc, Sbc, And, Ora, Eor, Asl, Lsr, Rol, Ror, Bit, Cmp, Cpx, Cpy, Inc, Dec, Bpl, Bmi, Bvc, Bvs, Bcc, Bcs, Bne, Beq, Lda, Ldx, Ldy, Sta, Stx, Sty, Jsr,
}

/// The operand modes each operation accepts: the writable operations and
/// the stores refuse an immediate operand, branches take exactly the
/// relative form, and a subroutine call takes exactly the absolute form.
/// The dispatch table only ever pairs an operation with a mode it accepts.
pub open spec fn op_mode_ok(op: Op, mode: Mode) -> bool {
    match op {
        Op::Asl | Op::Lsr | Op::Rol | Op::Ror | Op::Inc | Op::Dec => mode != Mode::Immediate
            && mode != Mode::Relative,
        Op::Sta | Op::Stx | Op::Sty => is_fetch_mode(mode) && mode != Mode::Immediate,
        Op::Bpl | Op::Bmi | Op::Bvc | Op::Bvs | Op::Bcc | Op::Bcs | Op::Bne | Op::Beq => mode
            == Mode::Relative,
        Op::Jsr => mode == Mode::Absolute,
        _ => is_fetch_mode(mode),
    }
}

/// One table operation as a single step.
pub open spec fn op_step<M: Mapper>(op: Op, mode: Mode, cpu: Cpu, c: ChipsetView<M>) -> (
    Cpu,
    ChipsetView<M>,
    Result<(), EmuError>,
) {
    match op {
        Op::Adc => adc_op_step::<M>(mode, cpu, c),
        Op::Sbc => sbc_op_step::<M>(mode, cpu, c),
        Op::And => and_acc_op_step::<M>(mode, cpu, c),
        Op::Ora => ora_op_step::<M>(mode, cpu, c),
        Op::Eor => eor_op_step::<M>(mode, cpu, c),
        Op::Asl => asl_op_step::<M>(mode, cpu, c),
        Op::Lsr => lsr_op_step::<M>(mode, cpu, c),
        Op::Rol => rol_op_step::<M>(mode, cpu, c),
        Op::Ror => ror_op_step::<M>(mode, cpu, c),
        Op::Bit => bit_op_step::<M>(mode, cpu, c),
        Op::Cmp => cmp_op_step::<M>(mode, cpu, c),
        Op::Cpx => cpx_op_step::<M>(mode, cpu, c),
        Op::Cpy => cpy_op_step::<M>(mode, cpu, c),
        Op::Inc => inc_op_step::<M>(mode, cpu, c),
        Op::Dec => dec_op_step::<M>(mode, cpu, c),
        Op::Bpl => branch_step::<M>(!cpu.negative, cpu, c),
        Op::Bmi => branch_step::<M>(cpu.negative, cpu, c),
        Op::Bvc => branch_step::<M>(!cpu.overflow, cpu, c),
        Op::Bvs => branch_step::<M>(cpu.overflow, cpu, c),
        Op::Bcc => branch_step::<M>(!cpu.carry, cpu, c),
        Op::Bcs => branch_step::<M>(cpu.carry, cpu, c),
        Op::Bne => branch_step::<M>(!cpu.zero, cpu, c),
        Op::Beq => branch_step::<M>(cpu.zero, cpu, c),
        Op::Lda => lda_op_step::<M>(mode, cpu, c),
        Op::Ldx => ldx_op_step::<M>(mode, cpu, c),
        Op::Ldy => ldy_op_step::<M>(mode, cpu, c),
        Op::Sta => sta_op_step::<M>(mode, cpu, c),
        Op::Stx => stx_op_step::<M>(mode, cpu, c),
        Op::Sty => sty_op_step::<M>(mode, cpu, c),
        Op::Jsr => jsr_op_step::<M>(cpu, c),
    }
}

/// Runs one operation of the dispatch table under its mode.
#[verifier::rlimit(100)]
#[verifier::spinoff_prover]
pub fn run_op<M: Mapper>(op: Op, mode: Mode, cpu: &mut Cpu, mem: &mut Chipset<M>) -> (r: Result<
    (),
    EmuError,
>)
    requires
        cs_wf(old(mem)@),
        old(mem).mapper.inv(),
        old(cpu).count <= 0xE000_0000,
        op_mode_ok(op, mode),
    ensures
        cs_wf(final(mem)@),
        final(mem).mapper.inv(),
        (*final(cpu), final(mem)@, r) == op_step::<M>(op, mode, *old(cpu), old(mem)@),
        old(cpu).count <= final(cpu).count <= old(cpu).count + 8,
        r matches Ok(_) ==> final(cpu).count >= old(cpu).count + 2,
{
    match op {
        Op::Adc => adc(cpu, mem, mode),
        Op::Sbc => sbc(cpu, mem, mode),
        Op::And => and_acc(cpu, mem, mode),
        Op::Ora => ora(cpu, mem, mode),
        Op::Eor => eor(cpu, mem, mode),
        Op::Asl => asl(cpu, mem, mode),
        Op::Lsr => lsr(cpu, mem, mode),
        Op::Rol => rol(cpu, mem, mode),
        Op::Ror => ror(cpu, mem, mode),
        Op::Bit => bit(cpu, mem, mode),
        Op::Cmp => cmp(cpu, mem, mode),
        Op::Cpx => cpx(cpu, mem, mode),
        Op::Cpy => cpy(cpu, mem, mode),
        Op::Inc => inc(cpu, mem, mode),
        Op::Dec => dec(cpu, mem, mode),
        Op::Bpl => {
            let cond: bool = !cpu.negative;
            jump(cpu, mem, cond)
        },
        Op::Bmi => {
            let cond: bool = cpu.negative;
            jump(cpu, mem, cond)
        },
        Op::Bvc => {
            let cond: bool = !cpu.overflow;
            jump(cpu, mem, cond)
        },
        Op::Bvs => {
            let cond: bool = cpu.overflow;
            jump(cpu, mem, cond)
        },
        Op::Bcc => {
            let cond: bool = !cpu.carry;
            jump(cpu, mem, cond)
        },
        Op::Bcs => {
            let cond: bool = cpu.carry;
            jump(cpu, mem, cond)
        },
        Op::Bne => {
            let cond: bool = !cpu.zero;
            jump(cpu, mem, cond)
        },
        Op::Beq => {
            let cond: bool = cpu.zero;
            jump(cpu, mem, cond)
        },
        Op::Lda => lda(cpu, mem, mode),
        Op::Ldx => ldx(cpu, mem, mode),
        Op::Ldy => ldy(cpu, mem, mode),
        Op::Sta => sta(cpu, mem, mode),
        Op::Stx => stx(cpu, mem, mode),
        Op::Sty => sty(cpu, mem, mode),
        Op::Jsr => jsr(cpu, mem),
    }
}

/// The dispatch table: the operation and addressing mode of every opcode
/// the table covers, or nothing for the fallback handler.
pub open spec fn spec_decode(op: u8) -> Option<(Op, Mode)> {
    if op == 0x01 {
        Some((Op::Ora, Mode::IndirectX))
    } else if op == 0x05 {
        Some((Op::Ora, Mode::ZeroPage))
    } else if op == 0x06 {
        Some((Op::Asl, Mode::ZeroPage))
    } else if op == 0x09 {
        Some((Op::Ora, Mode::Immediate))
    } else if op == 0x0A {
        Some((Op::Asl, Mode::ImpliedA))
    } else if op == 0x0D {
        Some((Op::Ora, Mode::Absolute))
    } else if op == 0x0E {
        Some((Op::Asl, Mode::Absolute))
    } else if op == 0x10 {
        Some((Op::Bpl, Mode::Relative))
    } else if op == 0x11 {
        Some((Op::Ora, Mode::IndirectY))
    } else if op == 0x15 {
        Some((Op::Ora, Mode::ZeroPageX))
    } else if op == 0x16 {
        Some((Op::Asl, Mode::ZeroPageX))
    } else if op == 0x19 {
        Some((Op::Ora, Mode::AbsoluteY))
    } else if op == 0x1D {
        Some((Op::Ora, Mode::AbsoluteX))
    } else if op == 0x1E {
        Some((Op::Asl, Mode::AbsoluteX))
    } else if op == 0x20 {
        Some((Op::Jsr, Mode::Absolute))
    } else if op == 0x21 {
        Some((Op::And, Mode::IndirectX))
    } else if op == 0x24 {
        Some((Op::Bit, Mode::ZeroPage))
    } else if op == 0x25 {
        Some((Op::And, Mode::ZeroPage))
    } else if op == 0x26 {
        Some((Op::Rol, Mode::ZeroPage))
    } else if op == 0x29 {
        Some((Op::And, Mode::Immediate))
    } else if op == 0x2A {
        Some((Op::Rol, Mode::ImpliedA))
    } else if op == 0x2C {
        Some((Op::Bit, Mode::Absolute))
    } else if op == 0x2D {
        Some((Op::And, Mode::Absolute))
    } else if op == 0x2E {
        Some((Op::Rol, Mode::Absolute))
    } else if op == 0x30 {
        Some((Op::Bmi, Mode::Relative))
    } else if op == 0x31 {
        Some((Op::And, Mode::IndirectY))
    } else if op == 0x35 {
        Some((Op::And, Mode::ZeroPageX))
    } else if op == 0x36 {
        Some((Op::Rol, Mode::ZeroPageX))
    } else if op == 0x39 {
        Some((Op::And, Mode::AbsoluteY))
    } else if op == 0x3D {
        Some((Op::And, Mode::AbsoluteX))
    } else if op == 0x3E {
        Some((Op::Rol, Mode::AbsoluteX))
    } else if op == 0x41 {
        Some((Op::Eor, Mode::IndirectX))
    } else if op == 0x45 {
        Some((Op::Eor, Mode::ZeroPage))
    } else if op == 0x46 {
        Some((Op::Lsr, Mode::ZeroPage))
    } else if op == 0x49 {
        Some((Op::Eor, Mode::Immediate))
    } else if op == 0x4A {
        Some((Op::Lsr, Mode::ImpliedA))
    } else if op == 0x4D {
        Some((Op::Eor, Mode::Absolute))
    } else if op == 0x4E {
        Some((Op::Lsr, Mode::Absolute))
    } else if op == 0x50 {
        Some((Op::Bvc, Mode::Relative))
    } else if op == 0x51 {
        Some((Op::Eor, Mode::IndirectY))
    } else if op == 0x55 {
        Some((Op::Eor, Mode::ZeroPageX))
    } else if op == 0x56 {
        Some((Op::Lsr, Mode::ZeroPageX))
    } else if op == 0x59 {
        Some((Op::Eor, Mode::AbsoluteY))
    } else if op == 0x5D {
        Some((Op::Eor, Mode::AbsoluteX))
    } else if op == 0x5E {
        Some((Op::Lsr, Mode::AbsoluteX))
    } else if op == 0x61 {
        Some((Op::Adc, Mode::IndirectX))
    } else if op == 0x65 {
        Some((Op::Adc, Mode::ZeroPage))
    } else if op == 0x66 {
        Some((Op::Ror, Mode::ZeroPage))
    } else if op == 0x69 {
        Some((Op::Adc, Mode::Immediate))
    } else if op == 0x6A {
        Some((Op::Ror, Mode::ImpliedA))
    } else if op == 0x6D {
        Some((Op::Adc, Mode::Absolute))
    } else if op == 0x6E {
        Some((Op::Ror, Mode::Absolute))
    } else if op == 0x70 {
        Some((Op::Bvs, Mode::Relative))
    } else if op == 0x71 {
        Some((Op::Adc, Mode::IndirectY))
    } else if op == 0x75 {
        Some((Op::Adc, Mode::ZeroPageX))
    } else if op == 0x76 {
        Some((Op::Ror, Mode::ZeroPageX))
    } else if op == 0x79 {
        Some((Op::Adc, Mode::AbsoluteY))
    } else if op == 0x7D {
        Some((Op::Adc, Mode::AbsoluteX))
    } else if op == 0x7E {
        Some((Op::Ror, Mode::AbsoluteX))
    } else if op == 0x81 {
        Some((Op::Sta, Mode::IndirectX))
    } else if op == 0x84 {
        Some((Op::Sty, Mode::ZeroPage))
    } else if op == 0x85 {
        Some((Op::Sta, Mode::ZeroPage))
    } else if op == 0x86 {
        Some((Op::Stx, Mode::ZeroPage))
    } else if op == 0x88 {
        Some((Op::Dec, Mode::ImpliedY))
    } else if op == 0x8C {
        Some((Op::Sty, Mode::Absolute))
    } else if op == 0x8D {
        Some((Op::Sta, Mode::Absolute))
    } else if op == 0x8E {
        Some((Op::Stx, Mode::Absolute))
    } else if op == 0x90 {
        Some((Op::Bcc, Mode::Relative))
    } else if op == 0x91 {
        Some((Op::Sta, Mode::IndirectY))
    } else if op == 0x94 {
        Some((Op::Sty, Mode::ZeroPageX))
    } else if op == 0x95 {
        Some((Op::Sta, Mode::ZeroPageX))
    } else if op == 0x96 {
        Some((Op::Stx, Mode::ZeroPageY))
    } else if op == 0x99 {
        Some((Op::Sta, Mode::AbsoluteY))
    } else if op == 0x9D {
        Some((Op::Sta, Mode::AbsoluteX))
    } else if op == 0xA0 {
        Some((Op::Ldy, Mode::Immediate))
    } else if op == 0xA1 {
        Some((Op::Lda, Mode::IndirectX))
    } else if op == 0xA2 {
        Some((Op::Ldx, Mode::Immediate))
    } else if op == 0xA4 {
        Some((Op::Ldy, Mode::ZeroPage))
    } else if op == 0xA5 {
        Some((Op::Lda, Mode::ZeroPage))
    } else if op == 0xA6 {
        Some((Op::Ldx, Mode::ZeroPage))
    } else if op == 0xA9 {
        Some((Op::Lda, Mode::Immediate))
    } else if op == 0xAC {
        Some((Op::Ldy, Mode::Absolute))
    } else if op == 0xAD {
        Some((Op::Lda, Mode::Absolute))
    } else if op == 0xAE {
        Some((Op::Ldx, Mode::Absolute))
    } else if op == 0xB0 {
        Some((Op::Bcs, Mode::Relative))
    } else if op == 0xB1 {
        Some((Op::Lda, Mode::IndirectY))
    } else if op == 0xB4 {
        Some((Op::Ldy, Mode::ZeroPageX))
    } else if op == 0xB5 {
        Some((Op::Lda, Mode::ZeroPageX))
    } else if op == 0xB6 {
        Some((Op::Ldx, Mode::ZeroPageY))
    } else if op == 0xB9 {
        Some((Op::Lda, Mode::AbsoluteY))
    } else if op == 0xBC {
        Some((Op::Ldy, Mode::AbsoluteX))
    } else if op == 0xBD {
        Some((Op::Lda, Mode::AbsoluteX))
    } else if op == 0xBE {
        Some((Op::Ldx, Mode::AbsoluteY))
    } else if op == 0xC0 {
        Some((Op::Cpy, Mode::Immediate))
    } else if op == 0xC1 {
        Some((Op::Cmp, Mode::IndirectX))
    } else if op == 0xC4 {
        Some((Op::Cpy, Mode::ZeroPage))
    } else if op == 0xC5 {
        Some((Op::Cmp, Mode::ZeroPage))
    } else if op == 0xC6 {
        Some((Op::Dec, Mode::ZeroPage))
    } else if op == 0xC8 {
        Some((Op::Inc, Mode::ImpliedY))
    } else if op == 0xC9 {
        Some((Op::Cmp, Mode::Immediate))
    } else if op == 0xCA {
        Some((Op::Dec, Mode::ImpliedX))
    } else if op == 0xCC {
        Some((Op::Cpy, Mode::Absolute))
    } else if op == 0xCD {
        Some((Op::Cmp, Mode::Absolute))
    } else if op == 0xCE {
        Some((Op::Dec, Mode::Absolute))
    } else if op == 0xD0 {
        Some((Op::Bne, Mode::Relative))
    } else if op == 0xD1 {
        Some((Op::Cmp, Mode::IndirectY))
    } else if op == 0xD5 {
        Some((Op::Cmp, Mode::ZeroPageX))
    } else if op == 0xD6 {
        Some((Op::Dec, Mode::ZeroPageX))
    } else if op == 0xD9 {
        Some((Op::Cmp, Mode::AbsoluteY))
    } else if op == 0xDD {
        Some((Op::Cmp, Mode::AbsoluteX))
    } else if op == 0xDE {
        Some((Op::Dec, Mode::AbsoluteX))
    } else if op == 0xE0 {
        Some((Op::Cpx, Mode::Immediate))
    } else if op == 0xE1 {
        Some((Op::Sbc, Mode::IndirectX))
    } else if op == 0xE4 {
        Some((Op::Cpx, Mode::ZeroPage))
    } else if op == 0xE5 {
        Some((Op::Sbc, Mode::ZeroPage))
    } else if op == 0xE6 {
        Some((Op::Inc, Mode::ZeroPage))
    } else if op == 0xE8 {
        Some((Op::Inc, Mode::ImpliedX))
    } else if op == 0xE9 {
        Some((Op::Sbc, Mode::Immediate))
    } else if op == 0xEC {
        Some((Op::Cpx, Mode::Absolute))
    } else if op == 0xED {
        Some((Op::Sbc, Mode::Absolute))
    } else if op == 0xEE {
        Some((Op::Inc, Mode::Absolute))
    } else if op == 0xF0 {
        Some((Op::Beq, Mode::Relative))
    } else if op == 0xF1 {
        Some((Op::Sbc, Mode::IndirectY))
    } else if op == 0xF5 {
        Some((Op::Sbc, Mode::ZeroPageX))
    } else if op == 0xF6 {
        Some((Op::Inc, Mode::ZeroPageX))
    } else if op == 0xF9 {
        Some((Op::Sbc, Mode::AbsoluteY))
    } else if op == 0xFD {
        Some((Op::Sbc, Mode::AbsoluteX))
    } else if op == 0xFE {
        Some((Op::Inc, Mode::AbsoluteX))
    } else {
        None
    }
}

/// Looks an opcode up in the dispatch table.
#[verifier::rlimit(100)]
#[verifier::spinoff_prover]
pub fn decode(op: u8) -> (r: Option<(Op, Mode)>)
    ensures
        r == spec_decode(op),
        r matches Some(p) ==> op_mode_ok(p.0, p.1),
{
    if op == 0x01 {
        Some((Op::Ora, Mode::IndirectX))
    } else if op == 0x05 {
        Some((Op::Ora, Mode::ZeroPage))
    } else if op == 0x06 {
        Some((Op::Asl, Mode::ZeroPage))
    } else if op == 0x09 {
        Some((Op::Ora, Mode::Immediate))
    } else if op == 0x0A {
        Some((Op::Asl, Mode::ImpliedA))
    } else if op == 0x0D {
        Some((Op::Ora, Mode::Absolute))
    } else if op == 0x0E {
        Some((Op::Asl, Mode::Absolute))
    } else if op == 0x10 {
        Some((Op::Bpl, Mode::Relative))
    } else if op == 0x11 {
        Some((Op::Ora, Mode::IndirectY))
    } else if op == 0x15 {
        Some((Op::Ora, Mode::ZeroPageX))
    } else if op == 0x16 {
        Some((Op::Asl, Mode::ZeroPageX))
    } else if op == 0x19 {
        Some((Op::Ora, Mode::AbsoluteY))
    } else if op == 0x1D {
        Some((Op::Ora, Mode::AbsoluteX))
    } else if op == 0x1E {
        Some((Op::Asl, Mode::AbsoluteX))
    } else if op == 0x20 {
        Some((Op::Jsr, Mode::Absolute))
    } else if op == 0x21 {
        Some((Op::And, Mode::IndirectX))
    } else if op == 0x24 {
        Some((Op::Bit, Mode::ZeroPage))
    } else if op == 0x25 {
        Some((Op::And, Mode::ZeroPage))
    } else if op == 0x26 {
        Some((Op::Rol, Mode::ZeroPage))
    } else if op == 0x29 {
        Some((Op::And, Mode::Immediate))
    } else if op == 0x2A {
        Some((Op::Rol, Mode::ImpliedA))
    } else if op == 0x2C {
        Some((Op::Bit, Mode::Absolute))
    } else if op == 0x2D {
        Some((Op::And, Mode::Absolute))
    } else if op == 0x2E {
        Some((Op::Rol, Mode::Absolute))
    } else if op == 0x30 {
        Some((Op::Bmi, Mode::Relative))
    } else if op == 0x31 {
        Some((Op::And, Mode::IndirectY))
    } else if op == 0x35 {
        Some((Op::And, Mode::ZeroPageX))
    } else if op == 0x36 {
        Some((Op::Rol, Mode::ZeroPageX))
    } else if op == 0x39 {
        Some((Op::And, Mode::AbsoluteY))
    } else if op == 0x3D {
        Some((Op::And, Mode::AbsoluteX))
    } else if op == 0x3E {
        Some((Op::Rol, Mode::AbsoluteX))
    } else if op == 0x41 {
        Some((Op::Eor, Mode::IndirectX))
    } else if op == 0x45 {
        Some((Op::Eor, Mode::ZeroPage))
    } else if op == 0x46 {
        Some((Op::Lsr, Mode::ZeroPage))
    } else if op == 0x49 {
        Some((Op::Eor, Mode::Immediate))
    } else if op == 0x4A {
        Some((Op::Lsr, Mode::ImpliedA))
    } else if op == 0x4D {
        Some((Op::Eor, Mode::Absolute))
    } else if op == 0x4E {
        Some((Op::Lsr, Mode::Absolute))
    } else if op == 0x50 {
        Some((Op::Bvc, Mode::Relative))
    } else if op == 0x51 {
        Some((Op::Eor, Mode::IndirectY))
    } else if op == 0x55 {
        Some((Op::Eor, Mode::ZeroPageX))
    } else if op == 0x56 {
        Some((Op::Lsr, Mode::ZeroPageX))
    } else if op == 0x59 {
        Some((Op::Eor, Mode::AbsoluteY))
    } else if op == 0x5D {
        Some((Op::Eor, Mode::AbsoluteX))
    } else if op == 0x5E {
        Some((Op::Lsr, Mode::AbsoluteX))
    } else if op == 0x61 {
        Some((Op::Adc, Mode::IndirectX))
    } else if op == 0x65 {
        Some((Op::Adc, Mode::ZeroPage))
    } else if op == 0x66 {
        Some((Op::Ror, Mode::ZeroPage))
    } else if op == 0x69 {
        Some((Op::Adc, Mode::Immediate))
    } else if op == 0x6A {
        Some((Op::Ror, Mode::ImpliedA))
    } else if op == 0x6D {
        Some((Op::Adc, Mode::Absolute))
    } else if op == 0x6E {
        Some((Op::Ror, Mode::Absolute))
    } else if op == 0x70 {
        Some((Op::Bvs, Mode::Relative))
    } else if op == 0x71 {
        Some((Op::Adc, Mode::IndirectY))
    } else if op == 0x75 {
        Some((Op::Adc, Mode::ZeroPageX))
    } else if op == 0x76 {
        Some((Op::Ror, Mode::ZeroPageX))
    } else if op == 0x79 {
        Some((Op::Adc, Mode::AbsoluteY))
    } else if op == 0x7D {
        Some((Op::Adc, Mode::AbsoluteX))
    } else if op == 0x7E {
        Some((Op::Ror, Mode::AbsoluteX))
    } else if op == 0x81 {
        Some((Op::Sta, Mode::IndirectX))
    } else if op == 0x84 {
        Some((Op::Sty, Mode::ZeroPage))
    } else if op == 0x85 {
        Some((Op::Sta, Mode::ZeroPage))
    } else if op == 0x86 {
        Some((Op::Stx, Mode::ZeroPage))
    } else if op == 0x88 {
        Some((Op::Dec, Mode::ImpliedY))
    } else if op == 0x8C {
        Some((Op::Sty, Mode::Absolute))
    } else if op == 0x8D {
        Some((Op::Sta, Mode::Absolute))
    } else if op == 0x8E {
        Some((Op::Stx, Mode::Absolute))
    } else if op == 0x90 {
        Some((Op::Bcc, Mode::Relative))
    } else if op == 0x91 {
        Some((Op::Sta, Mode::IndirectY))
    } else if op == 0x94 {
        Some((Op::Sty, Mode::ZeroPageX))
    } else if op == 0x95 {
        Some((Op::Sta, Mode::ZeroPageX))
    } else if op == 0x96 {
        Some((Op::Stx, Mode::ZeroPageY))
    } else if op == 0x99 {
        Some((Op::Sta, Mode::AbsoluteY))
    } else if op == 0x9D {
        Some((Op::Sta, Mode::AbsoluteX))
    } else if op == 0xA0 {
        Some((Op::Ldy, Mode::Immediate))
    } else if op == 0xA1 {
        Some((Op::Lda, Mode::IndirectX))
    } else if op == 0xA2 {
        Some((Op::Ldx, Mode::Immediate))
    } else if op == 0xA4 {
        Some((Op::Ldy, Mode::ZeroPage))
    } else if op == 0xA5 {
        Some((Op::Lda, Mode::ZeroPage))
    } else if op == 0xA6 {
        Some((Op::Ldx, Mode::ZeroPage))
    } else if op == 0xA9 {
        Some((Op::Lda, Mode::Immediate))
    } else if op == 0xAC {
        Some((Op::Ldy, Mode::Absolute))
    } else if op == 0xAD {
        Some((Op::Lda, Mode::Absolute))
    } else if op == 0xAE {
        Some((Op::Ldx, Mode::Absolute))
    } else if op == 0xB0 {
        Some((Op::Bcs, Mode::Relative))
    } else if op == 0xB1 {
        Some((Op::Lda, Mode::IndirectY))
    } else if op == 0xB4 {
        Some((Op::Ldy, Mode::ZeroPageX))
    } else if op == 0xB5 {
        Some((Op::Lda, Mode::ZeroPageX))
    } else if op == 0xB6 {
        Some((Op::Ldx, Mode::ZeroPageY))
    } else if op == 0xB9 {
        Some((Op::Lda, Mode::AbsoluteY))
    } else if op == 0xBC {
        Some((Op::Ldy, Mode::AbsoluteX))
    } else if op == 0xBD {
        Some((Op::Lda, Mode::AbsoluteX))
    } else if op == 0xBE {
        Some((Op::Ldx, Mode::AbsoluteY))
    } else if op == 0xC0 {
        Some((Op::Cpy, Mode::Immediate))
    } else if op == 0xC1 {
        Some((Op::Cmp, Mode::IndirectX))
    } else if op == 0xC4 {
        Some((Op::Cpy, Mode::ZeroPage))
    } else if op == 0xC5 {
        Some((Op::Cmp, Mode::ZeroPage))
    } else if op == 0xC6 {
        Some((Op::Dec, Mode::ZeroPage))
    } else if op == 0xC8 {
        Some((Op::Inc, Mode::ImpliedY))
    } else if op == 0xC9 {
        Some((Op::Cmp, Mode::Immediate))
    } else if op == 0xCA {
        Some((Op::Dec, Mode::ImpliedX))
    } else if op == 0xCC {
        Some((Op::Cpy, Mode::Absolute))
    } else if op == 0xCD {
        Some((Op::Cmp, Mode::Absolute))
    } else if op == 0xCE {
        Some((Op::Dec, Mode::Absolute))
    } else if op == 0xD0 {
        Some((Op::Bne, Mode::Relative))
    } else if op == 0xD1 {
        Some((Op::Cmp, Mode::IndirectY))
    } else if op == 0xD5 {
        Some((Op::Cmp, Mode::ZeroPageX))
    } else if op == 0xD6 {
        Some((Op::Dec, Mode::ZeroPageX))
    } else if op == 0xD9 {
        Some((Op::Cmp, Mode::AbsoluteY))
    } else if op == 0xDD {
        Some((Op::Cmp, Mode::AbsoluteX))
    } else if op == 0xDE {
        Some((Op::Dec, Mode::AbsoluteX))
    } else if op == 0xE0 {
        Some((Op::Cpx, Mode::Immediate))
    } else if op == 0xE1 {
        Some((Op::Sbc, Mode::IndirectX))
    } else if op == 0xE4 {
        Some((Op::Cpx, Mode::ZeroPage))
    } else if op == 0xE5 {
        Some((Op::Sbc, Mode::ZeroPage))
    } else if op == 0xE6 {
        Some((Op::Inc, Mode::ZeroPage))
    } else if op == 0xE8 {
        Some((Op::Inc, Mode::ImpliedX))
    } else if op == 0xE9 {
        Some((Op::Sbc, Mode::Immediate))
    } else if op == 0xEC {
        Some((Op::Cpx, Mode::Absolute))
    } else if op == 0xED {
        Some((Op::Sbc, Mode::Absolute))
    } else if op == 0xEE {
        Some((Op::Inc, Mode::Absolute))
    } else if op == 0xF0 {
        Some((Op::Beq, Mode::Relative))
    } else if op == 0xF1 {
        Some((Op::Sbc, Mode::IndirectY))
    } else if op == 0xF5 {
        Some((Op::Sbc, Mode::ZeroPageX))
    } else if op == 0xF6 {
        Some((Op::Inc, Mode::ZeroPageX))
    } else if op == 0xF9 {
        Some((Op::Sbc, Mode::AbsoluteY))
    } else if op == 0xFD {
        Some((Op::Sbc, Mode::AbsoluteX))
    } else if op == 0xFE {
        Some((Op::Inc, Mode::AbsoluteX))
    } else {
        None
    }
}

/// The flag-byte push: the copy pushed carries the interrupt bit set, the
/// live flags are untouched.
pub open spec fn php_step<M: Mapper>(cpu: Cpu, c: ChipsetView<M>) -> (
    Cpu,
    ChipsetView<M>,
    Result<(), EmuError>,
) {
    let cpu1 = Cpu { count: (cpu.count + 1) as u32, ..cpu };
    push_step::<M>(cpu1, c, get_p_spec(Cpu { interrupt: true, ..cpu1 }))
}

/// The flag-byte pull.
pub open spec fn plp_step<M: Mapper>(cpu: Cpu, c: ChipsetView<M>) -> (
    Cpu,
    ChipsetView<M>,
    Result<(), EmuError>,
) {
    let cpu1 = Cpu { count: (cpu.count + 2) as u32, ..cpu };
    let (cpu2, c1, v) = pull_step::<M>(cpu1, c);
    match v {
        Ok(p) => (set_p_spec(cpu2, p), c1, Ok(())),
        Err(e) => (cpu2, c1, Err(e)),
    }
}

/// The break instruction: the address after the padding byte and the flags
/// (with the interrupt bit) are pushed, control moves through the
/// interrupt vector, and further interrupts are disabled.
pub open spec fn brk_step<M: Mapper>(cpu: Cpu, c: ChipsetView<M>) -> (
    Cpu,
    ChipsetView<M>,
    Result<(), EmuError>,
) {
    let cpu1 = Cpu { count: (cpu.count + 2) as u32, ..cpu };
    let (cpu2, c1, w) = push16_step::<M>(cpu1, c, ((cpu1.pc + 1) % 0x10000) as u16);
    match w {
        Ok(_) => {
            let cpu3 = Cpu { count: (cpu2.count + 2) as u32, ..cpu2 };
            let (cpu4, c2, w2) = php_step::<M>(cpu3, c1);
            match w2 {
                Ok(_) => {
                    let (c3, v) = cs_read16_step::<M>(c2, 0xFFFE);
                    match v {
                        Ok(pc) => (
                            Cpu { pc, irq_disable: true, ..cpu4 },
                            c3,
                            Ok(()),
                        ),
                        Err(e) => (cpu4, c3, Err(e)),
                    }
                },
                Err(e) => (cpu4, c2, Err(e)),
            }
        },
        Err(e) => (cpu2, c1, Err(e)),
    }
}

/// The return from interrupt: flags then program counter come off the
/// stack.
pub open spec fn rti_step<M: Mapper>(cpu: Cpu, c: ChipsetView<M>) -> (
    Cpu,
    ChipsetView<M>,
    Result<(), EmuError>,
) {
    let cpu1 = Cpu { count: (cpu.count + 2) as u32, ..cpu };
    let (cpu2, c1, w) = plp_step::<M>(cpu1, c);
    match w {
        Ok(_) => {
            let (cpu3, c2, v) = pull16_step::<M>(cpu2, c1);
            match v {
                Ok(pc) => (Cpu { pc, ..cpu3 }, c2, Ok(())),
                Err(e) => (cpu3, c2, Err(e)),
            }
        },
        Err(e) => (cpu2, c1, Err(e)),
    }
}

/// The return from subroutine: the saved address comes off the stack and
/// one is added back.
pub open spec fn rts_step<M: Mapper>(cpu: Cpu, c: ChipsetView<M>) -> (
    Cpu,
    ChipsetView<M>,
    Result<(), EmuError>,
) {
    let cpu1 = Cpu { count: (cpu.count + 4) as u32, ..cpu };
    let (cpu2, c1, v) = pull16_step::<M>(cpu1, c);
    match v {
        Ok(pc) => (Cpu { pc: ((pc + 1) % 0x10000) as u16, ..cpu2 }, c1, Ok(())),
        Err(e) => (cpu2, c1, Err(e)),
    }
}

/// The absolute jump.
pub open spec fn jmp_abs_step<M: Mapper>(cpu: Cpu, c: ChipsetView<M>) -> (
    Cpu,
    ChipsetView<M>,
    Result<(), EmuError>,
) {
    let cpu1 = Cpu { count: (cpu.count + 1) as u32, ..cpu };
    let (c1, v) = cs_read16_step::<M>(c, cpu1.pc);
    match v {
        Ok(pc) => (Cpu { pc, ..cpu1 }, c1, Ok(())),
        Err(e) => (cpu1, c1, Err(e)),
    }
}

/// The indirect jump, with the hardware's page-wrap quirk on the pointer's
/// second byte.
pub open spec fn jmp_ind_step<M: Mapper>(cpu: Cpu, c: ChipsetView<M>) -> (
    Cpu,
    ChipsetView<M>,
    Result<(), EmuError>,
) {
    let cpu1 = Cpu { count: (cpu.count + 3) as u32, ..cpu };
    let (c1, v) = cs_read16_step::<M>(c, cpu1.pc);
    match v {
        Ok(addr) => {
            let (c2, lo) = cs_read_step::<M>(c1, addr);
            match lo {
                Ok(l) => {
                    let hi_addr = ((addr & 0xFF00) + (((addr + 1) as u16) & 0x00FF)) as u16;
                    let (c3, hi) = cs_read_step::<M>(c2, hi_addr);
                    match hi {
                        Ok(h) => (Cpu { pc: (l + h * 0x100) as u16, ..cpu1 }, c3, Ok(())),
                        Err(e) => (cpu1, c3, Err(e)),
                    }
                },
                Err(e) => (cpu1, c2, Err(e)),
            }
        },
        Err(e) => (cpu1, c1, Err(e)),
    }
}

/// The fallback handler's effect for every opcode outside the dispatch
/// table: flag sets and clears, register transfers, stack pushes and
/// pulls, the break, the returns and the jumps; anything else is an
/// illegal opcode.  Every arm pays the two-cycle base cost first.
pub open spec fn manual_step<M: Mapper>(op: u8, cpu: Cpu, c: ChipsetView<M>) -> (
    Cpu,
    ChipsetView<M>,
    Result<(), EmuError>,
) {
    let k = Cpu { count: (cpu.count + 2) as u32, ..cpu };
    if op == 0x18 {
        (Cpu { carry: false, ..k }, c, Ok(()))
    } else if op == 0x38 {
        (Cpu { carry: true, ..k }, c, Ok(()))
    } else if op == 0x58 {
        (Cpu { irq_disable: false, ..k }, c, Ok(()))
    } else if op == 0x78 {
        (Cpu { irq_disable: true, ..k }, c, Ok(()))
    } else if op == 0xB8 {
        (Cpu { overflow: false, ..k }, c, Ok(()))
    } else if op == 0x1A || op == 0x3A || op == 0x5A || op == 0x7A || op == 0xDA || op == 0xEA
        || op == 0xFA {
        (k, c, Ok(()))
    } else if op == 0xAA {
        (Cpu { x: k.a, zero: k.a == 0, negative: k.a & 0x80 > 0, ..k }, c, Ok(()))
    } else if op == 0x8A {
        (Cpu { a: k.x, zero: k.x == 0, negative: k.x & 0x80 > 0, ..k }, c, Ok(()))
    } else if op == 0xA8 {
        (Cpu { y: k.a, zero: k.a == 0, negative: k.a & 0x80 > 0, ..k }, c, Ok(()))
    } else if op == 0x98 {
        (Cpu { a: k.y, zero: k.y == 0, negative: k.y & 0x80 > 0, ..k }, c, Ok(()))
    } else if op == 0x9A {
        (Cpu { s: k.x, ..k }, c, Ok(()))
    } else if op == 0xBA {
        (Cpu { x: k.s, zero: k.s == 0, negative: k.s & 0x80 > 0, ..k }, c, Ok(()))
    } else if op == 0x48 {
        let k2 = Cpu { count: (k.count + 1) as u32, ..k };
        push_step::<M>(k2, c, k2.a)
    } else if op == 0x68 {
        let k2 = Cpu { count: (k.count + 2) as u32, ..k };
        let (cpu2, c1, v) = pull_step::<M>(k2, c);
        match v {
            Ok(a) => (Cpu { a, zero: a == 0, negative: a & 0x80 > 0, ..cpu2 }, c1, Ok(())),
            Err(e) => (cpu2, c1, Err(e)),
        }
    } else if op == 0x08 {
        php_step::<M>(k, c)
    } else if op == 0x28 {
        plp_step::<M>(k, c)
    } else if op == 0x00 {
        brk_step::<M>(k, c)
    } else if op == 0x40 {
        rti_step::<M>(k, c)
    } else if op == 0x60 {
        rts_step::<M>(k, c)
    } else if op == 0x4C {
        jmp_abs_step::<M>(k, c)
    } else if op == 0x6C {
        jmp_ind_step::<M>(k, c)
    } else if op == 0xF8 {
        (Cpu { decimal: true, ..k }, c, Ok(()))
    } else if op == 0xD8 {
        (Cpu { decimal: false, ..k }, c, Ok(()))
    } else {
        (k, c, Err(EmuError::IllegalOpcode(op)))
    }
}

/// The flag-byte push.
#[verifier::rlimit(100)]
#[verifier::spinoff_prover]
fn run_php<M: Mapper>(cpu: &mut Cpu, mem: &mut Chipset<M>) -> (r: Result<(), EmuError>)
    requires
        cs_wf(old(mem)@),
        old(mem).mapper.inv(),
        old(cpu).count <= 0xE100_0000,
    ensures
        cs_wf(final(mem)@),
        final(mem).mapper.inv(),
        (*final(cpu), final(mem)@, r) == php_step::<M>(*old(cpu), old(mem)@),
        old(cpu).count <= final(cpu).count <= old(cpu).count + 1,
{
    *cpu = Cpu { count: cpu.count + 1, ..*cpu };
    let save: bool = cpu.interrupt;
    *cpu = Cpu { interrupt: true, ..*cpu };
    let p: u8 = cpu.get_p();
    *cpu = Cpu { interrupt: save, ..*cpu };
    push(cpu, mem, p)
}

/// The flag-byte pull.
#[verifier::rlimit(100)]
#[verifier::spinoff_prover]
fn run_plp<M: Mapper>(cpu: &mut Cpu, mem: &mut Chipset<M>) -> (r: Result<(), EmuError>)
    requires
        cs_wf(old(mem)@),
        old(mem).mapper.inv(),
        old(cpu).count <= 0xE100_0000,
    ensures
        cs_wf(final(mem)@),
        final(mem).mapper.inv(),
        (*final(cpu), final(mem)@, r) == plp_step::<M>(*old(cpu), old(mem)@),
        old(cpu).count <= final(cpu).count <= old(cpu).count + 2,
{
    *cpu = Cpu { count: cpu.count + 2, ..*cpu };
    let p = match pull(cpu, mem) {
        Ok(v) => v,
        Err(e) => {
            return Err(e);
        },
    };
    cpu.set_p(p);
    Ok(())
}

/// The break instruction.
#[verifier::rlimit(100)]
#[verifier::spinoff_prover]
fn run_brk<M: Mapper>(cpu: &mut Cpu, mem: &mut Chipset<M>) -> (r: Result<(), EmuError>)
    requires
        cs_wf(old(mem)@),
        old(mem).mapper.inv(),
        old(cpu).count <= 0xE050_0000,
    ensures
        cs_wf(final(mem)@),
        final(mem).mapper.inv(),
        (*final(cpu), final(mem)@, r) == brk_step::<M>(*old(cpu), old(mem)@),
        old(cpu).count <= final(cpu).count <= old(cpu).count + 5,
{
    *cpu = Cpu { count: cpu.count + 2, ..*cpu };
    let ret: u16 = cpu.pc.wrapping_add(1);
    let w = push16(cpu, mem, ret);
    if let Err(e) = w {
        return Err(e);
    }
    *cpu = Cpu { count: cpu.count + 2, ..*cpu };
    let w2 = run_php(cpu, mem);
    if let Err(e) = w2 {
        return Err(e);
    }
    let pc = match mem.read16(0xFFFE) {
        Ok(v) => v,
        Err(e) => {
            return Err(e);
        },
    };
    *cpu = Cpu { pc, irq_disable: true, ..*cpu };
    Ok(())
}

/// The return from interrupt.
#[verifier::rlimit(100)]
#[verifier::spinoff_prover]
fn run_rti<M: Mapper>(cpu: &mut Cpu, mem: &mut Chipset<M>) -> (r: Result<(), EmuError>)
    requires
        cs_wf(old(mem)@),
        old(mem).mapper.inv(),
        old(cpu).count <= 0xE050_0000,
    ensures
        cs_wf(final(mem)@),
        final(mem).mapper.inv(),
        (*final(cpu), final(mem)@, r) == rti_step::<M>(*old(cpu), old(mem)@),
        old(cpu).count <= final(cpu).count <= old(cpu).count + 4,
{
    *cpu = Cpu { count: cpu.count + 2, ..*cpu };
    let w = run_plp(cpu, mem);
    if let Err(e) = w {
        return Err(e);
    }
    let pc = match pull16(cpu, mem) {
        Ok(v) => v,
        Err(e) => {
            return Err(e);
        },
    };
    *cpu = Cpu { pc, ..*cpu };
    Ok(())
}

/// The fallback handler for the opcodes outside the dispatch table.
#[verifier::rlimit(100)]
#[verifier::spinoff_prover]
pub fn manual<M: Mapper>(cpu: &mut Cpu, mem: &mut Chipset<M>, op: u8) -> (r: Result<(), EmuError>)
    requires
        cs_wf(old(mem)@),
        old(mem).mapper.inv(),
        old(cpu).count <= 0xE000_0000,
    ensures
        cs_wf(final(mem)@),
        final(mem).mapper.inv(),
        (*final(cpu), final(mem)@, r) == manual_step::<M>(op, *old(cpu), old(mem)@),
        old(cpu).count + 2 <= final(cpu).count <= old(cpu).count + 10,
{
    if op == 0x18 {
        *cpu = Cpu { count: cpu.count + 2, carry: false, ..*cpu };
        Ok(())
    } else if op == 0x38 {
        *cpu = Cpu { count: cpu.count + 2, carry: true, ..*cpu };
        Ok(())
    } else if op == 0x58 {
        *cpu = Cpu { count: cpu.count + 2, irq_disable: false, ..*cpu };
        Ok(())
    } else if op == 0x78 {
        *cpu = Cpu { count: cpu.count + 2, irq_disable: true, ..*cpu };
        Ok(())
    } else if op == 0xB8 {
        *cpu = Cpu { count: cpu.count + 2, overflow: false, ..*cpu };
        Ok(())
    } else if op == 0x1A || op == 0x3A || op == 0x5A || op == 0x7A || op == 0xDA || op == 0xEA
        || op == 0xFA {
        *cpu = Cpu { count: cpu.count + 2, ..*cpu };
        Ok(())
    } else if op == 0xAA {
        *cpu = Cpu {
            count: cpu.count + 2,
            x: cpu.a,
            zero: cpu.a == 0,
            negative: cpu.a & 0x80 > 0,
            ..*cpu
        };
        Ok(())
    } else if op == 0x8A {
        *cpu = Cpu {
            count: cpu.count + 2,
            a: cpu.x,
            zero: cpu.x == 0,
            negative: cpu.x & 0x80 > 0,
            ..*cpu
        };
        Ok(())
    } else if op == 0xA8 {
        *cpu = Cpu {
            count: cpu.count + 2,
            y: cpu.a,
            zero: cpu.a == 0,
            negative: cpu.a & 0x80 > 0,
            ..*cpu
        };
        Ok(())
    } else if op == 0x98 {
        *cpu = Cpu {
            count: cpu.count + 2,
            a: cpu.y,
            zero: cpu.y == 0,
            negative: cpu.y & 0x80 > 0,
            ..*cpu
        };
        Ok(())
    } else if op == 0x9A {
        *cpu = Cpu { count: cpu.count + 2, s: cpu.x, ..*cpu };
        Ok(())
    } else if op == 0xBA {
        *cpu = Cpu {
            count: cpu.count + 2,
            x: cpu.s,
            zero: cpu.s == 0,
            negative: cpu.s & 0x80 > 0,
            ..*cpu
        };
        Ok(())
    } else if op == 0xF8 {
        *cpu = Cpu { count: cpu.count + 2, decimal: true, ..*cpu };
        Ok(())
    } else if op == 0xD8 {
        *cpu = Cpu { count: cpu.count + 2, decimal: false, ..*cpu };
        Ok(())
    } else {
        manual_stack(cpu, mem, op)
    }
}

/// The fallback arms that touch the stack or move control.
#[verifier::rlimit(100)]
#[verifier::spinoff_prover]
fn manual_stack<M: Mapper>(cpu: &mut Cpu, mem: &mut Chipset<M>, op: u8) -> (r: Result<
    (),
    EmuError,
>)
    requires
        cs_wf(old(mem)@),
        old(mem).mapper.inv(),
        old(cpu).count <= 0xE000_0000,
        op != 0x18 && op != 0x38 && op != 0x58 && op != 0x78 && op != 0xB8 && op != 0x1A && op
            != 0x3A && op != 0x5A && op != 0x7A && op != 0xDA && op != 0xEA && op != 0xFA && op
            != 0xAA && op != 0x8A && op != 0xA8 && op != 0x98 && op != 0x9A && op != 0xBA && op
            != 0xF8 && op != 0xD8,
    ensures
        cs_wf(final(mem)@),
        final(mem).mapper.inv(),
        (*final(cpu), final(mem)@, r) == manual_step::<M>(op, *old(cpu), old(mem)@),
        old(cpu).count + 2 <= final(cpu).count <= old(cpu).count + 10,
{
    if op == 0x48 {
        *cpu = Cpu { count: cpu.count + 3, ..*cpu };
        let a: u8 = cpu.a;
        push(cpu, mem, a)
    } else if op == 0x68 {
        *cpu = Cpu { count: cpu.count + 4, ..*cpu };
        let a = match pull(cpu, mem) {
            Ok(v) => v,
            Err(e) => {
                return Err(e);
            },
        };
        *cpu = Cpu { a, zero: a == 0, negative: a & 0x80 > 0, ..*cpu };
        Ok(())
    } else if op == 0x08 {
        *cpu = Cpu { count: cpu.count + 2, ..*cpu };
        run_php(cpu, mem)
    } else if op == 0x28 {
        *cpu = Cpu { count: cpu.count + 2, ..*cpu };
        run_plp(cpu, mem)
    } else {
        manual_ctl(cpu, mem, op)
    }
}

/// The fallback arms that move control: the break, the returns and the
/// jumps.
#[verifier::rlimit(100)]
#[verifier::spinoff_prover]
fn manual_ctl<M: Mapper>(cpu: &mut Cpu, mem: &mut Chipset<M>, op: u8) -> (r: Result<
    (),
    EmuError,
>)
    requires
        cs_wf(old(mem)@),
        old(mem).mapper.inv(),
        old(cpu).count <= 0xE000_0000,
        op != 0x18 && op != 0x38 && op != 0x58 && op != 0x78 && op != 0xB8 && op != 0x1A && op
            != 0x3A && op != 0x5A && op != 0x7A && op != 0xDA && op != 0xEA && op != 0xFA && op
            != 0xAA && op != 0x8A && op != 0xA8 && op != 0x98 && op != 0x9A && op != 0xBA && op
            != 0xF8 && op != 0xD8 && op != 0x48 && op != 0x68 && op != 0x08 && op != 0x28,
    ensures
        cs_wf(final(mem)@),
        final(mem).mapper.inv(),
        (*final(cpu), final(mem)@, r) == manual_step::<M>(op, *old(cpu), old(mem)@),
        old(cpu).count + 2 <= final(cpu).count <= old(cpu).count + 10,
{
    if op == 0x00 {
        *cpu = Cpu { count: cpu.count + 2, ..*cpu };
        run_brk(cpu, mem)

    } else if op == 0x40 {
        *cpu = Cpu { count: cpu.count + 2, ..*cpu };
        run_rti(cpu, mem)
    } else {
        manual_jump(cpu, mem, op)
    }
}

/// The fallback arms for the subroutine return and the jumps.
#[verifier::rlimit(100)]
#[verifier::spinoff_prover]
fn manual_jump<M: Mapper>(cpu: &mut Cpu, mem: &mut Chipset<M>, op: u8) -> (r: Result<
    (),
    EmuError,
>)
    requires
        cs_wf(old(mem)@),
        old(mem).mapper.inv(),
        old(cpu).count <= 0xE000_0000,
        op != 0x18 && op != 0x38 && op != 0x58 && op != 0x78 && op != 0xB8 && op != 0x1A && op
            != 0x3A && op != 0x5A && op != 0x7A && op != 0xDA && op != 0xEA && op != 0xFA && op
            != 0xAA && op != 0x8A && op != 0xA8 && op != 0x98 && op != 0x9A && op != 0xBA && op
            != 0xF8 && op != 0xD8 && op != 0x48 && op != 0x68 && op != 0x08 && op != 0x28 && op
            != 0x00 && op != 0x40,
    ensures
        cs_wf(final(mem)@),
        final(mem).mapper.inv(),
        (*final(cpu), final(mem)@, r) == manual_step::<M>(op, *old(cpu), old(mem)@),
        old(cpu).count + 2 <= final(cpu).count <= old(cpu).count + 10,
{
    if op == 0x60 {
        *cpu = Cpu { count: cpu.count + 6, ..*cpu };
        let pc = match pull16(cpu, mem) {
            Ok(v) => v,
            Err(e) => {
                return Err(e);
            },
        };
        *cpu = Cpu { pc: pc.wrapping_add(1), ..*cpu };
        Ok(())
    } else if op == 0x4C {
        *cpu = Cpu { count: cpu.count + 3, ..*cpu };
        let pc = match mem.read16(cpu.pc) {
            Ok(v) => v,
            Err(e) => {
                return Err(e);
            },
        };
        *cpu = Cpu { pc, ..*cpu };
        Ok(())
    } else if op == 0x6C {
        *cpu = Cpu { count: cpu.count + 5, ..*cpu };
        let addr = match mem.read16(cpu.pc) {
            Ok(v) => v,
            Err(e) => {
                return Err(e);
            },
        };
        let lo = match mem.read(addr) {
            Ok(v) => v,
            Err(e) => {
                return Err(e);
            },
        };
        let nxt: u16 = addr.wrapping_add(1);
        proof {
            assert((addr & 0xFF00) + (nxt & 0x00FF) <= 0xFFFF) by (bit_vector);
            assert(nxt == (addr + 1) % 0x10000 ==> nxt == ((addr + 1) as u16)) by (bit_vector);
        }
        let hi_addr: u16 = (addr & 0xFF00) + (nxt & 0x00FF);
        let hi = match mem.read(hi_addr) {
            Ok(v) => v,
            Err(e) => {
                return Err(e);
            },
        };
        proof {
            assert((lo as u16) + ((hi as u16) << 8) == lo + hi * 0x100) by (bit_vector);
        }
        *cpu = Cpu { pc: lo as u16 + ((hi as u16) << 8), ..*cpu };
        Ok(())
    } else {
        *cpu = Cpu { count: cpu.count + 2, ..*cpu };
        Err(EmuError::IllegalOpcode(op))
    }
}
/// Interrupt service: the return address and the flag byte (with the
/// interrupt bit clear) go onto the stack, control moves through the
/// interrupt vector, and further maskable interrupts are disabled.
pub open spec fn nmi_service_step<M: Mapper>(cpu: Cpu, c: ChipsetView<M>) -> (
    Cpu,
    ChipsetView<M>,
    Result<(), EmuError>,
) {
    let k = Cpu { nmi_waiting: false, count: (cpu.count + 7) as u32, ..cpu };
    let (cpu1, c1, w) = push16_step::<M>(k, c, k.pc);
    match w {
        Ok(_) => {
            let (cpu2, c2, w2) = push_step::<M>(
                cpu1,
                c1,
                get_p_spec(Cpu { interrupt: false, ..cpu1 }),
            );
            match w2 {
                Ok(_) => {
                    let (c3, v) = cs_read16_step::<M>(c2, 0xFFFA);
                    match v {
                        Ok(pc) => (Cpu { pc, irq_disable: true, ..cpu2 }, c3, Ok(())),
                        Err(e) => (cpu2, c3, Err(e)),
                    }
                },
                Err(e) => (cpu2, c2, Err(e)),
            }
        },
        Err(e) => (cpu1, c1, Err(e)),
    }
}

/// One instruction as a single step: the opcode is fetched and the counter
/// advanced, the dispatch table or the fallback handler runs it, and a
/// pending interrupt is serviced before the step ends.
pub open spec fn tick_step<M: Mapper>(cpu: Cpu, c: ChipsetView<M>) -> (
    Cpu,
    ChipsetView<M>,
    Result<(), EmuError>,
) {
    let (c1, f) = cs_read_step::<M>(c, cpu.pc);
    match f {
        Ok(op) => {
            let cpu1 = Cpu { pc: ((cpu.pc + 1) % 0x10000) as u16, ..cpu };
            let (cpu2, c2, r) = match spec_decode(op) {
                Some(pair) => op_step::<M>(pair.0, pair.1, cpu1, c1),
                None => manual_step::<M>(op, cpu1, c1),
            };
            match r {
                Ok(_) => if cpu2.nmi_waiting {
                    nmi_service_step::<M>(cpu2, c2)
                } else {
                    (cpu2, c2, Ok(()))
                },
                Err(e) => (cpu2, c2, Err(e)),
            }
        },
        Err(e) => (cpu, c1, Err(e)),
    }
}

impl Cpu {
    /// Services a pending non-maskable interrupt.
    #[verifier::rlimit(100)]
    #[verifier::spinoff_prover]
    fn service_nmi<M: Mapper>(&mut self, mem: &mut Chipset<M>) -> (r: Result<(), EmuError>)
        requires
            cs_wf(old(mem)@),
            old(mem).mapper.inv(),
            old(self).count <= 0xE100_0000,
        ensures
            cs_wf(final(mem)@),
            final(mem).mapper.inv(),
            (*final(self), final(mem)@, r) == nmi_service_step::<M>(*old(self), old(mem)@),
            old(self).count <= final(self).count <= old(self).count + 7,
    {
        *self = Cpu { nmi_waiting: false, count: self.count + 7, ..*self };
        let ret: u16 = self.pc;
        let w = push16(self, mem, ret);
        if let Err(e) = w {
            return Err(e);
        }
        let save: bool = self.interrupt;
        *self = Cpu { interrupt: false, ..*self };
        let p: u8 = self.get_p();
        *self = Cpu { interrupt: save, ..*self };
        let w2 = push(self, mem, p);
        if let Err(e) = w2 {
            return Err(e);
        }
        let pc = match mem.read16(0xFFFA) {
            Ok(v) => v,
            Err(e) => {
                return Err(e);
            },
        };
        *self = Cpu { pc, irq_disable: true, ..*self };
        Ok(())
    }

    /// Executes one instruction, charging its exact cycle cost, and
    /// services a pending interrupt afterwards.  A successful step always
    /// moves the cycle counter forward.
    #[verifier::rlimit(100)]
    #[verifier::spinoff_prover]
    pub fn tick<M: Mapper>(&mut self, mem: &mut Chipset<M>) -> (r: Result<(), EmuError>)
        requires
            cs_wf(old(mem)@),
            old(mem).mapper.inv(),
            old(self).count <= 0xE000_0000,
        ensures
            cs_wf(final(mem)@),
            final(mem).mapper.inv(),
            (*final(self), final(mem)@, r) == tick_step::<M>(*old(self), old(mem)@),
            old(self).count <= final(self).count <= old(self).count + 32,
            r matches Ok(_) ==> final(self).count >= old(self).count + 2,
    {
        let op = match mem.read(self.pc) {
            Ok(v) => v,
            Err(e) => {
                return Err(e);
            },
        };
        *self = Cpu { pc: self.pc.wrapping_add(1), ..*self };
        let r = match decode(op) {
            Some(pair) => run_op(pair.0, pair.1, self, mem),
            None => manual(self, mem, op),
        };
        if let Err(e) = r {
            return Err(e);
        }
        if self.nmi_waiting {
            self.service_nmi(mem)
        } else {
            Ok(())
        }
    }
}

} // verus!
