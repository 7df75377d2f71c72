use nes::controller::Controller;
use nes::cpu::{Cpu, add_with_carry};
use nes::mem::mirror_addr;

#[test]
fn adc_carry_and_zero() {
    let mut c = Cpu::new(0);
    c.a = 0x01;
    c.carry = false;
    add_with_carry(&mut c, 0xFF);
    assert_eq!(c.a, 0x00);
    assert!(c.carry);
    assert!(!c.overflow);
    assert!(c.zero);
    assert!(!c.negative);
}

#[test]
fn adc_signed_overflow() {
    let mut c = Cpu::new(0);
    c.a = 0x7F;
    c.carry = false;
    add_with_carry(&mut c, 0x01);
    assert_eq!(c.a, 0x80);
    assert!(!c.carry);
    assert!(c.overflow);
    assert!(c.negative);
}

#[test]
fn adc_both_carry_and_overflow() {
    let mut c = Cpu::new(0);
    c.a = 0x80;
    c.carry = false;
    add_with_carry(&mut c, 0xFF);
    assert_eq!(c.a, 0x7F);
    assert!(c.carry);
    assert!(c.overflow);
    assert!(!c.negative);
}

#[test]
fn flags_byte_round_trip() {
    let mut c = Cpu::new(0);
    c.negative = true;
    c.carry = true;
    c.zero = false;
    let p = c.get_p();
    assert_eq!(p & 0x20, 0x20);
    c.set_p(p);
    assert_eq!(c.get_p(), p);
}

#[test]
fn controller_sequence() {
    let mut c = Controller::new();
    c.a = true;
    c.start = true;
    c.right = true;
    c.write(1);
    c.write(0);
    let expected = [1u8, 0, 0, 1, 0, 0, 0, 1, 1];
    for e in expected {
        assert_eq!(c.read(), e);
    }
}

#[test]
fn ram_mirror_addresses() {
    assert_eq!(mirror_addr(0, 0x07FF, 0x0800, 0x0805), 0x0005);
    assert_eq!(mirror_addr(0x2000, 0x2007, 0x2008, 0x3456), 0x2006);
}

#[test]
fn unsupported_mapper_rejected() {
    let r = nes::nes::Nes::new(vec![0u8; 32768], vec![0u8; 8192], 9, 8192, true);
    match r {
        Err(nes::EmuError::UnsupportedMapper(9)) => {}
        _ => panic!("expected the unsupported-mapper rejection"),
    }
}

#[test]
fn frame_of_nops_runs() {
    // A 32 KiB program of NOPs with the reset vector at the bank's start.
    let mut prg = vec![0xEAu8; 32768];
    prg[0x7FFC] = 0x00;
    prg[0x7FFD] = 0x80;
    prg[0x7FFE] = 0x00;
    prg[0x7FFF] = 0x80;
    let mut machine = nes::nes::Nes::new(prg, vec![0u8; 8192], 0, 8192, true).unwrap();
    assert_eq!(machine.cpu.pc, 0x8000);
    machine.tick().unwrap();
    assert!(machine.cpu.count < 700);
}

#[test]
fn dma_latch_and_service() {
    let mut prg = vec![0xEAu8; 32768];
    prg[0x7FFC] = 0x00;
    prg[0x7FFD] = 0x80;
    let mut machine = nes::nes::Nes::new(prg, vec![0u8; 8192], 0, 8192, true).unwrap();
    // Latch a transfer from page 2, with a recognizable byte in its source.
    machine.chipset.write(0x0200, 0xAB).unwrap();
    machine.chipset.write(0x4014, 0x02).unwrap();
    assert!(machine.chipset.ppu_dma_requested);
    assert_eq!(machine.chipset.ppu_dma_val, 0x02);
    let before = machine.cpu.count;
    machine.step().unwrap();
    // The request was served before the instruction: the cycle cost includes
    // the transfer's 513 (the counter was even) plus the instruction.
    assert!(!machine.chipset.ppu_dma_requested);
    assert_eq!(machine.chipset.ppu.oam[0], 0xAB);
    assert!(machine.cpu.count >= before + 513 + 2);
}

#[test]
fn queued_register_write_flushed_in_order() {
    let mut prg = vec![0xEAu8; 32768];
    prg[0x7FFC] = 0x00;
    prg[0x7FFD] = 0x80;
    let mut machine = nes::nes::Nes::new(prg, vec![0u8; 8192], 0, 8192, true).unwrap();
    // An address write followed by two data writes: flushed in this order,
    // the data bytes land at consecutive attribute addresses.
    machine.chipset.write(0x2003, 0x07).unwrap();
    machine.chipset.write(0x2004, 0xAA).unwrap();
    machine.chipset.write(0x2004, 0xBB).unwrap();
    assert_eq!(machine.chipset.ppu_writes_requested.len(), 3);
    assert_eq!(machine.chipset.ppu.regs.oamaddr, 0);
    machine.step().unwrap();
    assert_eq!(machine.chipset.ppu.oam[7], 0xAA);
    assert_eq!(machine.chipset.ppu.oam[8], 0xBB);
    assert!(machine.chipset.ppu_writes_requested.is_empty());
}
