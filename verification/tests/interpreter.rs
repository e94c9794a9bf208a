use mos6502::addressing_mode::AddressingMode;
use mos6502::cpu::{CPU, StepOutcome};
use mos6502::cpu_status::CpuStatus;

#[test]
fn test_cpu_initialization() {
    let cpu = CPU::new();
    assert_eq!(cpu.pc, 0);
    assert_eq!(cpu.sp, 0xFD);
    assert_eq!(cpu.a, 0);
    assert_eq!(cpu.x, 0);
    assert_eq!(cpu.y, 0);
    assert_eq!(cpu.status.get(), 0);
    assert_eq!(cpu.read(0), 0);
}

#[test]
fn test_memory_read_write() {
    let mut cpu = CPU::new();
    cpu.write(0x1234, 0x56);
    assert_eq!(cpu.read(0x1234), 0x56);
}

#[test]
fn test_lda_immediate() {
    let mut cpu = CPU::new();
    cpu.load_and_run(vec![0xA9, 0x06, 0x00]);
    assert_eq!(cpu.a, 0x06);
    assert!(!cpu.status.is_set(CpuStatus::NEGATIVE));
    assert!(!cpu.status.is_set(CpuStatus::ZERO));
}

#[test]
fn test_lda_immediate_zero() {
    let mut cpu = CPU::new();
    cpu.load_and_run(vec![0xA9, 0x00, 0x00]);
    assert_eq!(cpu.a, 0x00);
    assert!(cpu.status.is_set(CpuStatus::ZERO));
}

#[test]
fn test_lda_zero_page() {
    let mut cpu = CPU::new();
    cpu.write(0xFF, 0x32);
    cpu.load_and_run(vec![0xA5, 0xFF, 0x00]);
    assert_eq!(cpu.a, 0x32);
}

#[test]
fn test_lda_zero_page_x() {
    let mut cpu = CPU::new();
    cpu.write(0xFF, 0x32);
    cpu.load_and_run(vec![0xA9, 0x05, 0xAA, 0xB5, 0xFA, 0x00]);
    assert_eq!(cpu.a, 0x32);
}

#[test]
fn test_lda_absolute() {
    let mut cpu = CPU::new();
    cpu.write(0x1234, 0x56);
    cpu.load_and_run(vec![0xAD, 0x34, 0x12, 0x00]);
    assert_eq!(cpu.a, 0x56);
}

#[test]
fn test_tax() {
    let mut cpu = CPU::new();
    cpu.load_and_run(vec![0xA9, 0xFF, 0xAA, 0x00]);
    assert_eq!(cpu.x, cpu.a);
    assert!(cpu.status.is_set(CpuStatus::NEGATIVE));
}

#[test]
fn test_tax_zero() {
    let mut cpu = CPU::new();
    cpu.load_and_run(vec![0xA9, 0x00, 0xAA, 0x00]);
    assert_eq!(cpu.x, cpu.a);
    assert!(cpu.status.is_set(CpuStatus::ZERO));
}

#[test]
fn test_mem_read_u16() {
    let mut cpu: CPU = CPU::new();
    cpu.write(0x00, 0x01);
    cpu.write(0x01, 0x10);

    assert_eq!(cpu.mem_read_u16(0x00), 0x1001);
}

#[test]
fn test_mem_write_u16() {
    let mut cpu: CPU = CPU::new();
    cpu.mem_write_u16(0x0000, 0x1001);
    assert_eq!(cpu.read(0x0000), 0x01);
    assert_eq!(cpu.read(0x0001), 0x10);
}

#[test]
fn test_u16_round_trip_wraps_at_top_of_memory() {
    let mut cpu = CPU::new();
    cpu.mem_write_u16(0xFFFF, 0xABCD);
    assert_eq!(cpu.read(0xFFFF), 0xCD);
    assert_eq!(cpu.read(0x0000), 0xAB);
    assert_eq!(cpu.mem_read_u16(0xFFFF), 0xABCD);
}

#[test]
fn test_load_writes_program_and_reset_vector() {
    let mut cpu = CPU::new();
    cpu.load(vec![0xA9, 0x06, 0x00]);
    assert_eq!(cpu.read(0x8000), 0xA9);
    assert_eq!(cpu.read(0x8001), 0x06);
    assert_eq!(cpu.read(0x8002), 0x00);
    assert_eq!(cpu.mem_read_u16(0xFFFC), 0x8000);
}

#[test]
fn test_load_then_reset_restores_power_on_state() {
    let mut cpu = CPU::new();
    cpu.a = 0x12;
    cpu.x = 0x34;
    cpu.y = 0x56;
    cpu.sp = 0x00;
    cpu.status.set(0xFF);
    cpu.load(vec![0xA9, 0x06, 0x00]);
    cpu.reset();
    assert_eq!(cpu.pc, 0x8000);
    assert_eq!(cpu.a, 0);
    assert_eq!(cpu.x, 0);
    assert_eq!(cpu.y, 0);
    assert_eq!(cpu.sp, 0xFD);
    assert_eq!(cpu.status.get(), 0);
}

#[test]
fn test_load_accepts_largest_program() {
    let mut cpu = CPU::new();
    cpu.load(vec![0x01; 0x8000]);
    assert_eq!(cpu.read(0x8000), 0x01);
    assert_eq!(cpu.read(0xFFFB), 0x01);
    // The reset vector is written after the copy, so it wins over the
    // program bytes that covered it.
    assert_eq!(cpu.read(0xFFFC), 0x00);
    assert_eq!(cpu.read(0xFFFD), 0x80);
    assert_eq!(cpu.read(0xFFFF), 0x01);
}

#[test]
fn test_empty_program_halts_at_once() {
    let mut cpu = CPU::new();
    let outcome = cpu.load_and_run(vec![]);
    assert_eq!(outcome, StepOutcome::Halted);
    assert_eq!(cpu.pc, 0x8001);
}

#[test]
fn test_update_flags_leaves_other_flags_alone() {
    let mut cpu = CPU::new();
    cpu.status.set(CpuStatus::CARRY | CpuStatus::OVERFLOW);

    cpu.update_negative_and_zero_bits(0x00);
    assert!(cpu.status.is_set(CpuStatus::ZERO));
    assert!(!cpu.status.is_set(CpuStatus::NEGATIVE));
    assert!(cpu.status.is_set(CpuStatus::CARRY | CpuStatus::OVERFLOW));

    cpu.update_negative_and_zero_bits(0x80);
    assert!(!cpu.status.is_set(CpuStatus::ZERO));
    assert!(cpu.status.is_set(CpuStatus::NEGATIVE));
    assert!(cpu.status.is_set(CpuStatus::CARRY | CpuStatus::OVERFLOW));

    cpu.update_negative_and_zero_bits(0x05);
    assert!(!cpu.status.is_set(CpuStatus::ZERO));
    assert!(!cpu.status.is_set(CpuStatus::NEGATIVE));
    assert!(cpu.status.is_set(CpuStatus::CARRY | CpuStatus::OVERFLOW));
}

#[test]
fn test_fetch_next_pc_wraps_at_top_of_memory() {
    let mut cpu = CPU::new();
    cpu.write(0xFFFF, 0x42);
    cpu.pc = 0xFFFF;
    assert_eq!(cpu.fetch_next_pc(), 0x42);
    assert_eq!(cpu.pc, 0x0000);
}

#[test]
fn test_zero_page_x_stays_in_zero_page() {
    let mut cpu = CPU::new();
    cpu.pc = 0x8000;
    cpu.write(0x8000, 0xFA);
    cpu.x = 0x10;
    let addr: u16 = cpu.get_addressing_operator(AddressingMode::ZeroPageX);
    assert_eq!(addr, 0x000A);
    assert_eq!(cpu.pc, 0x8001);
}

#[test]
fn test_zero_page_y_stays_in_zero_page() {
    let mut cpu = CPU::new();
    cpu.pc = 0x8000;
    cpu.write(0x8000, 0x80);
    cpu.y = 0x85;
    let addr: u16 = cpu.get_addressing_operator(AddressingMode::ZeroPageY);
    assert_eq!(addr, 0x0005);
    assert_eq!(cpu.pc, 0x8001);
}

#[test]
fn test_absolute_x_wraps_in_sixteen_bits() {
    let mut cpu = CPU::new();
    cpu.pc = 0x8000;
    cpu.mem_write_u16(0x8000, 0xFFFE);
    cpu.x = 0x05;
    let addr: u16 = cpu.get_addressing_operator(AddressingMode::AbsoluteX);
    assert_eq!(addr, 0x0003);
    assert_eq!(cpu.pc, 0x8002);
}

#[test]
fn test_absolute_y_resolves_past_page_boundary() {
    let mut cpu = CPU::new();
    cpu.pc = 0x8000;
    cpu.mem_write_u16(0x8000, 0x12F0);
    cpu.y = 0x20;
    let addr: u16 = cpu.get_addressing_operator(AddressingMode::AbsoluteY);
    assert_eq!(addr, 0x1310);
    assert_eq!(cpu.pc, 0x8002);
}

#[test]
fn test_single_stepping() {
    let mut cpu = CPU::new();
    cpu.load(vec![0xA9, 0x06, 0x00]);
    cpu.reset();
    assert_eq!(cpu.step(), StepOutcome::Running);
    assert_eq!(cpu.a, 0x06);
    assert_eq!(cpu.pc, 0x8002);
    assert_eq!(cpu.step(), StepOutcome::Halted);
    assert_eq!(cpu.pc, 0x8003);
}

#[test]
fn test_unknown_opcode_stops_the_machine() {
    let mut cpu = CPU::new();
    let outcome = cpu.load_and_run(vec![0xA9, 0x07, 0xFF, 0x00]);
    assert_eq!(outcome, StepOutcome::UnknownOpcode);
    // The unknown opcode was fetched but executed nothing.
    assert_eq!(cpu.a, 0x07);
    assert_eq!(cpu.pc, 0x8003);
}

#[test]
fn test_lda_absolute_x() {
    let mut cpu = CPU::new();
    cpu.write(0x1239, 0x44);
    // LDA #$05; TAX; LDA $1234,X; BRK
    cpu.load_and_run(vec![0xA9, 0x05, 0xAA, 0xBD, 0x34, 0x12, 0x00]);
    assert_eq!(cpu.a, 0x44);
}

#[test]
fn test_lda_absolute_y() {
    let mut cpu = CPU::new();
    cpu.write(0x0002, 0x55);
    // Y starts at zero after reset, so LDA $FFFE,Y with Y=4 is exercised
    // through direct register state instead of a TAY instruction.
    cpu.load(vec![0xB9, 0xFE, 0xFF, 0x00]);
    cpu.reset();
    cpu.y = 0x04;
    cpu.interpret();
    assert_eq!(cpu.a, 0x55);
}

#[test]
fn test_runaway_program_spends_the_step_budget() {
    let mut cpu = CPU::new();
    // Every byte an LDA-immediate opcode: each step consumes two bytes,
    // wraps at the top of memory, and never meets a BRK.
    for addr in 0..=0xFFFFu16 {
        cpu.write(addr, 0xA9);
    }
    cpu.pc = 0x0000;
    let outcome = cpu.interpret();
    assert_eq!(outcome, StepOutcome::Running);
    assert_eq!(cpu.a, 0xA9);
}
