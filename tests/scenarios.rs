use emulator::emulator::Emulator;
use emulator::flags::Flag;
use emulator::machine::{EmuError, Operand};
use emulator::register::{Pair, Reg8};

fn run_to_halt(emu: &mut Emulator, budget: usize) -> usize {
    let mut total = 0;
    let mut steps = 0;
    while emu.running && steps < budget {
        total += emu.execute_next().expect("step");
        steps += 1;
    }
    total
}

#[test]
fn mvi_adi_hlt_program() {
    let mut emu = Emulator::new();
    emu.load_ram(vec![0x3E, 0x05, 0xC6, 0x03, 0x76], 0);
    let cycles = run_to_halt(&mut emu, 10);
    assert_eq!(emu.reg.get8(Reg8::A), 8);
    assert!(!emu.reg.get_flag(Flag::Zero));
    assert!(!emu.reg.get_flag(Flag::Carry));
    assert!(!emu.running);
    assert_eq!(cycles, 7 + 7 + 7);
}

#[test]
fn summing_loop_program() {
    let mut emu = Emulator::new();
    emu.load_ram(vec![0x06, 0x10, 0x3E, 0x00, 0x80, 0x05, 0xC2, 0x04, 0x00, 0x76], 0);
    run_to_halt(&mut emu, 1000);
    assert_eq!(emu.reg.get8(Reg8::A), 136);
    assert!(!emu.running);
}

#[test]
fn psw_push_pop_sanitises_flags() {
    let mut emu = Emulator::new();
    emu.sp = 0x3000;
    emu.reg.set16(Pair::PSW, 0x12FF);
    emu.load_ram(vec![0xF5, 0xF1], 0);
    emu.execute_next().expect("push");
    emu.execute_next().expect("pop");
    assert_eq!(emu.reg.get16(Pair::PSW), 0x1200 | ((0xFF & 0xD5) | 0x02));
    assert_eq!(emu.sp, 0x3000);
}

#[test]
fn call_then_ret_restores_stack() {
    let mut emu = Emulator::new();
    emu.sp = 0x3000;
    emu.pc = 0x0100;
    emu.load_ram(vec![0xCD, 0x00, 0x02], 0x0100);
    emu.ram.write(0x0200, 0xC9);
    assert_eq!(emu.execute_next(), Ok(17));
    assert_eq!(emu.pc, 0x0200);
    assert_eq!(emu.execute_next(), Ok(10));
    assert_eq!(emu.pc, 0x0103);
    assert_eq!(emu.sp, 0x3000);
}

#[test]
fn conditional_cycles() {
    let mut emu = Emulator::new();
    emu.sp = 0x3000;
    // CZ with zero clear: not taken, 11 cycles
    emu.load_ram(vec![0xCC, 0x00, 0x02], 0);
    emu.reg.set_flag(Flag::Zero, false);
    assert_eq!(emu.execute_next(), Ok(11));
    assert_eq!(emu.pc, 3);
    // CZ with zero set: taken, 17 cycles
    emu.pc = 0;
    emu.reg.set_flag(Flag::Zero, true);
    assert_eq!(emu.execute_next(), Ok(17));
    // RZ taken: 11 cycles; RNZ not taken: 5 cycles
    emu.ram.write(0x0200, 0xC8);
    assert_eq!(emu.execute_next(), Ok(11));
    emu.pc = 0x0200;
    emu.ram.write(0x0200, 0xC0);
    assert_eq!(emu.execute_next(), Ok(5));
}

#[test]
fn interrupts() {
    let mut emu = Emulator::new();
    emu.sp = 0x3fff;
    emu.pc = 0x0040;
    // DI, EI
    emu.load_ram(vec![0xF3, 0xFB], 0x0040);
    emu.execute_next().expect("di");
    assert!(!emu.interrupts_enabled);
    emu.execute_next().expect("ei");
    assert!(emu.interrupts_enabled);

    assert_eq!(emu.interrupt(0xC7), Ok(11));
    assert_eq!(emu.pc, 0);
    assert!(!emu.interrupts_enabled);
    assert_eq!(emu.interrupt(0x00), Err(EmuError::InterruptsDisabled));
    assert_eq!(EmuError::InterruptsDisabled.message(), "Interrupts disabled");
}

#[test]
fn in_and_out_instructions() {
    let mut emu = Emulator::new();
    emu.register_input_device(0x5A, 7).expect("");
    emu.register_output_device(9).expect("");
    // IN 7, OUT 9, OUT 3
    emu.load_ram(vec![0xDB, 0x07, 0xD3, 0x09, 0xD3, 0x03], 0);
    assert_eq!(emu.execute_next(), Ok(10));
    assert_eq!(emu.reg.get8(Reg8::A), 0x5A);
    assert_eq!(emu.execute_next(), Ok(10));
    assert_eq!(emu.take_written(), vec![(9u8, 0x5Au8)]);
    assert_eq!(emu.execute_next(), Err(EmuError::NoDevice));
}

#[test]
fn mov_and_mvi_through_memory() {
    let mut emu = Emulator::new();
    // LXI H,0300H; MVI M,24H; MOV B,M; MOV A,B; HLT
    emu.load_ram(vec![0x21, 0x00, 0x03, 0x36, 0x24, 0x46, 0x78, 0x76], 0);
    run_to_halt(&mut emu, 10);
    assert_eq!(emu.ram.read(0x0300), 0x24);
    assert_eq!(emu.reg.get8(Reg8::B), 0x24);
    assert_eq!(emu.reg.get8(Reg8::A), 0x24);
    emu.inr(Operand::M);
    assert_eq!(emu.ram.read(0x0300), 0x25);
}

#[test]
fn operand_fetch_past_memory_fails() {
    let mut emu = Emulator::new();
    emu.pc = 0x3fff;
    emu.ram.write(0x3fff, 0xC3);
    assert_eq!(emu.execute_next(), Err(EmuError::OutOfRange));
}

#[test]
fn parity_counts_bits() {
    assert!(emulator::alu::parity(0));
    assert!(emulator::alu::parity(0b1100_0000));
    assert!(!emulator::alu::parity(0b0000_0111));
    assert!(!emulator::alu::parity(0xFE));
}

#[test]
fn daa_on_plain_bytes() {
    let mut emu = Emulator::new();
    emu.load_ram(vec![0x27], 0);
    emu.reg.set8(Reg8::A, 0x1A);
    emu.execute_next().expect("daa");
    assert_eq!(emu.reg.get8(Reg8::A), 0x20);
    assert!(!emu.reg.get_flag(Flag::Carry));
}

#[test]
fn program_with_origins_loads_in_blocks() {
    let source = emulator::assembler::Assembler::new("MVI A, 1\nORG 20H\nMVI B, 2\nEND");
    let bytes = source.assemble().unwrap();
    let origins = source.get_origins().unwrap();
    assert_eq!(origins, vec![(2, 0x20)]);
    let mut emu = Emulator::new();
    emu.load_program(bytes, origins).unwrap();
    assert_eq!(emu.ram.read(0), 0x3E);
    assert_eq!(emu.ram.read(1), 0x01);
    assert_eq!(emu.ram.read(0x20), 0x06);
    assert_eq!(emu.ram.read(0x21), 0x02);
    assert_eq!(emu.load_program(vec![0], vec![(5, 0)]), Err("origins out of order"));
}

#[test]
fn dollar_terminated_text() {
    let mut emu = Emulator::new();
    emu.load_ram(b"HI$there".to_vec(), 0x200);
    assert_eq!(emu.dollar_string(0x200), b"HI".to_vec());
}

#[test]
fn assembled_line_map() {
    let source = emulator::assembler::Assembler::new("NOP\nJMP 0\nEND");
    assert_eq!(source.get_line_map(), Ok(vec![(0, 0), (1, 1), (2, 1), (3, 1)]));
}

/// The 8080 data sheet's cycle counts; conditional calls and returns as not taken.
const CLOCK: [usize; 256] = [
    4, 10, 7, 5, 5, 5, 7, 4, 4, 10, 7, 5, 5, 5, 7, 4,
    4, 10, 7, 5, 5, 5, 7, 4, 4, 10, 7, 5, 5, 5, 7, 4,
    4, 10, 16, 5, 5, 5, 7, 4, 4, 10, 16, 5, 5, 5, 7, 4,
    4, 10, 13, 5, 10, 10, 10, 4, 4, 10, 13, 5, 5, 5, 7, 4,
    5, 5, 5, 5, 5, 5, 7, 5, 5, 5, 5, 5, 5, 5, 7, 5,
    5, 5, 5, 5, 5, 5, 7, 5, 5, 5, 5, 5, 5, 5, 7, 5,
    5, 5, 5, 5, 5, 5, 7, 5, 5, 5, 5, 5, 5, 5, 7, 5,
    7, 7, 7, 7, 7, 7, 7, 7, 5, 5, 5, 5, 5, 5, 7, 5,
    4, 4, 4, 4, 4, 4, 7, 4, 4, 4, 4, 4, 4, 4, 7, 4,
    4, 4, 4, 4, 4, 4, 7, 4, 4, 4, 4, 4, 4, 4, 7, 4,
    4, 4, 4, 4, 4, 4, 7, 4, 4, 4, 4, 4, 4, 4, 7, 4,
    4, 4, 4, 4, 4, 4, 7, 4, 4, 4, 4, 4, 4, 4, 7, 4,
    5, 10, 10, 10, 11, 11, 7, 11, 5, 10, 10, 10, 11, 17, 7, 11,
    5, 10, 10, 10, 11, 11, 7, 11, 5, 10, 10, 10, 11, 17, 7, 11,
    5, 10, 10, 18, 11, 11, 7, 11, 5, 5, 10, 4, 11, 17, 7, 11,
    5, 10, 10, 4, 11, 11, 7, 11, 5, 5, 10, 4, 11, 17, 7, 11,
];

#[test]
fn every_opcode_takes_its_data_sheet_cycles() {
    for op in 0usize..256 {
        let mut emu = Emulator::new();
        emu.pc = 0x100;
        emu.sp = 0x3000;
        emu.register_input_device(0, 0).unwrap();
        emu.register_output_device(0).unwrap();
        emu.load_ram(vec![op as u8, 0x00, 0x02], 0x100);
        // all flags clear: Z, C, P and S conditions fail, so NZ, NC, PO and P hold
        emu.reg.set_flags(0);
        let taken = op >= 0xC0 && (op % 8 == 0 || op % 8 == 4) && ((op >> 3) & 1) == 0;
        let expected = CLOCK[op] + if taken { 6 } else { 0 };
        assert_eq!(emu.execute_next(), Ok(expected), "opcode {:#04x}", op);
    }
}

#[test]
fn decimal_addition_with_daa() {
    for (p, q, sum, carry) in [(0x38u8, 0x45u8, 0x83u8, false), (0x99, 0x01, 0x00, true), (0x99, 0x99, 0x98, true), (0x09, 0x01, 0x10, false)] {
        let mut emu = Emulator::new();
        // ADI q; DAA
        emu.load_ram(vec![0xC6, q, 0x27], 0);
        emu.reg.set8(Reg8::A, p);
        emu.execute_next().expect("adi");
        emu.execute_next().expect("daa");
        assert_eq!(emu.reg.get8(Reg8::A), sum, "{:#x} + {:#x}", p, q);
        assert_eq!(emu.reg.get_flag(Flag::Carry), carry);
    }
}

#[test]
fn subtract_with_borrow_sets_borrow() {
    let mut emu = Emulator::new();
    // SBB B with B = 0xFF and carry set: 5 - 0xFF - 1 borrows
    emu.load_ram(vec![0x98, 0xDE, 0xFF], 0);
    emu.reg.set8(Reg8::A, 5);
    emu.reg.set8(Reg8::B, 0xFF);
    emu.reg.set_flag(Flag::Carry, true);
    emu.execute_next().expect("sbb");
    assert_eq!(emu.reg.get8(Reg8::A), 5);
    assert!(emu.reg.get_flag(Flag::Carry));
    // SBI 0FFH with carry still set
    emu.execute_next().expect("sbi");
    assert_eq!(emu.reg.get8(Reg8::A), 5);
    assert!(emu.reg.get_flag(Flag::Carry));
}

#[test]
fn flags_byte_keeps_bit_one() {
    let mut emu = Emulator::new();
    emu.reg.set_flags(0x00);
    assert_eq!(emu.reg.get16(Pair::PSW) & 0x02, 0x02);
}

#[test]
fn failed_push_and_interrupt_leave_state() {
    let mut emu = Emulator::new();
    emu.sp = 1;
    emu.pc = 0x42;
    assert_eq!(emu.push(0x1234), Err(EmuError::StackOverflow));
    assert_eq!(emu.sp, 1);
    assert_eq!(emu.ram.read(0), 0);
    emu.interrupts_enabled = false;
    assert_eq!(emu.interrupt(0xC7), Err(EmuError::InterruptsDisabled));
    assert_eq!(emu.pc, 0x42);
}
