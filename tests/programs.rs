use emulator::assembler::Assembler;
use emulator::emulator::Emulator;
use emulator::machine::EmuError;
use emulator::register::{Pair, Reg8};

fn load_source(emu: &mut Emulator, source: &str) {
    let code = Assembler::new(source).assemble().expect("assembles");
    emu.load_ram(code, 0);
}

const INT_SOURCE: &str = "MVI B,69\nRET\nDI\nEI\nMVI C,69\nMVI H,69\nEND";
const MVI_SOURCE: &str = "MVI B,1DH\nMVI C,1EH\nMVI D,1FH\nMVI E,20H\nMVI H,21H\nMVI L,22H\nMVI A,23H\nMVI M,24H\nEND";
const MOV_SOURCE: &str = "MVI B,1DH\nMVI C,1EH\nMVI D,1FH\nMVI E,20H\nMVI H,21H\nMVI L,22H\nMVI M,23H\nMVI A,24H\n\
MOV B,B\nMOV B,C\nMOV B,D\nMOV B,E\nMOV B,H\nMOV B,L\nMOV B,M\nMOV B,A\nMOV M,B\nHLT\nEND";
const LXI_SOURCE: &str = "LXI B,0105H\nLXI D,0206H\nLXI H,0307H\nLXI SP,0408H\nEND";

#[test]
fn int_program() {
    let mut emu = Emulator::new();
    load_source(&mut emu, INT_SOURCE);

    emu.pc = 0x03;
    emu.sp = 0x3fff;

    // DI and EI
    emu.execute_next().expect("");
    assert!(!emu.interrupts_enabled);
    emu.execute_next().expect("");
    assert!(emu.interrupts_enabled);

    emu.execute_next().expect("");
    assert_eq!(emu.reg.get8(Reg8::C), 69);

    emu.interrupt(0xC7).expect("");
    assert_eq!(emu.pc, 0);
    assert!(!emu.interrupts_enabled);

    assert_eq!(emu.interrupt(0x0), Err(EmuError::InterruptsDisabled));
    assert_eq!(EmuError::InterruptsDisabled.message(), "Interrupts disabled");

    emu.execute_next().expect("");
    emu.execute_next().expect("");

    assert_eq!(emu.reg.get8(Reg8::B), 69);
    assert_eq!(emu.pc, 0x07);

    emu.execute_next().expect("");
    assert_eq!(emu.reg.get8(Reg8::H), 69);
}

#[test]
fn mvi() {
    let mut emu = Emulator::new();
    load_source(&mut emu, MVI_SOURCE);

    let regs = [Reg8::B, Reg8::C, Reg8::D, Reg8::E, Reg8::H, Reg8::L, Reg8::A];
    for i in 0..7 {
        emu.execute_next().expect("step");
        assert_eq!(emu.reg.get8(regs[i]), (0x1d + i) as u8);
    }
    emu.execute_next().expect("step");
    assert_eq!(emu.ram.read(emu.reg.get16(Pair::HL)), 0x24);
}

#[test]
fn mov() {
    let mut emu = Emulator::new();
    load_source(&mut emu, MOV_SOURCE);
    for _ in 0..8 {
        emu.execute_next().expect("step");
    }
    for i in 0..8 {
        emu.execute_next().expect("step");
        assert_eq!(emu.reg.get8(Reg8::B), (0x1d + i) as u8);
    }

    // MOV M, SRC
    emu.execute_next().expect("step");
    assert_eq!(emu.ram.read(emu.reg.get16(Pair::HL)), emu.reg.get8(Reg8::B));

    // HLT
    emu.execute_next().expect("step");
    assert_eq!(emu.running, false);
}

#[test]
fn lxi() {
    let mut emu = Emulator::new();
    load_source(&mut emu, LXI_SOURCE);

    let regs = [Pair::BC, Pair::DE, Pair::HL];
    for i in 1..4 {
        emu.execute_next().expect("step");
        assert_eq!(emu.reg.get16(regs[i - 1]), (i * 256 + i + 4) as u16);
    }
    emu.execute_next().expect("step");
    assert_eq!(emu.sp, 0x0408);
}
