use emulator::emulator::Emulator;
use emulator::flags::{Flag, Flags};
use emulator::machine::{EmuError, Operand};
use emulator::ram::DefaultRam;
use emulator::register::{Pair, Reg8, RegisterArray};

const FLAGS: [Flag; 5] = [Flag::Zero, Flag::Carry, Flag::Sign, Flag::Parity, Flag::Aux];

#[test]
fn input() {
    let mut emu = Emulator::new();
    emu.register_input_device(42, 0).expect("");

    emu.input(0).expect("");

    assert_eq!(emu.reg.get8(Reg8::A), 42);

    assert_eq!(emu.input(1), Err(EmuError::NoDevice));
    assert_eq!(EmuError::NoDevice.message(), "No device registered at this port");
}

#[test]
fn output() {
    let mut emu = Emulator::new();
    emu.register_output_device(0).expect("");

    emu.reg.set8(Reg8::A, 42);
    emu.output(0).expect("");

    assert_eq!(emu.take_written(), vec![(0u8, 42u8)]);
    assert_eq!(emu.output(1), Err(EmuError::NoDevice));
}

#[test]
fn add_reg() {
    let mut emu = Emulator::new();
    // ADD B, ADD A
    emu.ram.load_vec(vec![0x80, 0x87], 0);
    emu.reg.set8(Reg8::B, 69);
    emu.reg.set8(Reg8::A, 42);

    emu.execute_next().expect("step");
    assert_eq!(emu.reg.get8(Reg8::A), 111);

    emu.execute_next().expect("step");
    assert_eq!(emu.reg.get8(Reg8::A), 222);
}

#[test]
fn add_mem() {
    let mut emu = Emulator::new();
    // ADD M with address 0x01
    emu.ram.load_vec(vec![0x86, 69], 0);
    emu.reg.set16(Pair::HL, 0x01);
    emu.reg.set8(Reg8::A, 42);

    emu.execute_next().expect("step");
    assert_eq!(emu.reg.get8(Reg8::A), 111);
}

#[test]
fn add_flags() {
    let mut emu = Emulator::new();
    // ADD B, ADD A, ADD A
    emu.ram.load_vec(vec![0x80, 0x87, 0x87], 0);
    emu.reg.set8(Reg8::B, 69);
    emu.reg.set8(Reg8::A, 42);

    emu.execute_next().expect("step"); // 111
    assert_eq!(emu.reg.get_flag(Flag::Carry), false, "Carry bit");
    assert_eq!(emu.reg.get_flag(Flag::Sign), false, "Sign bit");
    assert_eq!(emu.reg.get_flag(Flag::Zero), false, "Zero bit");
    assert_eq!(emu.reg.get_flag(Flag::Parity), true, "Parity bit");
    assert_eq!(emu.reg.get_flag(Flag::Aux), false, "Auxiliary Carry bit");

    emu.execute_next().expect("step"); // 222
    assert_eq!(emu.reg.get_flag(Flag::Carry), false, "Carry bit");
    assert_eq!(emu.reg.get_flag(Flag::Sign), true, "Sign bit");
    assert_eq!(emu.reg.get_flag(Flag::Zero), false, "Zero bit");
    assert_eq!(emu.reg.get_flag(Flag::Parity), true, "Parity bit");
    assert_eq!(emu.reg.get_flag(Flag::Aux), true, "Auxiliary Carry bit");

    emu.execute_next().expect("step"); // 444 wraps to 188
    assert_eq!(emu.reg.get_flag(Flag::Carry), true, "Carry bit");
    assert_eq!(emu.reg.get_flag(Flag::Sign), true, "Sign bit");
    assert_eq!(emu.reg.get_flag(Flag::Zero), false, "Zero bit");
    assert_eq!(emu.reg.get_flag(Flag::Parity), false, "Parity bit");
    assert_eq!(emu.reg.get_flag(Flag::Aux), true, "Auxiliary Carry bit");

    // ADD B, the data sheet's aux carry example
    emu.ram.load_vec(vec![0x80], 0);
    emu.pc = 0;
    emu.reg.set8(Reg8::B, 0x2E);
    emu.reg.set8(Reg8::A, 0x74);
    emu.execute_next().expect("step");
    assert_eq!(emu.reg.get8(Reg8::A), 0xA2);
    assert_eq!(emu.reg.get_flag(Flag::Aux), true);
}

#[test]
fn adc() {
    let mut emu = Emulator::new();
    // ADC B without carry
    emu.ram.load_vec(vec![0x88], 0);
    emu.reg.set8(Reg8::B, 69);
    emu.reg.set8(Reg8::A, 42);
    emu.reg.set_flag(Flag::Carry, false);
    emu.execute_next().expect("step");
    assert_eq!(emu.reg.get8(Reg8::A), 111);

    // ADC B with carry
    emu.ram.load_vec(vec![0x88], 0);
    emu.pc = 0;
    emu.reg.set8(Reg8::B, 69);
    emu.reg.set8(Reg8::A, 42);
    emu.reg.set_flag(Flag::Carry, true);
    emu.execute_next().expect("step");
    assert_eq!(emu.reg.get8(Reg8::A), 112);
}

#[test]
fn sub_reg() {
    let mut emu = Emulator::new();
    // SUB B, SUB A, SUB B
    emu.ram.load_vec(vec![0x90, 0x97, 0x90], 0);
    emu.reg.set8(Reg8::A, 69);
    emu.reg.set8(Reg8::B, 42);

    emu.execute_next().expect("step");
    assert_eq!(emu.reg.get8(Reg8::A), 27);
    emu.execute_next().expect("step");
    assert_eq!(emu.reg.get8(Reg8::A), 0);
    emu.execute_next().expect("step");
    assert_eq!(emu.reg.get8(Reg8::A), 214);
}

#[test]
fn sub_flags() {
    let mut emu = Emulator::new();
    // SUB A
    emu.ram.load_vec(vec![0x97], 0);
    emu.pc = 0;
    emu.reg.set8(Reg8::A, 0x3E);
    emu.execute_next().expect("step");

    assert_eq!(emu.reg.get8(Reg8::A), 0);
    assert_eq!(emu.reg.get_flag(Flag::Carry), false, "Carry bit");
    assert_eq!(emu.reg.get_flag(Flag::Sign), false, "Sign bit");
    assert_eq!(emu.reg.get_flag(Flag::Zero), true, "Zero bit");
    assert_eq!(emu.reg.get_flag(Flag::Parity), true, "Parity bit");
    assert_eq!(emu.reg.get_flag(Flag::Aux), true, "Auxiliary Carry bit");
}

#[test]
fn sbb() {
    let mut emu = Emulator::new();
    // SBB B without carry
    emu.ram.load_vec(vec![0x98], 0);
    emu.reg.set8(Reg8::B, 42);
    emu.reg.set8(Reg8::A, 69);
    emu.reg.set_flag(Flag::Carry, false);
    emu.execute_next().expect("step");
    assert_eq!(emu.reg.get8(Reg8::A), 69 - 42);

    // SBB B with carry
    emu.ram.load_vec(vec![0x98], 0);
    emu.pc = 0;
    emu.reg.set8(Reg8::B, 42);
    emu.reg.set8(Reg8::A, 69);
    emu.reg.set_flag(Flag::Carry, true);
    emu.execute_next().expect("step");
    assert_eq!(emu.reg.get8(Reg8::A), 69 - 43);
}

#[test]
fn arithmetic_inx() {
    let mut emu = Emulator::new();
    // INX B
    emu.ram.load_vec(vec![0x03, 0x03], 0);
    emu.reg.set16(Pair::BC, 42);
    emu.execute_next().expect("step");
    assert_eq!(emu.reg.get16(Pair::BC), 43);

    emu.reg.set16(Pair::BC, 0xFFFF);
    emu.execute_next().expect("step");
    assert_eq!(emu.reg.get16(Pair::BC), 0);
}

#[test]
fn dcx() {
    let mut emu = Emulator::new();
    // DCX B
    emu.ram.load_vec(vec![0x0B, 0x0B], 0);
    emu.reg.set16(Pair::BC, 42);
    emu.execute_next().expect("step");
    assert_eq!(emu.reg.get16(Pair::BC), 41);

    emu.reg.set16(Pair::BC, 0x0000);
    emu.execute_next().expect("step");
    assert_eq!(emu.reg.get16(Pair::BC), 0xFFFF);
}

#[test]
fn inr() {
    let mut emu = Emulator::new();
    // INR A
    emu.ram.load_vec(vec![0x3C], 0);
    emu.reg.set8(Reg8::A, 69);
    emu.execute_next().expect("step");

    assert_eq!(emu.reg.get8(Reg8::A), 70);
    assert_eq!(emu.reg.get_flag(Flag::Sign), false, "Sign bit");
    assert_eq!(emu.reg.get_flag(Flag::Zero), false, "Zero bit");
    assert_eq!(emu.reg.get_flag(Flag::Parity), false, "Parity bit");
    assert_eq!(emu.reg.get_flag(Flag::Aux), false, "Auxiliary Carry bit");
}

#[test]
fn dcr() {
    let mut emu = Emulator::new();
    // DCR A
    emu.ram.load_vec(vec![0x3D], 0);
    emu.reg.set8(Reg8::A, 69);
    emu.execute_next().expect("step");

    assert_eq!(emu.reg.get8(Reg8::A), 68);
    assert_eq!(emu.reg.get_flag(Flag::Sign), false, "Sign bit");
    assert_eq!(emu.reg.get_flag(Flag::Zero), false, "Zero bit");
    assert_eq!(emu.reg.get_flag(Flag::Parity), true, "Parity bit");
    assert_eq!(emu.reg.get_flag(Flag::Aux), true, "Auxiliary Carry bit");
}

#[test]
fn dad() {
    let mut emu = Emulator::new();
    // DAD B
    emu.ram.load_vec(vec![0x09], 0);
    emu.reg.set16(Pair::HL, 4200);
    emu.reg.set16(Pair::BC, 6900);
    emu.execute_next().expect("step");

    assert_eq!(emu.reg.get16(Pair::HL), 11100);
    assert_eq!(emu.reg.get_flag(Flag::Carry), false, "Carry bit");
}

#[test]
fn call_ret() {
    let mut emu = Emulator::new();
    emu.sp = 0x3fff;
    emu.ram.write(0x1234, 0xc9);

    emu.call(0x1234).expect("call");
    assert_eq!(emu.sp, 0x3fff - 2);
    assert_eq!(emu.pc, 0x1234);

    emu.execute_next().expect("step");
    assert_eq!(emu.pc, 0x0);
}

#[test]
fn jmp_if() {
    let mut emu = Emulator::new();
    emu.ram.load_vec(vec![0x04, 0x00, 0x00, 0x00], 0);

    for flag in FLAGS {
        emu.jmp_if(flag).expect("");
        assert_eq!(emu.pc, 2);
        emu.reg.set_flag(flag, true);
        emu.jmp_if(flag).expect("");
        assert_eq!(emu.pc, 0);
    }
}

#[test]
fn jmp_not() {
    let mut emu = Emulator::new();
    emu.ram.load_vec(vec![0x04, 0x00, 0x00, 0x00], 0);
    emu.reg.set_flags(0xff);

    for flag in FLAGS {
        emu.jmp_not(flag).expect("");
        assert_eq!(emu.pc, 2);
        emu.reg.flip_flag(flag);
        emu.jmp_not(flag).expect("");
        assert_eq!(emu.pc, 0);
    }
}

#[test]
fn call_if() {
    let mut emu = Emulator::new();
    emu.sp = 0x3fff;
    emu.ram.load_vec(vec![0x00, 0x00, 0x11, 0x11], 0);

    for flag in FLAGS {
        emu.call_if(flag).expect("");
        assert_eq!(emu.pc, 2);
        emu.ret_if(flag).expect("");
        assert_eq!(emu.pc, 2);
        emu.reg.set_flag(flag, true);
        emu.call_if(flag).expect("");
        assert_eq!(emu.pc, 0x1111);
        emu.ret_if(flag).expect("");
        assert_eq!(emu.pc, 4);
        emu.pc = 0;
    }
}

#[test]
fn call_not() {
    let mut emu = Emulator::new();
    emu.sp = 0x3fff;
    emu.ram.load_vec(vec![0x00, 0x00, 0x11, 0x11], 0);
    emu.reg.set_flags(0xff);

    for flag in FLAGS {
        emu.call_not(flag).expect("");
        assert_eq!(emu.pc, 2);
        emu.ret_not(flag).expect("");
        assert_eq!(emu.pc, 2);
        emu.reg.flip_flag(flag);
        emu.call_not(flag).expect("");
        assert_eq!(emu.pc, 0x1111);
        emu.ret_not(flag).expect("");
        assert_eq!(emu.pc, 4);
        emu.pc = 0;
    }
}

#[test]
fn call() {
    let mut emu = Emulator::new();
    emu.sp = 0x3fff;

    assert_eq!(emu.pc, 0x0);
    emu.call_if(Flag::Carry).expect("call");
    assert_eq!(emu.pc, 0x2);
    emu.reg.set_flag(Flag::Carry, true);
    emu.ram.load_vec(vec![0x34, 0x12], 2);
    emu.call_if(Flag::Carry).expect("call");
    assert_eq!(emu.pc, 0x1234);
}

#[test]
fn rst() {
    let mut emu = Emulator::new();
    emu.pc = 0x1111;
    emu.sp = 0x3fff;
    emu.ram.load_vec(vec![0xc7, 0xcf, 0xd7, 0xdf, 0xe7, 0xef, 0xf7, 0xff], emu.pc);
    for i in 0x1111u16..0x1119 {
        emu.pc = i;
        emu.execute_next().expect("step");
        assert_eq!(emu.pc, (i - 0x1111) * 8);
    }
}

#[test]
fn and() {
    let mut emu = Emulator::new();
    // ANA B, ANA M
    emu.ram.load_vec(vec![0xA0, 0xA6], 0);
    emu.reg.set8(Reg8::B, 0b1111_1100);
    emu.reg.set8(Reg8::A, 0b0000_1111);
    emu.reg.set16(Pair::HL, 0x01);
    emu.execute_next().expect("step");

    assert_eq!(emu.reg.get8(Reg8::A), 0b0000_1100);
    assert_eq!(emu.reg.get_flag(Flag::Carry), false, "Carry bit");
    assert_eq!(emu.reg.get_flag(Flag::Sign), false, "Sign bit");
    assert_eq!(emu.reg.get_flag(Flag::Zero), false, "Zero bit");
    assert_eq!(emu.reg.get_flag(Flag::Parity), true, "Parity bit");
    assert_eq!(emu.reg.get_flag(Flag::Aux), true, "Auxiliary Carry bit");

    emu.execute_next().expect("step");
    assert_eq!(emu.reg.get8(Reg8::A), 0b0000_0100);
}

#[test]
fn xor() {
    let mut emu = Emulator::new();
    // XRA B
    emu.ram.load_vec(vec![0xA8], 0);
    emu.reg.set8(Reg8::B, 0b1111_1100);
    emu.reg.set8(Reg8::A, 0b0000_1111);
    emu.execute_next().expect("step");

    assert_eq!(emu.reg.get8(Reg8::A), 0b1111_0011);
    assert_eq!(emu.reg.get_flag(Flag::Carry), false, "Carry bit");
    assert_eq!(emu.reg.get_flag(Flag::Sign), true, "Sign bit");
    assert_eq!(emu.reg.get_flag(Flag::Zero), false, "Zero bit");
    assert_eq!(emu.reg.get_flag(Flag::Parity), true, "Parity bit");
    assert_eq!(emu.reg.get_flag(Flag::Aux), false, "Auxiliary Carry bit");
}

#[test]
fn or() {
    let mut emu = Emulator::new();
    // ORA B
    emu.ram.load_vec(vec![0xB0], 0);
    emu.reg.set8(Reg8::B, 0b1111_1100);
    emu.reg.set8(Reg8::A, 0b0000_1110);
    emu.execute_next().expect("step");

    assert_eq!(emu.reg.get8(Reg8::A), 0b1111_1110);
    assert_eq!(emu.reg.get_flag(Flag::Carry), false, "Carry bit");
    assert_eq!(emu.reg.get_flag(Flag::Sign), true, "Sign bit");
    assert_eq!(emu.reg.get_flag(Flag::Zero), false, "Zero bit");
    assert_eq!(emu.reg.get_flag(Flag::Parity), false, "Parity bit");
    assert_eq!(emu.reg.get_flag(Flag::Aux), false, "Auxiliary Carry bit");
}

#[test]
fn cmp() {
    let mut emu = Emulator::new();
    // CMP B
    emu.ram.load_vec(vec![0xB8], 0);
    emu.reg.set8(Reg8::B, 0x05);
    emu.reg.set8(Reg8::A, 0x0A);
    emu.execute_next().expect("step");
    assert_eq!(emu.reg.get8(Reg8::A), 0x0A);
    assert_eq!(emu.reg.get_flag(Flag::Carry), false, "Carry bit");
    assert_eq!(emu.reg.get_flag(Flag::Zero), false, "Zero bit");

    emu.pc = 0;
    emu.reg.set8(Reg8::B, 0x05);
    emu.reg.set8(Reg8::A, 0x02);
    emu.execute_next().expect("step");
    assert_eq!(emu.reg.get_flag(Flag::Carry), true, "Carry bit");
    assert_eq!(emu.reg.get_flag(Flag::Zero), false, "Zero bit");

    emu.pc = 0;
    emu.reg.set8(Reg8::B, 0x05);
    emu.reg.set8(Reg8::A, 0xE5);
    emu.execute_next().expect("step");
    assert_eq!(emu.reg.get_flag(Flag::Carry), false, "Carry bit");
    assert_eq!(emu.reg.get_flag(Flag::Zero), false, "Zero bit");
}

#[test]
fn rlc() {
    let mut emu = Emulator::new();
    emu.ram.load_vec(vec![0x07], 0);
    emu.reg.set8(Reg8::A, 0b1111_0000);
    emu.execute_next().expect("step");
    assert_eq!(emu.reg.get8(Reg8::A), 0b1110_0001);
    assert_eq!(emu.reg.get_flag(Flag::Carry), true, "Carry bit");
}

#[test]
fn rrc() {
    let mut emu = Emulator::new();
    emu.ram.load_vec(vec![0x0F], 0);
    emu.reg.set8(Reg8::A, 0b0000_1111);
    emu.execute_next().expect("step");
    assert_eq!(emu.reg.get8(Reg8::A), 0b1000_0111);
    assert_eq!(emu.reg.get_flag(Flag::Carry), true, "Carry bit");
}

#[test]
fn ral() {
    let mut emu = Emulator::new();
    emu.ram.load_vec(vec![0x17], 0);
    emu.reg.set8(Reg8::A, 0b1011_0101);
    emu.reg.set_flag(Flag::Carry, false);
    emu.execute_next().expect("step");
    assert_eq!(emu.reg.get8(Reg8::A), 0b0110_1010);
    assert_eq!(emu.reg.get_flag(Flag::Carry), true, "Carry bit");
}

#[test]
fn rar() {
    let mut emu = Emulator::new();
    emu.ram.load_vec(vec![0x1F], 0);
    emu.reg.set8(Reg8::A, 0b1011_0101);
    emu.reg.set_flag(Flag::Carry, false);
    emu.execute_next().expect("step");
    assert_eq!(emu.reg.get8(Reg8::A), 0b0101_1010);
    assert_eq!(emu.reg.get_flag(Flag::Carry), true, "Carry bit");
}

#[test]
fn cma() {
    let mut emu = Emulator::new();
    emu.ram.load_vec(vec![0x2F], 0);
    emu.reg.set8(Reg8::A, 0b1011_0101);
    emu.execute_next().expect("step");
    assert_eq!(emu.reg.get8(Reg8::A), 0b0100_1010);
}

#[test]
fn stax() {
    let mut emu = Emulator::new();
    emu.ram.load_vec(vec![0x02], 0);
    emu.reg.set16(Pair::BC, 0x01);
    emu.reg.set8(Reg8::A, 69);
    emu.execute_next().expect("step");
    assert_eq!(emu.ram.read(0x01), 69);
}

#[test]
fn ldax() {
    let mut emu = Emulator::new();
    emu.ram.load_vec(vec![0x0A, 42], 0);
    emu.reg.set16(Pair::BC, 0x01);
    emu.reg.set8(Reg8::A, 69);
    emu.execute_next().expect("step");
    assert_eq!(emu.reg.get8(Reg8::A), 42);
}

#[test]
fn push_pop() {
    let mut emu = Emulator::new();
    emu.sp = 0x3fff;
    emu.push(0xabcd).expect("Push failed");
    assert_eq!(emu.sp, 0x3ffd);
    assert_eq!(0xabcd, emu.pop().expect("pop"));
    assert_eq!(emu.sp, 0x3fff);
    assert_eq!(emu.pop(), Err(EmuError::StackUnderflow));
    assert_eq!(EmuError::StackUnderflow.message(), "POP: No return address on the stack");

    emu.sp = 0x1;
    assert_eq!(emu.push(0x1234), Err(EmuError::StackOverflow));
    assert_eq!(EmuError::StackOverflow.message(), "PUSH: No more stack space");
}

#[test]
fn shld() {
    let mut emu = Emulator::new();
    emu.ram.load_vec(vec![0x22, 0x0A, 0x01], 0);
    emu.reg.set8(Reg8::H, 0xAE);
    emu.reg.set8(Reg8::L, 0x29);
    emu.execute_next().expect("step");
    assert_eq!(emu.ram.read(0x010A), 0x29);
    assert_eq!(emu.ram.read(0x010B), 0xAE);
}

#[test]
fn lhld() {
    let mut emu = Emulator::new();
    emu.ram.load_vec(vec![0x2A, 0x0A, 0x01], 0);
    emu.ram.write(0x010A, 42);
    emu.ram.write(0x010B, 69);
    emu.execute_next().expect("step");
    assert_eq!(emu.reg.get8(Reg8::H), 69);
    assert_eq!(emu.reg.get8(Reg8::L), 42);
}

#[test]
fn sta() {
    let mut emu = Emulator::new();
    emu.ram.load_vec(vec![0x32, 0x00, 0x12], 0);
    emu.reg.set8(Reg8::A, 69);
    emu.execute_next().expect("step");
    assert_eq!(emu.ram.read(0x1200), 69);
}

#[test]
fn lda() {
    let mut emu = Emulator::new();
    emu.ram.load_vec(vec![0x3A, 0x00, 0x12], 0);
    emu.ram.write(0x1200, 69);
    emu.execute_next().expect("step");
    assert_eq!(emu.reg.get8(Reg8::A), 69);
}

#[test]
fn xthl() {
    let mut emu = Emulator::new();
    emu.ram.load_vec(vec![0xE3, 0x00, 0x12], 0);
    emu.reg.set16(Pair::HL, 69);
    emu.sp = 0x01;
    emu.execute_next().expect("step");
    assert_eq!(emu.reg.get16(Pair::HL), 0x1200);
    assert_eq!(emu.ram.read(0x01), 69);
}

#[test]
fn daa() {
    let mut emu = Emulator::new();
    emu.ram.load_vec(vec![0x27], 0);
    emu.reg.set8(Reg8::A, 0x9B);
    emu.execute_next().expect("step");

    assert_eq!(emu.reg.get8(Reg8::A), 1);
    assert_eq!(emu.reg.get_flag(Flag::Carry), true, "Carry bit");
    assert_eq!(emu.reg.get_flag(Flag::Sign), false, "Sign bit");
    assert_eq!(emu.reg.get_flag(Flag::Zero), false, "Zero bit");
    assert_eq!(emu.reg.get_flag(Flag::Parity), false, "Parity bit");
    assert_eq!(emu.reg.get_flag(Flag::Aux), true, "Auxiliary Carry bit");
}

#[test]
fn test_flags() {
    let mut f = Flags::new();
    f.set(Flag::Zero);
    f.set(Flag::Parity);
    f.set(Flag::Aux);
    assert!(f.get(Flag::Zero));
    assert!(!f.get(Flag::Carry));
    assert!(!f.get(Flag::Sign));
    assert!(f.get(Flag::Parity));
    assert!(f.get(Flag::Aux));

    f.flip(Flag::Zero);
    assert!(!f.get(Flag::Zero));

    f.flip(Flag::Carry);
    assert!(f.get(Flag::Carry));

    f.set(Flag::Sign);
    assert!(f.get(Flag::Sign));

    f.set(Flag::Parity);
    assert!(f.get(Flag::Parity));
}

#[test]
fn ram() {
    let mut r = DefaultRam::new();
    r.write(0, 1);
    r.write(0x5132, 69);
    assert_eq!(r.read(0), 1);
    assert_eq!(r.read(0x4000), 1);
    assert_eq!(r.read(0x1132), 69);

    r.write(1, 2);
    r.write(2, 3);
    r.write(3, 4);
    r.write(4, 5);
    let slice: Vec<u8> = (0u16..5).map(|a| r.read(a)).collect();
    assert_eq!(slice, vec![1, 2, 3, 4, 5]);
}

#[test]
fn registerarray() {
    let mut regs = RegisterArray::new();

    regs.set16(Pair::WZ, 0xabcd);
    assert_eq!(regs.get16(Pair::WZ), 0xabcd);
    assert_eq!(regs.get8(Reg8::W), 0xab);

    regs.set8(Reg8::B, 0xcd);
    regs.set8(Reg8::C, 0xab);
    assert_eq!(regs.get16(Pair::BC), 0xcdab);
    assert_eq!(regs.get8(Reg8::B), 0xcd);

    regs.set16(Pair::WZ, 0xffff);
    assert_eq!(regs.get16(Pair::WZ), 0xffff);
    regs.set8(Reg8::Z, 0xaa);
    assert_eq!(regs.get8(Reg8::Z), 0xaa);
    assert_eq!(regs.get16(Pair::WZ), 0xffaa);
}

#[test]
fn flags() {
    let mut regs = RegisterArray::new();

    regs.set_flag(Flag::Zero, true);
    regs.set_flag(Flag::Parity, true);
    regs.set_flag(Flag::Aux, true);
    assert!(regs.get_flag(Flag::Zero));
    assert!(!regs.get_flag(Flag::Carry));
    assert!(!regs.get_flag(Flag::Sign));
    assert!(regs.get_flag(Flag::Parity));
    assert!(regs.get_flag(Flag::Aux));

    regs.flip_flag(Flag::Zero);
    assert!(!regs.get_flag(Flag::Zero));

    regs.flip_flag(Flag::Carry);
    assert!(regs.get_flag(Flag::Carry));

    regs.set_flag(Flag::Sign, true);
    assert!(regs.get_flag(Flag::Sign));

    regs.set_flag(Flag::Parity, true);
    assert!(regs.get_flag(Flag::Parity));

    regs.set_flag(Flag::Parity, false);
    assert!(!regs.get_flag(Flag::Parity));
}

#[test]
fn register_form_helpers() {
    let mut emu = Emulator::new();
    emu.reg.set8(Reg8::A, 10);
    emu.reg.set8(Reg8::C, 5);
    emu.add(0x81, false);
    assert_eq!(emu.reg.get8(Reg8::A), 15);
    emu.reg.set_flag(Flag::Carry, true);
    emu.sub(0x99, true);
    assert_eq!(emu.reg.get8(Reg8::A), 9);
    emu.inx(Pair::DE);
    assert_eq!(emu.reg.get16(Pair::DE), 1);
    emu.mov(Reg8::B, Reg8::A).unwrap();
    assert_eq!(emu.reg.get8(Reg8::B), 9);
    emu.load_ram(vec![0x34, 0x12], 0);
    emu.lxi(Pair::HL).unwrap();
    assert_eq!(emu.reg.get16(Pair::HL), 0x1234);
    emu.dcr(Operand::B);
    assert_eq!(emu.reg.get8(Reg8::B), 8);
    assert_eq!(emu.ram.get_last_changed_address(), 1);
}

#[test]
fn standalone_flags_use_flag_byte_layout() {
    let mut f = Flags::new();
    f.set(Flag::Sign);
    f.set(Flag::Carry);
    assert!(f.get(Flag::Sign) && f.get(Flag::Carry) && !f.get(Flag::Zero));
    assert_eq!(EmuError::OutOfRange.message(), "Not enough bytes available");
}
