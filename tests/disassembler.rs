use emulator::assembler::Assembler;
use emulator::disassembler::{disassemble, fmt_hex, shape_exec, Disassembler};

#[test]
fn test_fmt_hex() {
    let t1: u16 = 16;
    let t2: u16 = 15;
    let t3: u16 = 367;
    let t4: u16 = 3000;

    let t5: u8 = 16;
    let t6: u8 = 15;
    let t7: u8 = 245;

    assert_eq!(fmt_hex(t1), "10H");
    assert_eq!(fmt_hex(t2), "0fH");
    assert_eq!(fmt_hex(t3), "16fH");
    assert_eq!(fmt_hex(t4), "0bb8H");

    assert_eq!(fmt_hex(t5 as u16), "10H");
    assert_eq!(fmt_hex(t6 as u16), "0fH");
    assert_eq!(fmt_hex(t7 as u16), "0f5H");
}

#[test]
fn jump_with_alphabetic_high_digit() {
    assert_eq!(disassemble(vec![0xC3, 0xCD, 0xAB]), Ok(vec![String::from("JMP 0abcdH")]));
}

#[test]
fn instruction_forms() {
    assert_eq!(
        disassemble(vec![0x01, 0x34, 0x12, 0x3E, 0x05, 0x78, 0x86, 0xF1, 0xFF, 0xFE, 0x10, 0x76]),
        Ok(vec![
            String::from("LXI B,1234H"),
            String::from("MVI A,5H"),
            String::from("MOV A,B"),
            String::from("ADD M"),
            String::from("POP PSW"),
            String::from("RST 7"),
            String::from("CPI 10H"),
            String::from("HLT"),
        ])
    );
}

#[test]
fn invalid_and_truncated() {
    assert_eq!(disassemble(vec![0x00, 0x08]), Err("Invalid opcode"));
    assert_eq!(disassemble(vec![0xCD, 0x00]), Err("Unexpected end of input"));
    let mut d = Disassembler::load_bytes(vec![0xEB, 0xCB]);
    assert_eq!(d.decode_next(), Ok(String::from("XCHG")));
    assert_eq!(d.pc, 1);
    assert_eq!(d.decode_next(), Err("Invalid opcode"));
    assert_eq!(d.pc, 2);
    assert_eq!(disassemble(vec![0x20]), Err("Invalid opcode"));
    assert_eq!(disassemble(vec![0x30]), Err("Invalid opcode"));
}

#[test]
fn disassemble_ends_at_last_byte() {
    let mut d = Disassembler::load_bytes(vec![0xC3, 0xCD, 0xAB]);
    assert_eq!(d.disassemble(), Ok(vec![String::from("JMP 0abcdH")]));
    assert_eq!(d.pc, 3);
}

#[test]
fn every_opcode_round_trips() {
    for op in 0u16..=255 {
        let op = op as u8;
        let shape = match shape_exec(op) {
            Some(s) => s,
            None => continue,
        };
        for operand in [0u16, 0x05, 0x7F, 0xAB, 0x1234, 0xFFFF] {
            let mut bytes = vec![op];
            if shape.1 == 1 {
                bytes.push(operand as u8);
            } else if shape.1 == 2 {
                bytes.push(operand as u8);
                bytes.push((operand >> 8) as u8);
            }
            let text = disassemble(bytes.clone()).unwrap();
            let source = format!("{}\nEND", text[0]);
            assert_eq!(Assembler::new(&source).assemble(), Ok(bytes), "{}", text[0]);
        }
    }
}
