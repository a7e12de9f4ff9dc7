use emulator::assembler::{
    convert_dad_args, convert_dcx_args, convert_inx_args, convert_opcodes_using_all_registers, convert_pop_args,
    convert_push_args, convert_stax_args, to_machine_code, Assembler,
};

#[test]
fn display_with_code() {
    let code_file = "MOV A B \n JMP label \nlabel: INC ACC   ";
    let assembler = Assembler::new(code_file);
    let expected_text = "MOV A B\nJMP label\nlabel: INC ACC";
    assert_eq!(expected_text, assembler.to_string());
}

#[test]
fn display_windows_newline() {
    let code_file = "MOV A B \r\n JMP label \r\nlabel: INC ACC  ";
    let assembler = Assembler::new(code_file);
    let expected_text = "MOV A B\nJMP label\nlabel: INC ACC";
    assert_eq!(expected_text, assembler.to_string());
}

#[test]
fn display_without_code() {
    let assembler = Assembler::new("");
    assert_eq!("", assembler.to_string());
}

#[test]
fn display_with_comments() {
    let code_file = " \n;comment\nMOV A B ;comment\n;";
    let assembler = Assembler::new(code_file);
    let expected_text = "\n;comment\nMOV A B ;comment\n;";
    assert_eq!(expected_text, assembler.to_string());
}

#[test]
fn empty_code_file() {
    let assembler = Assembler::new("END");
    assert_eq!(0, assembler.assemble().unwrap().len());
}

#[test]
fn mov_errors() {
    assert_eq!(Err("Missing argument(s) for MOV instruction"), to_machine_code("MOV A"));
    assert_eq!(Err("Invalid second argument for MOV instruction"), to_machine_code("MOV B,Q"));
    assert_eq!(
        Err("Invalid arguments for MOV instruction (Can't move M into M)"),
        to_machine_code("MOV M,M")
    );
    assert_eq!(Err("MOV only takes 2 arguments!"), to_machine_code("MOV A,B,C"));
}

#[test]
fn nop_operation() {
    assert_eq!(Ok(vec![0x0]), to_machine_code("NOP"));
    assert_eq!(Err("Could not match instruction"), to_machine_code("NOP A"));
}

#[test]
fn invalid_instructions() {
    assert_eq!(Err("Could not match instruction"), to_machine_code("TEST"));
}

#[test]
fn opcodes_without_args() {
    let opcodes: Vec<(&str, u8)> = vec![
        ("RRC", 0x0f),
        ("RAL", 0x17),
        ("RAR", 0x1f),
        ("DAA", 0x27),
        ("CMA", 0x2f),
        ("CMC", 0x3f),
        ("HLT", 0x76),
        ("RNZ", 0xc0),
        ("RZ", 0xc8),
        ("RET", 0xc9),
        ("RNC", 0xd0),
        ("RC", 0xd8),
        ("RPO", 0xe0),
        ("RPE", 0xe8),
        ("EI", 0xfb),
        ("RM", 0xf8),
        ("SPHL", 0xf9),
        ("DI", 0xf3),
        ("RP", 0xf0),
        ("XCHG", 0xeb),
        ("PCHL", 0xe9),
        ("XTHL", 0xe3),
    ];
    for (instruction, opc) in opcodes {
        assert_eq!(Ok(vec![opc]), to_machine_code(instruction));
    }
}

#[test]
fn stax_errors() {
    assert_eq!(Err("wrong register!"), convert_stax_args(vec!["L"]));
    assert_eq!(Err("wrong arg amount!"), convert_stax_args(vec!["L", "A"]));
    assert_eq!(Err("wrong arg amount!"), convert_stax_args(vec![]));
}

#[test]
fn inx_errors() {
    assert_eq!(Err("wrong register!"), convert_inx_args(vec!["A"]));
    assert_eq!(Err("wrong arg amount!"), convert_inx_args(vec!["B", "D"]));
    assert_eq!(Err("wrong arg amount!"), convert_inx_args(vec![]));
}

#[test]
fn opcodes_using_registers_errors() {
    assert_eq!(Err("wrong arg amount!"), convert_opcodes_using_all_registers(vec!["B", "D"], 1, false));
    assert_eq!(Err("wrong arg amount!"), convert_opcodes_using_all_registers(vec![], 1, false));
}

#[test]
fn org_first_address() {
    let assembler = Assembler::new("RNC \n ORG 20H\nEND");
    assert_eq!(Ok(vec![(1, 32)]), assembler.get_origins());

    let assembler = Assembler::new("RNC\nEND");
    assert_eq!(Ok(Vec::<(u16, u16)>::new()), assembler.get_origins());

    let assembler = Assembler::new("ORG 5 + 1 \nRNC\nEND");
    assert_eq!(Ok(vec![(0, 6)]), assembler.get_origins());
}

#[test]
fn multiple_orgs() {
    let assembler = Assembler::new("ORG 1000H \n MOV A,C \n ADI 2\n JMP NEXT \n HERE:ORG 1050H \n NEXT: XRA A\nEND");
    let jumps: Vec<(u16, u16)> = vec![(0, 0x1000), (6, 0x1050)];
    assert_eq!(Ok(jumps), assembler.get_origins());
    assert_eq!(
        assembler.assemble(),
        Ok(vec![0x79, 0xC6, 0x02, 0xC3, 0x50, 0x10, 0xAF])
    );
}

#[test]
fn full_program() {
    let code = "VAR1 EQU 123\n 
        GO: JMP $ +6\n
        ADD C\n
        \n
        \n
        IF 0+0*00O\n
        MOV A,B\n
        ENDIF\n
        POP B\n
        macr0 MACRO par\n
        NOM SET 21\n
        RZ\n
        ENDM\n
        \n
        macr0 input\n
        IF 20\n
        EI\n
        ENDIF\n
        ORG 100H\n
        END\n";

    let result = vec![0xc3, 0x6, 0x0, 0x81, 0xC1, 0xC8, 0xFB];
    assert_eq!(Ok(result), Assembler::new(code).assemble());
}

#[test]
fn immediate_load() {
    assert_eq!(Assembler::new("MVI A, 5\nEND").assemble(), Ok(vec![0x3E, 0x05]));
}

#[test]
fn jump_to_own_label() {
    assert_eq!(Assembler::new("label: JMP label\nEND").assemble(), Ok(vec![0xC3, 0x00, 0x00]));
}

#[test]
fn macro_call_expands() {
    assert_eq!(Assembler::new("ADD8 MACRO\nADI 8\nENDM\nADD8\nEND").assemble(), Ok(vec![0xC6, 0x08]));
}

#[test]
fn operand_encodings() {
    assert_eq!(to_machine_code("LXI SP, 1234H"), Ok(vec![0x31, 0x34, 0x12]));
    assert_eq!(to_machine_code("MVI M,-1"), Ok(vec![0x36, 0xFF]));
    assert_eq!(to_machine_code("RST 3"), Ok(vec![0xDF]));
    assert_eq!(to_machine_code("RST 9"), Err("wrong register!"));
    assert_eq!(to_machine_code("PUSH PSW"), Ok(vec![0xF5]));
    assert_eq!(to_machine_code("lbl: DCR M"), Ok(vec![0x35]));
    assert_eq!(to_machine_code("CALL 0abcdH"), Ok(vec![0xCD, 0xCD, 0xAB]));
    assert_eq!(to_machine_code("JMP (1"), Err("Invalid expression"));
}

#[test]
fn end_rules() {
    assert_eq!(
        Assembler::new("NOP").assemble(),
        Err("A program must only contain one END statement and it has to be the last")
    );
    assert_eq!(
        Assembler::new("END\nNOP").assemble(),
        Err("A program must only contain one END statement and it has to be the last")
    );
}

#[test]
fn disassembled_text_reassembles() {
    let program = vec![0x01, 0x34, 0x12, 0x3E, 0xF5, 0x78, 0x86, 0xF1, 0xFF, 0xFE, 0x10, 0xCD, 0xCD, 0xAB, 0x76];
    let text = emulator::disassembler::disassemble(program.clone()).unwrap();
    let mut source = text.join("\n");
    source.push_str("\nEND");
    assert_eq!(Assembler::new(&source).assemble(), Ok(program));
}

#[test]
fn pair_operand_forms() {
    assert_eq!(convert_dad_args(vec!["SP"]), Ok(vec![0x39]));
    assert_eq!(convert_dcx_args(vec!["D"]), Ok(vec![0x1b]));
    assert_eq!(convert_pop_args(vec!["SP"]), Err("wrong register!"));
    assert_eq!(convert_push_args(vec!["H"]), Ok(vec![0xe5]));
    let names = emulator::preprocessor::get_reserved_names();
    assert!(names.contains(&"PSW"));
    assert_eq!(names.len(), 94);
}

#[test]
fn end_may_carry_a_comment() {
    assert_eq!(Assembler::new("NOP\nEND ; done").assemble(), Ok(vec![0x00]));
    assert_eq!(Assembler::new("NOP\nEND\n; trailing note").assemble(), Ok(vec![0x00]));
}
