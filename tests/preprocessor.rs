use emulator::preprocessor::{
    get_commentless_code, get_labels, get_macros, get_preprocessed_code, handle_macro_locals, has_correct_end,
    replace_macros, MACRO_END, MACRO_START,
};
use std::collections::HashMap;

fn convert_input(lines: Vec<&str>) -> Vec<String> {
    lines.into_iter().map(|l| l.to_string()).collect()
}

fn label_map(labels: Vec<(String, u16)>) -> HashMap<String, u16> {
    labels.into_iter().collect()
}

#[test]
fn remove_comments() {
    let ppc = get_commentless_code(&convert_input(vec![";comment\nMOV A, B;asdf\n;END;\nEND"]));
    let expected = convert_input(vec!["\nMOV A, B\n\nEND"]);
    assert_eq!(ppc, expected);
}

#[test]
fn preprocessing_pc() {
    let code = vec!["MOV A,B", "JMP $", "END"];
    let ppc = get_preprocessed_code(&convert_input(code));
    assert_eq!(Ok(convert_input(vec!["MOV A,B", "JMP 1"])), ppc);

    let preprocessed_code = get_preprocessed_code(&convert_input(vec!["MOV $, $", "END"]));
    assert_eq!(Ok(vec!["MOV 0, 0".to_string()]), preprocessed_code);
}

#[test]
fn remove_label_declarations() {
    let code = vec!["label:", "MOV A,B", "@LAB:", "test:", "MOV A,B", "END"];
    let ppc = get_preprocessed_code(&convert_input(code));
    assert_eq!(Ok(convert_input(vec!["MOV A,B", "MOV A,B"])), ppc);
}

#[test]
fn illegal_label_declarations() {
    let label_wrapper = get_labels(&convert_input(vec!["A: MOV A,B"]));
    assert_eq!(Err("illegal label name"), label_wrapper);

    let label_wrapper = get_labels(&convert_input(vec!["LAB: MOV A,B", "LAB: RRC"]));
    assert_eq!(Err("label must not be assigned twice"), label_wrapper);
}

#[test]
fn label_replacement() {
    let ppc = get_preprocessed_code(&convert_input(vec!["lab: lab", "END"]));
    assert_eq!(Ok(vec!["0".to_string()]), ppc);

    let ppc = get_preprocessed_code(&convert_input(vec!["MOV A, lab", "lab: RRC", "END"]));
    assert_eq!(Ok(convert_input(vec!["MOV A, 1", "RRC"])), ppc);
}

#[test]
fn equate() {
    let ppc = get_preprocessed_code(&convert_input(vec!["PTO EQU 8", "OUT PTO", "END"]));
    assert_eq!(Ok(vec!["OUT 8".to_string()]), ppc);

    let ppc = get_preprocessed_code(&convert_input(vec!["test EQU 10H + 20", "JMP test", "END"]));
    assert_eq!(Ok(vec!["JMP 36".to_string()]), ppc);

    let ppc = get_preprocessed_code(&convert_input(vec!["test EQU 5", "test EQU 6", "END"]));
    assert_eq!(Err("Can't assign a variable more than once using EQU!"), ppc);
}

#[test]
fn set() {
    let code = vec!["IMMED SET 5 ", "ADI IMMED", "IMMED SET 10H-6", "ADI IMMED", "END"];
    let ppc = get_preprocessed_code(&convert_input(code));
    assert_eq!(Ok(convert_input(vec!["ADI 5", "ADI 10"])), ppc);
}

#[test]
fn if_endif() {
    let code = vec![
        "COND SET 0ffH",
        "IF COND",
        "MOV A,C",
        "ENDIF",
        "COND SET 0",
        "IF COND ",
        "MOV A,C",
        "ENDIF",
        "XRA C",
        "END",
    ];
    let ppc = get_preprocessed_code(&convert_input(code));
    assert_eq!(Ok(convert_input(vec!["MOV A,C", "XRA C"])), ppc);

    let ppc = get_preprocessed_code(&convert_input(vec!["IF 1", "END"]));
    assert_eq!(Err("Every IF must be closed"), ppc);

    let ppc = get_preprocessed_code(&convert_input(vec!["ENDIF", "END"]));
    assert_eq!(Err("Every ENDIF must have a corresponding IF"), ppc);
}

#[test]
fn macro_replacement() {
    let code = &convert_input(vec!["SHRT MACRO", "RRC", "ANI 7FH", "ENDM", "SHRT", "END"]);
    let ppc = replace_macros(code);
    assert_eq!(Ok(convert_input(vec!["RRC", "ANI 7FH", "END"])), ppc);

    let code = &convert_input(vec!["SHRT MACRO", "RRC", "ANI 7FH", "ENDM", "END"]);
    let ppc = replace_macros(code);
    assert_eq!(Ok(convert_input(vec!["END"])), ppc);

    let code = &convert_input(vec!["MAC1 MACRO P1, P2,COMMENT", "XRA P2", "DCR P1 COMMENT", "ENDM", "MAC1 C, D", "END"]);
    let ppc = replace_macros(code);
    assert_eq!(Ok(convert_input(vec!["XRA D", "DCR C", "END"])), ppc);

    let code = &convert_input(vec!["MA MACRO Foo, FooBar", "MOV Foo, FooBar", "ENDM", "MA A, B"]);
    let ppc = replace_macros(code);
    assert_eq!(Ok(convert_input(vec!["MOV A, B"])), ppc);

    let code = &convert_input(vec!["MAC MACRO p1, p2", "ADI p1", "ADI p2", "ENDM", "MAC p2, 5"]);
    let ppc = replace_macros(code);
    assert_eq!(Ok(convert_input(vec!["ADI p2", "ADI 5"])), ppc);
}

#[test]
fn valid_labels() {
    let code = convert_input(vec!["label:", "MOV A,B", " @LAB:", "test:", "MOV A,B"]);
    let mut labels = HashMap::new();
    labels.insert(String::from("test"), 1);
    labels.insert(String::from("@LAB"), 1);
    labels.insert(String::from("label"), 0);
    assert_eq!(Ok(labels), get_labels(&code).map(label_map));
}

#[test]
fn label_bytes() {
    let code = convert_input(vec!["MVI B,10", "start: ADD B", "DCR B", "JNZ start", "MOV B,A", "HLT", "END"]);
    let mut labels = HashMap::new();
    labels.insert("start".to_string(), 2);
    assert_eq!(Ok(labels), get_labels(&code).map(label_map));

    let code = convert_input(vec![
        "ORG 5+5", "MVI B,10", "start: ADD B", "DCR B", "JNZ start", "MOV B,A", "ORG 0A1H", "test: HLT", "END",
    ]);
    let mut labels = HashMap::new();
    labels.insert("start".to_string(), 12);
    labels.insert("test".to_string(), 161);
    assert_eq!(Ok(labels), get_labels(&code).map(label_map));
}

#[test]
fn duplicate_labels() {
    let labels = get_labels(&convert_input(vec!["label:", "label:", "MOV A,B"]));
    assert_eq!(Err("label must not be assigned twice!"), labels);
}

#[test]
fn empty_label() {
    let labels = get_labels(&convert_input(vec!["label:"]));
    assert_eq!(Err("labels must not point to an empty address!"), labels);
}

#[test]
fn illegal_label() {
    let labels = get_labels(&vec!["IF: RRC".to_string()]);
    assert_eq!(Err("illegal label name"), labels);
}

#[test]
fn macro_definitions() {
    let code = convert_input(vec!["SHRT MACRO", "RRC", "ANI 7FH", "ENDM", "SHRT"]);
    let defs = get_macros(&code).unwrap();
    assert_eq!(defs.len(), 1);
    assert_eq!(defs[0].name, "SHRT");
    assert_eq!(defs[0].body, convert_input(vec!["RRC", "ANI 7FH"]));

    let code = convert_input(vec!["MAC1 MACRO P1, P2, COMMENT", "XRA P2", "DCR P1 COMMENT", "ENDM", "MAC1 C, D"]);
    let defs = get_macros(&code).unwrap();
    assert_eq!(defs[0].name, "MAC1");
    assert_eq!(defs[0].params, convert_input(vec!["P1", "P2", "COMMENT"]));

    let code = convert_input(vec!["THE MACRO"]);
    assert_eq!(Err("Every MACRO has to be followed by an ENDM"), get_macros(&code).map(|d| d.len()));

    let code = convert_input(vec!["ENDM"]);
    assert_eq!(Err("Every ENDM must have a corresponding MACRO"), get_macros(&code).map(|d| d.len()));

    let code = convert_input(vec!["MACRO", "ENDM", "END"]);
    assert_eq!(Err("Cannot define macro without name"), get_macros(&code).map(|d| d.len()));

    let code = convert_input(vec!["ABC MACRO", "A MACRO", "ENDM"]);
    assert_eq!(Err("Cannot define macro within macro"), get_macros(&code).map(|d| d.len()));

    let code = convert_input(vec!["A MACRO", "ENDM"]);
    assert_eq!(Err("Illegal macro name supplied!"), get_macros(&code).map(|d| d.len()));
}

#[test]
fn program_has_end() {
    let code = convert_input(vec!["END"]);
    assert_eq!(true, has_correct_end(&code));

    let code = convert_input(vec!["END", "END"]);
    assert_eq!(false, has_correct_end(&code));

    let code = convert_input(vec!["RRC"]);
    assert_eq!(false, has_correct_end(&code));

    let code = convert_input(vec!["END", "RRC"]);
    assert_eq!(false, has_correct_end(&code));
}

#[test]
fn complete_code() {
    let code = convert_input(vec![
        "VAR1 EQU 123",
        "GO: JMP $ +6",
        "ADD C",
        "",
        "",
        "IF 0+0*00O",
        "MOV A,B",
        "ENDIF",
        "POP B",
        "macr0 MACRO par",
        "NOM SET 21",
        "RZ",
        "ENDM",
        "",
        "macr0 input",
        "IF VAR1",
        "EI",
        "ENDIF",
        "END",
        "",
    ]);
    let result = convert_input(vec!["JMP 0 +6", "ADD C", "POP B", "RZ", "EI"]);
    assert_eq!(Ok(result), get_preprocessed_code(&code));
}

#[test]
fn line_mapping() {
    let code = convert_input(vec!["MOV A,B", "", "JMP 1", "label:", "lab:", "MVI D, 3H"]);
    let mut map = HashMap::new();
    map.insert(0, 0);
    map.insert(1, 2);
    map.insert(2, 2);
    map.insert(3, 2);
    map.insert(4, 5);
    map.insert(5, 5);
    let got: HashMap<u16, usize> = emulator::preprocessor::get_line_map(&code).unwrap().into_iter().collect();
    assert_eq!(got, map);

    let code = convert_input(vec!["mac MACRO", "", "MOV A,B", "ENDM", "label:", "mac", "", "JMP 0", "mac"]);
    map.clear();
    map.insert(0, 2);
    map.insert(1, 7);
    map.insert(2, 7);
    map.insert(3, 7);
    map.insert(4, 2);
    let got: HashMap<u16, usize> = emulator::preprocessor::get_line_map(&code).unwrap().into_iter().collect();
    assert_eq!(got, map);
}

#[test]
fn labels_in_macros() {
    let code = convert_input(vec![MACRO_START, "LOOP:", "MOV A,B", "JMP LOOP", MACRO_END, MACRO_START, "LOOP:", "MOV A,B", "JMP LOOP", MACRO_END]);
    let ppc = handle_macro_locals(&code).unwrap();
    assert_eq!(ppc[0], "A0:");
    assert_eq!(ppc[2], "JMP A0");
    assert_eq!(ppc[3], "A1:");

    let code = convert_input(vec!["@LAB:", "MOV A,B", MACRO_START, "@LAB: JMP @LAB", MACRO_END]);
    let ppc = handle_macro_locals(&code).unwrap();
    assert_eq!(ppc[0], "@LAB:");
    assert_eq!(ppc[2], "A0: JMP A0");

    let code = convert_input(vec!["GLOB: MOV A,B", MACRO_START, "GLOB2::", "NOP", "JMP GLOB2", MACRO_END]);
    let ppc = handle_macro_locals(&code).unwrap();
    assert_eq!(ppc[1], "GLOB2:");
    assert_eq!(ppc[3], "JMP GLOB2");

    let code = convert_input(vec!["A0: MOV A,B", MACRO_START, "LAB:", "MOV A,B", MACRO_END]);
    let ppc = handle_macro_locals(&code).unwrap();
    assert_eq!(ppc[1], "A1:");

    let code = convert_input(vec!["A2: JMP A1", MACRO_START, "LAB:", "JMP LAB", MACRO_END, "A0:", "MOV A,B"]);
    let ppc = handle_macro_locals(&code).unwrap();
    assert_eq!(ppc[1], "A1:");
}

#[test]
fn variables_in_macros() {
    let code = convert_input(vec!["VAL EQU 6", MACRO_START, "VAL EQU 8", "DB VAL", MACRO_END, "JMP VAL"]);
    let ppc = handle_macro_locals(&code).unwrap();
    assert!(ppc[0].contains("VAL"));
    assert_eq!(ppc[1], "A0 EQU 8");
    assert_eq!(ppc[2], "DB A0");
    assert!(ppc[3].contains("VAL"));

    let code = convert_input(vec!["VAL SET 5", MACRO_START, "VAL SET 8", MACRO_END]);
    let ppc = handle_macro_locals(&code).unwrap();
    assert!(ppc[1].eq("VAL SET 8"));

    let code = convert_input(vec!["TEST SET 5", MACRO_START, "VAL SET 8", MACRO_END]);
    let ppc = handle_macro_locals(&code).unwrap();
    assert_eq!(ppc[1], "A0 SET 8");
}

#[test]
fn macro_called_twice_keeps_labels_apart() {
    let code = "DLY MACRO\nWAIT: DCR B\nJNZ WAIT\nENDM\nDLY\nDLY\nEND";
    let bytes = emulator::assembler::Assembler::new(code).assemble();
    assert_eq!(bytes, Ok(vec![0x05, 0xC2, 0x00, 0x00, 0x05, 0xC2, 0x04, 0x00]));
}

#[test]
fn forward_reference_inside_macro() {
    let code = convert_input(vec![MACRO_START, "JMP LAB", "LAB: NOP", MACRO_END]);
    let ppc = handle_macro_locals(&code).unwrap();
    assert_eq!(ppc, convert_input(vec!["JMP A0", "A0: NOP"]));

    let source = "SKP MACRO\nJZ SKIP\nDCR B\nSKIP: NOP\nENDM\nSKP\nSKP\nEND";
    let bytes = emulator::assembler::Assembler::new(source).assemble();
    assert_eq!(bytes, Ok(vec![0xCA, 0x04, 0x00, 0x05, 0x00, 0xCA, 0x09, 0x00, 0x05, 0x00]));
}
