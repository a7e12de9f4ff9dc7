use vstd::prelude::*;
use crate::expr::{eval, eval_spec, lex};
use vstd::string::StrSliceExecFns;
use crate::expr::to_chars;
use crate::text::{eq_str, find_char, find_from, split, split_str, trim, trim_start, trim_start_str, trim_str};

verus! {

/// Opcode of an instruction without operands.
pub open spec fn no_arg_op(m: Seq<char>) -> Option<u8> {
    if m == "NOP"@ {
        Some(0x0)
    } else if m == "RLC"@ {
        Some(0x7)
    } else if m == "RRC"@ {
        Some(0xf)
    } else if m == "RAL"@ {
        Some(0x17)
    } else if m == "RAR"@ {
        Some(0x1f)
    } else if m == "CMA"@ {
        Some(0x2f)
    } else if m == "CMC"@ {
        Some(0x3f)
    } else if m == "DAA"@ {
        Some(0x27)
    } else if m == "HLT"@ {
        Some(0x76)
    } else if m == "RNZ"@ {
        Some(0xc0)
    } else if m == "STC"@ {
        Some(0x37)
    } else if m == "RET"@ {
        Some(0xc9)
    } else if m == "RNC"@ {
        Some(0xd0)
    } else if m == "RPE"@ {
        Some(0xe8)
    } else if m == "RPO"@ {
        Some(0xe0)
    } else if m == "EI"@ {
        Some(0xfb)
    } else if m == "RM"@ {
        Some(0xf8)
    } else if m == "RZ"@ {
        Some(0xc8)
    } else if m == "RC"@ {
        Some(0xd8)
    } else if m == "DI"@ {
        Some(0xf3)
    } else if m == "RP"@ {
        Some(0xf0)
    } else if m == "SPHL"@ {
        Some(0xf9)
    } else if m == "XCHG"@ {
        Some(0xeb)
    } else if m == "PCHL"@ {
        Some(0xe9)
    } else if m == "XTHL"@ {
        Some(0xe3)
    } else {
        None
    }
}

pub fn no_arg_op_exec(m: &str) -> (r: Option<u8>)
    ensures
        r == no_arg_op(m@),
{
    if eq_str(m, "NOP") {
        Some(0x0)
    } else if eq_str(m, "RLC") {
        Some(0x7)
    } else if eq_str(m, "RRC") {
        Some(0xf)
    } else if eq_str(m, "RAL") {
        Some(0x17)
    } else if eq_str(m, "RAR") {
        Some(0x1f)
    } else if eq_str(m, "CMA") {
        Some(0x2f)
    } else if eq_str(m, "CMC") {
        Some(0x3f)
    } else if eq_str(m, "DAA") {
        Some(0x27)
    } else if eq_str(m, "HLT") {
        Some(0x76)
    } else if eq_str(m, "RNZ") {
        Some(0xc0)
    } else if eq_str(m, "STC") {
        Some(0x37)
    } else if eq_str(m, "RET") {
        Some(0xc9)
    } else if eq_str(m, "RNC") {
        Some(0xd0)
    } else if eq_str(m, "RPE") {
        Some(0xe8)
    } else if eq_str(m, "RPO") {
        Some(0xe0)
    } else if eq_str(m, "EI") {
        Some(0xfb)
    } else if eq_str(m, "RM") {
        Some(0xf8)
    } else if eq_str(m, "RZ") {
        Some(0xc8)
    } else if eq_str(m, "RC") {
        Some(0xd8)
    } else if eq_str(m, "DI") {
        Some(0xf3)
    } else if eq_str(m, "RP") {
        Some(0xf0)
    } else if eq_str(m, "SPHL") {
        Some(0xf9)
    } else if eq_str(m, "XCHG") {
        Some(0xeb)
    } else if eq_str(m, "PCHL") {
        Some(0xe9)
    } else if eq_str(m, "XTHL") {
        Some(0xe3)
    } else {
        None
    }
}

/// Opcode of an instruction with a 16-bit address operand.
pub open spec fn addr_op(m: Seq<char>) -> Option<u8> {
    if m == "SHLD"@ {
        Some(0x22)
    } else if m == "LHLD"@ {
        Some(0x2a)
    } else if m == "STA"@ {
        Some(0x32)
    } else if m == "LDA"@ {
        Some(0x3a)
    } else if m == "JMP"@ {
        Some(0xc3)
    } else if m == "JNZ"@ {
        Some(0xc2)
    } else if m == "CNZ"@ {
        Some(0xc4)
    } else if m == "JZ"@ {
        Some(0xca)
    } else if m == "CZ"@ {
        Some(0xcc)
    } else if m == "CALL"@ {
        Some(0xcd)
    } else if m == "JNC"@ {
        Some(0xd2)
    } else if m == "CNC"@ {
        Some(0xd4)
    } else if m == "JC"@ {
        Some(0xda)
    } else if m == "CC"@ {
        Some(0xdc)
    } else if m == "JPO"@ {
        Some(0xe2)
    } else if m == "CPO"@ {
        Some(0xe4)
    } else if m == "JPE"@ {
        Some(0xea)
    } else if m == "CPE"@ {
        Some(0xec)
    } else if m == "JP"@ {
        Some(0xf2)
    } else if m == "CP"@ {
        Some(0xf4)
    } else if m == "JM"@ {
        Some(0xfa)
    } else if m == "CM"@ {
        Some(0xfc)
    } else {
        None
    }
}

pub fn addr_op_exec(m: &str) -> (r: Option<u8>)
    ensures
        r == addr_op(m@),
{
    if eq_str(m, "SHLD") {
        Some(0x22)
    } else if eq_str(m, "LHLD") {
        Some(0x2a)
    } else if eq_str(m, "STA") {
        Some(0x32)
    } else if eq_str(m, "LDA") {
        Some(0x3a)
    } else if eq_str(m, "JMP") {
        Some(0xc3)
    } else if eq_str(m, "JNZ") {
        Some(0xc2)
    } else if eq_str(m, "CNZ") {
        Some(0xc4)
    } else if eq_str(m, "JZ") {
        Some(0xca)
    } else if eq_str(m, "CZ") {
        Some(0xcc)
    } else if eq_str(m, "CALL") {
        Some(0xcd)
    } else if eq_str(m, "JNC") {
        Some(0xd2)
    } else if eq_str(m, "CNC") {
        Some(0xd4)
    } else if eq_str(m, "JC") {
        Some(0xda)
    } else if eq_str(m, "CC") {
        Some(0xdc)
    } else if eq_str(m, "JPO") {
        Some(0xe2)
    } else if eq_str(m, "CPO") {
        Some(0xe4)
    } else if eq_str(m, "JPE") {
        Some(0xea)
    } else if eq_str(m, "CPE") {
        Some(0xec)
    } else if eq_str(m, "JP") {
        Some(0xf2)
    } else if eq_str(m, "CP") {
        Some(0xf4)
    } else if eq_str(m, "JM") {
        Some(0xfa)
    } else if eq_str(m, "CM") {
        Some(0xfc)
    } else {
        None
    }
}

/// Opcode of an instruction with an 8-bit immediate operand.
pub open spec fn imm_op(m: Seq<char>) -> Option<u8> {
    if m == "ADI"@ {
        Some(0xc6)
    } else if m == "ACI"@ {
        Some(0xce)
    } else if m == "OUT"@ {
        Some(0xd3)
    } else if m == "SUI"@ {
        Some(0xd6)
    } else if m == "IN"@ {
        Some(0xdb)
    } else if m == "SBI"@ {
        Some(0xde)
    } else if m == "ANI"@ {
        Some(0xe6)
    } else if m == "XRI"@ {
        Some(0xee)
    } else if m == "ORI"@ {
        Some(0xf6)
    } else if m == "CPI"@ {
        Some(0xfe)
    } else {
        None
    }
}

pub fn imm_op_exec(m: &str) -> (r: Option<u8>)
    ensures
        r == imm_op(m@),
{
    if eq_str(m, "ADI") {
        Some(0xc6)
    } else if eq_str(m, "ACI") {
        Some(0xce)
    } else if eq_str(m, "OUT") {
        Some(0xd3)
    } else if eq_str(m, "SUI") {
        Some(0xd6)
    } else if eq_str(m, "IN") {
        Some(0xdb)
    } else if eq_str(m, "SBI") {
        Some(0xde)
    } else if eq_str(m, "ANI") {
        Some(0xe6)
    } else if eq_str(m, "XRI") {
        Some(0xee)
    } else if eq_str(m, "ORI") {
        Some(0xf6)
    } else if eq_str(m, "CPI") {
        Some(0xfe)
    } else {
        None
    }
}

/// Index of a register operand in encoding order (B, C, D, E, H, L, M, A).
pub open spec fn reg_index(m: Seq<char>) -> Option<u8> {
    if m == "B"@ {
        Some(0x0)
    } else if m == "C"@ {
        Some(0x1)
    } else if m == "D"@ {
        Some(0x2)
    } else if m == "E"@ {
        Some(0x3)
    } else if m == "H"@ {
        Some(0x4)
    } else if m == "L"@ {
        Some(0x5)
    } else if m == "M"@ {
        Some(0x6)
    } else if m == "A"@ {
        Some(0x7)
    } else {
        None
    }
}

pub fn reg_index_exec(m: &str) -> (r: Option<u8>)
    ensures
        r == reg_index(m@),
{
    if eq_str(m, "B") {
        Some(0x0)
    } else if eq_str(m, "C") {
        Some(0x1)
    } else if eq_str(m, "D") {
        Some(0x2)
    } else if eq_str(m, "E") {
        Some(0x3)
    } else if eq_str(m, "H") {
        Some(0x4)
    } else if eq_str(m, "L") {
        Some(0x5)
    } else if eq_str(m, "M") {
        Some(0x6)
    } else if eq_str(m, "A") {
        Some(0x7)
    } else {
        None
    }
}

/// The value of an operand expression, if it has one.
pub open spec fn expr_value(s: Seq<char>) -> Option<i32> {
    match lex(s, 0, None) {
        Ok(ts) => match eval_spec(ts) {
            Ok(v) => Some(v),
            Err(_) => None,
        },
        Err(_) => None,
    }
}

/// Low 16 bits of a value, two's complement.
pub open spec fn low16(v: i32) -> u16 {
    ((v as int + 0x1_0000_0000) % 0x10000) as u16
}

/// Low 8 bits of a value, two's complement.
pub open spec fn low8(v: i32) -> u8 {
    ((v as int + 0x1_0000_0000) % 0x100) as u8
}

pub open spec fn addr_bytes(op: u8, a: u16) -> Seq<u8> {
    seq![op, (a % 256) as u8, (a / 256) as u8]
}

fn low16_exec(v: i32) -> (r: u16)
    ensures
        r == low16(v),
{
    (((v as i64) + 0x1_0000_0000) as u64 % 0x10000) as u16
}

fn low8_exec(v: i32) -> (r: u8)
    ensures
        r == low8(v),
{
    (((v as i64) + 0x1_0000_0000) as u64 % 0x100) as u8
}

pub fn eval_operand(arg: &str) -> (r: Result<i32, &'static str>)
    ensures
        match expr_value(arg@) {
            Some(v) => r == Ok::<i32, &'static str>(v),
            None => r == Err::<i32, &'static str>("Invalid expression"),
        },
{
    match eval(arg) {
        Ok(v) => Ok(v),
        Err(_) => Err("Invalid expression"),
    }
}

pub open spec fn views(args: Seq<&str>) -> Seq<Seq<char>> {
    Seq::new(args.len(), |i: int| args[i]@)
}

pub open spec fn mov_encoding(args: Seq<Seq<char>>) -> Result<Seq<u8>, Seq<char>> {
    if args.len() < 2 {
        Err("Missing argument(s) for MOV instruction"@)
    } else if args.len() > 2 {
        Err("MOV only takes 2 arguments!"@)
    } else {
        match reg_index(args[0]) {
            None => Err("Invalid first argument for MOV instruction"@),
            Some(d) => match reg_index(args[1]) {
                None => Err("Invalid second argument for MOV instruction"@),
                Some(s) => if d == 6 && s == 6 {
                    Err("Invalid arguments for MOV instruction (Can't move M into M)"@)
                } else {
                    Ok(seq![(0x40 + d * 8 + s) as u8])
                },
            },
        }
    }
}

/// STAX and LDAX: pair B or D only.
pub open spec fn bd_encoding(args: Seq<Seq<char>>, base: u8) -> Result<Seq<u8>, Seq<char>> {
    if args.len() != 1 {
        Err("wrong arg amount!"@)
    } else if args[0] == "B"@ {
        Ok(seq![base])
    } else if args[0] == "D"@ {
        Ok(seq![(base + 16) as u8])
    } else {
        Err("wrong register!"@)
    }
}

fn bd_args(args: &Vec<&str>, base: u8) -> (r: Result<Vec<u8>, &'static str>)
    requires
        base as int + 16 <= 255,
    ensures
        match bd_encoding(views(args@), base) {
            Ok(b) => r is Ok && r->Ok_0@ == b,
            Err(e) => r is Err && r->Err_0@ == e,
        },
{
    if args.len() != 1 {
        return Err("wrong arg amount!");
    }
    if eq_str(args[0], "B") {
        Ok(vec![base])
    } else if eq_str(args[0], "D") {
        Ok(vec![base + 16])
    } else {
        Err("wrong register!")
    }
}

pub open spec fn all_registers_encoding(args: Seq<Seq<char>>, base: u8, every_eighth: bool) -> Result<Seq<u8>, Seq<char>> {
    if args.len() != 1 {
        Err("wrong arg amount!"@)
    } else {
        match reg_index(args[0]) {
            Some(i) => Ok(seq![(base + i * if every_eighth { 8int } else { 1 }) as u8]),
            None => Err("wrong register!"@),
        }
    }
}

pub open spec fn pair_index(r: Seq<char>, last: Seq<char>) -> Option<u8> {
    if r == "B"@ {
        Some(0)
    } else if r == "D"@ {
        Some(1)
    } else if r == "H"@ {
        Some(2)
    } else if r == last {
        Some(3)
    } else {
        None
    }
}

/// A pair operand (B, D, H and then SP or PSW) added in steps of 16 to `base`.
pub open spec fn pair_encoding(args: Seq<Seq<char>>, base: u8, last: Seq<char>) -> Result<Seq<u8>, Seq<char>> {
    if args.len() != 1 {
        Err("wrong arg amount!"@)
    } else {
        match pair_index(args[0], last) {
            Some(i) => Ok(seq![(base + 16 * i) as u8]),
            None => Err("wrong register!"@),
        }
    }
}

fn pair_index_exec(r: &str, last: &str) -> (i: Option<u8>)
    ensures
        i == pair_index(r@, last@),
{
    if eq_str(r, "B") {
        Some(0)
    } else if eq_str(r, "D") {
        Some(1)
    } else if eq_str(r, "H") {
        Some(2)
    } else if eq_str(r, last) {
        Some(3)
    } else {
        None
    }
}

fn pair_args(args: &Vec<&str>, base: u8, last: &str) -> (r: Result<Vec<u8>, &'static str>)
    requires
        base as int + 48 <= 255,
    ensures
        match pair_encoding(views(args@), base, last@) {
            Ok(b) => r is Ok && r->Ok_0@ == b,
            Err(e) => r is Err && r->Err_0@ == e,
        },
{
    if args.len() != 1 {
        return Err("wrong arg amount!");
    }
    match pair_index_exec(args[0], last) {
        Some(i) => Ok(vec![base + 16 * i]),
        None => Err("wrong register!"),
    }
}

pub fn convert_mov_args(args: Vec<&str>) -> (r: Result<Vec<u8>, &'static str>)
    ensures
        match mov_encoding(views(args@)) {
            Ok(b) => r is Ok && r->Ok_0@ == b,
            Err(e) => r is Err && r->Err_0@ == e,
        },
{
    if args.len() < 2 {
        return Err("Missing argument(s) for MOV instruction");
    }
    if args.len() > 2 {
        return Err("MOV only takes 2 arguments!");
    }
    match reg_index_exec(args[0]) {
        None => Err("Invalid first argument for MOV instruction"),
        Some(d) => match reg_index_exec(args[1]) {
            None => Err("Invalid second argument for MOV instruction"),
            Some(s) => {
                if d == 6 && s == 6 {
                    return Err("Invalid arguments for MOV instruction (Can't move M into M)");
                }
                Ok(vec![0x40 + d * 8 + s])
            },
        },
    }
}

pub fn convert_stax_args(args: Vec<&str>) -> (r: Result<Vec<u8>, &'static str>)
    ensures
        match bd_encoding(views(args@), 0x02) {
            Ok(b) => r is Ok && r->Ok_0@ == b,
            Err(e) => r is Err && r->Err_0@ == e,
        },
{
    bd_args(&args, 0x02)
}

pub fn convert_inx_args(args: Vec<&str>) -> (r: Result<Vec<u8>, &'static str>)
    ensures
        match pair_encoding(views(args@), 0x03, "SP"@) {
            Ok(b) => r is Ok && r->Ok_0@ == b,
            Err(e) => r is Err && r->Err_0@ == e,
        },
{
    pair_args(&args, 0x03, "SP")
}

pub fn convert_dcx_args(args: Vec<&str>) -> (r: Result<Vec<u8>, &'static str>)
    ensures
        match pair_encoding(views(args@), 0x0b, "SP"@) {
            Ok(b) => r is Ok && r->Ok_0@ == b,
            Err(e) => r is Err && r->Err_0@ == e,
        },
{
    pair_args(&args, 0x0b, "SP")
}

pub fn convert_dad_args(args: Vec<&str>) -> (r: Result<Vec<u8>, &'static str>)
    ensures
        match pair_encoding(views(args@), 0x09, "SP"@) {
            Ok(b) => r is Ok && r->Ok_0@ == b,
            Err(e) => r is Err && r->Err_0@ == e,
        },
{
    pair_args(&args, 0x09, "SP")
}

pub fn convert_pop_args(args: Vec<&str>) -> (r: Result<Vec<u8>, &'static str>)
    ensures
        match pair_encoding(views(args@), 0xc1, "PSW"@) {
            Ok(b) => r is Ok && r->Ok_0@ == b,
            Err(e) => r is Err && r->Err_0@ == e,
        },
{
    pair_args(&args, 0xc1, "PSW")
}

pub fn convert_push_args(args: Vec<&str>) -> (r: Result<Vec<u8>, &'static str>)
    ensures
        match pair_encoding(views(args@), 0xc5, "PSW"@) {
            Ok(b) => r is Ok && r->Ok_0@ == b,
            Err(e) => r is Err && r->Err_0@ == e,
        },
{
    pair_args(&args, 0xc5, "PSW")
}

pub fn convert_opcodes_using_all_registers(args: Vec<&str>, base_value: u8, use_every_eigth_opc: bool) -> (r: Result<Vec<u8>, &'static str>)
    requires
        base_value as int + 7 * (if use_every_eigth_opc { 8int } else { 1 }) <= 255,
    ensures
        match all_registers_encoding(views(args@), base_value, use_every_eigth_opc) {
            Ok(b) => r is Ok && r->Ok_0@ == b,
            Err(e) => r is Err && r->Err_0@ == e,
        },
{
    if args.len() != 1 {
        return Err("wrong arg amount!");
    }
    let growth: u8 = if use_every_eigth_opc { 8 } else { 1 };
    match reg_index_exec(args[0]) {
        Some(i) => Ok(vec![base_value + i * growth]),
        None => Err("wrong register!"),
    }
}

pub open spec fn lxi_encoding(args: Seq<Seq<char>>) -> Result<Seq<u8>, Seq<char>> {
    if args.len() != 2 {
        Err("wrong arg amount!"@)
    } else {
        match expr_value(args[1]) {
            None => Err("Invalid expression"@),
            Some(v) => match pair_index(args[0], "SP"@) {
                Some(i) => Ok(addr_bytes((0x01 + 16 * i) as u8, low16(v))),
                None => Err("wrong register!"@),
            },
        }
    }
}

pub open spec fn mvi_encoding(args: Seq<Seq<char>>) -> Result<Seq<u8>, Seq<char>> {
    if args.len() != 2 {
        Err("wrong arg amount!"@)
    } else {
        match expr_value(args[1]) {
            None => Err("Invalid expression"@),
            Some(v) => match reg_index(args[0]) {
                Some(i) => Ok(seq![(0x06 + 8 * i) as u8, low8(v)]),
                None => Err("wrong register!"@),
            },
        }
    }
}

pub open spec fn rst_encoding(args: Seq<Seq<char>>) -> Result<Seq<u8>, Seq<char>> {
    if args.len() != 1 {
        Err("wrong arg amount!"@)
    } else {
        match expr_value(args[0]) {
            None => Err("Invalid expression"@),
            Some(v) => if 0 <= v <= 7 {
                Ok(seq![(0xC7 + 8 * v) as u8])
            } else {
                Err("wrong register!"@)
            },
        }
    }
}

pub fn convert_lxi_args(args: Vec<&str>) -> (r: Result<Vec<u8>, &'static str>)
    ensures
        match lxi_encoding(views(args@)) {
            Ok(b) => r is Ok && r->Ok_0@ == b,
            Err(e) => r is Err && r->Err_0@ == e,
        },
{
    if args.len() != 2 {
        return Err("wrong arg amount!");
    }
    let v = low16_exec(eval_operand(args[1])?);
    match pair_index_exec(args[0], "SP") {
        Some(i) => Ok(vec![0x01 + 16 * i, (v % 256) as u8, (v / 256) as u8]),
        None => Err("wrong register!"),
    }
}

pub fn convert_mvi_args(args: Vec<&str>) -> (r: Result<Vec<u8>, &'static str>)
    ensures
        match mvi_encoding(views(args@)) {
            Ok(b) => r is Ok && r->Ok_0@ == b,
            Err(e) => r is Err && r->Err_0@ == e,
        },
{
    if args.len() != 2 {
        return Err("wrong arg amount!");
    }
    let v = low8_exec(eval_operand(args[1])?);
    match reg_index_exec(args[0]) {
        Some(i) => Ok(vec![0x06 + 8 * i, v]),
        None => Err("wrong register!"),
    }
}

pub fn convert_rst_args(args: Vec<&str>) -> (r: Result<Vec<u8>, &'static str>)
    ensures
        match rst_encoding(views(args@)) {
            Ok(b) => r is Ok && r->Ok_0@ == b,
            Err(e) => r is Err && r->Err_0@ == e,
        },
{
    if args.len() != 1 {
        return Err("wrong arg amount!");
    }
    let v = eval_operand(args[0])?;
    if 0 <= v && v <= 7 {
        Ok(vec![0xC7 + 8 * (v as u8)])
    } else {
        Err("wrong register!")
    }
}

/// Bytes of an instruction given its mnemonic and its operand fields.
#[verifier::opaque]
pub open spec fn encode_args(opcode: Seq<char>, args: Seq<Seq<char>>) -> Result<Seq<u8>, Seq<char>> {
    if opcode == "MOV"@ {
        mov_encoding(args)
    } else if opcode == "STAX"@ {
        bd_encoding(args, 0x02)
    } else if opcode == "LDAX"@ {
        bd_encoding(args, 0x0a)
    } else if opcode == "INR"@ {
        all_registers_encoding(args, 0x4, true)
    } else if opcode == "DCR"@ {
        all_registers_encoding(args, 0x5, true)
    } else if opcode == "ADD"@ {
        all_registers_encoding(args, 0x80, false)
    } else if opcode == "ADC"@ {
        all_registers_encoding(args, 0x88, false)
    } else if opcode == "SUB"@ {
        all_registers_encoding(args, 0x90, false)
    } else if opcode == "SBB"@ {
        all_registers_encoding(args, 0x98, false)
    } else if opcode == "ANA"@ {
        all_registers_encoding(args, 0xa0, false)
    } else if opcode == "XRA"@ {
        all_registers_encoding(args, 0xa8, false)
    } else if opcode == "ORA"@ {
        all_registers_encoding(args, 0xb0, false)
    } else if opcode == "CMP"@ {
        all_registers_encoding(args, 0xb8, false)
    } else if opcode == "INX"@ {
        pair_encoding(args, 0x3, "SP"@)
    } else if opcode == "DAD"@ {
        pair_encoding(args, 0x9, "SP"@)
    } else if opcode == "DCX"@ {
        pair_encoding(args, 0xb, "SP"@)
    } else if opcode == "POP"@ {
        pair_encoding(args, 0xc1, "PSW"@)
    } else if opcode == "PUSH"@ {
        pair_encoding(args, 0xc5, "PSW"@)
    } else if opcode == "LXI"@ {
        lxi_encoding(args)
    } else if opcode == "MVI"@ {
        mvi_encoding(args)
    } else if opcode == "RST"@ {
        rst_encoding(args)
    } else if addr_op(opcode) is Some || imm_op(opcode) is Some {
        if args.len() == 0 {
            Err("wrong arg amount!"@)
        } else {
            match expr_value(args[0]) {
                None => Err("Invalid expression"@),
                Some(v) => if addr_op(opcode) is Some {
                    Ok(addr_bytes(addr_op(opcode)->Some_0, low16(v)))
                } else {
                    Ok(seq![imm_op(opcode)->Some_0, low8(v)])
                },
            }
        }
    } else {
        Err("Could not match instruction"@)
    }
}

pub fn encode_args_exec(opcode: &str, args: Vec<&str>) -> (r: Result<Vec<u8>, &'static str>)
    ensures
        match encode_args(opcode@, views(args@)) {
            Ok(b) => r is Ok && r->Ok_0@ == b,
            Err(e) => r is Err && r->Err_0@ == e,
        },
{
    proof {
        reveal(encode_args);
    }
    if eq_str(opcode, "MOV") {
        convert_mov_args(args)
    } else if eq_str(opcode, "STAX") {
        convert_stax_args(args)
    } else if eq_str(opcode, "LDAX") {
        bd_args(&args, 0x0a)
    } else if eq_str(opcode, "INR") {
        convert_opcodes_using_all_registers(args, 0x4, true)
    } else if eq_str(opcode, "DCR") {
        convert_opcodes_using_all_registers(args, 0x5, true)
    } else if eq_str(opcode, "ADD") {
        convert_opcodes_using_all_registers(args, 0x80, false)
    } else if eq_str(opcode, "ADC") {
        convert_opcodes_using_all_registers(args, 0x88, false)
    } else if eq_str(opcode, "SUB") {
        convert_opcodes_using_all_registers(args, 0x90, false)
    } else if eq_str(opcode, "SBB") {
        convert_opcodes_using_all_registers(args, 0x98, false)
    } else if eq_str(opcode, "ANA") {
        convert_opcodes_using_all_registers(args, 0xa0, false)
    } else if eq_str(opcode, "XRA") {
        convert_opcodes_using_all_registers(args, 0xa8, false)
    } else if eq_str(opcode, "ORA") {
        convert_opcodes_using_all_registers(args, 0xb0, false)
    } else if eq_str(opcode, "CMP") {
        convert_opcodes_using_all_registers(args, 0xb8, false)
    } else if eq_str(opcode, "INX") {
        convert_inx_args(args)
    } else if eq_str(opcode, "DAD") {
        convert_dad_args(args)
    } else if eq_str(opcode, "DCX") {
        convert_dcx_args(args)
    } else if eq_str(opcode, "POP") {
        convert_pop_args(args)
    } else if eq_str(opcode, "PUSH") {
        convert_push_args(args)
    } else if eq_str(opcode, "LXI") {
        convert_lxi_args(args)
    } else if eq_str(opcode, "MVI") {
        convert_mvi_args(args)
    } else if eq_str(opcode, "RST") {
        convert_rst_args(args)
    } else {
        let a = addr_op_exec(opcode);
        let i = imm_op_exec(opcode);
        if a.is_none() && i.is_none() {
            return Err("Could not match instruction");
        }
        if args.len() == 0 {
            return Err("wrong arg amount!");
        }
        let v = eval_operand(args[0])?;
        match a {
            Some(op) => {
                let w = low16_exec(v);
                Ok(vec![op, (w % 256) as u8, (w / 256) as u8])
            },
            None => Ok(vec![i.unwrap(), low8_exec(v)]),
        }
    }
}

pub open spec fn is_ident_start(c: char) -> bool {
    ('a' <= c && c <= 'z') || ('A' <= c && c <= 'Z') || c == '@' || c == '?'
}

pub open spec fn is_ident_char(c: char) -> bool {
    is_ident_start(c) || ('0' <= c && c <= '9')
}

/// End of the run of name characters starting at `i`.
pub open spec fn ident_end(s: Seq<char>, i: int) -> int
    decreases s.len() - i,
{
    if 0 <= i < s.len() && is_ident_char(s[i]) {
        ident_end(s, i + 1)
    } else {
        i
    }
}

/// End of the run of spaces starting at `i`.
pub open spec fn spaces_end(s: Seq<char>, i: int) -> int
    decreases s.len() - i,
{
    if 0 <= i < s.len() && s[i] == ' ' {
        spaces_end(s, i + 1)
    } else {
        i
    }
}

/// Length of a leading label declaration (spaces, a name of one to five
/// characters starting with a letter, `@` or `?`, then `:`), or zero.
pub open spec fn label_end(s: Seq<char>) -> int {
    let i = spaces_end(s, 0);
    let j = ident_end(s, i);
    if i < s.len() && is_ident_start(s[i]) && j - i <= 5 && j < s.len() && s[j] == ':' {
        j + 1
    } else {
        0
    }
}

fn is_ident_start_exec(c: char) -> (b: bool)
    ensures
        b == is_ident_start(c),
{
    ('a' <= c && c <= 'z') || ('A' <= c && c <= 'Z') || c == '@' || c == '?'
}

fn ident_end_exec(cs: &Vec<char>, i: usize) -> (j: usize)
    requires
        i <= cs@.len(),
    ensures
        j as int == ident_end(cs@, i as int),
        i <= j <= cs@.len(),
{
    let mut j = i;
    while j < cs.len() && (is_ident_start_exec(cs[j]) || ('0' <= cs[j] && cs[j] <= '9'))
        invariant
            i <= j <= cs@.len(),
            ident_end(cs@, j as int) == ident_end(cs@, i as int),
        decreases cs@.len() - j,
    {
        j = j + 1;
    }
    j
}

pub fn label_end_exec(s: &str) -> (n: usize)
    ensures
        n as int == label_end(s@),
        n <= s@.len(),
{
    let cs = to_chars(s);
    let mut i: usize = 0;
    while i < cs.len() && cs[i] == ' '
        invariant
            i <= cs@.len(),
            cs@ == s@,
            spaces_end(cs@, i as int) == spaces_end(cs@, 0),
        decreases cs@.len() - i,
    {
        i = i + 1;
    }
    let j = ident_end_exec(&cs, i);
    if i < cs.len() && is_ident_start_exec(cs[i]) && j - i <= 5 && j < cs.len() && cs[j] == ':' {
        j + 1
    } else {
        0
    }
}

/// Trimmed operand fields of an operand list.
pub open spec fn fields(suffix: Seq<char>) -> Seq<Seq<char>> {
    Seq::new(split(suffix, ',').len(), |i: int| trim(split(suffix, ',')[i]))
}

/// Bytes of one source line: a leading label declaration is dropped, the
/// mnemonic ends at the first space and the operands are separated by commas.
#[verifier::opaque]
pub open spec fn encode_line(line: Seq<char>) -> Result<Seq<u8>, Seq<char>> {
    let l = trim_start(line.subrange(label_end(line), line.len() as int));
    let k = find_from(l, ' ', 0);
    if k < l.len() {
        encode_args(l.subrange(0, k), fields(l.subrange(k + 1, l.len() as int)))
    } else {
        match no_arg_op(trim(l)) {
            Some(op) => Ok(seq![op]),
            None => Err("Could not match instruction"@),
        }
    }
}

/// Encodes one instruction.
pub fn to_machine_code(instruction: &str) -> (r: Result<Vec<u8>, &'static str>)
    ensures
        match encode_line(instruction@) {
            Ok(b) => r is Ok && r->Ok_0@ == b,
            Err(e) => r is Err && r->Err_0@ == e,
        },
{
    proof {
        reveal(encode_line);
    }
    let le = label_end_exec(instruction);
    let rest = instruction.substring_char(le, instruction.unicode_len());
    let line = trim_start_str(rest);
    let n = line.unicode_len();
    match find_char(line, ' ') {
        Some(k) => {
            let opcode = line.substring_char(0, k);
            let suffix = line.substring_char(k + 1, n);
            let parts = split_str(suffix, ',');
            let mut args: Vec<&str> = Vec::new();
            let mut i: usize = 0;
            while i < parts.len()
                invariant
                    i <= parts@.len(),
                    parts@.len() == split(suffix@, ',').len(),
                    forall|m: int| 0 <= m < parts@.len() ==> (#[trigger] parts@[m])@ == split(suffix@, ',')[m],
                    args@.len() == i,
                    forall|m: int| 0 <= m < i ==> (#[trigger] args@[m])@ == trim(split(suffix@, ',')[m]),
                decreases parts@.len() - i,
            {
                args.push(trim_str(parts[i]));
                i = i + 1;
            }
            assert(views(args@) =~= fields(suffix@));
            encode_args_exec(opcode, args)
        },
        None => {
            match no_arg_op_exec(trim_str(line)) {
                Some(op) => Ok(vec![op]),
                None => Err("Could not match instruction"),
            }
        },
    }
}

/// Source lines: the input split at line feeds, each trimmed.
pub open spec fn source_lines(input: Seq<char>) -> Seq<Seq<char>> {
    Seq::new(split(input, '\n').len(), |i: int| trim(split(input, '\n')[i]))
}

/// Lines joined with line feeds.
pub open spec fn join_lines(lines: Seq<Seq<char>>) -> Seq<char>
    decreases lines.len(),
{
    if lines.len() == 0 {
        Seq::empty()
    } else if lines.len() == 1 {
        lines[0]
    } else {
        join_lines(lines.drop_last()) + seq!['\n'] + lines.last()
    }
}

pub open spec fn is_org_line(l: Seq<char>) -> bool {
    crate::preprocessor::first_word(l) == "ORG"@
}

/// Bytes of the preprocessed lines, ORG lines giving none.
pub open spec fn encode_all(pre: Seq<Seq<char>>) -> Result<Seq<u8>, Seq<char>>
    decreases pre.len(),
{
    if pre.len() == 0 {
        Ok(Seq::empty())
    } else {
        match encode_all(pre.drop_last()) {
            Err(e) => Err(e),
            Ok(bytes) => if is_org_line(pre.last()) {
                Ok(bytes)
            } else {
                match encode_line(pre.last()) {
                    Ok(b) => Ok(bytes + b),
                    Err(e) => Err(e),
                }
            },
        }
    }
}

/// One line of the origin scan: an ORG records the byte count and its address;
/// any other line adds its size to the count.
#[verifier::opaque]
pub open spec fn origin_step(orgs: Seq<(u16, u16)>, count: u16, line: Seq<char>) -> Result<(Seq<(u16, u16)>, u16), Seq<char>> {
    if is_org_line(line) {
        match expr_value(crate::preprocessor::operand_text(trim(line))) {
            Some(v) => Ok((orgs.push((count, low16(v))), count)),
            None => Err("Invalid expression"@),
        }
    } else {
        match encode_line(line) {
            Ok(b) => Ok((orgs, crate::machine::wrap16(count + b.len()))),
            Err(e) => Err(e),
        }
    }
}

/// For each ORG: how many bytes come before it, and the address it sets.
pub open spec fn origins_pass(pre: Seq<Seq<char>>) -> Result<(Seq<(u16, u16)>, u16), Seq<char>>
    decreases pre.len(),
{
    if pre.len() == 0 {
        Ok((Seq::empty(), 0))
    } else {
        match origins_pass(pre.drop_last()) {
            Err(e) => Err(e),
            Ok((orgs, count)) => origin_step(orgs, count, pre.last()),
        }
    }
}

fn origin_step_exec(orgs: &mut Vec<(u16, u16)>, count: u16, line: &str) -> (r: Result<u16, &'static str>)
    ensures
        match origin_step(old(orgs)@, count, line@) {
            Ok((o, c)) => r == Ok::<u16, &'static str>(c) && final(orgs)@ == o,
            Err(e) => r is Err && r->Err_0@ == e,
        },
{
    proof {
        reveal(origin_step);
    }
    if eq_str(crate::preprocessor::first_word_exec(line), "ORG") {
        let v = eval_operand(crate::preprocessor::operand_text_exec(trim_str(line)))?;
        orgs.push((count, low16_exec(v)));
        Ok(count)
    } else {
        let b = to_machine_code(line)?;
        proof {
            lemma_encode_len(line@);
        }
        Ok(((count as usize + b.len()) % 0x10000) as u16)
    }
}

/// A program's source, line by line.
pub struct Assembler {
    pub code: Vec<String>,
}

impl Assembler {
    pub open spec fn lines(&self) -> Seq<Seq<char>> {
        crate::preprocessor::string_views(self.code@)
    }

    /// Splits the input at line feeds and trims each line.
    pub fn new(input_code: &str) -> (a: Assembler)
        ensures
            a.lines() == source_lines(input_code@),
    {
        let parts = split_str(input_code, '\n');
        let mut lines: Vec<String> = Vec::new();
        let mut i: usize = 0;
        while i < parts.len()
            invariant
                i <= parts@.len(),
                parts@.len() == split(input_code@, '\n').len(),
                forall|m: int| 0 <= m < parts@.len() ==> (#[trigger] parts@[m])@ == split(input_code@, '\n')[m],
                lines@.len() == i,
                forall|m: int| 0 <= m < i ==> (#[trigger] lines@[m])@ == trim(split(input_code@, '\n')[m]),
            decreases parts@.len() - i,
        {
            lines.push(String::from_str(trim_str(parts[i])));
            i = i + 1;
        }
        let a = Assembler { code: lines };
        assert(a.lines() =~= source_lines(input_code@));
        a
    }

    /// The source lines joined with line feeds.
    pub fn to_string(&self) -> (s: String)
        ensures
            s@ == join_lines(self.lines()),
    {
        let mut out = String::new();
        let mut i: usize = 0;
        assert(self.lines().take(0) =~= Seq::<Seq<char>>::empty());
        while i < self.code.len()
            invariant
                i <= self.code@.len(),
                out@ == join_lines(self.lines().take(i as int)),
            decreases self.code@.len() - i,
        {
            proof {
                assert(self.lines().take(i as int + 1).drop_last() =~= self.lines().take(i as int));
            }
            if i == 0 {
                out = String::from_str(self.code[0].as_str());
                assert(self.lines().take(1) =~= seq![self.code@[0]@]);
            } else {
                out = out.concat("\n").concat(self.code[i].as_str());
                proof {
                    reveal_strlit("\n");
                }
            }
            i = i + 1;
        }
        assert(self.lines().take(self.code@.len() as int) =~= self.lines());
        out
    }

    /// Assembles the program into bytes.
    pub fn assemble(&self) -> (r: Result<Vec<u8>, &'static str>)
        ensures
            match crate::preprocessor::preprocessed(self.lines()) {
                Ok(pre) => match encode_all(pre) {
                    Ok(b) => r is Ok && r->Ok_0@ == b,
                    Err(e) => r is Err && r->Err_0@ == e,
                },
                Err(e) => r is Err && r->Err_0@ == e,
            },
    {
        let pre = crate::preprocessor::get_preprocessed_code(&self.code)?;
        encode_lines(&pre)
    }

    /// For every byte the program emits, the source line it comes from.
    pub fn get_line_map(&self) -> (r: Result<Vec<(u16, usize)>, &'static str>)
        ensures
            match crate::preprocessor::map_pass(self.lines(), self.lines().len() as int) {
                Ok(st) => r is Ok && crate::preprocessor::map_views(r->Ok_0@) == st.0,
                Err(e) => r is Err && r->Err_0@ == e,
            },
    {
        crate::preprocessor::get_line_map(&self.code)
    }

    /// Where each ORG places the bytes that follow it.
    pub fn get_origins(&self) -> (r: Result<Vec<(u16, u16)>, &'static str>)
        ensures
            match crate::preprocessor::preprocessed(self.lines()) {
                Ok(pre) => match origins_pass(pre) {
                    Ok((orgs, _)) => r is Ok && r->Ok_0@ == orgs,
                    Err(e) => r is Err && r->Err_0@ == e,
                },
                Err(e) => r is Err && r->Err_0@ == e,
            },
    {
        let pre = crate::preprocessor::get_preprocessed_code(&self.code)?;
        origins_of_lines(&pre)
    }
}

/// Encodes preprocessed lines one after the other, skipping ORG lines.
pub fn encode_lines(pre: &Vec<String>) -> (r: Result<Vec<u8>, &'static str>)
    ensures
        match encode_all(crate::preprocessor::string_views(pre@)) {
            Ok(b) => r is Ok && r->Ok_0@ == b,
            Err(e) => r is Err && r->Err_0@ == e,
        },
{
    let ghost pv = crate::preprocessor::string_views(pre@);
    let mut bytes: Vec<u8> = Vec::new();
    let mut i: usize = 0;
    assert(pv.take(0) =~= Seq::<Seq<char>>::empty());
    while i < pre.len()
        invariant
            i <= pre@.len(),
            pv == crate::preprocessor::string_views(pre@),
            encode_all(pv.take(i as int)) == Ok::<Seq<u8>, Seq<char>>(bytes@),
        decreases pre@.len() - i,
    {
        proof {
            assert(pv.take(i as int + 1).drop_last() =~= pv.take(i as int));
            assert(pv.take(i as int + 1).last() == pre@[i as int]@);
        }
        let line = pre[i].as_str();
        if !eq_str(crate::preprocessor::first_word_exec(line), "ORG") {
            match to_machine_code(line) {
                Ok(b) => {
                    let mut k: usize = 0;
                    let ghost start = bytes@;
                    while k < b.len()
                        invariant
                            k <= b@.len(),
                            bytes@ == start + b@.take(k as int),
                        decreases b@.len() - k,
                    {
                        bytes.push(b[k]);
                        assert(b@.take(k as int + 1) =~= b@.take(k as int).push(b@[k as int]));
                        k = k + 1;
                    }
                    assert(b@.take(b@.len() as int) =~= b@);
                },
                Err(e) => {
                    proof {
                        lemma_encode_all_err(pv, i as int + 1);
                    }
                    return Err(e);
                },
            }
        }
        i = i + 1;
    }
    proof {
        assert(pv.take(pre@.len() as int) =~= pv);
    }
    Ok(bytes)
}

fn origins_of_lines(pre: &Vec<String>) -> (r: Result<Vec<(u16, u16)>, &'static str>)
    ensures
        match origins_pass(crate::preprocessor::string_views(pre@)) {
            Ok((orgs, _)) => r is Ok && r->Ok_0@ == orgs,
            Err(e) => r is Err && r->Err_0@ == e,
        },
{
    let ghost pv = crate::preprocessor::string_views(pre@);
    let mut orgs: Vec<(u16, u16)> = Vec::new();
    let mut count: u16 = 0;
    let mut i: usize = 0;
    assert(pv.take(0) =~= Seq::<Seq<char>>::empty());
    while i < pre.len()
        invariant
            i <= pre@.len(),
            pv == crate::preprocessor::string_views(pre@),
            origins_pass(pv.take(i as int)) == Ok::<(Seq<(u16, u16)>, u16), Seq<char>>((orgs@, count)),
        decreases pre@.len() - i,
    {
        proof {
            assert(pv.take(i as int + 1).drop_last() =~= pv.take(i as int));
            assert(pv.take(i as int + 1).last() == pre@[i as int]@);
        }
        match origin_step_exec(&mut orgs, count, pre[i].as_str()) {
            Ok(c) => {
                count = c;
            },
            Err(e) => {
                proof {
                    lemma_origins_err(pv, i as int + 1);
                }
                return Err(e);
            },
        }
        i = i + 1;
    }
    proof {
        assert(pv.take(pre@.len() as int) =~= pv);
    }
    Ok(orgs)
}

/// An instruction is at most three bytes.
proof fn lemma_encode_len(l: Seq<char>)
    ensures
        encode_line(l) is Ok ==> encode_line(l)->Ok_0.len() <= 3,
{
    reveal(encode_line);
    reveal(encode_args);
}

proof fn lemma_encode_all_err(pre: Seq<Seq<char>>, n: int)
    requires
        0 <= n <= pre.len(),
        encode_all(pre.take(n)) is Err,
    ensures
        encode_all(pre) == encode_all(pre.take(n)),
    decreases pre.len() - n,
{
    if n < pre.len() {
        assert(pre.take(n + 1).drop_last() =~= pre.take(n));
        lemma_encode_all_err(pre, n + 1);
    } else {
        assert(pre.take(n) =~= pre);
    }
}

proof fn lemma_origins_err(pre: Seq<Seq<char>>, n: int)
    requires
        0 <= n <= pre.len(),
        origins_pass(pre.take(n)) is Err,
    ensures
        origins_pass(pre) == origins_pass(pre.take(n)),
    decreases pre.len() - n,
{
    if n < pre.len() {
        assert(pre.take(n + 1).drop_last() =~= pre.take(n));
        lemma_origins_err(pre, n + 1);
    } else {
        assert(pre.take(n) =~= pre);
    }
}

} // verus!
