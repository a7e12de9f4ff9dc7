use vstd::prelude::*;

verus! {

pub open spec fn hex_char(d: int) -> char {
    if d < 10 {
        ('0' as int + d) as char
    } else {
        ('a' as int + d - 10) as char
    }
}

/// Lower-case hex digits of `n`, without leading zeros.
pub open spec fn hex_digits(n: nat) -> Seq<char>
    decreases n,
{
    if n < 16 {
        seq![hex_char(n as int)]
    } else {
        hex_digits(n / 16).push(hex_char((n % 16) as int))
    }
}

/// Hex rendering with suffix `H`, and a leading `0` where the first digit is a letter.
pub open spec fn hex_text(n: nat) -> Seq<char> {
    let ds = hex_digits(n);
    if 'a' <= ds[0] {
        seq!['0'] + ds + seq!['H']
    } else {
        ds + seq!['H']
    }
}

pub fn digit_str(d: u16) -> (s: &'static str)
    requires
        d < 16,
    ensures
        s@ == seq![hex_char(d as int)],
{
    proof {
        reveal_strlit("0");
        reveal_strlit("1");
        reveal_strlit("2");
        reveal_strlit("3");
        reveal_strlit("4");
        reveal_strlit("5");
        reveal_strlit("6");
        reveal_strlit("7");
        reveal_strlit("8");
        reveal_strlit("9");
        reveal_strlit("a");
        reveal_strlit("b");
        reveal_strlit("c");
        reveal_strlit("d");
        reveal_strlit("e");
        reveal_strlit("f");
    }
    let s = if d == 0 {
        "0"
    } else if d == 1 {
        "1"
    } else if d == 2 {
        "2"
    } else if d == 3 {
        "3"
    } else if d == 4 {
        "4"
    } else if d == 5 {
        "5"
    } else if d == 6 {
        "6"
    } else if d == 7 {
        "7"
    } else if d == 8 {
        "8"
    } else if d == 9 {
        "9"
    } else if d == 10 {
        "a"
    } else if d == 11 {
        "b"
    } else if d == 12 {
        "c"
    } else if d == 13 {
        "d"
    } else if d == 14 {
        "e"
    } else {
        "f"
    };
    assert(s@ =~= seq![hex_char(d as int)]);
    s
}

fn hex_digits_exec(n: u16) -> (s: String)
    ensures
        s@ == hex_digits(n as nat),
    decreases n,
{
    if n < 16 {
        String::from_str(digit_str(n))
    } else {
        let s = hex_digits_exec(n / 16).concat(digit_str(n % 16));
        assert(s@ =~= hex_digits(n as nat));
        s
    }
}

proof fn lemma_hex_digits_nonempty(n: nat)
    ensures
        hex_digits(n).len() >= 1,
    decreases n,
{
    if n >= 16 {
        lemma_hex_digits_nonempty(n / 16);
    }
}

/// Renders a number in hex with suffix `H`, a leading zero where the first digit is a letter.
pub fn fmt_hex(num: u16) -> (s: String)
    ensures
        s@ == hex_text(num as nat),
{
    let ds = hex_digits_exec(num);
    proof {
        lemma_hex_digits_nonempty(num as nat);
        reveal_strlit("0");
        reveal_strlit("H");
    }
    let first = ds.as_str().get_char(0);
    if 'a' <= first {
        let s = String::from_str("0").concat(ds.as_str()).concat("H");
        assert(s@ =~= hex_text(num as nat));
        s
    } else {
        let s = ds.concat("H");
        assert(s@ =~= hex_text(num as nat));
        s
    }
}

pub open spec fn reg_name(i: int) -> Seq<char> {
    if i == 0 {
        "B"@
    } else if i == 1 {
        "C"@
    } else if i == 2 {
        "D"@
    } else if i == 3 {
        "E"@
    } else if i == 4 {
        "H"@
    } else if i == 5 {
        "L"@
    } else if i == 6 {
        "M"@
    } else {
        "A"@
    }
}

pub fn reg_name_exec(i: u8) -> (s: &'static str)
    ensures
        s@ == reg_name(i as int),
{
    if i == 0 {
        "B"
    } else if i == 1 {
        "C"
    } else if i == 2 {
        "D"
    } else if i == 3 {
        "E"
    } else if i == 4 {
        "H"
    } else if i == 5 {
        "L"
    } else if i == 6 {
        "M"
    } else {
        "A"
    }
}

pub open spec fn rp_name(i: int) -> Seq<char> {
    if i == 0 {
        "B"@
    } else if i == 1 {
        "D"@
    } else if i == 2 {
        "H"@
    } else {
        "SP"@
    }
}

pub fn rp_name_exec(i: u8) -> (s: &'static str)
    ensures
        s@ == rp_name(i as int),
{
    if i == 0 {
        "B"
    } else if i == 1 {
        "D"
    } else if i == 2 {
        "H"
    } else {
        "SP"
    }
}

pub open spec fn pp_name(i: int) -> Seq<char> {
    if i == 0 {
        "B"@
    } else if i == 1 {
        "D"@
    } else if i == 2 {
        "H"@
    } else {
        "PSW"@
    }
}

pub fn pp_name_exec(i: u8) -> (s: &'static str)
    ensures
        s@ == pp_name(i as int),
{
    if i == 0 {
        "B"
    } else if i == 1 {
        "D"
    } else if i == 2 {
        "H"
    } else {
        "PSW"
    }
}

pub open spec fn cond_name(i: int) -> Seq<char> {
    if i == 0 {
        "NZ"@
    } else if i == 1 {
        "Z"@
    } else if i == 2 {
        "NC"@
    } else if i == 3 {
        "C"@
    } else if i == 4 {
        "PO"@
    } else if i == 5 {
        "PE"@
    } else if i == 6 {
        "P"@
    } else {
        "M"@
    }
}

pub fn cond_name_exec(i: u8) -> (s: &'static str)
    ensures
        s@ == cond_name(i as int),
{
    if i == 0 {
        "NZ"
    } else if i == 1 {
        "Z"
    } else if i == 2 {
        "NC"
    } else if i == 3 {
        "C"
    } else if i == 4 {
        "PO"
    } else if i == 5 {
        "PE"
    } else if i == 6 {
        "P"
    } else {
        "M"
    }
}

pub open spec fn alu_name(i: int) -> Seq<char> {
    if i == 0 {
        "ADD"@
    } else if i == 1 {
        "ADC"@
    } else if i == 2 {
        "SUB"@
    } else if i == 3 {
        "SBB"@
    } else if i == 4 {
        "ANA"@
    } else if i == 5 {
        "XRA"@
    } else if i == 6 {
        "ORA"@
    } else {
        "CMP"@
    }
}

pub fn alu_name_exec(i: u8) -> (s: &'static str)
    ensures
        s@ == alu_name(i as int),
{
    if i == 0 {
        "ADD"
    } else if i == 1 {
        "ADC"
    } else if i == 2 {
        "SUB"
    } else if i == 3 {
        "SBB"
    } else if i == 4 {
        "ANA"
    } else if i == 5 {
        "XRA"
    } else if i == 6 {
        "ORA"
    } else {
        "CMP"
    }
}

pub open spec fn imm_name(i: int) -> Seq<char> {
    if i == 0 {
        "ADI"@
    } else if i == 1 {
        "ACI"@
    } else if i == 2 {
        "SUI"@
    } else if i == 3 {
        "SBI"@
    } else if i == 4 {
        "ANI"@
    } else if i == 5 {
        "XRI"@
    } else if i == 6 {
        "ORI"@
    } else {
        "CPI"@
    }
}

pub fn imm_name_exec(i: u8) -> (s: &'static str)
    ensures
        s@ == imm_name(i as int),
{
    if i == 0 {
        "ADI"
    } else if i == 1 {
        "ACI"
    } else if i == 2 {
        "SUI"
    } else if i == 3 {
        "SBI"
    } else if i == 4 {
        "ANI"
    } else if i == 5 {
        "XRI"
    } else if i == 6 {
        "ORI"
    } else {
        "CPI"
    }
}

pub open spec fn acc_name(i: int) -> Seq<char> {
    if i == 0 {
        "RLC"@
    } else if i == 1 {
        "RRC"@
    } else if i == 2 {
        "RAL"@
    } else if i == 3 {
        "RAR"@
    } else if i == 4 {
        "DAA"@
    } else if i == 5 {
        "CMA"@
    } else if i == 6 {
        "STC"@
    } else {
        "CMC"@
    }
}

pub fn acc_name_exec(i: u8) -> (s: &'static str)
    ensures
        s@ == acc_name(i as int),
{
    if i == 0 {
        "RLC"
    } else if i == 1 {
        "RRC"
    } else if i == 2 {
        "RAL"
    } else if i == 3 {
        "RAR"
    } else if i == 4 {
        "DAA"
    } else if i == 5 {
        "CMA"
    } else if i == 6 {
        "STC"
    } else {
        "CMC"
    }
}

pub open spec fn rst_digit(i: int) -> Seq<char> {
    if i == 0 {
        "0"@
    } else if i == 1 {
        "1"@
    } else if i == 2 {
        "2"@
    } else if i == 3 {
        "3"@
    } else if i == 4 {
        "4"@
    } else if i == 5 {
        "5"@
    } else if i == 6 {
        "6"@
    } else {
        "7"@
    }
}

pub fn rst_digit_exec(i: u8) -> (s: &'static str)
    ensures
        s@ == rst_digit(i as int),
{
    if i == 0 {
        "0"
    } else if i == 1 {
        "1"
    } else if i == 2 {
        "2"
    } else if i == 3 {
        "3"
    } else if i == 4 {
        "4"
    } else if i == 5 {
        "5"
    } else if i == 6 {
        "6"
    } else {
        "7"
    }
}

/// Text before the operand of an opcode, and the operand's size in bytes;
/// none for the opcodes that have no instruction.
pub open spec fn shape(op: u8) -> Option<(Seq<char>, int)> {
    let col = op as int % 8;
    let row = op as int / 8;
    if op < 0x40 {
        if col == 0 {
            if row == 0 {
                Some(("NOP"@, 0))
            } else {
                None
            }
        } else if col == 1 {
            if row % 2 == 0 {
                Some((("LXI "@ + rp_name(row / 2)) + ","@, 2))
            } else {
                Some(("DAD "@ + rp_name(row / 2), 0))
            }
        } else if col == 2 {
            if row == 0 {
                Some(("STAX B"@, 0))
            } else if row == 1 {
                Some(("LDAX B"@, 0))
            } else if row == 2 {
                Some(("STAX D"@, 0))
            } else if row == 3 {
                Some(("LDAX D"@, 0))
            } else if row == 4 {
                Some(("SHLD "@, 2))
            } else if row == 5 {
                Some(("LHLD "@, 2))
            } else if row == 6 {
                Some(("STA "@, 2))
            } else {
                Some(("LDA "@, 2))
            }
        } else if col == 3 {
            if row % 2 == 0 {
                Some(("INX "@ + rp_name(row / 2), 0))
            } else {
                Some(("DCX "@ + rp_name(row / 2), 0))
            }
        } else if col == 4 {
            Some(("INR "@ + reg_name(row), 0))
        } else if col == 5 {
            Some(("DCR "@ + reg_name(row), 0))
        } else if col == 6 {
            Some((("MVI "@ + reg_name(row)) + ","@, 1))
        } else {
            Some((acc_name(row), 0))
        }
    } else if op < 0x80 {
        if op == 0x76 {
            Some(("HLT"@, 0))
        } else {
            Some(((("MOV "@ + reg_name(row - 8)) + ","@) + reg_name(col), 0))
        }
    } else if op < 0xC0 {
        Some(((alu_name(row - 16) + " "@) + reg_name(col), 0))
    } else {
        let r = row - 24;
        if col == 0 {
            Some(("R"@ + cond_name(r), 0))
        } else if col == 1 {
            if r % 2 == 0 {
                Some(("POP "@ + pp_name(r / 2), 0))
            } else if r == 1 {
                Some(("RET"@, 0))
            } else if r == 5 {
                Some(("PCHL"@, 0))
            } else if r == 7 {
                Some(("SPHL"@, 0))
            } else {
                None
            }
        } else if col == 2 {
            Some((("J"@ + cond_name(r)) + " "@, 2))
        } else if col == 3 {
            if r == 0 {
                Some(("JMP "@, 2))
            } else if r == 2 {
                Some(("OUT "@, 1))
            } else if r == 3 {
                Some(("IN "@, 1))
            } else if r == 4 {
                Some(("XTHL"@, 0))
            } else if r == 5 {
                Some(("XCHG"@, 0))
            } else if r == 6 {
                Some(("DI"@, 0))
            } else if r == 7 {
                Some(("EI"@, 0))
            } else {
                None
            }
        } else if col == 4 {
            Some((("C"@ + cond_name(r)) + " "@, 2))
        } else if col == 5 {
            if r % 2 == 0 {
                Some(("PUSH "@ + pp_name(r / 2), 0))
            } else if r == 1 {
                Some(("CALL "@, 2))
            } else {
                None
            }
        } else if col == 6 {
            Some((imm_name(r) + " "@, 1))
        } else {
            Some(("RST "@ + rst_digit(r), 0))
        }
    }
}

fn cat(a: &str, b: &str) -> (s: String)
    ensures
        s@ == a@ + b@,
{
    String::from_str(a).concat(b)
}

/// Executable form of `shape`.
pub fn shape_exec(op: u8) -> (r: Option<(String, usize)>)
    ensures
        match shape(op) {
            Some((t, n)) => r is Some && r->Some_0.0@ == t && r->Some_0.1 == n,
            None => r is None,
        },
{
    let col = op % 8;
    let row = op / 8;
    if op < 0x40 {
        if col == 0 {
            if row == 0 {
                Some((String::from_str("NOP"), 0))
            } else {
                None
            }
        } else if col == 1 {
            if row % 2 == 0 {
                Some((cat("LXI ", rp_name_exec(row / 2)).concat(","), 2))
            } else {
                Some((cat("DAD ", rp_name_exec(row / 2)), 0))
            }
        } else if col == 2 {
            if row == 0 {
                Some((String::from_str("STAX B"), 0))
            } else if row == 1 {
                Some((String::from_str("LDAX B"), 0))
            } else if row == 2 {
                Some((String::from_str("STAX D"), 0))
            } else if row == 3 {
                Some((String::from_str("LDAX D"), 0))
            } else if row == 4 {
                Some((String::from_str("SHLD "), 2))
            } else if row == 5 {
                Some((String::from_str("LHLD "), 2))
            } else if row == 6 {
                Some((String::from_str("STA "), 2))
            } else {
                Some((String::from_str("LDA "), 2))
            }
        } else if col == 3 {
            if row % 2 == 0 {
                Some((cat("INX ", rp_name_exec(row / 2)), 0))
            } else {
                Some((cat("DCX ", rp_name_exec(row / 2)), 0))
            }
        } else if col == 4 {
            Some((cat("INR ", reg_name_exec(row)), 0))
        } else if col == 5 {
            Some((cat("DCR ", reg_name_exec(row)), 0))
        } else if col == 6 {
            Some((cat("MVI ", reg_name_exec(row)).concat(","), 1))
        } else {
            Some((String::from_str(acc_name_exec(row)), 0))
        }
    } else if op < 0x80 {
        if op == 0x76 {
            Some((String::from_str("HLT"), 0))
        } else {
            Some((cat("MOV ", reg_name_exec(row - 8)).concat(",").concat(reg_name_exec(col)), 0))
        }
    } else if op < 0xC0 {
        Some((cat(alu_name_exec(row - 16), " ").concat(reg_name_exec(col)), 0))
    } else {
        let r = row - 24;
        if col == 0 {
            Some((cat("R", cond_name_exec(r)), 0))
        } else if col == 1 {
            if r % 2 == 0 {
                Some((cat("POP ", pp_name_exec(r / 2)), 0))
            } else if r == 1 {
                Some((String::from_str("RET"), 0))
            } else if r == 5 {
                Some((String::from_str("PCHL"), 0))
            } else if r == 7 {
                Some((String::from_str("SPHL"), 0))
            } else {
                None
            }
        } else if col == 2 {
            Some((cat("J", cond_name_exec(r)).concat(" "), 2))
        } else if col == 3 {
            if r == 0 {
                Some((String::from_str("JMP "), 2))
            } else if r == 2 {
                Some((String::from_str("OUT "), 1))
            } else if r == 3 {
                Some((String::from_str("IN "), 1))
            } else if r == 4 {
                Some((String::from_str("XTHL"), 0))
            } else if r == 5 {
                Some((String::from_str("XCHG"), 0))
            } else if r == 6 {
                Some((String::from_str("DI"), 0))
            } else if r == 7 {
                Some((String::from_str("EI"), 0))
            } else {
                None
            }
        } else if col == 4 {
            Some((cat("C", cond_name_exec(r)).concat(" "), 2))
        } else if col == 5 {
            if r % 2 == 0 {
                Some((cat("PUSH ", pp_name_exec(r / 2)), 0))
            } else if r == 1 {
                Some((String::from_str("CALL "), 2))
            } else {
                None
            }
        } else if col == 6 {
            Some((cat(imm_name_exec(r), " "), 1))
        } else {
            Some((cat("RST ", rst_digit_exec(r)), 0))
        }
    }
}

/// The instruction at `pc`: its text and the position after it.
pub open spec fn decode_at(bytes: Seq<u8>, pc: int) -> Result<(Seq<char>, int), Seq<char>> {
    match shape(bytes[pc]) {
        None => Err("Invalid opcode"@),
        Some((t, n)) => if pc + 1 + n > bytes.len() {
            Err("Unexpected end of input"@)
        } else if n == 0 {
            Ok((t, pc + 1))
        } else if n == 1 {
            Ok((t + hex_text(bytes[pc + 1] as nat), pc + 2))
        } else {
            Ok((t + hex_text((bytes[pc + 2] as nat) * 256 + bytes[pc + 1] as nat), pc + 3))
        },
    }
}

/// Texts of the instructions from `pc` to the end.
pub open spec fn disasm_from(bytes: Seq<u8>, pc: int) -> Result<Seq<Seq<char>>, Seq<char>>
    decreases bytes.len() - pc,
{
    if pc < 0 || pc >= bytes.len() {
        Ok(Seq::empty())
    } else {
        match decode_at(bytes, pc) {
            Ok((t, next)) => if pc < next {
                match disasm_from(bytes, next) {
                    Ok(rest) => Ok(seq![t] + rest),
                    Err(e) => Err(e),
                }
            } else {
                Err(Seq::empty())
            },
            Err(e) => Err(e),
        }
    }
}

/// A byte stream being decoded, with the position of the next instruction.
pub struct Disassembler {
    pub bytes: Vec<u8>,
    pub pc: usize,
}

impl Disassembler {
    pub fn load_bytes(bytes: Vec<u8>) -> (d: Disassembler)
        ensures
            d.bytes@ == bytes@,
            d.pc == 0,
    {
        Disassembler { bytes, pc: 0 }
    }

    /// Decodes the instruction at pc and steps past it; on an error pc steps
    /// past the offending opcode byte only.
    pub fn decode_next(&mut self) -> (r: Result<String, &'static str>)
        requires
            old(self).pc < old(self).bytes@.len(),
        ensures
            final(self).bytes == old(self).bytes,
            match decode_at(old(self).bytes@, old(self).pc as int) {
                Ok((t, next)) => r is Ok && r->Ok_0@ == t && final(self).pc == next,
                Err(e) => r is Err && r->Err_0@ == e && final(self).pc == old(self).pc + 1,
            },
    {
        let len = self.bytes.len();
        let op = self.bytes[self.pc];
        match shape_exec(op) {
            None => {
                self.pc = self.pc + 1;
                Err("Invalid opcode")
            },
            Some((t, n)) => {
                if n > self.bytes.len() - self.pc - 1 {
                    self.pc = self.pc + 1;
                    return Err("Unexpected end of input");
                }
                if n == 0 {
                    self.pc = self.pc + 1;
                    Ok(t)
                } else if n == 1 {
                    let v = self.bytes[self.pc + 1] as u16;
                    self.pc = self.pc + 2;
                    Ok(t.concat(fmt_hex(v).as_str()))
                } else {
                    let v = (self.bytes[self.pc + 2] as u16) * 256 + self.bytes[self.pc + 1] as u16;
                    self.pc = self.pc + 3;
                    Ok(t.concat(fmt_hex(v).as_str()))
                }
            },
        }
    }

    /// Decodes every instruction from pc to the end, stopping at the first
    /// error; on success pc ends at the end of the bytes.
    pub fn disassemble(&mut self) -> (r: Result<Vec<String>, &'static str>)
        ensures
            final(self).bytes == old(self).bytes,
            r is Ok && old(self).pc <= old(self).bytes@.len() ==> final(self).pc == old(self).bytes@.len(),
            match disasm_from(old(self).bytes@, old(self).pc as int) {
                Ok(ts) => r is Ok && r->Ok_0@.len() == ts.len()
                    && forall|i: int| 0 <= i < ts.len() ==> (#[trigger] r->Ok_0@[i])@ == ts[i],
                Err(e) => r is Err && r->Err_0@ == e,
            },
    {
        let mut out: Vec<String> = Vec::new();
        let ghost start = self.pc as int;
        let ghost bytes = self.bytes@;
        assert(Seq::<Seq<char>>::empty() + disasm_from(bytes, start)->Ok_0 =~= disasm_from(bytes, start)->Ok_0);
        while self.pc < self.bytes.len()
            invariant
                self.bytes@ == bytes,
                bytes == old(self).bytes@,
                self.bytes == old(self).bytes,
                start == old(self).pc as int,
                start <= bytes.len() ==> self.pc <= bytes.len(),
                disasm_from(bytes, start) == match disasm_from(bytes, self.pc as int) {
                    Ok(rest) => Ok(Seq::new(out@.len(), |i: int| out@[i]@) + rest),
                    Err(e) => Err::<Seq<Seq<char>>, Seq<char>>(e),
                },
            decreases bytes.len() - self.pc,
        {
            let ghost pc0 = self.pc as int;
            let t = match self.decode_next() {
                Ok(t) => t,
                Err(e) => {
                    assert(disasm_from(bytes, pc0) == Err::<Seq<Seq<char>>, Seq<char>>(e@));
                    return Err(e);
                },
            };
            proof {
                let rest = disasm_from(bytes, self.pc as int);
                if rest is Ok {
                    assert(Seq::new(out@.len(), |i: int| out@[i]@) + (seq![t@] + rest->Ok_0)
                        =~= Seq::new((out@.len() + 1) as nat, |i: int| out@.push(t)[i]@) + rest->Ok_0);
                }
            }
            out.push(t);
        }
        let ghost outs = Seq::new(out@.len(), |i: int| out@[i]@);
        proof {
            assert(disasm_from(bytes, self.pc as int) == Ok::<Seq<Seq<char>>, Seq<char>>(Seq::empty()));
            assert(outs + Seq::<Seq<char>>::empty() =~= outs);
            assert(disasm_from(bytes, start) == Ok::<Seq<Seq<char>>, Seq<char>>(outs));
            assert(forall|i: int| 0 <= i < outs.len() ==> (#[trigger] out@[i])@ == outs[i]);
        }
        Ok(out)
    }
}

/// The instruction texts of a byte stream.
pub fn disassemble(bytes: Vec<u8>) -> (r: Result<Vec<String>, &'static str>)
    ensures
        match disasm_from(bytes@, 0) {
            Ok(ts) => r is Ok && r->Ok_0@.len() == ts.len()
                && forall|i: int| 0 <= i < ts.len() ==> (#[trigger] r->Ok_0@[i])@ == ts[i],
            Err(e) => r is Err && r->Err_0@ == e,
        },
{
    let mut d = Disassembler::load_bytes(bytes);
    d.disassemble()
}

} // verus!
