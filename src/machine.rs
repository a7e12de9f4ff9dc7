use vstd::prelude::*;
use crate::alu::{add_aux, add_sum, arith_flags, daa_correction, daa_high_fix, step_flags, sub_aux, sub_sum};
use crate::flags::Flag;
use crate::ram::{mirror, RAM_SIZE};
use crate::register::{RegisterArray, Reg8, Pair, flags_with};

verus! {

/// Failures of the emulator.
#[derive(Clone, Copy, Debug, PartialEq, Eq, Structural)]
pub enum EmuError {
    /// A push found fewer than two bytes below the stack pointer.
    StackOverflow,
    /// A pop would read past the end of memory.
    StackUnderflow,
    /// An interrupt arrived while interrupts were disabled.
    InterruptsDisabled,
    /// IN or OUT named a port with no device.
    NoDevice,
    /// An operand fetch would read past the end of memory.
    OutOfRange,
}

/// The text each failure reports.
pub open spec fn error_message(e: EmuError) -> Seq<char> {
    match e {
        EmuError::StackOverflow => "PUSH: No more stack space"@,
        EmuError::StackUnderflow => "POP: No return address on the stack"@,
        EmuError::InterruptsDisabled => "Interrupts disabled"@,
        EmuError::NoDevice => "No device registered at this port"@,
        EmuError::OutOfRange => "Not enough bytes available"@,
    }
}

impl EmuError {
    pub fn message(&self) -> (m: &'static str)
        ensures
            m@ == error_message(*self),
    {
        match self {
            EmuError::StackOverflow => "PUSH: No more stack space",
            EmuError::StackUnderflow => "POP: No return address on the stack",
            EmuError::InterruptsDisabled => "Interrupts disabled",
            EmuError::NoDevice => "No device registered at this port",
            EmuError::OutOfRange => "Not enough bytes available",
        }
    }
}

/// Operand of the register forms, in encoding order: index 6 is memory at HL.
#[derive(Clone, Copy, Debug, PartialEq, Eq, Structural)]
pub enum Operand {
    B,
    C,
    D,
    E,
    H,
    L,
    M,
    A,
}

pub open spec fn operand_at(i: int) -> Operand {
    if i == 0 {
        Operand::B
    } else if i == 1 {
        Operand::C
    } else if i == 2 {
        Operand::D
    } else if i == 3 {
        Operand::E
    } else if i == 4 {
        Operand::H
    } else if i == 5 {
        Operand::L
    } else if i == 6 {
        Operand::M
    } else {
        Operand::A
    }
}

/// The register an operand names (memory has none; it maps to A unused).
pub open spec fn operand_reg(o: Operand) -> Reg8 {
    match o {
        Operand::B => Reg8::B,
        Operand::C => Reg8::C,
        Operand::D => Reg8::D,
        Operand::E => Reg8::E,
        Operand::H => Reg8::H,
        Operand::L => Reg8::L,
        Operand::M => Reg8::A,
        Operand::A => Reg8::A,
    }
}

/// The whole machine as values.
pub struct MachineView {
    pub pc: u16,
    pub sp: u16,
    pub mem: Seq<u8>,
    pub reg: RegisterArray,
    pub running: bool,
    pub interrupts_enabled: bool,
    /// For each port: the byte its input device presents, if it has one.
    pub inputs: Seq<Option<u8>>,
    /// For each port: whether it has an output device.
    pub outputs: Seq<bool>,
    /// (port, byte) of every OUT so far, oldest first.
    pub written: Seq<(u8, u8)>,
}

impl MachineView {
    pub open spec fn psw_word(&self) -> u16 {
        self.reg.spec_get16(Pair::PSW)
    }
}

pub open spec fn acc(s: MachineView) -> u8 {
    s.reg.spec_get8(Reg8::A)
}

pub open spec fn mem_read(s: MachineView, a: u16) -> u8 {
    s.mem[mirror(a as int)]
}

pub open spec fn mem_write(s: MachineView, a: u16, v: u8) -> MachineView {
    MachineView { mem: s.mem.update(mirror(a as int), v), ..s }
}

pub open spec fn with_reg(s: MachineView, r: RegisterArray) -> MachineView {
    MachineView { reg: r, ..s }
}

pub open spec fn with_pc(s: MachineView, pc: u16) -> MachineView {
    MachineView { pc: pc, ..s }
}

pub open spec fn with_sp(s: MachineView, sp: u16) -> MachineView {
    MachineView { sp: sp, ..s }
}

pub open spec fn wrap16(x: int) -> u16 {
    (x % 0x10000) as u16
}

pub open spec fn word(lo: u8, hi: u8) -> u16 {
    (hi as int * 256 + lo as int) as u16
}

pub open spec fn hl_addr(s: MachineView) -> u16 {
    s.reg.spec_get16(Pair::HL)
}

pub open spec fn get_operand(s: MachineView, o: Operand) -> u8 {
    if o == Operand::M {
        mem_read(s, hl_addr(s))
    } else {
        s.reg.spec_get8(operand_reg(o))
    }
}

pub open spec fn set_operand(s: MachineView, o: Operand, v: u8) -> MachineView {
    if o == Operand::M {
        mem_write(s, hl_addr(s), v)
    } else {
        with_reg(s, s.reg.spec_set8(operand_reg(o), v))
    }
}

/// Fetches the opcode at pc and steps past it.
pub open spec fn fetch(s: MachineView) -> (MachineView, u8) {
    (with_pc(s, wrap16(s.pc + 1)), mem_read(s, s.pc))
}

pub open spec fn read_byte(s: MachineView) -> Result<(MachineView, u8), EmuError> {
    if s.pc as int + 1 > RAM_SIZE {
        Err(EmuError::OutOfRange)
    } else {
        Ok((with_pc(s, (s.pc + 1) as u16), mem_read(s, s.pc)))
    }
}

pub open spec fn read_addr(s: MachineView) -> Result<(MachineView, u16), EmuError> {
    if s.pc as int + 2 > RAM_SIZE {
        Err(EmuError::OutOfRange)
    } else {
        Ok((with_pc(s, (s.pc + 2) as u16), word(mem_read(s, s.pc), mem_read(s, (s.pc + 1) as u16))))
    }
}

pub open spec fn push(s: MachineView, v: u16) -> Result<MachineView, EmuError> {
    if s.sp < 2 {
        Err(EmuError::StackOverflow)
    } else {
        let s1 = mem_write(with_sp(s, (s.sp - 1) as u16), (s.sp - 1) as u16, (v / 256) as u8);
        Ok(mem_write(with_sp(s1, (s.sp - 2) as u16), (s.sp - 2) as u16, (v % 256) as u8))
    }
}

pub open spec fn pop(s: MachineView) -> Result<(MachineView, u16), EmuError> {
    if s.sp as int + 2 > RAM_SIZE {
        Err(EmuError::StackUnderflow)
    } else {
        Ok((with_sp(s, (s.sp + 2) as u16), word(mem_read(s, s.sp), mem_read(s, (s.sp + 1) as u16))))
    }
}

/// The value a popped word gives a pair: PSW keeps only the five flag bits
/// and the always-one bit.
pub open spec fn popped_value(p: Pair, v: u16) -> u16 {
    if p == Pair::PSW {
        ((v / 256) * 256 + (((v % 256) as u8 & 0xD5) | 0x02) as int) as u16
    } else {
        v
    }
}

pub open spec fn pop_reg(s: MachineView, p: Pair) -> Result<MachineView, EmuError> {
    match pop(s) {
        Ok((t, v)) => Ok(with_reg(t, t.reg.spec_set16(p, popped_value(p, v)))),
        Err(e) => Err(e),
    }
}

pub open spec fn set_acc_flags(s: MachineView, res: u8, fl: u8) -> MachineView {
    with_reg(s, s.reg.spec_with_flags(fl).spec_set8(Reg8::A, res))
}

pub open spec fn add_value(s: MachineView, v: u16) -> MachineView {
    let a = acc(s);
    let sum = add_sum(a, v);
    let res = (sum % 256) as u8;
    set_acc_flags(s, res, arith_flags(s.reg.flags_byte(), res, sum > 255, add_aux(a, v)))
}

pub open spec fn sub_value(s: MachineView, v: u16) -> MachineView {
    let a = acc(s);
    let sum = sub_sum(a, v);
    let res = (sum % 256) as u8;
    set_acc_flags(s, res, arith_flags(s.reg.flags_byte(), res, !(sum > 255), sub_aux(a, v)))
}

/// Subtraction with borrow: `a - v - borrow` as the sum `a + (255 - v) + 1 - borrow`;
/// carry is set exactly when that sum has no carry out, that is when a borrow occurs.
pub open spec fn sbb_value(s: MachineView, v: u8, borrow: bool) -> MachineView {
    let a = acc(s);
    let b: int = if borrow { 1 } else { 0 };
    let sum = a as int + (255 - v as int) + 1 - b;
    let res = (sum % 256) as u8;
    set_acc_flags(s, res, arith_flags(s.reg.flags_byte(), res, !(sum > 255), (a as int % 16) + (15 - v as int % 16) + 1 - b > 15))
}

pub open spec fn logic_value(s: MachineView, res: u8, aux: bool) -> MachineView {
    set_acc_flags(s, res, arith_flags(s.reg.flags_byte(), res, false, aux))
}

pub open spec fn cmp_value(s: MachineView, v: u8) -> MachineView {
    let t = sub_value(s, v as u16);
    with_reg(t, t.reg.spec_set8(Reg8::A, acc(s)))
}

pub open spec fn carry_in(s: MachineView) -> u16 {
    if s.reg.flag(Flag::Carry) {
        1
    } else {
        0
    }
}

/// The eight accumulator operations, in encoding order, on operand `v`.
pub open spec fn alu_op(s: MachineView, g: int, v: u8) -> MachineView {
    let a = acc(s);
    if g == 0 {
        add_value(s, v as u16)
    } else if g == 1 {
        add_value(s, (v as int + carry_in(s)) as u16)
    } else if g == 2 {
        sub_value(s, v as u16)
    } else if g == 3 {
        sbb_value(s, v, s.reg.flag(Flag::Carry))
    } else if g == 4 {
        logic_value(s, a & v, (a | v) & 0x08 != 0)
    } else if g == 5 {
        logic_value(s, a ^ v, false)
    } else if g == 6 {
        logic_value(s, a | v, false)
    } else {
        cmp_value(s, v)
    }
}

pub open spec fn inr(s: MachineView, o: Operand) -> MachineView {
    let prev = get_operand(s, o);
    let res = ((prev as int + 1) % 256) as u8;
    let t = with_reg(s, s.reg.spec_with_flags(step_flags(s.reg.flags_byte(), res, prev % 16 + 1 > 15)));
    set_operand(t, o, res)
}

pub open spec fn dcr(s: MachineView, o: Operand) -> MachineView {
    let prev = get_operand(s, o);
    let res = ((prev as int + 255) % 256) as u8;
    let t = with_reg(s, s.reg.spec_with_flags(step_flags(s.reg.flags_byte(), res, prev % 16 + 15 > 15)));
    set_operand(t, o, res)
}

pub open spec fn set_carry(s: MachineView, c: bool) -> MachineView {
    with_reg(s, s.reg.spec_with_flags(flags_with(s.reg.flags_byte(), Flag::Carry, c)))
}

pub open spec fn rotate(s: MachineView, kind: int) -> MachineView {
    let a = acc(s);
    let c = s.reg.flag(Flag::Carry);
    let cin: int = if c { 1 } else { 0 };
    let t = set_carry(s, if kind == 0 || kind == 2 { a >= 0x80 } else { a % 2 == 1 });
    let res: int = if kind == 0 {
        (a % 128) * 2 + a / 128
    } else if kind == 1 {
        a / 2 + (a % 2) * 128
    } else if kind == 2 {
        (a % 128) * 2 + cin
    } else {
        a / 2 + cin * 128
    };
    with_reg(t, t.reg.spec_set8(Reg8::A, res as u8))
}

pub open spec fn dad(s: MachineView, v: u16) -> MachineView {
    let sum = hl_addr(s) as int + v as int;
    let t = set_carry(s, sum > 0xffff);
    with_reg(t, t.reg.spec_set16(Pair::HL, (sum % 0x10000) as u16))
}

pub open spec fn daa(s: MachineView) -> MachineView {
    let a = acc(s);
    let c = daa_high_fix(a, s.reg.flag(Flag::Carry));
    set_carry(add_value(s, daa_correction(a, s.reg.flag(Flag::Aux), s.reg.flag(Flag::Carry))), c)
}

/// Flag and polarity tested by condition `k` of the conditional branches
/// (NZ, Z, NC, C, PO, PE, P, M).
pub open spec fn cond_flag(k: int) -> Flag {
    if k / 2 == 0 {
        Flag::Zero
    } else if k / 2 == 1 {
        Flag::Carry
    } else if k / 2 == 2 {
        Flag::Parity
    } else {
        Flag::Sign
    }
}

pub open spec fn cond_holds(s: MachineView, flag: Flag, want: bool) -> bool {
    s.reg.flag(flag) == want
}

pub open spec fn jmp_when(s: MachineView, flag: Flag, want: bool) -> Result<MachineView, EmuError> {
    if cond_holds(s, flag, want) {
        match read_addr(s) {
            Ok((t, a)) => Ok(with_pc(t, a)),
            Err(e) => Err(e),
        }
    } else {
        Ok(with_pc(s, wrap16(s.pc + 2)))
    }
}

pub open spec fn call(s: MachineView, adr: u16) -> Result<MachineView, EmuError> {
    match push(s, s.pc) {
        Ok(t) => Ok(with_pc(t, adr)),
        Err(e) => Err(e),
    }
}

pub open spec fn call_imm(s: MachineView) -> Result<MachineView, EmuError> {
    match read_addr(s) {
        Ok((t, a)) => call(t, a),
        Err(e) => Err(e),
    }
}

pub open spec fn call_when(s: MachineView, flag: Flag, want: bool) -> Result<MachineView, EmuError> {
    if cond_holds(s, flag, want) {
        call_imm(s)
    } else {
        Ok(with_pc(s, wrap16(s.pc + 2)))
    }
}

pub open spec fn ret(s: MachineView) -> Result<MachineView, EmuError> {
    match pop(s) {
        Ok((t, v)) => Ok(with_pc(t, v)),
        Err(e) => Err(e),
    }
}

pub open spec fn ret_when(s: MachineView, flag: Flag, want: bool) -> Result<MachineView, EmuError> {
    if cond_holds(s, flag, want) {
        ret(s)
    } else {
        Ok(s)
    }
}

/// Pair named by field `k` of LXI, INX, DCX and DAD (3 is the stack pointer).
pub open spec fn rp_at(k: int) -> Pair {
    if k == 0 {
        Pair::BC
    } else if k == 1 {
        Pair::DE
    } else {
        Pair::HL
    }
}

/// Pair named by field `k` of PUSH and POP.
pub open spec fn pp_at(k: int) -> Pair {
    if k == 0 {
        Pair::BC
    } else if k == 1 {
        Pair::DE
    } else if k == 2 {
        Pair::HL
    } else {
        Pair::PSW
    }
}

pub open spec fn get_rp(s: MachineView, k: int) -> u16 {
    if k == 3 {
        s.sp
    } else {
        s.reg.spec_get16(rp_at(k))
    }
}

pub open spec fn set_rp(s: MachineView, k: int, v: u16) -> MachineView {
    if k == 3 {
        with_sp(s, v)
    } else {
        with_reg(s, s.reg.spec_set16(rp_at(k), v))
    }
}

pub open spec fn input(s: MachineView, port: u8) -> Result<MachineView, EmuError> {
    match s.inputs[port as int] {
        Some(v) => Ok(with_reg(s, s.reg.spec_set8(Reg8::A, v))),
        None => Err(EmuError::NoDevice),
    }
}

pub open spec fn output(s: MachineView, port: u8) -> Result<MachineView, EmuError> {
    if s.outputs[port as int] {
        Ok(MachineView { written: s.written.push((port, acc(s))), ..s })
    } else {
        Err(EmuError::NoDevice)
    }
}

pub open spec fn shld(s: MachineView, adr: u16) -> MachineView {
    mem_write(mem_write(s, adr, s.reg.spec_get8(Reg8::L)), wrap16(adr + 1), s.reg.spec_get8(Reg8::H))
}

pub open spec fn lhld(s: MachineView, adr: u16) -> MachineView {
    let r = s.reg.spec_set8(Reg8::L, mem_read(s, adr));
    with_reg(s, r.spec_set8(Reg8::H, mem_read(s, wrap16(adr + 1))))
}

pub open spec fn xthl(s: MachineView) -> MachineView {
    let l = s.reg.spec_get8(Reg8::L);
    let h = s.reg.spec_get8(Reg8::H);
    let t = lhld(s, s.sp);
    mem_write(mem_write(t, t.sp, l), wrap16(t.sp + 1), h)
}

/// Effect of an opcode below 0x40 on the state after its fetch.
pub open spec fn execute_low(s: MachineView, op: u8) -> Result<MachineView, EmuError> {
    let col = op as int % 8;
    let row = op as int / 8;
    if col == 0 {
        Ok(s)
    } else if col == 1 {
        if row % 2 == 0 {
            match read_addr(s) {
                Ok((t, v)) => Ok(set_rp(t, row / 2, v)),
                Err(e) => Err(e),
            }
        } else {
            Ok(dad(s, get_rp(s, row / 2)))
        }
    } else if col == 2 {
        if row < 4 {
            let adr = s.reg.spec_get16(rp_at(row / 2));
            if row % 2 == 0 {
                Ok(mem_write(s, adr, acc(s)))
            } else {
                Ok(with_reg(s, s.reg.spec_set8(Reg8::A, mem_read(s, adr))))
            }
        } else {
            match read_addr(s) {
                Ok((t, adr)) => Ok(
                    if row == 4 {
                        shld(t, adr)
                    } else if row == 5 {
                        lhld(t, adr)
                    } else if row == 6 {
                        mem_write(t, adr, acc(t))
                    } else {
                        with_reg(t, t.reg.spec_set8(Reg8::A, mem_read(t, adr)))
                    },
                ),
                Err(e) => Err(e),
            }
        }
    } else if col == 3 {
        let v = get_rp(s, row / 2);
        Ok(set_rp(s, row / 2, if row % 2 == 0 { wrap16(v + 1) } else { wrap16(v + 0xffff) }))
    } else if col == 4 {
        Ok(inr(s, operand_at(row)))
    } else if col == 5 {
        Ok(dcr(s, operand_at(row)))
    } else if col == 6 {
        match read_byte(s) {
            Ok((t, v)) => Ok(set_operand(t, operand_at(row), v)),
            Err(e) => Err(e),
        }
    } else {
        if row < 4 {
            Ok(rotate(s, row))
        } else if row == 4 {
            Ok(daa(s))
        } else if row == 5 {
            Ok(with_reg(s, s.reg.spec_set8(Reg8::A, !acc(s))))
        } else if row == 6 {
            Ok(set_carry(s, true))
        } else {
            Ok(set_carry(s, !s.reg.flag(Flag::Carry)))
        }
    }
}

/// Effect of an opcode in 0x40..=0xBF: moves, HLT and the register ALU forms.
pub open spec fn execute_mid(s: MachineView, op: u8) -> MachineView {
    if op == 0x76 {
        MachineView { running: false, ..s }
    } else if op < 0x80 {
        set_operand(s, operand_at((op as int - 0x40) / 8), get_operand(s, operand_at(op as int % 8)))
    } else {
        alu_op(s, (op as int - 0x80) / 8, get_operand(s, operand_at(op as int % 8)))
    }
}

/// Effect of an opcode at or above 0xC0.
pub open spec fn execute_high(s: MachineView, op: u8) -> Result<MachineView, EmuError> {
    let col = op as int % 8;
    let row = (op as int - 0xC0) / 8;
    if col == 0 {
        ret_when(s, cond_flag(row), row % 2 == 1)
    } else if col == 1 {
        if row % 2 == 0 {
            pop_reg(s, pp_at(row / 2))
        } else if row < 5 {
            ret(s)
        } else if row == 5 {
            Ok(with_pc(s, hl_addr(s)))
        } else {
            Ok(with_sp(s, hl_addr(s)))
        }
    } else if col == 2 {
        jmp_when(s, cond_flag(row), row % 2 == 1)
    } else if col == 3 {
        if row < 2 {
            match read_addr(s) {
                Ok((t, a)) => Ok(with_pc(t, a)),
                Err(e) => Err(e),
            }
        } else if row < 4 {
            match read_byte(s) {
                Ok((t, port)) => if row == 2 {
                    output(t, port)
                } else {
                    input(t, port)
                },
                Err(e) => Err(e),
            }
        } else if row == 4 {
            Ok(xthl(s))
        } else if row == 5 {
            let r = s.reg.spec_set16(Pair::HL, s.reg.spec_get16(Pair::DE));
            Ok(with_reg(s, r.spec_set16(Pair::DE, s.reg.spec_get16(Pair::HL))))
        } else {
            Ok(MachineView { interrupts_enabled: row == 7, ..s })
        }
    } else if col == 4 {
        call_when(s, cond_flag(row), row % 2 == 1)
    } else if col == 5 {
        if row % 2 == 0 {
            match push(s, s.reg.spec_get16(pp_at(row / 2))) {
                Ok(t) => Ok(t),
                Err(e) => Err(e),
            }
        } else {
            call_imm(s)
        }
    } else if col == 6 {
        match read_byte(s) {
            Ok((t, v)) => Ok(alu_op(t, row, v)),
            Err(e) => Err(e),
        }
    } else {
        call(s, (row * 8) as u16)
    }
}

/// Effect of executing `op` on the state after its fetch.
pub open spec fn execute(s: MachineView, op: u8) -> Result<MachineView, EmuError> {
    if op < 0x40 {
        execute_low(s, op)
    } else if op < 0xC0 {
        Ok(execute_mid(s, op))
    } else {
        execute_high(s, op)
    }
}

/// The clock table: cycles an opcode takes, with conditional returns and
/// calls counted as not taken.
pub open spec fn base_cycles(op: u8) -> int {
    let col = op as int % 8;
    let row = op as int / 8;
    if op < 0x40 {
        if col == 0 || col == 7 {
            4
        } else if col == 1 {
            10
        } else if col == 2 {
            if row == 4 || row == 5 {
                16
            } else if row == 6 || row == 7 {
                13
            } else {
                7
            }
        } else if col == 3 {
            5
        } else if col == 4 || col == 5 {
            if row == 6 {
                10
            } else {
                5
            }
        } else {
            if row == 6 {
                10
            } else {
                7
            }
        }
    } else if op < 0x80 {
        if col == 6 || row == 14 {
            7
        } else {
            5
        }
    } else if op < 0xC0 {
        if col == 6 {
            7
        } else {
            4
        }
    } else {
        let r = row - 24;
        if col == 0 {
            5
        } else if col == 1 {
            if r == 5 || r == 7 {
                5
            } else {
                10
            }
        } else if col == 2 {
            10
        } else if col == 3 {
            if r == 4 {
                18
            } else if r >= 5 {
                4
            } else {
                10
            }
        } else if col == 4 {
            11
        } else if col == 5 {
            if r % 2 == 0 {
                11
            } else {
                17
            }
        } else if col == 6 {
            7
        } else {
            11
        }
    }
}

/// Whether `op` is a conditional return or call whose condition holds in `s`.
pub open spec fn branch_taken(s: MachineView, op: u8) -> bool {
    let row = (op as int - 0xC0) / 8;
    op >= 0xC0 && (op as int % 8 == 0 || op as int % 8 == 4) && cond_holds(s, cond_flag(row), row % 2 == 1)
}

/// Cycles `op` takes from state `s`: a taken conditional return or call
/// takes six more than the table gives.
pub open spec fn cycles(s: MachineView, op: u8) -> usize {
    (base_cycles(op) + if branch_taken(s, op) { 6int } else { 0 }) as usize
}

/// Executes `op` from `s` (after its fetch): the next state and the cycles taken.
pub open spec fn step(s: MachineView, op: u8) -> Result<(MachineView, usize), EmuError> {
    match execute(s, op) {
        Ok(t) => Ok((t, cycles(s, op))),
        Err(e) => Err(e),
    }
}

/// Fetches the opcode at pc and executes it.
pub open spec fn execute_next(s: MachineView) -> Result<(MachineView, usize), EmuError> {
    step(fetch(s).0, fetch(s).1)
}

/// Executes `op` in place, without fetching it, if interrupts are enabled;
/// they are disabled on the way in.
pub open spec fn interrupt(s: MachineView, op: u8) -> Result<(MachineView, usize), EmuError> {
    if s.interrupts_enabled {
        step(MachineView { interrupts_enabled: false, ..s }, op)
    } else {
        Err(EmuError::InterruptsDisabled)
    }
}

} // verus!
