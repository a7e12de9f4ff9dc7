use vstd::prelude::*;
use crate::alu::{add_aux, decimal, is_bcd, lemma_bcd_add_adjust, add_sum, daa_correction, daa_high_fix, lemma_arith_carry, lemma_daa_bcd, arith_flags};
use crate::flags::Flag;
use crate::machine::{wrap16, sbb_value, acc, add_value, call_imm, daa, execute, execute_high, execute_next, fetch, mem_read, ret, MachineView};
use crate::register::{flags_with, lemma_flags_with};
use crate::ram::RAM_SIZE;

verus! {

/// PUSH PSW followed by POP PSW gives back the accumulator, the stack pointer
/// and pc, and leaves the flags byte as `(before & 0xD5) | 0x02`.
pub proof fn lemma_psw_round_trip(s: MachineView)
    requires
        s.mem.len() == RAM_SIZE,
        2 <= s.sp <= RAM_SIZE,
    ensures
        match execute(s, 0xF5) {
            Ok(t) => match execute(t, 0xF1) {
                Ok(u) => {
                    &&& u.reg.flags_byte() == (s.reg.flags_byte() & 0xD5) | 0x02
                    &&& acc(u) == acc(s)
                    &&& u.sp == s.sp
                    &&& u.pc == s.pc
                },
                Err(_) => false,
            },
            Err(_) => false,
        },
{
    let v = s.psw_word();
    let hi = (v / 256) as u8;
    let lo = (v % 256) as u8;
    assert(hi as int * 256 + lo as int == v);
    let f = (lo & 0xD5) | 0x02;
    assert(((hi as int * 256 + f as int) % 256) == f as int);
    assert(((hi as int * 256 + f as int) / 256) == hi as int);
}

/// CALL followed, with the return address still on the stack, by RET
/// restores the stack pointer and resumes three bytes after the CALL
/// (modulo the address space), wherever the CALL's operand can be fetched.
pub proof fn lemma_call_ret(s: MachineView, t: MachineView)
    requires
        s.mem.len() == RAM_SIZE,
        t.mem.len() == RAM_SIZE,
        2 <= s.sp <= RAM_SIZE,
        wrap16(s.pc + 1) as int + 2 <= RAM_SIZE,
        mem_read(s, s.pc) == 0xCD,
        t.sp == s.sp - 2,
        mem_read(t, t.sp) == wrap16(s.pc + 3) % 256,
        mem_read(t, (t.sp + 1) as u16) == wrap16(s.pc + 3) / 256,
    ensures
        match execute_next(s) {
            Ok((u, _)) => {
                &&& u.sp == t.sp
                &&& mem_read(u, u.sp) == mem_read(t, t.sp)
                &&& mem_read(u, (u.sp + 1) as u16) == mem_read(t, (t.sp + 1) as u16)
            },
            Err(_) => false,
        },
        match execute(t, 0xC9) {
            Ok(u) => u.sp == s.sp && u.pc == wrap16(s.pc + 3),
            Err(_) => false,
        },
{
    let s0 = fetch(s).0;
    assert(fetch(s).1 == 0xCD);
    assert(s0.pc == wrap16(s.pc + 1));
    assert(s0.pc + 2 == wrap16(s.pc + 3));
    assert(execute_high(s0, 0xCD) == call_imm(s0));
    assert(execute(s0, 0xCD) == call_imm(s0));
    assert(execute_high(t, 0xC9) == ret(t));
    assert(execute(t, 0xC9) == ret(t));
    let ra = wrap16(s.pc + 3);
    assert(ra as int == (ra / 256) as u8 as int * 256 + (ra % 256) as u8 as int);
}

/// DAA with aux carry and carry clear turns the accumulator, read as two
/// decimal digits that may each run up to fifteen, into two valid decimal
/// digits, with the carry flag standing for one hundred.
pub proof fn lemma_daa_decimal(s: MachineView)
    requires
        !s.reg.flag(Flag::Aux),
        !s.reg.flag(Flag::Carry),
    ensures
        ({
            let t = daa(s);
            let r = acc(t);
            &&& r % 16 <= 9
            &&& r / 16 <= 9
            &&& (if t.reg.flag(Flag::Carry) { 100int } else { 0 }) + 10 * (r / 16) as int + (r % 16) as int
                == 10 * (acc(s) / 16) as int + (acc(s) % 16) as int
        }),
{
    let a = acc(s);
    lemma_daa_bcd(a);
    let u = add_value(s, daa_correction(a, false, false));
    let c = daa_high_fix(a, false);
    let sum = add_sum(a, daa_correction(a, false, false));
    assert(acc(u) == (sum % 256) as u8);
    let b = flags_with(u.reg.flags_byte(), Flag::Carry, c);
    lemma_flags_with(u.reg.flags_byte(), Flag::Carry, c);
    let t = daa(s);
    assert(t.reg == u.reg.spec_with_flags(b));
    assert(acc(t) == acc(u));
    assert(t.reg.flags_byte() == b | 0x02);
    crate::register::lemma_bit_one(b);
}

/// Subtraction with borrow leaves `a - v - borrow` modulo 256 in the
/// accumulator and sets carry exactly when that difference is negative.
pub proof fn lemma_sbb_borrow(s: MachineView, v: u8, borrow: bool)
    ensures
        ({
            let t = sbb_value(s, v, borrow);
            let b: int = if borrow { 1 } else { 0 };
            &&& acc(t) as int == (acc(s) as int - v as int - b) % 256
            &&& t.reg.flag(Flag::Carry) == (v as int + b > acc(s) as int)
        }),
{
    let a = acc(s);
    let b: int = if borrow { 1 } else { 0 };
    let sum = a as int + (255 - v as int) + 1 - b;
    let res = (sum % 256) as u8;
    let aux = (a as int % 16) + (15 - v as int % 16) + 1 - b > 15;
    let fl = arith_flags(s.reg.flags_byte(), res, !(sum > 255), aux);
    lemma_arith_carry(s.reg.flags_byte(), res, !(sum > 255), aux);
    let t = sbb_value(s, v, borrow);
    assert(t.reg == s.reg.spec_with_flags(fl).spec_set8(crate::register::Reg8::A, res));
    assert(t.reg.flags_byte() == fl | 0x02);
    crate::register::lemma_bit_one(fl);
    assert(sum % 256 == (a as int - v as int - b) % 256) by {
        vstd::arithmetic::div_mod::lemma_mod_add_multiples_vanish(a as int - v as int - b, 256);
    }
}

proof fn lemma_add_shape(s: MachineView, v: u16)
    ensures
        acc(add_value(s, v)) == (add_sum(acc(s), v) % 256) as u8,
        add_value(s, v).reg.flag(Flag::Carry) == (add_sum(acc(s), v) > 255),
        add_value(s, v).reg.flag(Flag::Aux) == add_aux(acc(s), v),
{
    let sum = add_sum(acc(s), v);
    let res = (sum % 256) as u8;
    let aux = add_aux(acc(s), v);
    let fl = arith_flags(s.reg.flags_byte(), res, sum > 255, aux);
    lemma_arith_carry(s.reg.flags_byte(), res, sum > 255, aux);
    crate::register::lemma_bit_one(fl);
    let u = add_value(s, v);
    assert(u.reg == s.reg.spec_with_flags(fl).spec_set8(crate::register::Reg8::A, res));
    assert(u.reg.flags_byte() == fl | 0x02);
}

proof fn lemma_daa_shape(u: MachineView)
    ensures
        ({
            let a = acc(u);
            let corr = daa_correction(a, u.reg.flag(Flag::Aux), u.reg.flag(Flag::Carry));
            &&& acc(daa(u)) == ((a as int + corr as int) % 256) as u8
            &&& daa(u).reg.flag(Flag::Carry) == daa_high_fix(a, u.reg.flag(Flag::Carry))
        }),
{
    let a = acc(u);
    let corr = daa_correction(a, u.reg.flag(Flag::Aux), u.reg.flag(Flag::Carry));
    let c = daa_high_fix(a, u.reg.flag(Flag::Carry));
    lemma_add_shape(u, corr);
    let w = add_value(u, corr);
    let b = flags_with(w.reg.flags_byte(), Flag::Carry, c);
    lemma_flags_with(w.reg.flags_byte(), Flag::Carry, c);
    crate::register::lemma_bit_one(b);
    let t = daa(u);
    assert(t.reg == w.reg.spec_with_flags(b));
    assert(t.reg.flags_byte() == b | 0x02);
}

/// ADD of two packed decimal bytes followed by DAA leaves their decimal sum
/// modulo one hundred in the accumulator as two valid digits, with carry
/// set exactly when the sum reaches one hundred.
pub proof fn lemma_daa_after_add(s: MachineView, q: u8)
    requires
        is_bcd(acc(s)),
        is_bcd(q),
    ensures
        ({
            let t = daa(add_value(s, q as u16));
            let total = decimal(acc(s)) + decimal(q);
            &&& is_bcd(acc(t))
            &&& decimal(acc(t)) == total % 100
            &&& t.reg.flag(Flag::Carry) == (total >= 100)
        }),
{
    lemma_bcd_add_adjust(acc(s), q);
    lemma_add_shape(s, q as u16);
    lemma_daa_shape(add_value(s, q as u16));
}

} // verus!
