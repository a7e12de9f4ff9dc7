use vstd::prelude::*;
use crate::alu::{arith_flags_exec, step_flags_exec};
use crate::emulator::{Emulator, operand_at_exec};
use crate::flags::Flag;
use crate::machine;
use crate::machine::{with_reg, Operand};
use crate::register::{Reg8, Pair};

verus! {

impl Emulator {
    /// Adds `value` to the accumulator, setting all five flags.
    pub fn add_value(&mut self, value: u16)
        requires
            old(self).wf(),
        ensures
            final(self).wf(),
            final(self)@ == machine::add_value(old(self)@, value),
    {
        let a = self.reg.get8(Reg8::A);
        let sum: u32 = a as u32 + value as u32;
        let res = (sum % 256) as u8;
        let aux = (a % 16) as u32 + (value % 16) as u32 > 15;
        let fl = arith_flags_exec(self.reg.get_flags(), res, sum > 255, aux);
        self.reg.set_flags(fl);
        self.reg.set8(Reg8::A, res);
    }

    /// Subtracts `value` from the accumulator by adding its two's complement;
    /// carry reads as borrow.
    pub fn sub_value(&mut self, value: u16)
        requires
            old(self).wf(),
        ensures
            final(self).wf(),
            final(self)@ == machine::sub_value(old(self)@, value),
    {
        let a = self.reg.get8(Reg8::A);
        let complement: u32 = 255 - (value % 256) as u32;
        let sum: u32 = a as u32 + complement + 1;
        let res = (sum % 256) as u8;
        let aux = (a % 16) as u32 + complement % 16 + 1 > 15;
        let fl = arith_flags_exec(self.reg.get_flags(), res, !(sum > 255), aux);
        self.reg.set_flags(fl);
        self.reg.set8(Reg8::A, res);
    }

    /// Subtracts `value` and the borrow from the accumulator; carry is set
    /// exactly when the true difference is negative.
    pub fn sbb_value(&mut self, value: u8, borrow: bool)
        requires
            old(self).wf(),
        ensures
            final(self).wf(),
            final(self)@ == machine::sbb_value(old(self)@, value, borrow),
    {
        let a = self.reg.get8(Reg8::A);
        let b: u32 = if borrow { 1 } else { 0 };
        let sum: u32 = a as u32 + (255 - value as u32) + 1 - b;
        let res = (sum % 256) as u8;
        let aux = (a % 16) as u32 + (15 - (value % 16) as u32) + 1 - b > 15;
        let fl = arith_flags_exec(self.reg.get_flags(), res, !(sum > 255), aux);
        self.reg.set_flags(fl);
        self.reg.set8(Reg8::A, res);
    }

    /// Sets the accumulator to a logical result; carry clear, aux as given.
    fn logic_result(&mut self, res: u8, aux: bool)
        requires
            old(self).wf(),
        ensures
            final(self).wf(),
            final(self)@ == machine::logic_value(old(self)@, res, aux),
    {
        let fl = arith_flags_exec(self.reg.get_flags(), res, false, aux);
        self.reg.set_flags(fl);
        self.reg.set8(Reg8::A, res);
    }

    /// AND with the accumulator; aux carry takes bit 3 of the operands' OR.
    pub fn and_value(&mut self, value: u8)
        requires
            old(self).wf(),
        ensures
            final(self).wf(),
            final(self)@ == machine::alu_op(old(self)@, 4, value),
    {
        let a = self.reg.get8(Reg8::A);
        self.logic_result(a & value, ((a | value) & 0x08) != 0);
    }

    pub fn xor_value(&mut self, value: u8)
        requires
            old(self).wf(),
        ensures
            final(self).wf(),
            final(self)@ == machine::alu_op(old(self)@, 5, value),
    {
        let a = self.reg.get8(Reg8::A);
        self.logic_result(a ^ value, false);
    }

    pub fn or_value(&mut self, value: u8)
        requires
            old(self).wf(),
        ensures
            final(self).wf(),
            final(self)@ == machine::alu_op(old(self)@, 6, value),
    {
        let a = self.reg.get8(Reg8::A);
        self.logic_result(a | value, false);
    }

    /// Sets the flags as a subtraction would and keeps the accumulator.
    pub fn cmp_value(&mut self, value: u8)
        requires
            old(self).wf(),
        ensures
            final(self).wf(),
            final(self)@ == machine::alu_op(old(self)@, 7, value),
    {
        let a = self.reg.get8(Reg8::A);
        self.sub_value(value as u16);
        self.reg.set8(Reg8::A, a);
    }

    fn carry_value(&self) -> (c: u16)
        ensures
            c == machine::carry_in(self@),
    {
        if self.reg.get_flag(Flag::Carry) {
            1
        } else {
            0
        }
    }

    /// Accumulator operation `group` (ADD, ADC, SUB, SBB, ANA, XRA, ORA, CMP) on `value`.
    pub fn alu(&mut self, group: u8, value: u8)
        requires
            old(self).wf(),
            group < 8,
        ensures
            final(self).wf(),
            final(self)@ == machine::alu_op(old(self)@, group as int, value),
    {
        if group == 0 {
            self.add_value(value as u16);
        } else if group == 1 {
            let c = self.carry_value();
            self.add_value(value as u16 + c);
        } else if group == 2 {
            self.sub_value(value as u16);
        } else if group == 3 {
            let borrow = self.reg.get_flag(Flag::Carry);
            self.sbb_value(value, borrow);
        } else if group == 4 {
            self.and_value(value);
        } else if group == 5 {
            self.xor_value(value);
        } else if group == 6 {
            self.or_value(value);
        } else {
            self.cmp_value(value);
        }
    }

    /// ADD (or ADC with `use_carry`) of the operand the opcode's low bits name.
    pub fn add(&mut self, opcode: u8, use_carry: bool)
        requires
            old(self).wf(),
            if use_carry { opcode % 16 >= 8 } else { opcode % 16 < 8 },
        ensures
            final(self).wf(),
            final(self)@ == machine::alu_op(
                old(self)@,
                if use_carry { 1 } else { 0 },
                machine::get_operand(old(self)@, machine::operand_at(opcode as int % 8)),
            ),
    {
        let v = self.operand(operand_at_exec(opcode % 8));
        self.alu(if use_carry { 1 } else { 0 }, v);
    }

    /// SUB (or SBB with `use_carry`) of the operand the opcode's low bits name.
    pub fn sub(&mut self, opcode: u8, use_carry: bool)
        requires
            old(self).wf(),
            if use_carry { opcode % 16 >= 8 } else { opcode % 16 < 8 },
        ensures
            final(self).wf(),
            final(self)@ == machine::alu_op(
                old(self)@,
                if use_carry { 3 } else { 2 },
                machine::get_operand(old(self)@, machine::operand_at(opcode as int % 8)),
            ),
    {
        let v = self.operand(operand_at_exec(opcode % 8));
        self.alu(if use_carry { 3 } else { 2 }, v);
    }

    pub fn and(&mut self, opcode: u8)
        requires
            old(self).wf(),
            opcode % 16 < 8,
        ensures
            final(self).wf(),
            final(self)@ == machine::alu_op(old(self)@, 4, machine::get_operand(old(self)@, machine::operand_at(opcode as int % 8))),
    {
        let v = self.operand(operand_at_exec(opcode % 8));
        self.and_value(v);
    }

    pub fn xor(&mut self, opcode: u8)
        requires
            old(self).wf(),
            opcode >= 8 && (opcode - 8) % 16 < 8,
        ensures
            final(self).wf(),
            final(self)@ == machine::alu_op(old(self)@, 5, machine::get_operand(old(self)@, machine::operand_at(opcode as int % 8))),
    {
        let v = self.operand(operand_at_exec(opcode % 8));
        self.xor_value(v);
    }

    pub fn or(&mut self, opcode: u8)
        requires
            old(self).wf(),
            opcode % 16 < 8,
        ensures
            final(self).wf(),
            final(self)@ == machine::alu_op(old(self)@, 6, machine::get_operand(old(self)@, machine::operand_at(opcode as int % 8))),
    {
        let v = self.operand(operand_at_exec(opcode % 8));
        self.or_value(v);
    }

    pub fn cmp(&mut self, opcode: u8)
        requires
            old(self).wf(),
            opcode >= 8 && (opcode - 8) % 16 < 8,
        ensures
            final(self).wf(),
            final(self)@ == machine::alu_op(old(self)@, 7, machine::get_operand(old(self)@, machine::operand_at(opcode as int % 8))),
    {
        let v = self.operand(operand_at_exec(opcode % 8));
        self.cmp_value(v);
    }

    /// Increments an operand; sign, zero, aux and parity follow, carry is kept.
    pub fn inr(&mut self, o: Operand)
        requires
            old(self).wf(),
        ensures
            final(self).wf(),
            final(self)@ == machine::inr(old(self)@, o),
    {
        let prev = self.operand(o);
        let res = ((prev as u16 + 1) % 256) as u8;
        let fl = step_flags_exec(self.reg.get_flags(), res, prev % 16 + 1 > 15);
        self.reg.set_flags(fl);
        self.set_operand(o, res);
    }

    /// Decrements an operand; sign, zero, aux and parity follow, carry is kept.
    pub fn dcr(&mut self, o: Operand)
        requires
            old(self).wf(),
        ensures
            final(self).wf(),
            final(self)@ == machine::dcr(old(self)@, o),
    {
        let prev = self.operand(o);
        let res = ((prev as u16 + 255) % 256) as u8;
        let fl = step_flags_exec(self.reg.get_flags(), res, prev % 16 + 15 > 15);
        self.reg.set_flags(fl);
        self.set_operand(o, res);
    }

    /// Increments a pair, wrapping; no flags change.
    pub fn inx(&mut self, p: Pair)
        requires
            old(self).wf(),
        ensures
            final(self).wf(),
            final(self)@ == with_reg(old(self)@, old(self).reg.spec_set16(p, machine::wrap16(old(self).reg.spec_get16(p) + 1))),
    {
        let v = self.reg.get16(p);
        self.reg.set16(p, ((v as u32 + 1) % 0x10000) as u16);
    }

    /// Decrements a pair, wrapping; no flags change.
    pub fn dcx(&mut self, p: Pair)
        requires
            old(self).wf(),
        ensures
            final(self).wf(),
            final(self)@ == with_reg(old(self)@, old(self).reg.spec_set16(p, machine::wrap16(old(self).reg.spec_get16(p) + 0xffff))),
    {
        let v = self.reg.get16(p);
        self.reg.set16(p, ((v as u32 + 0xffff) % 0x10000) as u16);
    }

    /// Adds `value` to HL; carry takes the carry out of bit 15.
    pub fn dad(&mut self, value: u16)
        requires
            old(self).wf(),
        ensures
            final(self).wf(),
            final(self)@ == machine::dad(old(self)@, value),
    {
        let sum: u32 = self.reg.get16(Pair::HL) as u32 + value as u32;
        self.reg.set_flag(Flag::Carry, sum > 0xffff);
        self.reg.set16(Pair::HL, (sum % 0x10000) as u16);
    }

    /// Decimal adjustment of the accumulator after a BCD addition.
    pub fn daa(&mut self)
        requires
            old(self).wf(),
        ensures
            final(self).wf(),
            final(self)@ == machine::daa(old(self)@),
    {
        let a = self.reg.get8(Reg8::A);
        let aux = self.reg.get_flag(Flag::Aux);
        let carry = self.reg.get_flag(Flag::Carry);
        let lsb = a % 16;
        let msb = a / 16;
        let mut correction: u16 = 0;
        if lsb > 9 || aux {
            correction = correction + 6;
        }
        let c = msb > 9 || carry || (msb >= 9 && lsb > 9);
        if c {
            correction = correction + 0x60;
        }
        self.add_value(correction);
        self.reg.set_flag(Flag::Carry, c);
    }
}

} // verus!
