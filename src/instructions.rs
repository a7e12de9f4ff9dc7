use vstd::prelude::*;
use crate::emulator::{Emulator, PORT_COUNT, outcome};
use crate::flags::Flag;
use crate::machine;
use crate::machine::{with_pc, with_reg, mem_write, mem_read, EmuError, MachineView};
use crate::register::{Reg8, Pair};

verus! {

impl Emulator {
    /// Rotation `kind` of the accumulator (RLC, RRC, RAL, RAR); only carry changes among the flags.
    pub(crate) fn rotate(&mut self, kind: u8)
        requires
            old(self).wf(),
            kind < 4,
        ensures
            final(self).wf(),
            final(self)@ == machine::rotate(old(self)@, kind as int),
    {
        let a = self.reg.get8(Reg8::A);
        let cin: u8 = if self.reg.get_flag(Flag::Carry) { 1 } else { 0 };
        let carry = if kind == 0 || kind == 2 { a >= 0x80 } else { a % 2 == 1 };
        self.reg.set_flag(Flag::Carry, carry);
        let res: u8 = if kind == 0 {
            (a % 128) * 2 + a / 128
        } else if kind == 1 {
            a / 2 + (a % 2) * 128
        } else if kind == 2 {
            (a % 128) * 2 + cin
        } else {
            a / 2 + cin * 128
        };
        self.reg.set8(Reg8::A, res);
    }

    /// Rotates the accumulator left; bit 7 goes to carry and to bit 0.
    pub fn rlc(&mut self)
        requires
            old(self).wf(),
        ensures
            final(self).wf(),
            final(self)@ == machine::rotate(old(self)@, 0),
    {
        self.rotate(0);
    }

    /// Rotates the accumulator right; bit 0 goes to carry and to bit 7.
    pub fn rrc(&mut self)
        requires
            old(self).wf(),
        ensures
            final(self).wf(),
            final(self)@ == machine::rotate(old(self)@, 1),
    {
        self.rotate(1);
    }

    /// Rotates the accumulator left through carry.
    pub fn ral(&mut self)
        requires
            old(self).wf(),
        ensures
            final(self).wf(),
            final(self)@ == machine::rotate(old(self)@, 2),
    {
        self.rotate(2);
    }

    /// Rotates the accumulator right through carry.
    pub fn rar(&mut self)
        requires
            old(self).wf(),
        ensures
            final(self).wf(),
            final(self)@ == machine::rotate(old(self)@, 3),
    {
        self.rotate(3);
    }

    /// Complements the accumulator.
    pub fn cma(&mut self)
        requires
            old(self).wf(),
        ensures
            final(self).wf(),
            final(self)@ == with_reg(old(self)@, old(self).reg.spec_set8(Reg8::A, !machine::acc(old(self)@))),
    {
        let a = self.reg.get8(Reg8::A);
        self.reg.set8(Reg8::A, !a);
    }

    /// Stores the accumulator at the address a pair holds.
    pub fn stax(&mut self, p: Pair)
        requires
            old(self).wf(),
        ensures
            final(self).wf(),
            final(self)@ == mem_write(old(self)@, old(self).reg.spec_get16(p), machine::acc(old(self)@)),
    {
        let adr = self.reg.get16(p);
        let a = self.reg.get8(Reg8::A);
        self.ram.write(adr, a);
    }

    /// Loads the accumulator from the address a pair holds.
    pub fn ldax(&mut self, p: Pair)
        requires
            old(self).wf(),
        ensures
            final(self).wf(),
            final(self)@ == with_reg(old(self)@, old(self).reg.spec_set8(Reg8::A, mem_read(old(self)@, old(self).reg.spec_get16(p)))),
    {
        let v = self.ram.read(self.reg.get16(p));
        self.reg.set8(Reg8::A, v);
    }

    /// Stores L at `address` and H at the next address.
    pub fn shld(&mut self, address: u16)
        requires
            old(self).wf(),
        ensures
            final(self).wf(),
            final(self)@ == machine::shld(old(self)@, address),
    {
        let l = self.reg.get8(Reg8::L);
        let h = self.reg.get8(Reg8::H);
        self.ram.write(address, l);
        self.ram.write(((address as u32 + 1) % 0x10000) as u16, h);
    }

    /// Loads L from `address` and H from the next address.
    pub fn lhld(&mut self, address: u16)
        requires
            old(self).wf(),
        ensures
            final(self).wf(),
            final(self)@ == machine::lhld(old(self)@, address),
    {
        let l = self.ram.read(address);
        self.reg.set8(Reg8::L, l);
        let h = self.ram.read(((address as u32 + 1) % 0x10000) as u16);
        self.reg.set8(Reg8::H, h);
    }

    pub fn sta(&mut self, address: u16)
        requires
            old(self).wf(),
        ensures
            final(self).wf(),
            final(self)@ == mem_write(old(self)@, address, machine::acc(old(self)@)),
    {
        let a = self.reg.get8(Reg8::A);
        self.ram.write(address, a);
    }

    pub fn lda(&mut self, address: u16)
        requires
            old(self).wf(),
        ensures
            final(self).wf(),
            final(self)@ == with_reg(old(self)@, old(self).reg.spec_set8(Reg8::A, mem_read(old(self)@, address))),
    {
        let v = self.ram.read(address);
        self.reg.set8(Reg8::A, v);
    }

    /// Exchanges HL with the word on top of the stack.
    pub fn xthl(&mut self)
        requires
            old(self).wf(),
        ensures
            final(self).wf(),
            final(self)@ == machine::xthl(old(self)@),
    {
        let l = self.reg.get8(Reg8::L);
        let h = self.reg.get8(Reg8::H);
        let sp = self.sp;
        self.lhld(sp);
        self.ram.write(sp, l);
        self.ram.write(((sp as u32 + 1) % 0x10000) as u16, h);
    }

    /// Moves the next program byte into a register.
    pub fn mvi(&mut self, r: Reg8) -> (res: Result<(), EmuError>)
        requires
            old(self).wf(),
        ensures
            final(self).wf(),
            outcome(res, final(self)@, match machine::read_byte(old(self)@) {
                Ok((t, v)) => Ok(with_reg(t, t.reg.spec_set8(r, v))),
                Err(e) => Err(e),
            }),
    {
        let v = self.read_byte()?;
        self.reg.set8(r, v);
        Ok(())
    }

    /// Moves the next program byte to the address in HL.
    pub fn mvi_adr(&mut self) -> (res: Result<(), EmuError>)
        requires
            old(self).wf(),
        ensures
            final(self).wf(),
            outcome(res, final(self)@, match machine::read_byte(old(self)@) {
                Ok((t, v)) => Ok(mem_write(t, machine::hl_addr(t), v)),
                Err(e) => Err(e),
            }),
    {
        let byte = self.read_byte()?;
        let adr = self.reg.get16(Pair::HL);
        self.ram.write(adr, byte);
        Ok(())
    }

    /// MOV with destination and source taken from the opcode.
    pub fn resolve_mov(&mut self, opcode: u8) -> (res: Result<(), EmuError>)
        requires
            old(self).wf(),
            0x40 <= opcode < 0x80,
            opcode != 0x76,
        ensures
            final(self).wf(),
            res is Ok,
            final(self)@ == machine::execute_mid(old(self)@, opcode),
    {
        let rel = opcode - 0x40;
        let dst = crate::emulator::operand_at_exec(rel / 8);
        let src = crate::emulator::operand_at_exec(opcode % 8);
        let v = self.operand(src);
        self.set_operand(dst, v);
        Ok(())
    }

    pub fn mov(&mut self, dst: Reg8, src: Reg8) -> (res: Result<(), EmuError>)
        requires
            old(self).wf(),
        ensures
            final(self).wf(),
            res is Ok,
            final(self)@ == with_reg(old(self)@, old(self).reg.spec_set8(dst, old(self).reg.spec_get8(src))),
    {
        let v = self.reg.get8(src);
        self.reg.set8(dst, v);
        Ok(())
    }

    /// Loads the next two program bytes into a pair.
    pub fn lxi(&mut self, p: Pair) -> (res: Result<(), EmuError>)
        requires
            old(self).wf(),
        ensures
            final(self).wf(),
            outcome(res, final(self)@, match machine::read_addr(old(self)@) {
                Ok((t, v)) => Ok(with_reg(t, t.reg.spec_set16(p, v))),
                Err(e) => Err(e),
            }),
    {
        let v = self.read_addr()?;
        self.reg.set16(p, v);
        Ok(())
    }

    pub(crate) fn jmp_when(&mut self, flag: Flag, want: bool) -> (res: Result<(), EmuError>)
        requires
            old(self).wf(),
        ensures
            final(self).wf(),
            outcome(res, final(self)@, machine::jmp_when(old(self)@, flag, want)),
    {
        if self.reg.get_flag(flag) == want {
            self.pc = self.read_addr()?;
        } else {
            self.pc = ((self.pc as u32 + 2) % 0x10000) as u16;
        }
        Ok(())
    }

    /// Jumps to the address operand if `flag` is clear, else skips it.
    pub fn jmp_not(&mut self, flag: Flag) -> (res: Result<(), EmuError>)
        requires
            old(self).wf(),
        ensures
            final(self).wf(),
            outcome(res, final(self)@, machine::jmp_when(old(self)@, flag, false)),
    {
        self.jmp_when(flag, false)
    }

    /// Jumps to the address operand if `flag` is set, else skips it.
    pub fn jmp_if(&mut self, flag: Flag) -> (res: Result<(), EmuError>)
        requires
            old(self).wf(),
        ensures
            final(self).wf(),
            outcome(res, final(self)@, machine::jmp_when(old(self)@, flag, true)),
    {
        self.jmp_when(flag, true)
    }

    /// Pushes pc and jumps to `adr`.
    pub fn call(&mut self, adr: u16) -> (res: Result<(), EmuError>)
        requires
            old(self).wf(),
        ensures
            final(self).wf(),
            outcome(res, final(self)@, machine::call(old(self)@, adr)),
    {
        let pc = self.pc;
        self.push(pc)?;
        self.pc = adr;
        Ok(())
    }

    /// Reads the address operand, pushes the address after it and jumps.
    pub fn call_imm(&mut self) -> (res: Result<(), EmuError>)
        requires
            old(self).wf(),
        ensures
            final(self).wf(),
            outcome(res, final(self)@, machine::call_imm(old(self)@)),
    {
        let adr = self.read_addr()?;
        self.call(adr)
    }

    pub(crate) fn call_when(&mut self, flag: Flag, want: bool) -> (res: Result<(), EmuError>)
        requires
            old(self).wf(),
        ensures
            final(self).wf(),
            outcome(res, final(self)@, machine::call_when(old(self)@, flag, want)),
    {
        if self.reg.get_flag(flag) == want {
            self.call_imm()
        } else {
            self.pc = ((self.pc as u32 + 2) % 0x10000) as u16;
            Ok(())
        }
    }

    pub fn call_not(&mut self, flag: Flag) -> (res: Result<(), EmuError>)
        requires
            old(self).wf(),
        ensures
            final(self).wf(),
            outcome(res, final(self)@, machine::call_when(old(self)@, flag, false)),
    {
        self.call_when(flag, false)
    }

    pub fn call_if(&mut self, flag: Flag) -> (res: Result<(), EmuError>)
        requires
            old(self).wf(),
        ensures
            final(self).wf(),
            outcome(res, final(self)@, machine::call_when(old(self)@, flag, true)),
    {
        self.call_when(flag, true)
    }

    /// Pops the return address into pc.
    pub fn ret(&mut self) -> (res: Result<(), EmuError>)
        requires
            old(self).wf(),
        ensures
            final(self).wf(),
            outcome(res, final(self)@, machine::ret(old(self)@)),
    {
        self.pc = self.pop()?;
        Ok(())
    }

    pub(crate) fn ret_when(&mut self, flag: Flag, want: bool) -> (res: Result<(), EmuError>)
        requires
            old(self).wf(),
        ensures
            final(self).wf(),
            outcome(res, final(self)@, machine::ret_when(old(self)@, flag, want)),
    {
        if self.reg.get_flag(flag) == want {
            self.ret()
        } else {
            Ok(())
        }
    }

    pub fn ret_if(&mut self, flag: Flag) -> (res: Result<(), EmuError>)
        requires
            old(self).wf(),
        ensures
            final(self).wf(),
            outcome(res, final(self)@, machine::ret_when(old(self)@, flag, true)),
    {
        self.ret_when(flag, true)
    }

    pub fn ret_not(&mut self, flag: Flag) -> (res: Result<(), EmuError>)
        requires
            old(self).wf(),
        ensures
            final(self).wf(),
            outcome(res, final(self)@, machine::ret_when(old(self)@, flag, false)),
    {
        self.ret_when(flag, false)
    }

    /// Loads the accumulator from the input device at `port`.
    pub fn input(&mut self, port: u8) -> (res: Result<(), EmuError>)
        requires
            old(self).wf(),
        ensures
            final(self).wf(),
            outcome(res, final(self)@, machine::input(old(self)@, port)),
            res is Err ==> final(self)@ == old(self)@,
    {
        match self.input_devices[port as usize] {
            Some(v) => {
                self.reg.set8(Reg8::A, v);
                Ok(())
            },
            None => Err(EmuError::NoDevice),
        }
    }

    /// Hands the accumulator to the output device at `port`.
    pub fn output(&mut self, port: u8) -> (res: Result<(), EmuError>)
        requires
            old(self).wf(),
        ensures
            final(self).wf(),
            outcome(res, final(self)@, machine::output(old(self)@, port)),
            res is Err ==> final(self)@ == old(self)@,
    {
        if self.output_devices[port as usize] {
            let a = self.reg.get8(Reg8::A);
            self.written.push((port, a));
            Ok(())
        } else {
            Err(EmuError::NoDevice)
        }
    }

    /// Installs an input device at `port`, presenting `value` to IN.
    pub fn register_input_device(&mut self, value: u8, port: usize) -> (res: Result<(), EmuError>)
        requires
            old(self).wf(),
            port < PORT_COUNT,
        ensures
            final(self).wf(),
            res is Ok,
            final(self)@ == (MachineView { inputs: old(self)@.inputs.update(port as int, Some(value)), ..old(self)@ }),
    {
        self.input_devices.set(port, Some(value));
        Ok(())
    }

    /// Installs an output device at `port`.
    pub fn register_output_device(&mut self, port: usize) -> (res: Result<(), EmuError>)
        requires
            old(self).wf(),
            port < PORT_COUNT,
        ensures
            final(self).wf(),
            res is Ok,
            final(self)@ == (MachineView { outputs: old(self)@.outputs.update(port as int, true), ..old(self)@ }),
    {
        self.output_devices.set(port, true);
        Ok(())
    }

    /// Takes the bytes written by OUT so far, oldest first.
    pub fn take_written(&mut self) -> (w: Vec<(u8, u8)>)
        requires
            old(self).wf(),
        ensures
            final(self).wf(),
            w@ == old(self)@.written,
            final(self)@ == (MachineView { written: Seq::empty(), ..old(self)@ }),
    {
        let mut w: Vec<(u8, u8)> = Vec::new();
        std::mem::swap(&mut w, &mut self.written);
        w
    }
}

} // verus!
