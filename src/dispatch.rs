use vstd::prelude::*;
use crate::emulator::{Emulator, operand_at_exec, outcome};
use crate::flags::Flag;
use crate::machine;
use crate::machine::{EmuError, MachineView, Operand};
use crate::register::{Reg8, Pair};

verus! {

/// Result of an instruction against its spec: the cycles and the new state.
pub open spec fn stepped(r: Result<usize, EmuError>, s: MachineView, spec: Result<(MachineView, usize), EmuError>) -> bool {
    match spec {
        Ok((t, c)) => r == Ok::<usize, EmuError>(c) && s == t,
        Err(e) => r == Err::<usize, EmuError>(e),
    }
}

fn rp_at_exec(k: u8) -> (p: Pair)
    ensures
        p == machine::rp_at(k as int),
{
    if k == 0 {
        Pair::BC
    } else if k == 1 {
        Pair::DE
    } else {
        Pair::HL
    }
}

fn pp_at_exec(k: u8) -> (p: Pair)
    ensures
        p == machine::pp_at(k as int),
{
    if k == 0 {
        Pair::BC
    } else if k == 1 {
        Pair::DE
    } else if k == 2 {
        Pair::HL
    } else {
        Pair::PSW
    }
}

fn cond_flag_exec(k: u8) -> (f: Flag)
    ensures
        f == machine::cond_flag(k as int),
{
    if k / 2 == 0 {
        Flag::Zero
    } else if k / 2 == 1 {
        Flag::Carry
    } else if k / 2 == 2 {
        Flag::Parity
    } else {
        Flag::Sign
    }
}

/// The clock table.
pub fn base_cycles_exec(op: u8) -> (c: u8)
    ensures
        c as int == machine::base_cycles(op),
{
    let col = op % 8;
    let row = op / 8;
    if op < 0x40 {
        if col == 0 || col == 7 {
            4
        } else if col == 1 {
            10
        } else if col == 2 {
            if row == 4 || row == 5 {
                16
            } else if row == 6 || row == 7 {
                13
            } else {
                7
            }
        } else if col == 3 {
            5
        } else if col == 4 || col == 5 {
            if row == 6 {
                10
            } else {
                5
            }
        } else {
            if row == 6 {
                10
            } else {
                7
            }
        }
    } else if op < 0x80 {
        if col == 6 || row == 14 {
            7
        } else {
            5
        }
    } else if op < 0xC0 {
        if col == 6 {
            7
        } else {
            4
        }
    } else {
        let r = row - 24;
        if col == 0 {
            5
        } else if col == 1 {
            if r == 5 || r == 7 {
                5
            } else {
                10
            }
        } else if col == 2 {
            10
        } else if col == 3 {
            if r == 4 {
                18
            } else if r >= 5 {
                4
            } else {
                10
            }
        } else if col == 4 {
            11
        } else if col == 5 {
            if r % 2 == 0 {
                11
            } else {
                17
            }
        } else if col == 6 {
            7
        } else {
            11
        }
    }
}

impl Emulator {
    fn get_rp(&self, k: u8) -> (v: u16)
        requires
            k < 4,
        ensures
            v == machine::get_rp(self@, k as int),
    {
        if k == 3 {
            self.sp
        } else {
            self.reg.get16(rp_at_exec(k))
        }
    }

    fn set_rp(&mut self, k: u8, v: u16)
        requires
            old(self).wf(),
            k < 4,
        ensures
            final(self).wf(),
            final(self)@ == machine::set_rp(old(self)@, k as int, v),
    {
        if k == 3 {
            self.sp = v;
        } else {
            self.reg.set16(rp_at_exec(k), v);
        }
    }

    fn execute_low(&mut self, op: u8) -> (r: Result<(), EmuError>)
        requires
            old(self).wf(),
            op < 0x40,
        ensures
            final(self).wf(),
            outcome(r, final(self)@, machine::execute_low(old(self)@, op)),
    {
        let col = op % 8;
        let row = op / 8;
        if col == 0 {
            Ok(())
        } else if col == 1 {
            if row % 2 == 0 {
                let v = self.read_addr()?;
                self.set_rp(row / 2, v);
            } else {
                let v = self.get_rp(row / 2);
                self.dad(v);
            }
            Ok(())
        } else if col == 2 {
            if row < 4 {
                let p = rp_at_exec(row / 2);
                if row % 2 == 0 {
                    self.stax(p);
                } else {
                    self.ldax(p);
                }
            } else {
                let adr = self.read_addr()?;
                if row == 4 {
                    self.shld(adr);
                } else if row == 5 {
                    self.lhld(adr);
                } else if row == 6 {
                    self.sta(adr);
                } else {
                    self.lda(adr);
                }
            }
            Ok(())
        } else if col == 3 {
            let v = self.get_rp(row / 2);
            let nv = if row % 2 == 0 {
                ((v as u32 + 1) % 0x10000) as u16
            } else {
                ((v as u32 + 0xffff) % 0x10000) as u16
            };
            self.set_rp(row / 2, nv);
            Ok(())
        } else if col == 4 {
            self.inr(operand_at_exec(row));
            Ok(())
        } else if col == 5 {
            self.dcr(operand_at_exec(row));
            Ok(())
        } else if col == 6 {
            let o = operand_at_exec(row);
            if o == Operand::M {
                self.mvi_adr()
            } else {
                self.mvi(crate::emulator::operand_reg_exec(o))
            }
        } else {
            if row < 4 {
                self.rotate(row);
            } else if row == 4 {
                self.daa();
            } else if row == 5 {
                self.cma();
            } else if row == 6 {
                self.reg.set_flag(Flag::Carry, true);
            } else {
                let c = self.reg.get_flag(Flag::Carry);
                self.reg.set_flag(Flag::Carry, !c);
            }
            Ok(())
        }
    }

    fn execute_mid(&mut self, op: u8)
        requires
            old(self).wf(),
            0x40 <= op < 0xC0,
        ensures
            final(self).wf(),
            final(self)@ == machine::execute_mid(old(self)@, op),
    {
        if op == 0x76 {
            self.running = false;
        } else if op < 0x80 {
            let _ = self.resolve_mov(op);
        } else {
            let v = self.operand(operand_at_exec(op % 8));
            self.alu((op - 0x80) / 8, v);
        }
    }

    fn execute_high(&mut self, op: u8) -> (r: Result<(), EmuError>)
        requires
            old(self).wf(),
            op >= 0xC0,
        ensures
            final(self).wf(),
            outcome(r, final(self)@, machine::execute_high(old(self)@, op)),
    {
        let col = op % 8;
        let row = (op - 0xC0) / 8;
        if col == 0 {
            self.ret_when(cond_flag_exec(row), row % 2 == 1)
        } else if col == 1 {
            if row % 2 == 0 {
                self.pop_reg(pp_at_exec(row / 2))
            } else if row < 5 {
                self.ret()
            } else if row == 5 {
                self.pc = self.reg.get16(Pair::HL);
                Ok(())
            } else {
                self.sp = self.reg.get16(Pair::HL);
                Ok(())
            }
        } else if col == 2 {
            self.jmp_when(cond_flag_exec(row), row % 2 == 1)
        } else if col == 3 {
            if row < 2 {
                self.pc = self.read_addr()?;
                Ok(())
            } else if row < 4 {
                let port = self.read_byte()?;
                if row == 2 {
                    self.output(port)
                } else {
                    self.input(port)
                }
            } else if row == 4 {
                self.xthl();
                Ok(())
            } else if row == 5 {
                let hl = self.reg.get16(Pair::HL);
                let de = self.reg.get16(Pair::DE);
                self.reg.set16(Pair::HL, de);
                self.reg.set16(Pair::DE, hl);
                Ok(())
            } else {
                self.interrupts_enabled = row == 7;
                Ok(())
            }
        } else if col == 4 {
            self.call_when(cond_flag_exec(row), row % 2 == 1)
        } else if col == 5 {
            if row % 2 == 0 {
                self.push_reg(pp_at_exec(row / 2))
            } else {
                self.call_imm()
            }
        } else if col == 6 {
            let v = self.read_byte()?;
            self.alu(row, v);
            Ok(())
        } else {
            self.call((row * 8) as u16)
        }
    }

    /// Executes `opcode` as if just fetched and returns the cycles it took.
    pub fn execute_instruction(&mut self, opcode: u8) -> (r: Result<usize, EmuError>)
        requires
            old(self).wf(),
        ensures
            final(self).wf(),
            stepped(r, final(self)@, machine::step(old(self)@, opcode)),
    {
        let row = if opcode >= 0xC0 { (opcode - 0xC0) / 8 } else { 0 };
        let taken = opcode >= 0xC0 && (opcode % 8 == 0 || opcode % 8 == 4)
            && self.reg.get_flag(cond_flag_exec(row)) == (row % 2 == 1);
        let c: usize = base_cycles_exec(opcode) as usize + if taken { 6 } else { 0 };
        if opcode < 0x40 {
            self.execute_low(opcode)?;
        } else if opcode < 0xC0 {
            self.execute_mid(opcode);
        } else {
            self.execute_high(opcode)?;
        }
        Ok(c)
    }

    /// Fetches the opcode at pc, steps past it, executes it and returns the
    /// cycles it took.
    pub fn execute_next(&mut self) -> (r: Result<usize, EmuError>)
        requires
            old(self).wf(),
        ensures
            final(self).wf(),
            stepped(r, final(self)@, machine::execute_next(old(self)@)),
    {
        let opcode = self.ram.read(self.pc);
        self.pc = ((self.pc as u32 + 1) % 0x10000) as u16;
        self.execute_instruction(opcode)
    }

    /// Executes `opcode` in place (typically an RST) if interrupts are enabled,
    /// disabling them.
    pub fn interrupt(&mut self, opcode: u8) -> (r: Result<usize, EmuError>)
        requires
            old(self).wf(),
        ensures
            final(self).wf(),
            stepped(r, final(self)@, machine::interrupt(old(self)@, opcode)),
            !old(self).interrupts_enabled ==> r == Err::<usize, EmuError>(EmuError::InterruptsDisabled)
                && *final(self) == *old(self),
    {
        if self.interrupts_enabled {
            self.interrupts_enabled = false;
            return self.execute_instruction(opcode);
        }
        Err(EmuError::InterruptsDisabled)
    }
}

} // verus!
