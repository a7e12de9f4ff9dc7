use vstd::prelude::*;
use crate::alu::{arith_flags_exec, parity, step_flags_exec, with_flag};
use crate::flags::Flag;
use crate::machine;
use crate::machine::{EmuError, MachineView, Operand};
use crate::ram::{DefaultRam, RAM_SIZE};
use crate::register::{RegisterArray, Reg8, Pair};

verus! {

/// Number of I/O ports of each direction.
pub const PORT_COUNT: usize = 256;

/// Outcome of an operation that only changes state, against its spec.
pub open spec fn outcome(r: Result<(), EmuError>, s: MachineView, spec: Result<MachineView, EmuError>) -> bool {
    match spec {
        Ok(t) => r is Ok && s == t,
        Err(e) => r == Err::<(), EmuError>(e),
    }
}

/// Origin `k` lies within the program and not before the one ahead of it.
pub open spec fn origin_ok(bytes: Seq<u8>, origins: Seq<(u16, u16)>, k: int) -> bool {
    (origins[k].0 as int) <= bytes.len() && (k == 0 || origins[k - 1].0 <= origins[k].0)
}

/// Whether origin offsets are ascending and within the program.
pub open spec fn origins_ordered(bytes: Seq<u8>, origins: Seq<(u16, u16)>) -> bool {
    forall|k: int| 0 <= k < origins.len() ==> #[trigger] origin_ok(bytes, origins, k)
}

/// End of block `i`: the next origin's offset, or the end of the program.
pub open spec fn block_end(bytes: Seq<u8>, origins: Seq<(u16, u16)>, i: int) -> int {
    if i < origins.len() {
        origins[i].0 as int
    } else {
        bytes.len() as int
    }
}

/// Memory after loading blocks `i` on, block `i` starting at offset `last` and going to `addr`.
pub open spec fn load_blocks(mem: Seq<u8>, bytes: Seq<u8>, origins: Seq<(u16, u16)>, i: int, last: int, addr: u16) -> Seq<u8>
    decreases origins.len() + 1 - i,
{
    if i < 0 || i > origins.len() {
        mem
    } else {
        let m2 = crate::ram::spec_load(mem, bytes.subrange(last, block_end(bytes, origins, i)), addr as int);
        if i < origins.len() {
            load_blocks(m2, bytes, origins, i + 1, origins[i].0 as int, origins[i].1)
        } else {
            m2
        }
    }
}

/// The emulator: processor state, memory and I/O ports.
pub struct Emulator {
    pub pc: u16,
    pub sp: u16,
    pub ram: DefaultRam,
    pub reg: RegisterArray,
    pub running: bool,
    pub interrupts_enabled: bool,
    /// For each port: the byte its input device presents, if it has one.
    pub input_devices: Vec<Option<u8>>,
    /// For each port: whether it has an output device.
    pub output_devices: Vec<bool>,
    /// (port, byte) of every OUT so far, oldest first, for the host to deliver.
    pub written: Vec<(u8, u8)>,
}

impl View for Emulator {
    type V = MachineView;

    open spec fn view(&self) -> MachineView {
        MachineView {
            pc: self.pc,
            sp: self.sp,
            mem: self.ram@,
            reg: self.reg,
            running: self.running,
            interrupts_enabled: self.interrupts_enabled,
            inputs: self.input_devices@,
            outputs: self.output_devices@,
            written: self.written@,
        }
    }
}

pub fn operand_at_exec(i: u8) -> (o: Operand)
    ensures
        o == machine::operand_at(i as int),
{
    if i == 0 {
        Operand::B
    } else if i == 1 {
        Operand::C
    } else if i == 2 {
        Operand::D
    } else if i == 3 {
        Operand::E
    } else if i == 4 {
        Operand::H
    } else if i == 5 {
        Operand::L
    } else if i == 6 {
        Operand::M
    } else {
        Operand::A
    }
}

pub fn operand_reg_exec(o: Operand) -> (r: Reg8)
    ensures
        r == machine::operand_reg(o),
{
    match o {
        Operand::B => Reg8::B,
        Operand::C => Reg8::C,
        Operand::D => Reg8::D,
        Operand::E => Reg8::E,
        Operand::H => Reg8::H,
        Operand::L => Reg8::L,
        Operand::M => Reg8::A,
        Operand::A => Reg8::A,
    }
}

impl Emulator {
    pub open spec fn wf(&self) -> bool {
        &&& self.ram.wf()
        &&& self.input_devices@.len() == PORT_COUNT
        &&& self.output_devices@.len() == PORT_COUNT
    }

    /// A fresh machine: zeroed memory and registers, running, interrupts on,
    /// no devices.
    pub fn new() -> (e: Emulator)
        ensures
            e.wf(),
            e.pc == 0 && e.sp == 0,
            e.running && e.interrupts_enabled,
            e.reg == RegisterArray::new_spec(),
            e@.mem == Seq::new(RAM_SIZE as nat, |i: int| 0u8),
            e@.inputs == Seq::new(PORT_COUNT as nat, |p: int| None::<u8>),
            e@.outputs == Seq::new(PORT_COUNT as nat, |p: int| false),
            e@.written.len() == 0,
    {
        Emulator {
            pc: 0,
            sp: 0,
            ram: DefaultRam::new(),
            reg: RegisterArray::new(),
            running: true,
            interrupts_enabled: true,
            input_devices: vec![None; PORT_COUNT],
            output_devices: vec![false; PORT_COUNT],
            written: Vec::new(),
        }
    }

    pub fn read_byte(&mut self) -> (r: Result<u8, EmuError>)
        requires
            old(self).wf(),
        ensures
            final(self).wf(),
            match machine::read_byte(old(self)@) {
                Ok((t, v)) => r == Ok::<u8, EmuError>(v) && final(self)@ == t,
                Err(e) => r == Err::<u8, EmuError>(e) && final(self)@ == old(self)@,
            },
    {
        if self.pc as usize + 1 > self.ram.size() {
            return Err(EmuError::OutOfRange);
        }
        let v = self.ram.read(self.pc);
        self.pc = self.pc + 1;
        Ok(v)
    }

    pub fn read_addr(&mut self) -> (r: Result<u16, EmuError>)
        requires
            old(self).wf(),
        ensures
            final(self).wf(),
            match machine::read_addr(old(self)@) {
                Ok((t, v)) => r == Ok::<u16, EmuError>(v) && final(self)@ == t,
                Err(e) => r == Err::<u16, EmuError>(e) && final(self)@ == old(self)@,
            },
    {
        if self.pc as usize + 2 > self.ram.size() {
            return Err(EmuError::OutOfRange);
        }
        let low = self.ram.read(self.pc) as u16;
        let high = self.ram.read(self.pc + 1) as u16;
        self.pc = self.pc + 2;
        Ok(high * 256 + low)
    }

    /// Copies `data` into memory from `start` on.
    pub fn load_ram(&mut self, data: Vec<u8>, start: u16)
        requires
            old(self).wf(),
        ensures
            final(self).wf(),
            final(self)@ == (MachineView { mem: crate::ram::spec_load(old(self)@.mem, data@, start as int), ..old(self)@ }),
    {
        self.ram.load_vec(data, start);
    }

    fn load_block(&mut self, bytes: &Vec<u8>, from: usize, to: usize, addr: u16)
        requires
            old(self).wf(),
            from <= to <= bytes@.len(),
        ensures
            final(self).wf(),
            *final(self) == (Emulator { ram: final(self).ram, ..*old(self) }),
            final(self).ram@ == crate::ram::spec_load(old(self).ram@, bytes@.subrange(from as int, to as int), addr as int),
    {
        let mut block: Vec<u8> = Vec::new();
        let mut j: usize = from;
        while j < to
            invariant
                from <= j <= to <= bytes@.len(),
                block@ == bytes@.subrange(from as int, j as int),
            decreases to - j,
        {
            block.push(bytes[j]);
            j = j + 1;
            assert(block@ =~= bytes@.subrange(from as int, j as int));
        }
        self.ram.load_vec(block, addr);
    }

    /// Loads assembled bytes: each block between origins goes to the address
    /// its origin names; bytes before the first origin go to address 0.
    pub fn load_program(&mut self, bytes: Vec<u8>, origins: Vec<(u16, u16)>) -> (r: Result<(), &'static str>)
        requires
            old(self).wf(),
        ensures
            final(self).wf(),
            r is Ok <==> origins_ordered(bytes@, origins@),
            r is Ok ==> final(self)@ == (MachineView { mem: load_blocks(old(self)@.mem, bytes@, origins@, 0, 0, 0), ..old(self)@ }),
            r is Err ==> *final(self) == *old(self),
    {
        let mut k: usize = 0;
        while k < origins.len()
            invariant
                k <= origins@.len(),
                *self == *old(self),
                self.wf(),
                forall|m: int| 0 <= m < k ==> #[trigger] origin_ok(bytes@, origins@, m),
            decreases origins@.len() - k,
        {
            if origins[k].0 as usize > bytes.len() || (k > 0 && origins[k - 1].0 > origins[k].0) {
                assert(!origin_ok(bytes@, origins@, k as int));
                return Err("origins out of order");
            }
            k = k + 1;
        }
        let mut last: usize = 0;
        let mut addr: u16 = 0;
        let mut i: usize = 0;
        let ghost target = load_blocks(self.ram@, bytes@, origins@, 0, 0, 0);
        while i < origins.len()
            invariant
                self.wf(),
                *self == (Emulator { ram: self.ram, ..*old(self) }),
                i <= origins@.len(),
                origins_ordered(bytes@, origins@),
                (last as int) <= block_end(bytes@, origins@, i as int),
                load_blocks(self.ram@, bytes@, origins@, i as int, last as int, addr) == target,
                target == load_blocks(old(self).ram@, bytes@, origins@, 0, 0, 0),
            decreases origins@.len() - i,
        {
            assert(origin_ok(bytes@, origins@, i as int));
            self.load_block(&bytes, last, origins[i].0 as usize, addr);
            last = origins[i].0 as usize;
            addr = origins[i].1;
            i = i + 1;
            assert(i < origins@.len() ==> origin_ok(bytes@, origins@, i as int));
        }
        self.load_block(&bytes, last, bytes.len(), addr);
        Ok(())
    }

    /// Bytes from `address` up to the first `$`, reading at most the memory size.
    pub fn dollar_string(&self, address: u16) -> (r: Vec<u8>)
        requires
            self.wf(),
        ensures
            r@.len() <= RAM_SIZE,
            forall|k: int| 0 <= k < r@.len() ==> r@[k] == machine::mem_read(self@, machine::wrap16(address + k)) && r@[k] != 0x24,
            r@.len() < RAM_SIZE ==> machine::mem_read(self@, machine::wrap16(address + r@.len())) == 0x24,
    {
        let mut out: Vec<u8> = Vec::new();
        let mut a: u16 = address;
        while out.len() < RAM_SIZE
            invariant
                self.wf(),
                out@.len() <= RAM_SIZE,
                a == machine::wrap16(address + out@.len()),
                forall|k: int| 0 <= k < out@.len() ==> out@[k] == machine::mem_read(self@, machine::wrap16(address + k)) && out@[k] != 0x24,
            decreases RAM_SIZE - out@.len(),
        {
            let b = self.ram.read(a);
            if b == 0x24 {
                return out;
            }
            out.push(b);
            a = ((a as u32 + 1) % 0x10000) as u16;
        }
        out
    }

    pub fn operand(&self, o: Operand) -> (v: u8)
        requires
            self.wf(),
        ensures
            v == machine::get_operand(self@, o),
    {
        if o == Operand::M {
            self.ram.read(self.reg.get16(Pair::HL))
        } else {
            self.reg.get8(operand_reg_exec(o))
        }
    }

    pub fn set_operand(&mut self, o: Operand, v: u8)
        requires
            old(self).wf(),
        ensures
            final(self).wf(),
            final(self)@ == machine::set_operand(old(self)@, o, v),
    {
        if o == Operand::M {
            let adr = self.reg.get16(Pair::HL);
            self.ram.write(adr, v);
        } else {
            self.reg.set8(operand_reg_exec(o), v);
        }
    }

    pub fn push(&mut self, val: u16) -> (r: Result<(), EmuError>)
        requires
            old(self).wf(),
        ensures
            final(self).wf(),
            outcome(r, final(self)@, machine::push(old(self)@, val)),
            r is Err ==> final(self)@ == old(self)@,
    {
        if self.sp < 2 {
            return Err(EmuError::StackOverflow);
        }
        self.sp = self.sp - 1;
        self.ram.write(self.sp, (val / 256) as u8);
        self.sp = self.sp - 1;
        self.ram.write(self.sp, (val % 256) as u8);
        Ok(())
    }

    pub fn pop(&mut self) -> (r: Result<u16, EmuError>)
        requires
            old(self).wf(),
        ensures
            final(self).wf(),
            match machine::pop(old(self)@) {
                Ok((t, v)) => r == Ok::<u16, EmuError>(v) && final(self)@ == t,
                Err(e) => r == Err::<u16, EmuError>(e) && final(self)@ == old(self)@,
            },
    {
        if self.sp as usize + 2 > self.ram.size() {
            return Err(EmuError::StackUnderflow);
        }
        let low = self.ram.read(self.sp) as u16;
        let high = self.ram.read(self.sp + 1) as u16;
        self.sp = self.sp + 2;
        Ok(high * 256 + low)
    }

    pub fn push_reg(&mut self, p: Pair) -> (r: Result<(), EmuError>)
        requires
            old(self).wf(),
        ensures
            final(self).wf(),
            outcome(r, final(self)@, machine::push(old(self)@, old(self).reg.spec_get16(p))),
    {
        let v = self.reg.get16(p);
        self.push(v)
    }

    /// Pops a word into a pair; for PSW only the flag bits and the
    /// always-one bit of the flags byte survive.
    pub fn pop_reg(&mut self, p: Pair) -> (r: Result<(), EmuError>)
        requires
            old(self).wf(),
        ensures
            final(self).wf(),
            outcome(r, final(self)@, machine::pop_reg(old(self)@, p)),
    {
        let v = self.pop()?;
        if p == Pair::PSW {
            let flags = ((v % 256) as u8 & 0xD5) | 0x02;
            self.reg.set16(p, (v / 256) * 256 + flags as u16);
        } else {
            self.reg.set16(p, v);
        }
        Ok(())
    }
}

} // verus!
