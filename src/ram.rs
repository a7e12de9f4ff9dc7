use vstd::prelude::*;

verus! {

/// Number of bytes the memory holds; addresses at and above it mirror it.
pub const RAM_SIZE: usize = 0x4000;

/// Memory after writing `b` byte by byte from `start` on, each address
/// wrapped into the memory.
pub open spec fn spec_load(m: Seq<u8>, b: Seq<u8>, start: int) -> Seq<u8>
    decreases b.len(),
{
    if b.len() == 0 {
        m
    } else {
        spec_load(m, b.drop_last(), start).update((start + b.len() - 1) % (RAM_SIZE as int), b.last())
    }
}

/// The index an address selects.
pub open spec fn mirror(a: int) -> int {
    a % (RAM_SIZE as int)
}

/// A byte store addressed by 16-bit addresses, mirrored above its size.
pub struct DefaultRam {
    mem: Vec<u8>,
    last_change: u16,
}

impl View for DefaultRam {
    type V = Seq<u8>;

    closed spec fn view(&self) -> Seq<u8> {
        self.mem@
    }
}

impl DefaultRam {
    pub open spec fn wf(&self) -> bool {
        self@.len() == RAM_SIZE
    }

    /// The address given to the most recent write.
    pub closed spec fn last_changed(&self) -> u16 {
        self.last_change
    }

    pub open spec fn spec_read(&self, a: u16) -> u8 {
        self@[mirror(a as int)]
    }

    /// Zero-filled memory.
    pub fn new() -> (r: DefaultRam)
        ensures
            r.wf(),
            r@ == Seq::new(RAM_SIZE as nat, |i: int| 0u8),
            r.last_changed() == 0,
    {
        let mem = vec![0u8; RAM_SIZE];
        let r = DefaultRam { mem, last_change: 0 };
        assert(r@ =~= Seq::new(RAM_SIZE as nat, |i: int| 0u8));
        r
    }

    pub fn size(&self) -> (n: usize)
        ensures
            n == RAM_SIZE,
    {
        RAM_SIZE
    }

    pub fn get_last_changed_address(&self) -> (a: u16)
        ensures
            a == self.last_changed(),
    {
        self.last_change
    }

    pub fn read(&self, a: u16) -> (v: u8)
        requires
            self.wf(),
        ensures
            v == self.spec_read(a),
    {
        self.mem[(a as usize) % RAM_SIZE]
    }

    /// Stores `v` at the mirrored address and records `a` as last changed.
    pub fn write(&mut self, a: u16, v: u8)
        requires
            old(self).wf(),
        ensures
            final(self).wf(),
            final(self)@ == old(self)@.update(mirror(a as int), v),
            final(self).last_changed() == a,
    {
        self.mem.set((a as usize) % RAM_SIZE, v);
        self.last_change = a;
    }

    /// Copies `bytes` into memory from `start` on, wrapping at the end of the address space.
    pub fn load_vec(&mut self, bytes: Vec<u8>, start: u16)
        requires
            old(self).wf(),
        ensures
            final(self).wf(),
            final(self)@ == spec_load(old(self)@, bytes@, start as int),
            bytes@.len() == 0 ==> final(self).last_changed() == old(self).last_changed(),
    {
        let mut idx: u16 = start;
        let mut i: usize = 0;
        while i < bytes.len()
            invariant
                self.wf(),
                i <= bytes@.len(),
                idx as int == (start as int + i) % 0x10000,
                self@ == spec_load(old(self)@, bytes@.take(i as int), start as int),
                i == 0 ==> self.last_changed() == old(self).last_changed(),
            decreases bytes@.len() - i,
        {
            self.write(idx, bytes[i]);
            proof {
                assert(bytes@.take(i as int + 1).drop_last() =~= bytes@.take(i as int));
                assert((start as int + i) % 0x10000 % (RAM_SIZE as int) == (start as int + i) % (RAM_SIZE as int)) by {
                    vstd::arithmetic::div_mod::lemma_mod_mod(start as int + i, 4, 0x4000);
                }
            }
            idx = idx.wrapping_add(1);
            i = i + 1;
            proof {
                assert(idx as int == (start as int + i) % 0x10000) by {
                    vstd::arithmetic::div_mod::lemma_add_mod_noop(start as int + i - 1, 1, 0x10000);
                    vstd::arithmetic::div_mod::lemma_small_mod(1, 0x10000);
                }
            }
        }
        assert(bytes@.take(bytes@.len() as int) =~= bytes@);
    }
}

/// A write followed by a read of the same address gives the byte written,
/// and every address reads as its mirror below the memory size.
pub proof fn lemma_write_read(m: DefaultRam, after: DefaultRam, a: u16, b: u8, x: u16)
    requires
        m.wf(),
        after@ == m@.update(mirror(a as int), b),
    ensures
        after.spec_read(a) == b,
        m.spec_read(x) == m.spec_read((x as int % RAM_SIZE as int) as u16),
{
    vstd::arithmetic::div_mod::lemma_mod_twice(x as int, RAM_SIZE as int);
}

} // verus!
