use vstd::prelude::*;
use crate::register::{flag_in, flag_mask, flag_mask_exec, lemma_flags_flip, lemma_flags_with};

verus! {

/// The five condition flags of the processor.
#[derive(Clone, Copy, Debug, PartialEq, Eq, Structural)]
pub enum Flag {
    Sign,
    Zero,
    Aux,
    Parity,
    Carry,
}

/// A standalone set of processor flags, laid out as in the flags byte
/// (sign 0x80, zero 0x40, aux 0x10, parity 0x04, carry 0x01).
pub struct Flags {
    flags: u8,
}

impl Flags {
    pub closed spec fn bits(&self) -> u8 {
        self.flags
    }

    pub open spec fn is_set(&self, flag: Flag) -> bool {
        flag_in(self.bits(), flag)
    }

    pub fn new() -> (r: Flags)
        ensures
            r.bits() == 0,
            forall|f: Flag| !r.is_set(f),
    {
        let r = Flags { flags: 0 };
        assert forall|f: Flag| !r.is_set(f) by {
            let m = flag_mask(f);
            assert(0u8 & m == 0) by (bit_vector);
        }
        r
    }

    pub fn get(&self, flag: Flag) -> (r: bool)
        ensures
            r == self.is_set(flag),
    {
        (self.flags & flag_mask_exec(flag)) != 0
    }

    pub fn set(&mut self, flag: Flag)
        ensures
            final(self).bits() == old(self).bits() | flag_mask(flag),
            final(self).is_set(flag),
            forall|g: Flag| g != flag ==> final(self).is_set(g) == old(self).is_set(g),
    {
        let old_bits = self.flags;
        proof {
            lemma_flags_with(old_bits, flag, true);
        }
        self.flags = old_bits | flag_mask_exec(flag);
    }

    pub fn flip(&mut self, flag: Flag)
        ensures
            final(self).bits() == old(self).bits() ^ flag_mask(flag),
            final(self).is_set(flag) == !old(self).is_set(flag),
            forall|g: Flag| g != flag ==> final(self).is_set(g) == old(self).is_set(g),
    {
        let old_bits = self.flags;
        proof {
            lemma_flags_flip(old_bits, flag);
        }
        self.flags = old_bits ^ flag_mask_exec(flag);
    }
}

} // verus!
