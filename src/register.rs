use vstd::prelude::*;
use crate::flags::Flag;

verus! {

/// The 8-bit registers.
#[derive(Clone, Copy, Debug, PartialEq, Eq, Structural)]
pub enum Reg8 {
    A,
    B,
    C,
    D,
    E,
    H,
    L,
    W,
    Z,
}

/// The 16-bit register pairs.
#[derive(Clone, Copy, Debug, PartialEq, Eq, Structural)]
pub enum Pair {
    WZ,
    BC,
    DE,
    HL,
    PSW,
}

/// The pair that holds an 8-bit register.
pub open spec fn pair_of(r: Reg8) -> Pair {
    match r {
        Reg8::A => Pair::PSW,
        Reg8::B | Reg8::C => Pair::BC,
        Reg8::D | Reg8::E => Pair::DE,
        Reg8::H | Reg8::L => Pair::HL,
        Reg8::W | Reg8::Z => Pair::WZ,
    }
}

/// Whether an 8-bit register is the high half of its pair.
pub open spec fn is_high(r: Reg8) -> bool {
    match r {
        Reg8::A | Reg8::B | Reg8::D | Reg8::H | Reg8::W => true,
        _ => false,
    }
}

fn pair_of_exec(r: Reg8) -> (p: Pair)
    ensures
        p == pair_of(r),
{
    match r {
        Reg8::A => Pair::PSW,
        Reg8::B | Reg8::C => Pair::BC,
        Reg8::D | Reg8::E => Pair::DE,
        Reg8::H | Reg8::L => Pair::HL,
        Reg8::W | Reg8::Z => Pair::WZ,
    }
}

fn is_high_exec(r: Reg8) -> (h: bool)
    ensures
        h == is_high(r),
{
    match r {
        Reg8::A | Reg8::B | Reg8::D | Reg8::H | Reg8::W => true,
        _ => false,
    }
}

/// Bit of a flag inside the flags byte (the low half of PSW).
pub open spec fn flag_mask(flag: Flag) -> u8 {
    match flag {
        Flag::Sign => 0x80,
        Flag::Zero => 0x40,
        Flag::Aux => 0x10,
        Flag::Parity => 0x04,
        Flag::Carry => 0x01,
    }
}

pub fn flag_mask_exec(flag: Flag) -> (m: u8)
    ensures
        m == flag_mask(flag),
{
    match flag {
        Flag::Sign => 0x80,
        Flag::Zero => 0x40,
        Flag::Aux => 0x10,
        Flag::Parity => 0x04,
        Flag::Carry => 0x01,
    }
}

/// The flags byte after setting `flag` to `v` in `b`.
pub open spec fn flags_with(b: u8, flag: Flag, v: bool) -> u8 {
    if v {
        b | flag_mask(flag)
    } else {
        b & !flag_mask(flag)
    }
}

/// Whether `flag` is set in the flags byte `b`.
pub open spec fn flag_in(b: u8, flag: Flag) -> bool {
    b & flag_mask(flag) != 0
}

/// The register file: five 16-bit pairs, each also readable as two bytes.
#[derive(Clone, Copy, Debug, PartialEq, Eq, Structural)]
pub struct RegisterArray {
    pub wz: u16,
    pub bc: u16,
    pub de: u16,
    pub hl: u16,
    pub psw: u16,
}

impl RegisterArray {
    pub open spec fn spec_get16(&self, p: Pair) -> u16 {
        match p {
            Pair::WZ => self.wz,
            Pair::BC => self.bc,
            Pair::DE => self.de,
            Pair::HL => self.hl,
            Pair::PSW => self.psw,
        }
    }

    pub open spec fn spec_set16(&self, p: Pair, v: u16) -> RegisterArray {
        match p {
            Pair::WZ => RegisterArray { wz: v, ..*self },
            Pair::BC => RegisterArray { bc: v, ..*self },
            Pair::DE => RegisterArray { de: v, ..*self },
            Pair::HL => RegisterArray { hl: v, ..*self },
            Pair::PSW => RegisterArray { psw: v, ..*self },
        }
    }

    /// High byte of a pair.
    pub open spec fn spec_high(&self, p: Pair) -> u8 {
        (self.spec_get16(p) / 256) as u8
    }

    /// Low byte of a pair.
    pub open spec fn spec_low(&self, p: Pair) -> u8 {
        (self.spec_get16(p) % 256) as u8
    }

    pub open spec fn spec_get8(&self, r: Reg8) -> u8 {
        if is_high(r) {
            self.spec_high(pair_of(r))
        } else {
            self.spec_low(pair_of(r))
        }
    }

    pub open spec fn spec_set8(&self, r: Reg8, v: u8) -> RegisterArray {
        let p = pair_of(r);
        let old = self.spec_get16(p);
        if is_high(r) {
            self.spec_set16(p, (v as int * 256 + old % 256) as u16)
        } else {
            self.spec_set16(p, ((old / 256) * 256 + v as int) as u16)
        }
    }

    /// The flags byte: the low half of PSW.
    pub open spec fn flags_byte(&self) -> u8 {
        self.spec_low(Pair::PSW)
    }

    pub open spec fn flag(&self, f: Flag) -> bool {
        flag_in(self.flags_byte(), f)
    }

    /// The registers with the flags byte replaced by `b`, its always-one bit 0x02 set.
    pub open spec fn spec_with_flags(&self, b: u8) -> RegisterArray {
        RegisterArray { psw: ((self.psw / 256) * 256 + (b | 0x02) as int) as u16, ..*self }
    }

    pub open spec fn new_spec() -> RegisterArray {
        RegisterArray { wz: 0, bc: 0, de: 0, hl: 0, psw: 0x0002 }
    }

    /// All pairs zero but the always-one bit of the flags byte.
    pub fn new() -> (r: RegisterArray)
        ensures
            r == RegisterArray::new_spec(),
    {
        RegisterArray { wz: 0, bc: 0, de: 0, hl: 0, psw: 0x0002 }
    }

    pub fn get16(&self, p: Pair) -> (v: u16)
        ensures
            v == self.spec_get16(p),
    {
        match p {
            Pair::WZ => self.wz,
            Pair::BC => self.bc,
            Pair::DE => self.de,
            Pair::HL => self.hl,
            Pair::PSW => self.psw,
        }
    }

    pub fn set16(&mut self, p: Pair, v: u16)
        ensures
            *final(self) == old(self).spec_set16(p, v),
    {
        match p {
            Pair::WZ => self.wz = v,
            Pair::BC => self.bc = v,
            Pair::DE => self.de = v,
            Pair::HL => self.hl = v,
            Pair::PSW => self.psw = v,
        }
    }

    pub fn get8(&self, r: Reg8) -> (v: u8)
        ensures
            v == self.spec_get8(r),
    {
        let p = self.get16(pair_of_exec(r));
        if is_high_exec(r) {
            (p / 256) as u8
        } else {
            (p % 256) as u8
        }
    }

    pub fn set8(&mut self, r: Reg8, v: u8)
        ensures
            *final(self) == old(self).spec_set8(r, v),
    {
        let p = pair_of_exec(r);
        let old = self.get16(p);
        if is_high_exec(r) {
            self.set16(p, v as u16 * 256 + old % 256);
        } else {
            self.set16(p, (old / 256) * 256 + v as u16);
        }
    }

    /// The flags byte: the low half of PSW.
    pub fn get_flags(&self) -> (b: u8)
        ensures
            b == self.flags_byte(),
    {
        (self.psw % 256) as u8
    }

    pub fn get_flag(&self, f: Flag) -> (r: bool)
        ensures
            r == self.flag(f),
    {
        ((self.psw % 256) as u8 & flag_mask_exec(f)) != 0
    }

    /// Replaces the flags byte, leaving the accumulator as it is; bit 0x02
    /// of the flags byte always reads as one.
    pub fn set_flags(&mut self, b: u8)
        ensures
            *final(self) == old(self).spec_with_flags(b),
            final(self).flags_byte() == b | 0x02,
            forall|f: Flag| #[trigger] final(self).flag(f) == flag_in(b, f),
    {
        proof {
            lemma_bit_one(b);
        }
        self.psw = (self.psw / 256) * 256 + (b | 0x02) as u16;
    }

    pub fn set_flag(&mut self, f: Flag, v: bool)
        ensures
            *final(self) == old(self).spec_with_flags(flags_with(old(self).flags_byte(), f, v)),
            final(self).flag(f) == v,
            forall|g: Flag| g != f ==> final(self).flag(g) == old(self).flag(g),
    {
        let b = (self.psw % 256) as u8;
        let m = flag_mask_exec(f);
        let nb = if v { b | m } else { b & !m };
        proof { lemma_flags_with(b, f, v); }
        self.set_flags(nb);
    }

    pub fn flip_flag(&mut self, f: Flag)
        ensures
            *final(self) == old(self).spec_with_flags(old(self).flags_byte() ^ flag_mask(f)),
            final(self).flag(f) == !old(self).flag(f),
            forall|g: Flag| g != f ==> final(self).flag(g) == old(self).flag(g),
    {
        let b = (self.psw % 256) as u8;
        let m = flag_mask_exec(f);
        proof { lemma_flags_flip(b, f); }
        self.set_flags(b ^ m);
    }
}

/// Setting bit 0x02 of a flags byte changes none of the five flags.
pub proof fn lemma_bit_one(b: u8)
    ensures
        forall|f: Flag| #[trigger] flag_in(b | 0x02, f) == flag_in(b, f),
        (b | 0x02) & 0x02 != 0,
{
    assert(((b | 0x02) & 0x80 != 0) == (b & 0x80 != 0)) by (bit_vector);
    assert(((b | 0x02) & 0x40 != 0) == (b & 0x40 != 0)) by (bit_vector);
    assert(((b | 0x02) & 0x10 != 0) == (b & 0x10 != 0)) by (bit_vector);
    assert(((b | 0x02) & 0x04 != 0) == (b & 0x04 != 0)) by (bit_vector);
    assert(((b | 0x02) & 0x01 != 0) == (b & 0x01 != 0)) by (bit_vector);
    assert((b | 0x02) & 0x02 != 0) by (bit_vector);
}

pub proof fn lemma_flag_masks()
    ensures
        forall|f: Flag, g: Flag| f != g ==> #[trigger] flag_mask(f) & #[trigger] flag_mask(g) == 0,
{
    assert(0x80u8 & 0x40u8 == 0 && 0x80u8 & 0x10u8 == 0 && 0x80u8 & 0x04u8 == 0 && 0x80u8 & 0x01u8 == 0) by (bit_vector);
    assert(0x40u8 & 0x80u8 == 0 && 0x40u8 & 0x10u8 == 0 && 0x40u8 & 0x04u8 == 0 && 0x40u8 & 0x01u8 == 0) by (bit_vector);
    assert(0x10u8 & 0x80u8 == 0 && 0x10u8 & 0x40u8 == 0 && 0x10u8 & 0x04u8 == 0 && 0x10u8 & 0x01u8 == 0) by (bit_vector);
    assert(0x04u8 & 0x80u8 == 0 && 0x04u8 & 0x40u8 == 0 && 0x04u8 & 0x10u8 == 0 && 0x04u8 & 0x01u8 == 0) by (bit_vector);
    assert(0x01u8 & 0x80u8 == 0 && 0x01u8 & 0x40u8 == 0 && 0x01u8 & 0x10u8 == 0 && 0x01u8 & 0x04u8 == 0) by (bit_vector);
}

proof fn lemma_mask_nonzero(f: Flag)
    ensures
        flag_mask(f) != 0,
{
}

/// Setting one flag in a flags byte sets that flag and keeps the others.
pub proof fn lemma_flags_with(b: u8, f: Flag, v: bool)
    ensures
        flag_in(flags_with(b, f, v), f) == v,
        forall|g: Flag| g != f ==> flag_in(flags_with(b, f, v), g) == flag_in(b, g),
{
    lemma_flag_masks();
    let m = flag_mask(f);
    lemma_mask_nonzero(f);
    assert(((b | m) & m != 0) && ((b & !m) & m == 0)) by (bit_vector)
        requires m != 0;
    assert forall|g: Flag| g != f implies flag_in(flags_with(b, f, v), g) == flag_in(b, g) by {
        let n = flag_mask(g);
        assert(m & n == 0);
        assert(((b | m) & n != 0) == (b & n != 0) && ((b & !m) & n != 0) == (b & n != 0)) by (bit_vector)
            requires m & n == 0;
    }
}

/// Flipping one flag in a flags byte negates it and keeps the others.
pub proof fn lemma_flags_flip(b: u8, f: Flag)
    ensures
        flag_in(b ^ flag_mask(f), f) == !flag_in(b, f),
        forall|g: Flag| g != f ==> flag_in(b ^ flag_mask(f), g) == flag_in(b, g),
{
    lemma_flag_masks();
    let m = flag_mask(f);
    assert(((b ^ m) & m != 0) == !(b & m != 0)) by (bit_vector)
        requires m == 0x80u8 || m == 0x40u8 || m == 0x10u8 || m == 0x04u8 || m == 0x01u8;
    assert forall|g: Flag| g != f implies flag_in(b ^ flag_mask(f), g) == flag_in(b, g) by {
        let n = flag_mask(g);
        assert(m & n == 0);
        assert(((b ^ m) & n != 0) == (b & n != 0)) by (bit_vector)
            requires m & n == 0;
    }
}

/// Writing a pair and reading it back gives the value written; its high
/// half reads `v >> 8` and its low half `v & 0xFF`, through the pair and
/// through each 8-bit register that aliases it.
pub proof fn lemma_pair_round_trip(r: RegisterArray, p: Pair, v: u16)
    ensures
        r.spec_set16(p, v).spec_get16(p) == v,
        r.spec_set16(p, v).spec_high(p) == (v >> 8) as u8,
        r.spec_set16(p, v).spec_low(p) == (v & 0xff) as u8,
        forall|x: Reg8| pair_of(x) == p ==> #[trigger] r.spec_set16(p, v).spec_get8(x) == if is_high(x) {
            (v >> 8) as u8
        } else {
            (v & 0xff) as u8
        },
        p == Pair::PSW ==> r.spec_set16(p, v).flags_byte() == (v & 0xff) as u8,
{
    assert(v >> 8 == v / 256 && v & 0xff == v % 256) by (bit_vector);
}

/// Writing an 8-bit register and reading it back gives the value written,
/// and the other half of its pair is kept.
pub proof fn lemma_byte_round_trip(r: RegisterArray, x: Reg8, v: u8)
    ensures
        r.spec_set8(x, v).spec_get8(x) == v,
        is_high(x) ==> r.spec_set8(x, v).spec_low(pair_of(x)) == r.spec_low(pair_of(x)),
        !is_high(x) ==> r.spec_set8(x, v).spec_high(pair_of(x)) == r.spec_high(pair_of(x)),
        forall|q: Pair| q != pair_of(x) ==> #[trigger] r.spec_set8(x, v).spec_get16(q) == r.spec_get16(q),
{
}

} // verus!
