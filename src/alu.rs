use vstd::prelude::*;
use crate::flags::Flag;
use crate::register::{flags_with, flag_in, flag_mask_exec, lemma_flags_with};

verus! {

/// Number of set bits of a byte.
pub open spec fn popcount(x: u8) -> nat
    decreases x,
{
    if x == 0 {
        0
    } else {
        (x % 2) as nat + popcount((x / 2) as u8)
    }
}

/// The parity flag's value for a byte: an even number of set bits.
pub open spec fn even_parity(x: u8) -> bool {
    popcount(x) % 2 == 0
}

/// The flags byte with sign, zero and parity taken from `res`.
pub open spec fn szp(b: u8, res: u8) -> u8 {
    flags_with(flags_with(flags_with(b, Flag::Zero, res == 0), Flag::Sign, res >= 0x80), Flag::Parity, even_parity(res))
}

/// The flags byte after an arithmetic result `res` with the given carry and aux carry.
pub open spec fn arith_flags(b: u8, res: u8, carry: bool, aux: bool) -> u8 {
    flags_with(flags_with(szp(b, res), Flag::Carry, carry), Flag::Aux, aux)
}

/// The flags byte after an increment or decrement: carry is kept.
pub open spec fn step_flags(b: u8, res: u8, aux: bool) -> u8 {
    flags_with(szp(b, res), Flag::Aux, aux)
}

/// Sum of the accumulator and an addend, as a 9-bit value.
pub open spec fn add_sum(a: u8, v: u16) -> int {
    a as int + v as int
}

pub open spec fn add_aux(a: u8, v: u16) -> bool {
    (a as int % 16) + (v as int % 16) > 15
}

/// The one's complement of the low byte of the subtrahend.
pub open spec fn sub_complement(v: u16) -> int {
    255 - (v as int % 256)
}

/// Two's-complement sum that a subtraction computes.
pub open spec fn sub_sum(a: u8, v: u16) -> int {
    a as int + sub_complement(v) + 1
}

pub open spec fn sub_aux(a: u8, v: u16) -> bool {
    (a as int % 16) + (sub_complement(v) % 16) + 1 > 15
}

pub open spec fn daa_low_fix(a: u8, aux: bool) -> bool {
    a % 16 > 9 || aux
}

pub open spec fn daa_high_fix(a: u8, carry: bool) -> bool {
    a / 16 > 9 || carry || (a / 16 >= 9 && a % 16 > 9)
}

/// The value that decimal adjustment adds to the accumulator.
pub open spec fn daa_correction(a: u8, aux: bool, carry: bool) -> u16 {
    ((if daa_low_fix(a, aux) { 6int } else { 0 }) + (if daa_high_fix(a, carry) { 0x60int } else { 0 })) as u16
}

/// Even parity of a byte, counted bit by bit.
pub fn parity(x: u8) -> (r: bool)
    ensures
        r == even_parity(x),
{
    let mut v: u8 = x;
    let mut count: u8 = 0;
    proof {
        lemma_popcount_bound(x);
    }
    while v > 0
        invariant
            popcount(x) == count as nat + popcount(v),
            count as nat + popcount(v) <= 8,
        decreases v,
    {
        count = count + v % 2;
        v = v / 2;
    }
    count % 2 == 0
}

spec fn two_to(k: nat) -> nat
    decreases k,
{
    if k == 0 {
        1
    } else {
        2 * two_to((k - 1) as nat)
    }
}

proof fn lemma_popcount_below(x: u8, k: nat)
    requires
        (x as nat) < two_to(k),
    ensures
        popcount(x) <= k,
    decreases k,
{
    if x != 0 {
        assert(k > 0);
        lemma_popcount_below((x / 2) as u8, (k - 1) as nat);
    }
}

proof fn lemma_popcount_bound(x: u8)
    ensures
        popcount(x) <= 8,
{
    reveal_with_fuel(two_to, 9);
    assert(two_to(8) == 256);
    lemma_popcount_below(x, 8);
}

/// Parity holds exactly for bytes with an even number of set bits.
pub proof fn lemma_parity_law(x: u8)
    ensures
        even_parity(x) <==> popcount(x) % 2 == 0,
{
}

pub fn with_flag(b: u8, f: Flag, v: bool) -> (r: u8)
    ensures
        r == flags_with(b, f, v),
{
    let m = flag_mask_exec(f);
    if v {
        b | m
    } else {
        b & !m
    }
}

pub fn szp_exec(b: u8, res: u8) -> (r: u8)
    ensures
        r == szp(b, res),
{
    let b1 = with_flag(b, Flag::Zero, res == 0);
    let b2 = with_flag(b1, Flag::Sign, res >= 0x80);
    with_flag(b2, Flag::Parity, parity(res))
}

pub fn arith_flags_exec(b: u8, res: u8, carry: bool, aux: bool) -> (r: u8)
    ensures
        r == arith_flags(b, res, carry, aux),
{
    let b1 = szp_exec(b, res);
    let b2 = with_flag(b1, Flag::Carry, carry);
    with_flag(b2, Flag::Aux, aux)
}

pub fn step_flags_exec(b: u8, res: u8, aux: bool) -> (r: u8)
    ensures
        r == step_flags(b, res, aux),
{
    with_flag(szp_exec(b, res), Flag::Aux, aux)
}

/// After an arithmetic result, the carry flag reads the carry given.
pub proof fn lemma_arith_carry(b: u8, res: u8, carry: bool, aux: bool)
    ensures
        flag_in(arith_flags(b, res, carry, aux), Flag::Carry) == carry,
        flag_in(arith_flags(b, res, carry, aux), Flag::Aux) == aux,
{
    let b3 = szp(b, res);
    let b4 = flags_with(b3, Flag::Carry, carry);
    lemma_flags_with(b3, Flag::Carry, carry);
    lemma_flags_with(b4, Flag::Aux, aux);
}

/// Decimal adjustment turns any byte, read as two decimal digits that may
/// each run up to fifteen, into two valid decimal digits plus a carry of one
/// hundred, when aux carry and carry are clear beforehand.
pub proof fn lemma_daa_bcd(x: u8)
    ensures
        ({
            let sum = add_sum(x, daa_correction(x, false, false));
            let r = (sum % 256) as u8;
            let c = daa_high_fix(x, false);
            &&& r % 16 <= 9
            &&& r / 16 <= 9
            &&& (if c { 100int } else { 0 }) + 10 * (r / 16) as int + (r % 16) as int == 10 * (x / 16) as int + (x % 16) as int
        }),
{
    let hi = x as int / 16;
    let lo = x as int % 16;
    assert(x as int == 16 * hi + lo && 0 <= lo < 16 && 0 <= hi < 16);
    let fix = daa_high_fix(x, false);
    let sum = add_sum(x, daa_correction(x, false, false));
    let (q, m) = if lo <= 9 && !fix {
        (hi, lo)
    } else if lo > 9 && !fix {
        (hi + 1, lo - 10)
    } else if lo <= 9 {
        (hi - 10, lo)
    } else {
        (hi - 9, lo - 10)
    };
    assert(0 <= m < 16 && 0 <= q <= 9);
    assert(sum == 16 * q + m + (if fix { 256int } else { 0 }));
    let r = sum % 256;
    vstd::arithmetic::div_mod::lemma_fundamental_div_mod_converse(sum, 256, if fix { 1int } else { 0 }, 16 * q + m);
    assert(r == 16 * q + m);
    vstd::arithmetic::div_mod::lemma_fundamental_div_mod_converse(r, 16, q, m);
    assert((r as u8) as int == r);
}

/// Value of a byte read as two decimal digits.
pub open spec fn decimal(x: u8) -> int {
    10 * (x / 16) as int + (x % 16) as int
}

pub open spec fn is_bcd(x: u8) -> bool {
    x % 16 <= 9 && x / 16 <= 9
}

/// Adding two packed decimal bytes and adjusting gives their decimal sum
/// modulo one hundred, with carry standing for the hundred.
pub proof fn lemma_bcd_add_adjust(p: u8, q: u8)
    requires
        is_bcd(p),
        is_bcd(q),
    ensures
        ({
            let sum = add_sum(p, q as u16);
            let a = (sum % 256) as u8;
            let aux = add_aux(p, q as u16);
            let cy = sum > 255;
            let r = ((a as int + daa_correction(a, aux, cy) as int) % 256) as u8;
            &&& is_bcd(r)
            &&& decimal(r) == (decimal(p) + decimal(q)) % 100
            &&& daa_high_fix(a, cy) == (decimal(p) + decimal(q) >= 100)
        }),
{
    let ph = p as int / 16;
    let pl = p as int % 16;
    let qh = q as int / 16;
    let ql = q as int % 16;
    assert(p as int == 16 * ph + pl && q as int == 16 * qh + ql);
    let l = pl + ql;
    let h = ph + qh;
    let sum = add_sum(p, q as u16);
    assert(sum == 16 * h + l);
    let (ah, al) = if l < 16 { (h, l) } else { (h + 1, l - 16) };
    assert(sum == 16 * ah + al && 0 <= al < 16);
    let a = (sum % 256) as u8;
    let aux = add_aux(p, q as u16);
    assert(aux == (l > 15));
    let cy = sum > 255;
    let ah2 = if ah >= 16 { ah - 16 } else { ah };
    vstd::arithmetic::div_mod::lemma_fundamental_div_mod_converse(sum, 256, if ah >= 16 { 1int } else { 0 }, 16 * ah2 + al);
    assert(a as int == 16 * ah2 + al);
    vstd::arithmetic::div_mod::lemma_fundamental_div_mod_converse(a as int, 16, ah2, al);
    assert(a / 16 == ah2 && a % 16 == al);
    let corr = daa_correction(a, aux, cy) as int;
    let total = decimal(p) + decimal(q);
    assert(total == 10 * h + l);
    let lo = if l > 9 { l - 10 } else { l };
    let carry_low: int = if l > 9 { 1 } else { 0 };
    let hi_total = h + carry_low;
    assert(total == 10 * hi_total + lo);
    let hi = if hi_total > 9 { hi_total - 10 } else { hi_total };
    assert(daa_high_fix(a, cy) == (hi_total > 9));
    let rv = a as int + corr;
    assert(rv % 256 == 16 * hi + lo || rv % 256 == 16 * hi + lo) by {
        let k: int = if rv >= 256 { 1 } else { 0 };
        assert(rv == 256 * k + 16 * hi + lo);
        vstd::arithmetic::div_mod::lemma_fundamental_div_mod_converse(rv, 256, k, 16 * hi + lo);
    }
    let r = (rv % 256) as u8;
    vstd::arithmetic::div_mod::lemma_fundamental_div_mod_converse(r as int, 16, hi, lo);
}

} // verus!
