use vstd::prelude::*;
use crate::machine::{base_cycles, execute_next, fetch, branch_taken, MachineView};

verus! {

/// The 8080 data sheet's cycle counts, opcode by opcode, with conditional
/// calls and returns counted as not taken.
pub open spec fn datasheet_cycles(op: u8) -> int {
    match op {
        0x0u8 => 4,
        0x1u8 => 10,
        0x2u8 => 7,
        0x3u8 => 5,
        0x4u8 => 5,
        0x5u8 => 5,
        0x6u8 => 7,
        0x7u8 => 4,
        0x8u8 => 4,
        0x9u8 => 10,
        0xau8 => 7,
        0xbu8 => 5,
        0xcu8 => 5,
        0xdu8 => 5,
        0xeu8 => 7,
        0xfu8 => 4,
        0x10u8 => 4,
        0x11u8 => 10,
        0x12u8 => 7,
        0x13u8 => 5,
        0x14u8 => 5,
        0x15u8 => 5,
        0x16u8 => 7,
        0x17u8 => 4,
        0x18u8 => 4,
        0x19u8 => 10,
        0x1au8 => 7,
        0x1bu8 => 5,
        0x1cu8 => 5,
        0x1du8 => 5,
        0x1eu8 => 7,
        0x1fu8 => 4,
        0x20u8 => 4,
        0x21u8 => 10,
        0x22u8 => 16,
        0x23u8 => 5,
        0x24u8 => 5,
        0x25u8 => 5,
        0x26u8 => 7,
        0x27u8 => 4,
        0x28u8 => 4,
        0x29u8 => 10,
        0x2au8 => 16,
        0x2bu8 => 5,
        0x2cu8 => 5,
        0x2du8 => 5,
        0x2eu8 => 7,
        0x2fu8 => 4,
        0x30u8 => 4,
        0x31u8 => 10,
        0x32u8 => 13,
        0x33u8 => 5,
        0x34u8 => 10,
        0x35u8 => 10,
        0x36u8 => 10,
        0x37u8 => 4,
        0x38u8 => 4,
        0x39u8 => 10,
        0x3au8 => 13,
        0x3bu8 => 5,
        0x3cu8 => 5,
        0x3du8 => 5,
        0x3eu8 => 7,
        0x3fu8 => 4,
        0x40u8 => 5,
        0x41u8 => 5,
        0x42u8 => 5,
        0x43u8 => 5,
        0x44u8 => 5,
        0x45u8 => 5,
        0x46u8 => 7,
        0x47u8 => 5,
        0x48u8 => 5,
        0x49u8 => 5,
        0x4au8 => 5,
        0x4bu8 => 5,
        0x4cu8 => 5,
        0x4du8 => 5,
        0x4eu8 => 7,
        0x4fu8 => 5,
        0x50u8 => 5,
        0x51u8 => 5,
        0x52u8 => 5,
        0x53u8 => 5,
        0x54u8 => 5,
        0x55u8 => 5,
        0x56u8 => 7,
        0x57u8 => 5,
        0x58u8 => 5,
        0x59u8 => 5,
        0x5au8 => 5,
        0x5bu8 => 5,
        0x5cu8 => 5,
        0x5du8 => 5,
        0x5eu8 => 7,
        0x5fu8 => 5,
        0x60u8 => 5,
        0x61u8 => 5,
        0x62u8 => 5,
        0x63u8 => 5,
        0x64u8 => 5,
        0x65u8 => 5,
        0x66u8 => 7,
        0x67u8 => 5,
        0x68u8 => 5,
        0x69u8 => 5,
        0x6au8 => 5,
        0x6bu8 => 5,
        0x6cu8 => 5,
        0x6du8 => 5,
        0x6eu8 => 7,
        0x6fu8 => 5,
        0x70u8 => 7,
        0x71u8 => 7,
        0x72u8 => 7,
        0x73u8 => 7,
        0x74u8 => 7,
        0x75u8 => 7,
        0x76u8 => 7,
        0x77u8 => 7,
        0x78u8 => 5,
        0x79u8 => 5,
        0x7au8 => 5,
        0x7bu8 => 5,
        0x7cu8 => 5,
        0x7du8 => 5,
        0x7eu8 => 7,
        0x7fu8 => 5,
        0x80u8 => 4,
        0x81u8 => 4,
        0x82u8 => 4,
        0x83u8 => 4,
        0x84u8 => 4,
        0x85u8 => 4,
        0x86u8 => 7,
        0x87u8 => 4,
        0x88u8 => 4,
        0x89u8 => 4,
        0x8au8 => 4,
        0x8bu8 => 4,
        0x8cu8 => 4,
        0x8du8 => 4,
        0x8eu8 => 7,
        0x8fu8 => 4,
        0x90u8 => 4,
        0x91u8 => 4,
        0x92u8 => 4,
        0x93u8 => 4,
        0x94u8 => 4,
        0x95u8 => 4,
        0x96u8 => 7,
        0x97u8 => 4,
        0x98u8 => 4,
        0x99u8 => 4,
        0x9au8 => 4,
        0x9bu8 => 4,
        0x9cu8 => 4,
        0x9du8 => 4,
        0x9eu8 => 7,
        0x9fu8 => 4,
        0xa0u8 => 4,
        0xa1u8 => 4,
        0xa2u8 => 4,
        0xa3u8 => 4,
        0xa4u8 => 4,
        0xa5u8 => 4,
        0xa6u8 => 7,
        0xa7u8 => 4,
        0xa8u8 => 4,
        0xa9u8 => 4,
        0xaau8 => 4,
        0xabu8 => 4,
        0xacu8 => 4,
        0xadu8 => 4,
        0xaeu8 => 7,
        0xafu8 => 4,
        0xb0u8 => 4,
        0xb1u8 => 4,
        0xb2u8 => 4,
        0xb3u8 => 4,
        0xb4u8 => 4,
        0xb5u8 => 4,
        0xb6u8 => 7,
        0xb7u8 => 4,
        0xb8u8 => 4,
        0xb9u8 => 4,
        0xbau8 => 4,
        0xbbu8 => 4,
        0xbcu8 => 4,
        0xbdu8 => 4,
        0xbeu8 => 7,
        0xbfu8 => 4,
        0xc0u8 => 5,
        0xc1u8 => 10,
        0xc2u8 => 10,
        0xc3u8 => 10,
        0xc4u8 => 11,
        0xc5u8 => 11,
        0xc6u8 => 7,
        0xc7u8 => 11,
        0xc8u8 => 5,
        0xc9u8 => 10,
        0xcau8 => 10,
        0xcbu8 => 10,
        0xccu8 => 11,
        0xcdu8 => 17,
        0xceu8 => 7,
        0xcfu8 => 11,
        0xd0u8 => 5,
        0xd1u8 => 10,
        0xd2u8 => 10,
        0xd3u8 => 10,
        0xd4u8 => 11,
        0xd5u8 => 11,
        0xd6u8 => 7,
        0xd7u8 => 11,
        0xd8u8 => 5,
        0xd9u8 => 10,
        0xdau8 => 10,
        0xdbu8 => 10,
        0xdcu8 => 11,
        0xddu8 => 17,
        0xdeu8 => 7,
        0xdfu8 => 11,
        0xe0u8 => 5,
        0xe1u8 => 10,
        0xe2u8 => 10,
        0xe3u8 => 18,
        0xe4u8 => 11,
        0xe5u8 => 11,
        0xe6u8 => 7,
        0xe7u8 => 11,
        0xe8u8 => 5,
        0xe9u8 => 5,
        0xeau8 => 10,
        0xebu8 => 4,
        0xecu8 => 11,
        0xedu8 => 17,
        0xeeu8 => 7,
        0xefu8 => 11,
        0xf0u8 => 5,
        0xf1u8 => 10,
        0xf2u8 => 10,
        0xf3u8 => 4,
        0xf4u8 => 11,
        0xf5u8 => 11,
        0xf6u8 => 7,
        0xf7u8 => 11,
        0xf8u8 => 5,
        0xf9u8 => 5,
        0xfau8 => 10,
        0xfbu8 => 4,
        0xfcu8 => 11,
        0xfdu8 => 17,
        0xfeu8 => 7,
        0xffu8 => 11,
    }
}

proof fn lemma_clock_row_0(op: u8)
    requires
        0 <= op < 16,
    ensures
        base_cycles(op) == datasheet_cycles(op),
{
}

proof fn lemma_clock_row_1(op: u8)
    requires
        16 <= op < 32,
    ensures
        base_cycles(op) == datasheet_cycles(op),
{
}

proof fn lemma_clock_row_2(op: u8)
    requires
        32 <= op < 48,
    ensures
        base_cycles(op) == datasheet_cycles(op),
{
}

proof fn lemma_clock_row_3(op: u8)
    requires
        48 <= op < 64,
    ensures
        base_cycles(op) == datasheet_cycles(op),
{
}

proof fn lemma_clock_row_4(op: u8)
    requires
        64 <= op < 80,
    ensures
        base_cycles(op) == datasheet_cycles(op),
{
}

proof fn lemma_clock_row_5(op: u8)
    requires
        80 <= op < 96,
    ensures
        base_cycles(op) == datasheet_cycles(op),
{
}

proof fn lemma_clock_row_6(op: u8)
    requires
        96 <= op < 112,
    ensures
        base_cycles(op) == datasheet_cycles(op),
{
}

proof fn lemma_clock_row_7(op: u8)
    requires
        112 <= op < 128,
    ensures
        base_cycles(op) == datasheet_cycles(op),
{
}

proof fn lemma_clock_row_8(op: u8)
    requires
        128 <= op < 144,
    ensures
        base_cycles(op) == datasheet_cycles(op),
{
}

proof fn lemma_clock_row_9(op: u8)
    requires
        144 <= op < 160,
    ensures
        base_cycles(op) == datasheet_cycles(op),
{
}

proof fn lemma_clock_row_a(op: u8)
    requires
        160 <= op < 176,
    ensures
        base_cycles(op) == datasheet_cycles(op),
{
}

proof fn lemma_clock_row_b(op: u8)
    requires
        176 <= op < 192,
    ensures
        base_cycles(op) == datasheet_cycles(op),
{
}

proof fn lemma_clock_row_c(op: u8)
    requires
        192 <= op < 208,
    ensures
        base_cycles(op) == datasheet_cycles(op),
{
}

proof fn lemma_clock_row_d(op: u8)
    requires
        208 <= op < 224,
    ensures
        base_cycles(op) == datasheet_cycles(op),
{
}

proof fn lemma_clock_row_e(op: u8)
    requires
        224 <= op < 240,
    ensures
        base_cycles(op) == datasheet_cycles(op),
{
}

proof fn lemma_clock_row_f(op: u8)
    requires
        240 <= op < 256,
    ensures
        base_cycles(op) == datasheet_cycles(op),
{
}

/// The clock function the emulator uses agrees with the data sheet on every opcode.
pub proof fn lemma_clock_matches_datasheet(op: u8)
    ensures
        base_cycles(op) == datasheet_cycles(op),
{
    if op < 16 {
        lemma_clock_row_0(op);
    } else if op < 32 {
        lemma_clock_row_1(op);
    } else if op < 48 {
        lemma_clock_row_2(op);
    } else if op < 64 {
        lemma_clock_row_3(op);
    } else if op < 80 {
        lemma_clock_row_4(op);
    } else if op < 96 {
        lemma_clock_row_5(op);
    } else if op < 112 {
        lemma_clock_row_6(op);
    } else if op < 128 {
        lemma_clock_row_7(op);
    } else if op < 144 {
        lemma_clock_row_8(op);
    } else if op < 160 {
        lemma_clock_row_9(op);
    } else if op < 176 {
        lemma_clock_row_a(op);
    } else if op < 192 {
        lemma_clock_row_b(op);
    } else if op < 208 {
        lemma_clock_row_c(op);
    } else if op < 224 {
        lemma_clock_row_d(op);
    } else if op < 240 {
        lemma_clock_row_e(op);
    } else if op < 256 {
        lemma_clock_row_f(op);
    }
}

/// Every successful step takes the data sheet's cycles for the opcode at pc,
/// six more for a conditional call or return whose condition holds.
pub proof fn lemma_step_cycles(s: MachineView)
    ensures
        match execute_next(s) {
            Ok((_, c)) => c as int == datasheet_cycles(fetch(s).1) + if branch_taken(fetch(s).0, fetch(s).1) { 6int } else { 0 },
            Err(_) => true,
        },
{
    lemma_clock_matches_datasheet(fetch(s).1);
}

} // verus!
