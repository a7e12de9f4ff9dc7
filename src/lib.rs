//! An Intel 8080 toolchain: an emulator whose every instruction is specified
//! as a transition of the machine state, an assembler with macros, labels,
//! EQU/SET, conditional assembly and ORG, an expression evaluator, and a
//! disassembler.

pub mod alu;
pub mod clock;
pub mod arithmetic;
pub mod assembler;
pub mod disassembler;
pub mod dispatch;
pub mod emulator;
pub mod expr;
pub mod flags;
pub mod instructions;
pub mod laws;
pub mod machine;
pub mod preprocessor;
pub mod ram;
pub mod register;
pub mod roundtrip;
pub mod text;
