//! Toolchain core for the Sampo 16-bit RISC processor.
//!
//! The crate has two halves that share one instruction set.
//!
//! The assembler turns source text into a flat little-endian image:
//! [`lexer`] reads tokens, [`parser`] builds statements, [`encode`] turns
//! one instruction into its word or words, and [`codegen`] lays the
//! program out in two passes and patches the references that had to wait
//! for their symbols ([`symbols`]).
//!
//! The emulator executes such an image: [`machine`] says what every
//! instruction does to the state of the processor, [`alu`] holds the
//! arithmetic, and [`cpu`] is the processor itself with its memory, its
//! ports and its serial line. [`disasm`] names the instruction at an
//! address, [`report`] renders the state as text, [`terminal`] emulates the
//! display at the other end of the serial line, and [`debugger`] decides
//! what a key press or a frame does.
//!
//! Every executable function carries a contract that Verus proves against
//! a mathematical model of the data it works on. The modules [`laws`],
//! [`isa_laws`], [`encoder_laws`] and [`source_laws`] state what holds
//! across functions: that the fields the encoder writes are the fields the
//! decoder reads, that the two passes of the assembler agree on every
//! address, that a comparison followed by a branch tests the relation the
//! branch is named for, that the text the disassembler writes is read back
//! as the instruction it was made from, and more.

pub mod alu;
pub mod codegen;
pub mod cpu;
pub mod debugger;
pub mod disasm;
pub mod encode;
pub mod encoder_laws;
pub mod isa;
pub mod isa_laws;
pub mod laws;
pub mod lexer;
pub mod machine;
pub mod parser;
pub mod report;
pub mod source_laws;
pub mod symbols;
pub mod terminal;
pub mod text;
