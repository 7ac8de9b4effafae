//! A minimal stack-based bytecode virtual machine.
//!
//! A raw stream of numeric codes is decoded into typed instructions
//! ([`op::Op`]), and a fully decoded program is then executed by
//! [`exec::VmState`] against an integer operand stack. The semantics of
//! decoding and of every instruction are stated as specification
//! functions ([`op::decode_at`], [`exec::step`]), and the executable
//! code is verified against them.

/// The typed failures a run or a decode can end with.
pub mod error;
/// The execution engine: operand stack, program counter, and the
/// fetch-decode-execute loop.
pub mod exec;
/// The instruction model and the decoder for the raw code stream.
pub mod op;
