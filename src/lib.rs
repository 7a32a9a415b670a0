//! A byte-code stack machine over one flat memory image.
//!
//! Code, operand stack, call stack and heap share a single byte buffer. Each
//! instruction is one opcode byte, sometimes followed by an immediate, and acts on
//! five registers and that memory. A fault aborts the instruction and is vectored to a
//! single interrupt handler. Transfers to standard streams and files, sleeps and debug
//! prints are handed to the host as events.
//!
//! `vm::step_spec` gives the meaning of every opcode over the model `vm::Machine`;
//! `vm::VM::step` is proved to follow it, and `laws` proves properties of it.
pub mod alu;
pub mod encoding;
pub mod inter;
pub mod laws;
pub mod mem;
pub mod reg;
pub mod vm;
