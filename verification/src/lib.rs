//! Core of a user-mode debugger for x86-64 Windows targets: breakpoint
//! scheduling on the hardware debug registers, module and symbol
//! introspection from the target's memory, and table-driven stack unwinding.
//!
//! The functions of this crate are verified against their contracts. The
//! calls of the operating system are made by the embedding program, which
//! hands their results to this crate as plain values; the few calls into
//! other libraries are marked where they stand, each with what is taken for
//! granted of it.

pub mod address;
pub mod breakpoints;
pub mod context;
pub mod debugger;
pub mod disassembler;
pub mod error;
pub mod events;
pub mod memory;
pub mod pe;
pub mod processes;
pub mod query_pdb;
pub mod search;
pub mod stack;
pub mod text;
pub mod wide_string;
