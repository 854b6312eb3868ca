//! A decomposable execution-trace builder and folding-witness converter.
//!
//! A circuit trace is a set of sub-traces, one per opcode (its selector),
//! sharing `N` witness columns: `N_REL` relation columns, then one selector
//! column per opcode. Rows are pushed into the relation columns, each
//! sub-trace is padded up to the domain size, selector columns are filled
//! with a one-hot flag, and a full sub-trace is turned into a folding
//! instance and witness by a commit, absorb and challenge protocol.
pub mod columns;
pub mod decomposed;
pub mod field;
pub mod folding;
pub mod laws;
pub mod riscv;
pub mod trace;
