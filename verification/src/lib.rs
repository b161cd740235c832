//! An Ethereum Virtual Machine for a host chain: a bytecode interpreter, a
//! stack executor with layered account state, and the interface to the
//! backend of the host.
//!
//! The modules, leaves first:
//!
//! - `word`, `address`, `arith`: 256-bit words, 20-byte addresses and the
//!   arithmetic of the instruction set.
//! - `error`, `opcode`, `config`, `context`: exit reasons, the opcode table,
//!   per-fork policy, call contexts.
//! - `stack`, `memory`, `valids`, `machine`: the interpreter of one frame.
//! - `sorted_map`, `account`, `backend`, `hash`, `executor`: substates over a
//!   backend, and what reading and writing accounts through them means.
//! - `runtime`, `frames`, `invariants`: what execution means, the code that does
//!   it, and what holds of every execution.
//! - `runner`, `memory_backend`, `near_backend`, `types`, `contract`,
//!   `utils`, `evm_state`: whole transactions, backends, and the wire forms
//!   at the edge.

pub mod account;
pub mod address;
pub mod arith;
pub mod backend;
pub mod config;
pub mod context;
pub mod contract;
pub mod error;
pub mod evm_state;
pub mod executor;
pub mod frames;
pub mod hash;
pub mod invariants;
pub mod machine;
pub mod memory;
pub mod memory_backend;
pub mod near_backend;
pub mod opcode;
pub mod runner;
pub mod runtime;
pub mod sorted_map;
pub mod stack;
pub mod types;
pub mod utils;
pub mod valids;
pub mod word;
