//! A registry of tables and seats kept in program-derived accounts: address
//! derivation, record layouts, the set-buffer codec and the instruction
//! state machine.

pub mod accounts;
pub mod helpers;
pub mod instruction;
pub mod processor;
pub mod set_buffer;
