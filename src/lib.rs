//! Reversible command execution: commands recorded in an ordered ledger, run
//! forward in insertion order and rolled back in reverse order; composite
//! commands with structural undo; and a few small companion examples.
pub mod migration;
pub mod paired;
pub mod macro_command;
pub mod interpreter;
pub mod new_type;
pub mod guard;
