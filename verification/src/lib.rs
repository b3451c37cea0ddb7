//! Decision core of a token shell: the command grammar, the plans behind
//! each mode, and the bookkeeping of the handles a token operation holds.

pub mod capture;
pub mod catalog;
pub mod cli;
pub mod launch;
pub mod number;
pub mod plan;
pub mod privilege;
pub mod shell;
pub mod text;
pub mod token;
