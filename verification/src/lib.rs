//! Verified core of a command-line debugger for Windows executables:
//! command parsing, the debugger's configuration state, register contexts,
//! watchpoint encoding and PE file parsing.

pub mod text;
pub mod number;
pub mod context;
pub mod stack;
pub mod symbol;
pub mod watch;
pub mod structs;
pub mod cli;
pub mod target;
pub mod pe;
pub mod commands;
pub mod dbg;
pub mod events;
pub mod disasm;
pub mod listing;
pub mod values;
pub mod memory;
pub mod usage;
pub mod stop;
pub mod dispatch;
pub mod arith;
pub mod view;
pub mod setmem;
pub mod deref;
pub mod registers;
pub mod symload;
