//! Which command a line typed at one of the debugger's prompts names.

use vstd::prelude::*;
use crate::number::{str_to_spec, str_to_u32, IntKind};
use crate::text::{
    chars_of, count_and_remove, count_char, remove_char, slice_vec, str_eq, string_from, trim,
    trim_exec,
};

verus! {

/// The commands of the prompt before a run.
#[derive(Debug, Clone, Copy, PartialEq, Eq, Structural)]
pub enum Cmd {
    Breakpoint,
    File,
    Run,
    Reset,
    Quit,
    Symbol,
    BreakRet,
    Skip,
    Hook,
    Def,
    Arg,
    Help,
    HelpC,
    View,
    Watchpoint,
    Clear,
    Remove,
    SymInfo,
    Attach,
    BreakVa,
    ProcAddr,
    BRetVa,
    Add,
    Sub,
    /// A line without a word.
    Empty,
    /// A word that names no command.
    Unknown,
}

/// The command that the first word of a line names.
pub open spec fn cmd_named(w: Seq<char>) -> Cmd {
    if w == "breakpoint"@ || w == "b"@ {
        Cmd::Breakpoint
    } else if w == "file"@ {
        Cmd::File
    } else if w == "run"@ {
        Cmd::Run
    } else if w == "reset"@ {
        Cmd::Reset
    } else if w == "quit"@ || w == "q"@ || w == "exit"@ {
        Cmd::Quit
    } else if w == "s"@ || w == "sym"@ || w == "symbol"@ {
        Cmd::Symbol
    } else if w == "break-ret"@ || w == "b-ret"@ {
        Cmd::BreakRet
    } else if w == "skip"@ {
        Cmd::Skip
    } else if w == "hook"@ || w == "ho"@ {
        Cmd::Hook
    } else if w == "def"@ {
        Cmd::Def
    } else if w == "arg"@ || w == "args"@ || w == "argv"@ {
        Cmd::Arg
    } else if w == "help"@ || w == "h"@ {
        Cmd::Help
    } else if w == "help-c"@ {
        Cmd::HelpC
    } else if w == "view"@ {
        Cmd::View
    } else if w == "w"@ || w == "watch"@ || w == "watchpoint"@ {
        Cmd::Watchpoint
    } else if w == "clear"@ {
        Cmd::Clear
    } else if w == "remove"@ {
        Cmd::Remove
    } else if w == "sym-info"@ {
        Cmd::SymInfo
    } else if w == "attach"@ {
        Cmd::Attach
    } else if w == "bva"@ || w == "b-va"@ || w == "break-va"@ {
        Cmd::BreakVa
    } else if w == "proc-addr"@ {
        Cmd::ProcAddr
    } else if w == "b-ret-va"@ || w == "b-retva"@ {
        Cmd::BRetVa
    } else if w == "add"@ {
        Cmd::Add
    } else if w == "sub"@ {
        Cmd::Sub
    } else {
        Cmd::Unknown
    }
}

/// Law: the first word of a line typed before a run names the command it
/// says, under its long and short names: `breakpoint`/`b`, `file`, `run`,
/// `reset`, `quit`/`q`/`exit`, `symbol`/`sym`/`s`, `break-ret`/`b-ret`,
/// `skip`, `hook`/`ho`, `def`, `arg`/`args`/`argv`, `help`/`h`, `help-c`,
/// `view`, `watchpoint`/`watch`/`w`, `clear`, `remove`, `sym-info`,
/// `attach`, `break-va`/`b-va`/`bva`, `proc-addr`, `b-ret-va`/`b-retva`,
/// `add` and `sub`.
pub proof fn lemma_command_names()
    ensures
        cmd_named("breakpoint"@) == Cmd::Breakpoint,
        cmd_named("b"@) == Cmd::Breakpoint,
        cmd_named("file"@) == Cmd::File,
        cmd_named("run"@) == Cmd::Run,
        cmd_named("reset"@) == Cmd::Reset,
        cmd_named("quit"@) == Cmd::Quit,
        cmd_named("q"@) == Cmd::Quit,
        cmd_named("exit"@) == Cmd::Quit,
        cmd_named("s"@) == Cmd::Symbol,
        cmd_named("sym"@) == Cmd::Symbol,
        cmd_named("symbol"@) == Cmd::Symbol,
        cmd_named("break-ret"@) == Cmd::BreakRet,
        cmd_named("b-ret"@) == Cmd::BreakRet,
        cmd_named("skip"@) == Cmd::Skip,
        cmd_named("hook"@) == Cmd::Hook,
        cmd_named("ho"@) == Cmd::Hook,
        cmd_named("def"@) == Cmd::Def,
        cmd_named("arg"@) == Cmd::Arg,
        cmd_named("args"@) == Cmd::Arg,
        cmd_named("argv"@) == Cmd::Arg,
        cmd_named("help"@) == Cmd::Help,
        cmd_named("h"@) == Cmd::Help,
        cmd_named("help-c"@) == Cmd::HelpC,
        cmd_named("view"@) == Cmd::View,
        cmd_named("w"@) == Cmd::Watchpoint,
        cmd_named("watch"@) == Cmd::Watchpoint,
        cmd_named("watchpoint"@) == Cmd::Watchpoint,
        cmd_named("clear"@) == Cmd::Clear,
        cmd_named("remove"@) == Cmd::Remove,
        cmd_named("sym-info"@) == Cmd::SymInfo,
        cmd_named("attach"@) == Cmd::Attach,
        cmd_named("bva"@) == Cmd::BreakVa,
        cmd_named("b-va"@) == Cmd::BreakVa,
        cmd_named("break-va"@) == Cmd::BreakVa,
        cmd_named("proc-addr"@) == Cmd::ProcAddr,
        cmd_named("b-ret-va"@) == Cmd::BRetVa,
        cmd_named("b-retva"@) == Cmd::BRetVa,
        cmd_named("add"@) == Cmd::Add,
        cmd_named("sub"@) == Cmd::Sub,
{
    reveal_strlit("breakpoint");
    assert("breakpoint"@.len() == 10);
    reveal_strlit("b");
    assert("b"@.len() == 1);
    reveal_strlit("file");
    assert("file"@.len() == 4);
    reveal_strlit("run");
    assert("run"@.len() == 3);
    reveal_strlit("reset");
    assert("reset"@.len() == 5);
    reveal_strlit("quit");
    assert("quit"@.len() == 4);
    reveal_strlit("q");
    assert("q"@.len() == 1);
    reveal_strlit("exit");
    assert("exit"@.len() == 4);
    reveal_strlit("s");
    assert("s"@.len() == 1);
    reveal_strlit("sym");
    assert("sym"@.len() == 3);
    reveal_strlit("symbol");
    assert("symbol"@.len() == 6);
    reveal_strlit("break-ret");
    assert("break-ret"@.len() == 9);
    reveal_strlit("b-ret");
    assert("b-ret"@.len() == 5);
    reveal_strlit("skip");
    assert("skip"@.len() == 4);
    reveal_strlit("hook");
    assert("hook"@.len() == 4);
    reveal_strlit("ho");
    assert("ho"@.len() == 2);
    reveal_strlit("def");
    assert("def"@.len() == 3);
    reveal_strlit("arg");
    assert("arg"@.len() == 3);
    reveal_strlit("args");
    assert("args"@.len() == 4);
    reveal_strlit("argv");
    assert("argv"@.len() == 4);
    reveal_strlit("help");
    assert("help"@.len() == 4);
    reveal_strlit("h");
    assert("h"@.len() == 1);
    reveal_strlit("help-c");
    assert("help-c"@.len() == 6);
    reveal_strlit("view");
    assert("view"@.len() == 4);
    reveal_strlit("w");
    assert("w"@.len() == 1);
    reveal_strlit("watch");
    assert("watch"@.len() == 5);
    reveal_strlit("watchpoint");
    assert("watchpoint"@.len() == 10);
    reveal_strlit("clear");
    assert("clear"@.len() == 5);
    reveal_strlit("remove");
    assert("remove"@.len() == 6);
    reveal_strlit("sym-info");
    assert("sym-info"@.len() == 8);
    reveal_strlit("attach");
    assert("attach"@.len() == 6);
    reveal_strlit("bva");
    assert("bva"@.len() == 3);
    reveal_strlit("b-va");
    assert("b-va"@.len() == 4);
    reveal_strlit("break-va");
    assert("break-va"@.len() == 8);
    reveal_strlit("proc-addr");
    assert("proc-addr"@.len() == 9);
    reveal_strlit("b-ret-va");
    assert("b-ret-va"@.len() == 8);
    reveal_strlit("b-retva");
    assert("b-retva"@.len() == 7);
    reveal_strlit("add");
    assert("add"@.len() == 3);
    reveal_strlit("sub");
    assert("sub"@.len() == 3);
    assert("quit"@[0] != "file"@[0]);
    assert("q"@[0] != "b"@[0]);
    assert("exit"@[0] != "file"@[0]);
    assert("s"@[0] != "b"@[0]);
    assert("s"@[0] != "q"@[0]);
    assert("sym"@[0] != "run"@[0]);
    assert("b-ret"@[0] != "reset"@[0]);
    assert("skip"@[0] != "file"@[0]);
    assert("skip"@[0] != "quit"@[0]);
    assert("skip"@[0] != "exit"@[0]);
    assert("hook"@[0] != "file"@[0]);
    assert("hook"@[0] != "quit"@[0]);
    assert("hook"@[0] != "exit"@[0]);
    assert("hook"@[0] != "skip"@[0]);
    assert("def"@[0] != "run"@[0]);
    assert("def"@[0] != "sym"@[0]);
    assert("arg"@[0] != "run"@[0]);
    assert("arg"@[0] != "sym"@[0]);
    assert("arg"@[0] != "def"@[0]);
    assert("args"@[0] != "file"@[0]);
    assert("args"@[0] != "quit"@[0]);
    assert("args"@[0] != "exit"@[0]);
    assert("args"@[0] != "skip"@[0]);
    assert("args"@[0] != "hook"@[0]);
    assert("argv"@[0] != "file"@[0]);
    assert("argv"@[0] != "quit"@[0]);
    assert("argv"@[0] != "exit"@[0]);
    assert("argv"@[0] != "skip"@[0]);
    assert("argv"@[0] != "hook"@[0]);
    assert("help"@[0] != "file"@[0]);
    assert("help"@[0] != "quit"@[0]);
    assert("help"@[0] != "exit"@[0]);
    assert("help"@[0] != "skip"@[0]);
    assert("help"@[1] != "hook"@[1]);
    assert("help"@[0] != "args"@[0]);
    assert("help"@[0] != "argv"@[0]);
    assert("h"@[0] != "b"@[0]);
    assert("h"@[0] != "q"@[0]);
    assert("h"@[0] != "s"@[0]);
    assert("help-c"@[0] != "symbol"@[0]);
    assert("view"@[0] != "file"@[0]);
    assert("view"@[0] != "quit"@[0]);
    assert("view"@[0] != "exit"@[0]);
    assert("view"@[0] != "skip"@[0]);
    assert("view"@[0] != "hook"@[0]);
    assert("view"@[0] != "args"@[0]);
    assert("view"@[0] != "argv"@[0]);
    assert("view"@[0] != "help"@[0]);
    assert("w"@[0] != "b"@[0]);
    assert("w"@[0] != "q"@[0]);
    assert("w"@[0] != "s"@[0]);
    assert("w"@[0] != "h"@[0]);
    assert("watch"@[0] != "reset"@[0]);
    assert("watch"@[0] != "b-ret"@[0]);
    assert("watchpoint"@[0] != "breakpoint"@[0]);
    assert("clear"@[0] != "reset"@[0]);
    assert("clear"@[0] != "b-ret"@[0]);
    assert("clear"@[0] != "watch"@[0]);
    assert("remove"@[0] != "symbol"@[0]);
    assert("remove"@[0] != "help-c"@[0]);
    assert("attach"@[0] != "symbol"@[0]);
    assert("attach"@[0] != "help-c"@[0]);
    assert("attach"@[0] != "remove"@[0]);
    assert("bva"@[0] != "run"@[0]);
    assert("bva"@[0] != "sym"@[0]);
    assert("bva"@[0] != "def"@[0]);
    assert("bva"@[0] != "arg"@[0]);
    assert("b-va"@[0] != "file"@[0]);
    assert("b-va"@[0] != "quit"@[0]);
    assert("b-va"@[0] != "exit"@[0]);
    assert("b-va"@[0] != "skip"@[0]);
    assert("b-va"@[0] != "hook"@[0]);
    assert("b-va"@[0] != "args"@[0]);
    assert("b-va"@[0] != "argv"@[0]);
    assert("b-va"@[0] != "help"@[0]);
    assert("b-va"@[0] != "view"@[0]);
    assert("break-va"@[0] != "sym-info"@[0]);
    assert("proc-addr"@[0] != "break-ret"@[0]);
    assert("b-ret-va"@[0] != "sym-info"@[0]);
    assert("b-ret-va"@[1] != "break-va"@[1]);
    assert("add"@[0] != "run"@[0]);
    assert("add"@[0] != "sym"@[0]);
    assert("add"@[0] != "def"@[0]);
    assert("add"@[1] != "arg"@[1]);
    assert("add"@[0] != "bva"@[0]);
    assert("sub"@[0] != "run"@[0]);
    assert("sub"@[1] != "sym"@[1]);
    assert("sub"@[0] != "def"@[0]);
    assert("sub"@[0] != "arg"@[0]);
    assert("sub"@[0] != "bva"@[0]);
    assert("sub"@[0] != "add"@[0]);
}

/// The command of a line typed before a run.
pub fn command_of(linev: &[&str]) -> (r: Cmd)
    ensures
        linev@.len() == 0 ==> r == Cmd::Empty,
        linev@.len() > 0 ==> r == cmd_named(linev@[0]@),
{
    if linev.len() == 0 {
        return Cmd::Empty;
    }
    let w = linev[0];
    if str_eq(w, "breakpoint") || str_eq(w, "b") {
        Cmd::Breakpoint
    } else if str_eq(w, "file") {
        Cmd::File
    } else if str_eq(w, "run") {
        Cmd::Run
    } else if str_eq(w, "reset") {
        Cmd::Reset
    } else if str_eq(w, "quit") || str_eq(w, "q") || str_eq(w, "exit") {
        Cmd::Quit
    } else if str_eq(w, "s") || str_eq(w, "sym") || str_eq(w, "symbol") {
        Cmd::Symbol
    } else if str_eq(w, "break-ret") || str_eq(w, "b-ret") {
        Cmd::BreakRet
    } else if str_eq(w, "skip") {
        Cmd::Skip
    } else if str_eq(w, "hook") || str_eq(w, "ho") {
        Cmd::Hook
    } else if str_eq(w, "def") {
        Cmd::Def
    } else if str_eq(w, "arg") || str_eq(w, "args") || str_eq(w, "argv") {
        Cmd::Arg
    } else if str_eq(w, "help") || str_eq(w, "h") {
        Cmd::Help
    } else if str_eq(w, "help-c") {
        Cmd::HelpC
    } else if str_eq(w, "view") {
        Cmd::View
    } else if str_eq(w, "w") || str_eq(w, "watch") || str_eq(w, "watchpoint") {
        Cmd::Watchpoint
    } else if str_eq(w, "clear") {
        Cmd::Clear
    } else if str_eq(w, "remove") {
        Cmd::Remove
    } else if str_eq(w, "sym-info") {
        Cmd::SymInfo
    } else if str_eq(w, "attach") {
        Cmd::Attach
    } else if str_eq(w, "bva") || str_eq(w, "b-va") || str_eq(w, "break-va") {
        Cmd::BreakVa
    } else if str_eq(w, "proc-addr") {
        Cmd::ProcAddr
    } else if str_eq(w, "b-ret-va") || str_eq(w, "b-retva") {
        Cmd::BRetVa
    } else if str_eq(w, "add") {
        Cmd::Add
    } else if str_eq(w, "sub") {
        Cmd::Sub
    } else {
        Cmd::Unknown
    }
}

/// The commands of the prompt of a stopped 64-bit program.
#[derive(Debug, Clone, Copy, PartialEq, Eq, Structural)]
pub enum StopCmd {
    Continue,
    Value,
    Deref,
    SetValue,
    /// `setr <register> <value>`.
    SetReg,
    /// `setm <type> <address> <values>`.
    SetMem,
    Quit,
    BaseAddr,
    Breakpoint,
    Reset,
    Remove,
    Cva,
    Ret,
    BreakRet,
    Skip,
    View,
    Disasm,
    Symbol,
    SymAddr,
    Backtrace,
    SymInfo,
    Add,
    Sub,
    Watchpoint,
    Crva,
    AddrFunc,
    SymLocal,
    MemInfo,
    BreakVa,
    Def,
    Help,
    Clear,
    /// A line without a word.
    Empty,
    /// A word that names no command.
    Unknown,
}

/// The command that the first word of a line names.
pub open spec fn stop_cmd_named(w: Seq<char>) -> StopCmd {
    if w == "c"@ || w == "continue"@ || w == "run"@ {
        StopCmd::Continue
    } else if w == "v"@ || w == "value"@ {
        StopCmd::Value
    } else if w == "deref"@ {
        StopCmd::Deref
    } else if w == "set"@ {
        StopCmd::SetValue
    } else if w == "setr"@ || w == "setreg"@ {
        StopCmd::SetReg
    } else if w == "setm"@ || w == "setmemory"@ {
        StopCmd::SetMem
    } else if w == "q"@ || w == "quit"@ || w == "break"@ || w == "exit"@ {
        StopCmd::Quit
    } else if w == "base-addr"@ || w == "ba"@ {
        StopCmd::BaseAddr
    } else if w == "b"@ || w == "breakpoint"@ {
        StopCmd::Breakpoint
    } else if w == "reset"@ {
        StopCmd::Reset
    } else if w == "remove"@ {
        StopCmd::Remove
    } else if w == "cva"@ {
        StopCmd::Cva
    } else if w == "ret"@ {
        StopCmd::Ret
    } else if w == "break-ret"@ || w == "b-ret"@ {
        StopCmd::BreakRet
    } else if w == "skip"@ {
        StopCmd::Skip
    } else if w == "view"@ {
        StopCmd::View
    } else if w == "disasm"@ {
        StopCmd::Disasm
    } else if w == "s"@ {
        StopCmd::Symbol
    } else if w == "symbol-address"@ || w == "sym-address"@ || w == "sym-addr"@ {
        StopCmd::SymAddr
    } else if w == "backtrace"@ || w == "frame"@ {
        StopCmd::Backtrace
    } else if w == "sym-info"@ {
        StopCmd::SymInfo
    } else if w == "add"@ {
        StopCmd::Add
    } else if w == "sub"@ {
        StopCmd::Sub
    } else if w == "watchpoint"@ || w == "watch"@ || w == "w"@ {
        StopCmd::Watchpoint
    } else if w == "crva"@ {
        StopCmd::Crva
    } else if w == "address-function"@ || w == "address-func"@ || w == "addr-func"@ {
        StopCmd::AddrFunc
    } else if w == "symbol-local"@ || w == "sym-local"@ {
        StopCmd::SymLocal
    } else if w == "memory-info"@ || w == "mem-info"@ {
        StopCmd::MemInfo
    } else if w == "b-va"@ || w == "break-va"@ {
        StopCmd::BreakVa
    } else if w == "def"@ {
        StopCmd::Def
    } else if w == "help"@ {
        StopCmd::Help
    } else if w == "clear"@ || w == "cls"@ {
        StopCmd::Clear
    } else {
        StopCmd::Unknown
    }
}

/// Law: the first word of a line typed at the prompt of a stopped 64-bit program names
/// the command it says: `c`/`continue`/`run` gives `StopCmd::Continue`; `v`/`value` gives
/// `StopCmd::Value`; `deref` gives `StopCmd::Deref`; `set` gives `StopCmd::SetValue`;
/// `setr`/`setreg` gives `StopCmd::SetReg`; `setm`/`setmemory` gives `StopCmd::SetMem`;
/// `q`/`quit`/`break`/`exit` gives `StopCmd::Quit`; `base-addr`/`ba` gives
/// `StopCmd::BaseAddr`; `b`/`breakpoint` gives `StopCmd::Breakpoint`; `reset` gives
/// `StopCmd::Reset`; `remove` gives `StopCmd::Remove`; `cva` gives `StopCmd::Cva`; `ret`
/// gives `StopCmd::Ret`; `break-ret`/`b-ret` gives `StopCmd::BreakRet`; `skip` gives
/// `StopCmd::Skip`; `view` gives `StopCmd::View`; `disasm` gives `StopCmd::Disasm`; `s`
/// gives `StopCmd::Symbol`; `symbol-address`/`sym-address`/`sym-addr` gives
/// `StopCmd::SymAddr`; `backtrace`/`frame` gives `StopCmd::Backtrace`; `sym-info` gives
/// `StopCmd::SymInfo`; `add` gives `StopCmd::Add`; `sub` gives `StopCmd::Sub`;
/// `watchpoint`/`watch`/`w` gives `StopCmd::Watchpoint`; `crva` gives `StopCmd::Crva`;
/// `address-function`/`address-func`/`addr-func` gives `StopCmd::AddrFunc`;
/// `symbol-local`/`sym-local` gives `StopCmd::SymLocal`; `memory-info`/`mem-info` gives
/// `StopCmd::MemInfo`; `b-va`/`break-va` gives `StopCmd::BreakVa`; `def` gives
/// `StopCmd::Def`; `help` gives `StopCmd::Help`; `clear`/`cls` gives `StopCmd::Clear`.
#[verifier::rlimit(80)]
pub proof fn lemma_stop_command_names()
    ensures
        stop_cmd_named("c"@) == StopCmd::Continue,
        stop_cmd_named("continue"@) == StopCmd::Continue,
        stop_cmd_named("run"@) == StopCmd::Continue,
        stop_cmd_named("v"@) == StopCmd::Value,
        stop_cmd_named("value"@) == StopCmd::Value,
        stop_cmd_named("deref"@) == StopCmd::Deref,
        stop_cmd_named("set"@) == StopCmd::SetValue,
        stop_cmd_named("setr"@) == StopCmd::SetReg,
        stop_cmd_named("setreg"@) == StopCmd::SetReg,
        stop_cmd_named("setm"@) == StopCmd::SetMem,
        stop_cmd_named("setmemory"@) == StopCmd::SetMem,
        stop_cmd_named("q"@) == StopCmd::Quit,
        stop_cmd_named("quit"@) == StopCmd::Quit,
        stop_cmd_named("break"@) == StopCmd::Quit,
        stop_cmd_named("exit"@) == StopCmd::Quit,
        stop_cmd_named("base-addr"@) == StopCmd::BaseAddr,
        stop_cmd_named("ba"@) == StopCmd::BaseAddr,
        stop_cmd_named("b"@) == StopCmd::Breakpoint,
        stop_cmd_named("breakpoint"@) == StopCmd::Breakpoint,
        stop_cmd_named("reset"@) == StopCmd::Reset,
        stop_cmd_named("remove"@) == StopCmd::Remove,
        stop_cmd_named("cva"@) == StopCmd::Cva,
        stop_cmd_named("ret"@) == StopCmd::Ret,
        stop_cmd_named("break-ret"@) == StopCmd::BreakRet,
        stop_cmd_named("b-ret"@) == StopCmd::BreakRet,
        stop_cmd_named("skip"@) == StopCmd::Skip,
        stop_cmd_named("view"@) == StopCmd::View,
        stop_cmd_named("disasm"@) == StopCmd::Disasm,
        stop_cmd_named("s"@) == StopCmd::Symbol,
        stop_cmd_named("symbol-address"@) == StopCmd::SymAddr,
        stop_cmd_named("sym-address"@) == StopCmd::SymAddr,
        stop_cmd_named("sym-addr"@) == StopCmd::SymAddr,
        stop_cmd_named("backtrace"@) == StopCmd::Backtrace,
        stop_cmd_named("frame"@) == StopCmd::Backtrace,
        stop_cmd_named("sym-info"@) == StopCmd::SymInfo,
        stop_cmd_named("add"@) == StopCmd::Add,
        stop_cmd_named("sub"@) == StopCmd::Sub,
        stop_cmd_named("watchpoint"@) == StopCmd::Watchpoint,
        stop_cmd_named("watch"@) == StopCmd::Watchpoint,
        stop_cmd_named("w"@) == StopCmd::Watchpoint,
        stop_cmd_named("crva"@) == StopCmd::Crva,
        stop_cmd_named("address-function"@) == StopCmd::AddrFunc,
        stop_cmd_named("address-func"@) == StopCmd::AddrFunc,
        stop_cmd_named("addr-func"@) == StopCmd::AddrFunc,
        stop_cmd_named("symbol-local"@) == StopCmd::SymLocal,
        stop_cmd_named("sym-local"@) == StopCmd::SymLocal,
        stop_cmd_named("memory-info"@) == StopCmd::MemInfo,
        stop_cmd_named("mem-info"@) == StopCmd::MemInfo,
        stop_cmd_named("b-va"@) == StopCmd::BreakVa,
        stop_cmd_named("break-va"@) == StopCmd::BreakVa,
        stop_cmd_named("def"@) == StopCmd::Def,
        stop_cmd_named("help"@) == StopCmd::Help,
        stop_cmd_named("clear"@) == StopCmd::Clear,
        stop_cmd_named("cls"@) == StopCmd::Clear,
{
    reveal_strlit("c");
    assert("c"@.len() == 1);
    reveal_strlit("continue");
    assert("continue"@.len() == 8);
    reveal_strlit("run");
    assert("run"@.len() == 3);
    reveal_strlit("v");
    assert("v"@.len() == 1);
    reveal_strlit("value");
    assert("value"@.len() == 5);
    reveal_strlit("deref");
    assert("deref"@.len() == 5);
    reveal_strlit("set");
    assert("set"@.len() == 3);
    reveal_strlit("setr");
    assert("setr"@.len() == 4);
    reveal_strlit("setreg");
    assert("setreg"@.len() == 6);
    reveal_strlit("setm");
    assert("setm"@.len() == 4);
    reveal_strlit("setmemory");
    assert("setmemory"@.len() == 9);
    reveal_strlit("q");
    assert("q"@.len() == 1);
    reveal_strlit("quit");
    assert("quit"@.len() == 4);
    reveal_strlit("break");
    assert("break"@.len() == 5);
    reveal_strlit("exit");
    assert("exit"@.len() == 4);
    reveal_strlit("base-addr");
    assert("base-addr"@.len() == 9);
    reveal_strlit("ba");
    assert("ba"@.len() == 2);
    reveal_strlit("b");
    assert("b"@.len() == 1);
    reveal_strlit("breakpoint");
    assert("breakpoint"@.len() == 10);
    reveal_strlit("reset");
    assert("reset"@.len() == 5);
    reveal_strlit("remove");
    assert("remove"@.len() == 6);
    reveal_strlit("cva");
    assert("cva"@.len() == 3);
    reveal_strlit("ret");
    assert("ret"@.len() == 3);
    reveal_strlit("break-ret");
    assert("break-ret"@.len() == 9);
    reveal_strlit("b-ret");
    assert("b-ret"@.len() == 5);
    reveal_strlit("skip");
    assert("skip"@.len() == 4);
    reveal_strlit("view");
    assert("view"@.len() == 4);
    reveal_strlit("disasm");
    assert("disasm"@.len() == 6);
    reveal_strlit("s");
    assert("s"@.len() == 1);
    reveal_strlit("symbol-address");
    assert("symbol-address"@.len() == 14);
    reveal_strlit("sym-address");
    assert("sym-address"@.len() == 11);
    reveal_strlit("sym-addr");
    assert("sym-addr"@.len() == 8);
    reveal_strlit("backtrace");
    assert("backtrace"@.len() == 9);
    reveal_strlit("frame");
    assert("frame"@.len() == 5);
    reveal_strlit("sym-info");
    assert("sym-info"@.len() == 8);
    reveal_strlit("add");
    assert("add"@.len() == 3);
    reveal_strlit("sub");
    assert("sub"@.len() == 3);
    reveal_strlit("watchpoint");
    assert("watchpoint"@.len() == 10);
    reveal_strlit("watch");
    assert("watch"@.len() == 5);
    reveal_strlit("w");
    assert("w"@.len() == 1);
    reveal_strlit("crva");
    assert("crva"@.len() == 4);
    reveal_strlit("address-function");
    assert("address-function"@.len() == 16);
    reveal_strlit("address-func");
    assert("address-func"@.len() == 12);
    reveal_strlit("addr-func");
    assert("addr-func"@.len() == 9);
    reveal_strlit("symbol-local");
    assert("symbol-local"@.len() == 12);
    reveal_strlit("sym-local");
    assert("sym-local"@.len() == 9);
    reveal_strlit("memory-info");
    assert("memory-info"@.len() == 11);
    reveal_strlit("mem-info");
    assert("mem-info"@.len() == 8);
    reveal_strlit("b-va");
    assert("b-va"@.len() == 4);
    reveal_strlit("break-va");
    assert("break-va"@.len() == 8);
    reveal_strlit("def");
    assert("def"@.len() == 3);
    reveal_strlit("help");
    assert("help"@.len() == 4);
    reveal_strlit("clear");
    assert("clear"@.len() == 5);
    reveal_strlit("cls");
    assert("cls"@.len() == 3);
    assert("v"@[0] != "c"@[0]);
    assert("deref"@[0] != "value"@[0]);
    assert("set"@[0] != "run"@[0]);
    assert("setm"@[3] != "setr"@[3]);
    assert("q"@[0] != "c"@[0]);
    assert("q"@[0] != "v"@[0]);
    assert("quit"@[0] != "setr"@[0]);
    assert("quit"@[0] != "setm"@[0]);
    assert("break"@[0] != "value"@[0]);
    assert("break"@[0] != "deref"@[0]);
    assert("exit"@[0] != "setr"@[0]);
    assert("exit"@[0] != "setm"@[0]);
    assert("base-addr"@[0] != "setmemory"@[0]);
    assert("b"@[0] != "c"@[0]);
    assert("b"@[0] != "v"@[0]);
    assert("b"@[0] != "q"@[0]);
    assert("reset"@[0] != "value"@[0]);
    assert("reset"@[0] != "deref"@[0]);
    assert("reset"@[0] != "break"@[0]);
    assert("remove"@[0] != "setreg"@[0]);
    assert("cva"@[0] != "run"@[0]);
    assert("cva"@[0] != "set"@[0]);
    assert("ret"@[1] != "run"@[1]);
    assert("ret"@[0] != "set"@[0]);
    assert("ret"@[0] != "cva"@[0]);
    assert("break-ret"@[0] != "setmemory"@[0]);
    assert("break-ret"@[1] != "base-addr"@[1]);
    assert("b-ret"@[0] != "value"@[0]);
    assert("b-ret"@[0] != "deref"@[0]);
    assert("b-ret"@[1] != "break"@[1]);
    assert("b-ret"@[0] != "reset"@[0]);
    assert("skip"@[1] != "setr"@[1]);
    assert("skip"@[1] != "setm"@[1]);
    assert("skip"@[0] != "quit"@[0]);
    assert("skip"@[0] != "exit"@[0]);
    assert("view"@[0] != "setr"@[0]);
    assert("view"@[0] != "setm"@[0]);
    assert("view"@[0] != "quit"@[0]);
    assert("view"@[0] != "exit"@[0]);
    assert("view"@[0] != "skip"@[0]);
    assert("disasm"@[0] != "setreg"@[0]);
    assert("disasm"@[0] != "remove"@[0]);
    assert("s"@[0] != "c"@[0]);
    assert("s"@[0] != "v"@[0]);
    assert("s"@[0] != "q"@[0]);
    assert("s"@[0] != "b"@[0]);
    assert("sym-addr"@[0] != "continue"@[0]);
    assert("backtrace"@[0] != "setmemory"@[0]);
    assert("backtrace"@[2] != "base-addr"@[2]);
    assert("backtrace"@[1] != "break-ret"@[1]);
    assert("frame"@[0] != "value"@[0]);
    assert("frame"@[0] != "deref"@[0]);
    assert("frame"@[0] != "break"@[0]);
    assert("frame"@[0] != "reset"@[0]);
    assert("frame"@[0] != "b-ret"@[0]);
    assert("sym-info"@[0] != "continue"@[0]);
    assert("sym-info"@[4] != "sym-addr"@[4]);
    assert("add"@[0] != "run"@[0]);
    assert("add"@[0] != "set"@[0]);
    assert("add"@[0] != "cva"@[0]);
    assert("add"@[0] != "ret"@[0]);
    assert("sub"@[0] != "run"@[0]);
    assert("sub"@[1] != "set"@[1]);
    assert("sub"@[0] != "cva"@[0]);
    assert("sub"@[0] != "ret"@[0]);
    assert("sub"@[0] != "add"@[0]);
    assert("watchpoint"@[0] != "breakpoint"@[0]);
    assert("watch"@[0] != "value"@[0]);
    assert("watch"@[0] != "deref"@[0]);
    assert("watch"@[0] != "break"@[0]);
    assert("watch"@[0] != "reset"@[0]);
    assert("watch"@[0] != "b-ret"@[0]);
    assert("watch"@[0] != "frame"@[0]);
    assert("w"@[0] != "c"@[0]);
    assert("w"@[0] != "v"@[0]);
    assert("w"@[0] != "q"@[0]);
    assert("w"@[0] != "b"@[0]);
    assert("w"@[0] != "s"@[0]);
    assert("crva"@[0] != "setr"@[0]);
    assert("crva"@[0] != "setm"@[0]);
    assert("crva"@[0] != "quit"@[0]);
    assert("crva"@[0] != "exit"@[0]);
    assert("crva"@[0] != "skip"@[0]);
    assert("crva"@[0] != "view"@[0]);
    assert("addr-func"@[0] != "setmemory"@[0]);
    assert("addr-func"@[0] != "base-addr"@[0]);
    assert("addr-func"@[0] != "break-ret"@[0]);
    assert("addr-func"@[0] != "backtrace"@[0]);
    assert("symbol-local"@[0] != "address-func"@[0]);
    assert("sym-local"@[1] != "setmemory"@[1]);
    assert("sym-local"@[0] != "base-addr"@[0]);
    assert("sym-local"@[0] != "break-ret"@[0]);
    assert("sym-local"@[0] != "backtrace"@[0]);
    assert("sym-local"@[0] != "addr-func"@[0]);
    assert("memory-info"@[0] != "sym-address"@[0]);
    assert("mem-info"@[0] != "continue"@[0]);
    assert("mem-info"@[0] != "sym-addr"@[0]);
    assert("mem-info"@[0] != "sym-info"@[0]);
    assert("b-va"@[0] != "setr"@[0]);
    assert("b-va"@[0] != "setm"@[0]);
    assert("b-va"@[0] != "quit"@[0]);
    assert("b-va"@[0] != "exit"@[0]);
    assert("b-va"@[0] != "skip"@[0]);
    assert("b-va"@[0] != "view"@[0]);
    assert("b-va"@[0] != "crva"@[0]);
    assert("break-va"@[0] != "continue"@[0]);
    assert("break-va"@[0] != "sym-addr"@[0]);
    assert("break-va"@[0] != "sym-info"@[0]);
    assert("break-va"@[0] != "mem-info"@[0]);
    assert("def"@[0] != "run"@[0]);
    assert("def"@[0] != "set"@[0]);
    assert("def"@[0] != "cva"@[0]);
    assert("def"@[0] != "ret"@[0]);
    assert("def"@[0] != "add"@[0]);
    assert("def"@[0] != "sub"@[0]);
    assert("help"@[0] != "setr"@[0]);
    assert("help"@[0] != "setm"@[0]);
    assert("help"@[0] != "quit"@[0]);
    assert("help"@[0] != "exit"@[0]);
    assert("help"@[0] != "skip"@[0]);
    assert("help"@[0] != "view"@[0]);
    assert("help"@[0] != "crva"@[0]);
    assert("help"@[0] != "b-va"@[0]);
    assert("clear"@[0] != "value"@[0]);
    assert("clear"@[0] != "deref"@[0]);
    assert("clear"@[0] != "break"@[0]);
    assert("clear"@[0] != "reset"@[0]);
    assert("clear"@[0] != "b-ret"@[0]);
    assert("clear"@[0] != "frame"@[0]);
    assert("clear"@[0] != "watch"@[0]);
    assert("cls"@[0] != "run"@[0]);
    assert("cls"@[0] != "set"@[0]);
    assert("cls"@[1] != "cva"@[1]);
    assert("cls"@[0] != "ret"@[0]);
    assert("cls"@[0] != "add"@[0]);
    assert("cls"@[0] != "sub"@[0]);
    assert("cls"@[0] != "def"@[0]);
}


/// The command of a line typed while a 64-bit program is stopped.
pub fn stop_command_of(linev: &[&str]) -> (r: StopCmd)
    ensures
        linev@.len() == 0 ==> r == StopCmd::Empty,
        linev@.len() > 0 ==> r == stop_cmd_named(linev@[0]@),
{
    if linev.len() == 0 {
        return StopCmd::Empty;
    }
    let w = linev[0];
    if str_eq(w, "c") || str_eq(w, "continue") || str_eq(w, "run") {
        StopCmd::Continue
    } else if str_eq(w, "v") || str_eq(w, "value") {
        StopCmd::Value
    } else if str_eq(w, "deref") {
        StopCmd::Deref
    } else if str_eq(w, "set") {
        StopCmd::SetValue
    } else if str_eq(w, "setr") || str_eq(w, "setreg") {
        StopCmd::SetReg
    } else if str_eq(w, "setm") || str_eq(w, "setmemory") {
        StopCmd::SetMem
    } else if str_eq(w, "q") || str_eq(w, "quit") || str_eq(w, "break") || str_eq(w, "exit") {
        StopCmd::Quit
    } else if str_eq(w, "base-addr") || str_eq(w, "ba") {
        StopCmd::BaseAddr
    } else if str_eq(w, "b") || str_eq(w, "breakpoint") {
        StopCmd::Breakpoint
    } else if str_eq(w, "reset") {
        StopCmd::Reset
    } else if str_eq(w, "remove") {
        StopCmd::Remove
    } else if str_eq(w, "cva") {
        StopCmd::Cva
    } else if str_eq(w, "ret") {
        StopCmd::Ret
    } else if str_eq(w, "break-ret") || str_eq(w, "b-ret") {
        StopCmd::BreakRet
    } else if str_eq(w, "skip") {
        StopCmd::Skip
    } else if str_eq(w, "view") {
        StopCmd::View
    } else if str_eq(w, "disasm") {
        StopCmd::Disasm
    } else if str_eq(w, "s") {
        StopCmd::Symbol
    } else if str_eq(w, "symbol-address") || str_eq(w, "sym-address") || str_eq(w, "sym-addr") {
        StopCmd::SymAddr
    } else if str_eq(w, "backtrace") || str_eq(w, "frame") {
        StopCmd::Backtrace
    } else if str_eq(w, "sym-info") {
        StopCmd::SymInfo
    } else if str_eq(w, "add") {
        StopCmd::Add
    } else if str_eq(w, "sub") {
        StopCmd::Sub
    } else if str_eq(w, "watchpoint") || str_eq(w, "watch") || str_eq(w, "w") {
        StopCmd::Watchpoint
    } else if str_eq(w, "crva") {
        StopCmd::Crva
    } else if str_eq(w, "address-function") || str_eq(w, "address-func") || str_eq(w, "addr-func") {
        StopCmd::AddrFunc
    } else if str_eq(w, "symbol-local") || str_eq(w, "sym-local") {
        StopCmd::SymLocal
    } else if str_eq(w, "memory-info") || str_eq(w, "mem-info") {
        StopCmd::MemInfo
    } else if str_eq(w, "b-va") || str_eq(w, "break-va") {
        StopCmd::BreakVa
    } else if str_eq(w, "def") {
        StopCmd::Def
    } else if str_eq(w, "help") {
        StopCmd::Help
    } else if str_eq(w, "clear") || str_eq(w, "cls") {
        StopCmd::Clear
    } else {
        StopCmd::Unknown
    }
}

/// The commands of the prompt of a stopped 32-bit program.
#[derive(Debug, Clone, Copy, PartialEq, Eq, Structural)]
pub enum StopCmd32 {
    Continue,
    Value,
    Deref,
    Quit,
    BaseAddr,
    SetValue,
    /// `setr <register> <value>`.
    SetReg,
    /// `setm <type> <address> <values>`.
    SetMem,
    Breakpoint,
    RestoreBreakpoint,
    Reset,
    Remove,
    Cva,
    Ret,
    BreakRet,
    Skip,
    View,
    Help,
    Backtrace,
    Disasm,
    SymInfo,
    AddrFunc,
    SymLocal,
    MemInfo,
    Def,
    BreakVa,
    Add,
    Sub,
    Clear,
    /// A line without a word.
    Empty,
    /// A word that names no command.
    Unknown,
}

/// The command that the first word of a line names.
pub open spec fn stop_cmd32_named(w: Seq<char>) -> StopCmd32 {
    if w == "c"@ || w == "continue"@ || w == "run"@ {
        StopCmd32::Continue
    } else if w == "v"@ || w == "value"@ {
        StopCmd32::Value
    } else if w == "deref"@ {
        StopCmd32::Deref
    } else if w == "q"@ || w == "quit"@ || w == "break"@ {
        StopCmd32::Quit
    } else if w == "base-addr"@ || w == "ba"@ {
        StopCmd32::BaseAddr
    } else if w == "set"@ {
        StopCmd32::SetValue
    } else if w == "setr"@ || w == "setreg"@ {
        StopCmd32::SetReg
    } else if w == "setm"@ || w == "setmemory"@ {
        StopCmd32::SetMem
    } else if w == "b"@ || w == "breakpoint"@ {
        StopCmd32::Breakpoint
    } else if w == "rb"@ {
        StopCmd32::RestoreBreakpoint
    } else if w == "reset"@ {
        StopCmd32::Reset
    } else if w == "remove"@ {
        StopCmd32::Remove
    } else if w == "cva"@ {
        StopCmd32::Cva
    } else if w == "ret"@ {
        StopCmd32::Ret
    } else if w == "break-ret"@ || w == "b-ret"@ {
        StopCmd32::BreakRet
    } else if w == "skip"@ {
        StopCmd32::Skip
    } else if w == "view"@ {
        StopCmd32::View
    } else if w == "help"@ {
        StopCmd32::Help
    } else if w == "backtrace"@ || w == "frame"@ {
        StopCmd32::Backtrace
    } else if w == "disasm"@ {
        StopCmd32::Disasm
    } else if w == "sym-info"@ {
        StopCmd32::SymInfo
    } else if w == "address-function"@ || w == "address-func"@ || w == "addr-func"@ {
        StopCmd32::AddrFunc
    } else if w == "symbol-local"@ || w == "sym-local"@ {
        StopCmd32::SymLocal
    } else if w == "memory-info"@ || w == "mem-info"@ {
        StopCmd32::MemInfo
    } else if w == "def"@ {
        StopCmd32::Def
    } else if w == "b-va"@ || w == "break-va"@ {
        StopCmd32::BreakVa
    } else if w == "add"@ {
        StopCmd32::Add
    } else if w == "sub"@ {
        StopCmd32::Sub
    } else if w == "clear"@ || w == "cls"@ {
        StopCmd32::Clear
    } else {
        StopCmd32::Unknown
    }
}

/// Law: the first word of a line typed at the prompt of a stopped 32-bit program names
/// the command it says: `c`/`continue`/`run` gives `StopCmd32::Continue`; `v`/`value`
/// gives `StopCmd32::Value`; `deref` gives `StopCmd32::Deref`; `q`/`quit`/`break` gives
/// `StopCmd32::Quit`; `base-addr`/`ba` gives `StopCmd32::BaseAddr`; `set` gives
/// `StopCmd32::SetValue`; `setr`/`setreg` gives `StopCmd32::SetReg`; `setm`/`setmemory`
/// gives `StopCmd32::SetMem`; `b`/`breakpoint` gives `StopCmd32::Breakpoint`; `rb` gives
/// `StopCmd32::RestoreBreakpoint`; `reset` gives `StopCmd32::Reset`; `remove` gives
/// `StopCmd32::Remove`; `cva` gives `StopCmd32::Cva`; `ret` gives `StopCmd32::Ret`;
/// `break-ret`/`b-ret` gives `StopCmd32::BreakRet`; `skip` gives `StopCmd32::Skip`;
/// `view` gives `StopCmd32::View`; `help` gives `StopCmd32::Help`; `backtrace`/`frame`
/// gives `StopCmd32::Backtrace`; `disasm` gives `StopCmd32::Disasm`; `sym-info` gives
/// `StopCmd32::SymInfo`; `address-function`/`address-func`/`addr-func` gives
/// `StopCmd32::AddrFunc`; `symbol-local`/`sym-local` gives `StopCmd32::SymLocal`;
/// `memory-info`/`mem-info` gives `StopCmd32::MemInfo`; `def` gives `StopCmd32::Def`;
/// `b-va`/`break-va` gives `StopCmd32::BreakVa`; `add` gives `StopCmd32::Add`; `sub`
/// gives `StopCmd32::Sub`; `clear`/`cls` gives `StopCmd32::Clear`.
#[verifier::rlimit(80)]
pub proof fn lemma_stop_command32_names()
    ensures
        stop_cmd32_named("c"@) == StopCmd32::Continue,
        stop_cmd32_named("continue"@) == StopCmd32::Continue,
        stop_cmd32_named("run"@) == StopCmd32::Continue,
        stop_cmd32_named("v"@) == StopCmd32::Value,
        stop_cmd32_named("value"@) == StopCmd32::Value,
        stop_cmd32_named("deref"@) == StopCmd32::Deref,
        stop_cmd32_named("q"@) == StopCmd32::Quit,
        stop_cmd32_named("quit"@) == StopCmd32::Quit,
        stop_cmd32_named("break"@) == StopCmd32::Quit,
        stop_cmd32_named("base-addr"@) == StopCmd32::BaseAddr,
        stop_cmd32_named("ba"@) == StopCmd32::BaseAddr,
        stop_cmd32_named("set"@) == StopCmd32::SetValue,
        stop_cmd32_named("setr"@) == StopCmd32::SetReg,
        stop_cmd32_named("setreg"@) == StopCmd32::SetReg,
        stop_cmd32_named("setm"@) == StopCmd32::SetMem,
        stop_cmd32_named("setmemory"@) == StopCmd32::SetMem,
        stop_cmd32_named("b"@) == StopCmd32::Breakpoint,
        stop_cmd32_named("breakpoint"@) == StopCmd32::Breakpoint,
        stop_cmd32_named("rb"@) == StopCmd32::RestoreBreakpoint,
        stop_cmd32_named("reset"@) == StopCmd32::Reset,
        stop_cmd32_named("remove"@) == StopCmd32::Remove,
        stop_cmd32_named("cva"@) == StopCmd32::Cva,
        stop_cmd32_named("ret"@) == StopCmd32::Ret,
        stop_cmd32_named("break-ret"@) == StopCmd32::BreakRet,
        stop_cmd32_named("b-ret"@) == StopCmd32::BreakRet,
        stop_cmd32_named("skip"@) == StopCmd32::Skip,
        stop_cmd32_named("view"@) == StopCmd32::View,
        stop_cmd32_named("help"@) == StopCmd32::Help,
        stop_cmd32_named("backtrace"@) == StopCmd32::Backtrace,
        stop_cmd32_named("frame"@) == StopCmd32::Backtrace,
        stop_cmd32_named("disasm"@) == StopCmd32::Disasm,
        stop_cmd32_named("sym-info"@) == StopCmd32::SymInfo,
        stop_cmd32_named("address-function"@) == StopCmd32::AddrFunc,
        stop_cmd32_named("address-func"@) == StopCmd32::AddrFunc,
        stop_cmd32_named("addr-func"@) == StopCmd32::AddrFunc,
        stop_cmd32_named("symbol-local"@) == StopCmd32::SymLocal,
        stop_cmd32_named("sym-local"@) == StopCmd32::SymLocal,
        stop_cmd32_named("memory-info"@) == StopCmd32::MemInfo,
        stop_cmd32_named("mem-info"@) == StopCmd32::MemInfo,
        stop_cmd32_named("def"@) == StopCmd32::Def,
        stop_cmd32_named("b-va"@) == StopCmd32::BreakVa,
        stop_cmd32_named("break-va"@) == StopCmd32::BreakVa,
        stop_cmd32_named("add"@) == StopCmd32::Add,
        stop_cmd32_named("sub"@) == StopCmd32::Sub,
        stop_cmd32_named("clear"@) == StopCmd32::Clear,
        stop_cmd32_named("cls"@) == StopCmd32::Clear,
{
    reveal_strlit("c");
    assert("c"@.len() == 1);
    reveal_strlit("continue");
    assert("continue"@.len() == 8);
    reveal_strlit("run");
    assert("run"@.len() == 3);
    reveal_strlit("v");
    assert("v"@.len() == 1);
    reveal_strlit("value");
    assert("value"@.len() == 5);
    reveal_strlit("deref");
    assert("deref"@.len() == 5);
    reveal_strlit("q");
    assert("q"@.len() == 1);
    reveal_strlit("quit");
    assert("quit"@.len() == 4);
    reveal_strlit("break");
    assert("break"@.len() == 5);
    reveal_strlit("base-addr");
    assert("base-addr"@.len() == 9);
    reveal_strlit("ba");
    assert("ba"@.len() == 2);
    reveal_strlit("set");
    assert("set"@.len() == 3);
    reveal_strlit("setr");
    assert("setr"@.len() == 4);
    reveal_strlit("setreg");
    assert("setreg"@.len() == 6);
    reveal_strlit("setm");
    assert("setm"@.len() == 4);
    reveal_strlit("setmemory");
    assert("setmemory"@.len() == 9);
    reveal_strlit("b");
    assert("b"@.len() == 1);
    reveal_strlit("breakpoint");
    assert("breakpoint"@.len() == 10);
    reveal_strlit("rb");
    assert("rb"@.len() == 2);
    reveal_strlit("reset");
    assert("reset"@.len() == 5);
    reveal_strlit("remove");
    assert("remove"@.len() == 6);
    reveal_strlit("cva");
    assert("cva"@.len() == 3);
    reveal_strlit("ret");
    assert("ret"@.len() == 3);
    reveal_strlit("break-ret");
    assert("break-ret"@.len() == 9);
    reveal_strlit("b-ret");
    assert("b-ret"@.len() == 5);
    reveal_strlit("skip");
    assert("skip"@.len() == 4);
    reveal_strlit("view");
    assert("view"@.len() == 4);
    reveal_strlit("help");
    assert("help"@.len() == 4);
    reveal_strlit("backtrace");
    assert("backtrace"@.len() == 9);
    reveal_strlit("frame");
    assert("frame"@.len() == 5);
    reveal_strlit("disasm");
    assert("disasm"@.len() == 6);
    reveal_strlit("sym-info");
    assert("sym-info"@.len() == 8);
    reveal_strlit("address-function");
    assert("address-function"@.len() == 16);
    reveal_strlit("address-func");
    assert("address-func"@.len() == 12);
    reveal_strlit("addr-func");
    assert("addr-func"@.len() == 9);
    reveal_strlit("symbol-local");
    assert("symbol-local"@.len() == 12);
    reveal_strlit("sym-local");
    assert("sym-local"@.len() == 9);
    reveal_strlit("memory-info");
    assert("memory-info"@.len() == 11);
    reveal_strlit("mem-info");
    assert("mem-info"@.len() == 8);
    reveal_strlit("def");
    assert("def"@.len() == 3);
    reveal_strlit("b-va");
    assert("b-va"@.len() == 4);
    reveal_strlit("break-va");
    assert("break-va"@.len() == 8);
    reveal_strlit("add");
    assert("add"@.len() == 3);
    reveal_strlit("sub");
    assert("sub"@.len() == 3);
    reveal_strlit("clear");
    assert("clear"@.len() == 5);
    reveal_strlit("cls");
    assert("cls"@.len() == 3);
    assert("v"@[0] != "c"@[0]);
    assert("deref"@[0] != "value"@[0]);
    assert("q"@[0] != "c"@[0]);
    assert("q"@[0] != "v"@[0]);
    assert("break"@[0] != "value"@[0]);
    assert("break"@[0] != "deref"@[0]);
    assert("set"@[0] != "run"@[0]);
    assert("setr"@[0] != "quit"@[0]);
    assert("setm"@[0] != "quit"@[0]);
    assert("setm"@[3] != "setr"@[3]);
    assert("setmemory"@[0] != "base-addr"@[0]);
    assert("b"@[0] != "c"@[0]);
    assert("b"@[0] != "v"@[0]);
    assert("b"@[0] != "q"@[0]);
    assert("rb"@[0] != "ba"@[0]);
    assert("reset"@[0] != "value"@[0]);
    assert("reset"@[0] != "deref"@[0]);
    assert("reset"@[0] != "break"@[0]);
    assert("remove"@[0] != "setreg"@[0]);
    assert("cva"@[0] != "run"@[0]);
    assert("cva"@[0] != "set"@[0]);
    assert("ret"@[1] != "run"@[1]);
    assert("ret"@[0] != "set"@[0]);
    assert("ret"@[0] != "cva"@[0]);
    assert("break-ret"@[1] != "base-addr"@[1]);
    assert("break-ret"@[0] != "setmemory"@[0]);
    assert("b-ret"@[0] != "value"@[0]);
    assert("b-ret"@[0] != "deref"@[0]);
    assert("b-ret"@[1] != "break"@[1]);
    assert("b-ret"@[0] != "reset"@[0]);
    assert("skip"@[0] != "quit"@[0]);
    assert("skip"@[1] != "setr"@[1]);
    assert("skip"@[1] != "setm"@[1]);
    assert("view"@[0] != "quit"@[0]);
    assert("view"@[0] != "setr"@[0]);
    assert("view"@[0] != "setm"@[0]);
    assert("view"@[0] != "skip"@[0]);
    assert("help"@[0] != "quit"@[0]);
    assert("help"@[0] != "setr"@[0]);
    assert("help"@[0] != "setm"@[0]);
    assert("help"@[0] != "skip"@[0]);
    assert("help"@[0] != "view"@[0]);
    assert("backtrace"@[2] != "base-addr"@[2]);
    assert("backtrace"@[0] != "setmemory"@[0]);
    assert("backtrace"@[1] != "break-ret"@[1]);
    assert("frame"@[0] != "value"@[0]);
    assert("frame"@[0] != "deref"@[0]);
    assert("frame"@[0] != "break"@[0]);
    assert("frame"@[0] != "reset"@[0]);
    assert("frame"@[0] != "b-ret"@[0]);
    assert("disasm"@[0] != "setreg"@[0]);
    assert("disasm"@[0] != "remove"@[0]);
    assert("sym-info"@[0] != "continue"@[0]);
    assert("addr-func"@[0] != "base-addr"@[0]);
    assert("addr-func"@[0] != "setmemory"@[0]);
    assert("addr-func"@[0] != "break-ret"@[0]);
    assert("addr-func"@[0] != "backtrace"@[0]);
    assert("symbol-local"@[0] != "address-func"@[0]);
    assert("sym-local"@[0] != "base-addr"@[0]);
    assert("sym-local"@[1] != "setmemory"@[1]);
    assert("sym-local"@[0] != "break-ret"@[0]);
    assert("sym-local"@[0] != "backtrace"@[0]);
    assert("sym-local"@[0] != "addr-func"@[0]);
    assert("mem-info"@[0] != "continue"@[0]);
    assert("mem-info"@[0] != "sym-info"@[0]);
    assert("def"@[0] != "run"@[0]);
    assert("def"@[0] != "set"@[0]);
    assert("def"@[0] != "cva"@[0]);
    assert("def"@[0] != "ret"@[0]);
    assert("b-va"@[0] != "quit"@[0]);
    assert("b-va"@[0] != "setr"@[0]);
    assert("b-va"@[0] != "setm"@[0]);
    assert("b-va"@[0] != "skip"@[0]);
    assert("b-va"@[0] != "view"@[0]);
    assert("b-va"@[0] != "help"@[0]);
    assert("break-va"@[0] != "continue"@[0]);
    assert("break-va"@[0] != "sym-info"@[0]);
    assert("break-va"@[0] != "mem-info"@[0]);
    assert("add"@[0] != "run"@[0]);
    assert("add"@[0] != "set"@[0]);
    assert("add"@[0] != "cva"@[0]);
    assert("add"@[0] != "ret"@[0]);
    assert("add"@[0] != "def"@[0]);
    assert("sub"@[0] != "run"@[0]);
    assert("sub"@[1] != "set"@[1]);
    assert("sub"@[0] != "cva"@[0]);
    assert("sub"@[0] != "ret"@[0]);
    assert("sub"@[0] != "def"@[0]);
    assert("sub"@[0] != "add"@[0]);
    assert("clear"@[0] != "value"@[0]);
    assert("clear"@[0] != "deref"@[0]);
    assert("clear"@[0] != "break"@[0]);
    assert("clear"@[0] != "reset"@[0]);
    assert("clear"@[0] != "b-ret"@[0]);
    assert("clear"@[0] != "frame"@[0]);
    assert("cls"@[0] != "run"@[0]);
    assert("cls"@[0] != "set"@[0]);
    assert("cls"@[1] != "cva"@[1]);
    assert("cls"@[0] != "ret"@[0]);
    assert("cls"@[0] != "def"@[0]);
    assert("cls"@[0] != "add"@[0]);
    assert("cls"@[0] != "sub"@[0]);
}


/// The command of a line typed while a 32-bit program is stopped.
pub fn stop_command32_of(linev: &[&str]) -> (r: StopCmd32)
    ensures
        linev@.len() == 0 ==> r == StopCmd32::Empty,
        linev@.len() > 0 ==> r == stop_cmd32_named(linev@[0]@),
{
    if linev.len() == 0 {
        return StopCmd32::Empty;
    }
    let w = linev[0];
    if str_eq(w, "c") || str_eq(w, "continue") || str_eq(w, "run") {
        StopCmd32::Continue
    } else if str_eq(w, "v") || str_eq(w, "value") {
        StopCmd32::Value
    } else if str_eq(w, "deref") {
        StopCmd32::Deref
    } else if str_eq(w, "q") || str_eq(w, "quit") || str_eq(w, "break") {
        StopCmd32::Quit
    } else if str_eq(w, "base-addr") || str_eq(w, "ba") {
        StopCmd32::BaseAddr
    } else if str_eq(w, "set") {
        StopCmd32::SetValue
    } else if str_eq(w, "setr") || str_eq(w, "setreg") {
        StopCmd32::SetReg
    } else if str_eq(w, "setm") || str_eq(w, "setmemory") {
        StopCmd32::SetMem
    } else if str_eq(w, "b") || str_eq(w, "breakpoint") {
        StopCmd32::Breakpoint
    } else if str_eq(w, "rb") {
        StopCmd32::RestoreBreakpoint
    } else if str_eq(w, "reset") {
        StopCmd32::Reset
    } else if str_eq(w, "remove") {
        StopCmd32::Remove
    } else if str_eq(w, "cva") {
        StopCmd32::Cva
    } else if str_eq(w, "ret") {
        StopCmd32::Ret
    } else if str_eq(w, "break-ret") || str_eq(w, "b-ret") {
        StopCmd32::BreakRet
    } else if str_eq(w, "skip") {
        StopCmd32::Skip
    } else if str_eq(w, "view") {
        StopCmd32::View
    } else if str_eq(w, "help") {
        StopCmd32::Help
    } else if str_eq(w, "backtrace") || str_eq(w, "frame") {
        StopCmd32::Backtrace
    } else if str_eq(w, "disasm") {
        StopCmd32::Disasm
    } else if str_eq(w, "sym-info") {
        StopCmd32::SymInfo
    } else if str_eq(w, "address-function") || str_eq(w, "address-func") || str_eq(w, "addr-func") {
        StopCmd32::AddrFunc
    } else if str_eq(w, "symbol-local") || str_eq(w, "sym-local") {
        StopCmd32::SymLocal
    } else if str_eq(w, "memory-info") || str_eq(w, "mem-info") {
        StopCmd32::MemInfo
    } else if str_eq(w, "def") {
        StopCmd32::Def
    } else if str_eq(w, "b-va") || str_eq(w, "break-va") {
        StopCmd32::BreakVa
    } else if str_eq(w, "add") {
        StopCmd32::Add
    } else if str_eq(w, "sub") {
        StopCmd32::Sub
    } else if str_eq(w, "clear") || str_eq(w, "cls") {
        StopCmd32::Clear
    } else {
        StopCmd32::Unknown
    }
}


/// What `set <what> ...` changes in a stopped program.
#[derive(Debug, Clone, Copy, PartialEq, Eq, Structural)]
pub enum SetWhat {
    /// Fewer than three words.
    Usage,
    Memory,
    MemProtect,
    Register,
    /// The word names nothing that can be set.
    Unknown,
}

/// The part of the program that `set` changes (the second word, in any
/// case).
pub open spec fn set_what_named(w: Seq<char>) -> SetWhat {
    let l = crate::text::lower_seq(w);
    if l == "memory"@ || l == "mem"@ {
        SetWhat::Memory
    } else if l == "mem-protect"@ || l == "memory-protect"@ {
        SetWhat::MemProtect
    } else if l == "register"@ || l == "reg"@ {
        SetWhat::Register
    } else {
        SetWhat::Unknown
    }
}

/// Law: the word after `set` names what is set: `memory`/`mem` gives `SetWhat::Memory`;
/// `mem-protect`/`memory-protect` gives `SetWhat::MemProtect`; `register`/`reg` gives
/// `SetWhat::Register`.
pub proof fn lemma_set_what_names()
    ensures
        set_what_named("memory"@) == SetWhat::Memory,
        set_what_named("mem"@) == SetWhat::Memory,
        set_what_named("mem-protect"@) == SetWhat::MemProtect,
        set_what_named("memory-protect"@) == SetWhat::MemProtect,
        set_what_named("register"@) == SetWhat::Register,
        set_what_named("reg"@) == SetWhat::Register,
{
    reveal_strlit("memory");
    assert("memory"@.len() == 6);
    assert(crate::text::lower_seq("memory"@) =~= "memory"@);
    reveal_strlit("mem");
    assert("mem"@.len() == 3);
    assert(crate::text::lower_seq("mem"@) =~= "mem"@);
    reveal_strlit("mem-protect");
    assert("mem-protect"@.len() == 11);
    assert(crate::text::lower_seq("mem-protect"@) =~= "mem-protect"@);
    reveal_strlit("memory-protect");
    assert("memory-protect"@.len() == 14);
    assert(crate::text::lower_seq("memory-protect"@) =~= "memory-protect"@);
    reveal_strlit("register");
    assert("register"@.len() == 8);
    assert(crate::text::lower_seq("register"@) =~= "register"@);
    reveal_strlit("reg");
    assert("reg"@.len() == 3);
    assert(crate::text::lower_seq("reg"@) =~= "reg"@);
    assert("reg"@[0] != "mem"@[0]);
}


/// Reads `set <what> <target> <value...>` (see `set_what_named`).
pub fn set_what_of(linev: &[&str]) -> (r: SetWhat)
    ensures
        linev@.len() < 3 ==> r == SetWhat::Usage,
        linev@.len() >= 3 ==> r == set_what_named(linev@[1]@),
{
    if linev.len() < 3 {
        return SetWhat::Usage;
    }
    let l = crate::text::lowercase(&crate::text::chars_of(linev[1]));
    if crate::text::chars_eq_str(&l, "memory") || crate::text::chars_eq_str(&l, "mem") {
        SetWhat::Memory
    } else if crate::text::chars_eq_str(&l, "mem-protect") || crate::text::chars_eq_str(&l, "memory-protect") {
        SetWhat::MemProtect
    } else if crate::text::chars_eq_str(&l, "register") || crate::text::chars_eq_str(&l, "reg") {
        SetWhat::Register
    } else {
        SetWhat::Unknown
    }
}

/// What `def <what> ...` defines.
#[derive(Debug, Clone, Copy, PartialEq, Eq, Structural)]
pub enum DefWhat {
    /// Fewer than two words.
    Usage,
    Function,
    Struct,
    /// The word names nothing that can be defined.
    Unknown,
}

/// Reads `def <what> ...`.
pub fn def_what_of(linev: &[&str]) -> (r: DefWhat)
    ensures
        linev@.len() < 2 ==> r == DefWhat::Usage,
        linev@.len() >= 2 ==> r == if linev@[1]@ == "func"@ || linev@[1]@ == "function"@ {
            DefWhat::Function
        } else if linev@[1]@ == "struct"@ {
            DefWhat::Struct
        } else {
            DefWhat::Unknown
        },
{
    if linev.len() < 2 {
        return DefWhat::Usage;
    }
    if str_eq(linev[1], "func") || str_eq(linev[1], "function") {
        DefWhat::Function
    } else if str_eq(linev[1], "struct") {
        DefWhat::Struct
    } else {
        DefWhat::Unknown
    }
}


/// What `attach <target>` designates.
#[derive(Debug)]
pub enum AttachTarget {
    /// Fewer than two words.
    Usage,
    /// A process id.
    Pid(u32),
    /// The name of a process (a target in quotes, the quotes removed).
    Name(String),
    /// Neither a number nor a quoted name.
    Invalid,
}

/// Reads `attach <target>`: a number is a process id; a word holding a
/// double quote is a process name once its quotes are removed.
pub fn attach_target(linev: &[&str]) -> (r: AttachTarget)
    ensures
        linev@.len() < 2 ==> r is Usage,
        linev@.len() >= 2 ==> match str_to_spec(linev@[1]@, IntKind::U32) {
            Ok(v) => r matches AttachTarget::Pid(p) && p == v,
            Err(_) => if linev@[1]@.contains('"') {
                r matches AttachTarget::Name(n) && n@ == remove_char(linev@[1]@, '"')
            } else {
                r is Invalid
            },
        },
{
    if linev.len() < 2 {
        return AttachTarget::Usage;
    }
    match str_to_u32(linev[1]) {
        Ok(p) => AttachTarget::Pid(p),
        Err(_) => {
            let w = chars_of(linev[1]);
            let (n, rest) = count_and_remove(&w, '"');
            if n > 0 {
                proof {
                    lemma_count_contains(w@, '"');
                }
                AttachTarget::Name(string_from(&rest))
            } else {
                proof {
                    lemma_count_contains(w@, '"');
                }
                AttachTarget::Invalid
            }
        },
    }
}

/// A character occurs in `s` exactly when it is counted there.
proof fn lemma_count_contains(s: Seq<char>, c: char)
    ensures
        (count_char(s, c) > 0) == s.contains(c),
    decreases s.len(),
{
    if s.len() > 0 {
        lemma_count_contains(s.drop_last(), c);
        assert(s =~= s.drop_last().push(s.last()));
        if s.drop_last().contains(c) {
            let k = choose|k: int| 0 <= k < s.drop_last().len() && s.drop_last()[k] == c;
            assert(s[k] == c);
        }
        if s.contains(c) && s.last() != c {
            let k = choose|k: int| 0 <= k < s.len() && s[k] == c;
            assert(s.drop_last()[k] == c);
        }
    }
}

/// The path that `file <path>` gives: the line after its command word,
/// without double quotes or surrounding whitespace.
pub open spec fn file_path(line: Seq<char>) -> Seq<char> {
    trim(remove_char(line.skip(4), '"'))
}

/// See `file_path`; the line starts with the command word `file`.
pub fn file_path_of(line: &str) -> (r: String)
    requires
        line@.len() >= 4,
        line@.take(4) == "file"@,
    ensures
        r@ == file_path(line@),
{
    let c = chars_of(line);
    let tail = slice_vec(&c, 4, c.len());
    let (_, unquoted) = count_and_remove(&tail, '"');
    string_from(&trim_exec(&unquoted))
}

} // verus!
