//! Which help text the `help` commands show.

use vstd::prelude::*;
use crate::text::{str_eq, string_of};

verus! {

/// The help texts of the commands available before a run.
#[derive(Debug)]
pub enum Topic {
    /// The list of all commands.
    All,
    Breakpoint,
    File,
    Run,
    Reset,
    Remove,
    Quit,
    Symbol,
    BRet,
    Skip,
    Hook,
    CreateFunc,
    View,
    Watchpoint,
    SymInfo,
    Args,
    HelpC,
    Help,
    /// No command has this name.
    Undefined(String),
}

/// The topic that the name of a command designates.
pub open spec fn topic_named(n: Seq<char>) -> Option<Topic> {
    if n == "breakpoint"@ || n == "b"@ {
        Some(Topic::Breakpoint)
    } else if n == "file"@ {
        Some(Topic::File)
    } else if n == "run"@ {
        Some(Topic::Run)
    } else if n == "reset"@ {
        Some(Topic::Reset)
    } else if n == "remove"@ {
        Some(Topic::Remove)
    } else if n == "quit"@ || n == "q"@ || n == "exit"@ {
        Some(Topic::Quit)
    } else if n == "symbol"@ || n == "sym"@ || n == "s"@ {
        Some(Topic::Symbol)
    } else if n == "b-ret"@ {
        Some(Topic::BRet)
    } else if n == "skip"@ {
        Some(Topic::Skip)
    } else if n == "hook"@ || n == "ho"@ {
        Some(Topic::Hook)
    } else if n == "create-func"@ || n == "crt-func"@ {
        Some(Topic::CreateFunc)
    } else if n == "view"@ {
        Some(Topic::View)
    } else if n == "watchpoint"@ || n == "watch"@ || n == "w"@ {
        Some(Topic::Watchpoint)
    } else if n == "sym-info"@ {
        Some(Topic::SymInfo)
    } else if n == "args"@ || n == "argc"@ || n == "argv"@ || n == "arg"@ {
        Some(Topic::Args)
    } else if n == "help-c"@ {
        Some(Topic::HelpC)
    } else if n == "help"@ {
        Some(Topic::Help)
    } else {
        None
    }
}

/// Law: each help topic name designates the topic it names: `breakpoint`/`b` gives
/// `Some(Topic::Breakpoint)`; `file` gives `Some(Topic::File)`; `run` gives
/// `Some(Topic::Run)`; `reset` gives `Some(Topic::Reset)`; `remove` gives
/// `Some(Topic::Remove)`; `quit`/`q`/`exit` gives `Some(Topic::Quit)`; `symbol`/`sym`/`s`
/// gives `Some(Topic::Symbol)`; `b-ret` gives `Some(Topic::BRet)`; `skip` gives
/// `Some(Topic::Skip)`; `hook`/`ho` gives `Some(Topic::Hook)`; `create-func`/`crt-func`
/// gives `Some(Topic::CreateFunc)`; `view` gives `Some(Topic::View)`;
/// `watchpoint`/`watch`/`w` gives `Some(Topic::Watchpoint)`; `sym-info` gives
/// `Some(Topic::SymInfo)`; `args`/`argc`/`argv`/`arg` gives `Some(Topic::Args)`; `help-c`
/// gives `Some(Topic::HelpC)`; `help` gives `Some(Topic::Help)`.
pub proof fn lemma_topic_names()
    ensures
        topic_named("breakpoint"@) == Some(Topic::Breakpoint),
        topic_named("b"@) == Some(Topic::Breakpoint),
        topic_named("file"@) == Some(Topic::File),
        topic_named("run"@) == Some(Topic::Run),
        topic_named("reset"@) == Some(Topic::Reset),
        topic_named("remove"@) == Some(Topic::Remove),
        topic_named("quit"@) == Some(Topic::Quit),
        topic_named("q"@) == Some(Topic::Quit),
        topic_named("exit"@) == Some(Topic::Quit),
        topic_named("symbol"@) == Some(Topic::Symbol),
        topic_named("sym"@) == Some(Topic::Symbol),
        topic_named("s"@) == Some(Topic::Symbol),
        topic_named("b-ret"@) == Some(Topic::BRet),
        topic_named("skip"@) == Some(Topic::Skip),
        topic_named("hook"@) == Some(Topic::Hook),
        topic_named("ho"@) == Some(Topic::Hook),
        topic_named("create-func"@) == Some(Topic::CreateFunc),
        topic_named("crt-func"@) == Some(Topic::CreateFunc),
        topic_named("view"@) == Some(Topic::View),
        topic_named("watchpoint"@) == Some(Topic::Watchpoint),
        topic_named("watch"@) == Some(Topic::Watchpoint),
        topic_named("w"@) == Some(Topic::Watchpoint),
        topic_named("sym-info"@) == Some(Topic::SymInfo),
        topic_named("args"@) == Some(Topic::Args),
        topic_named("argc"@) == Some(Topic::Args),
        topic_named("argv"@) == Some(Topic::Args),
        topic_named("arg"@) == Some(Topic::Args),
        topic_named("help-c"@) == Some(Topic::HelpC),
        topic_named("help"@) == Some(Topic::Help),
{
    reveal_strlit("breakpoint");
    assert("breakpoint"@.len() == 10);
    reveal_strlit("b");
    assert("b"@.len() == 1);
    reveal_strlit("file");
    assert("file"@.len() == 4);
    reveal_strlit("run");
    assert("run"@.len() == 3);
    reveal_strlit("reset");
    assert("reset"@.len() == 5);
    reveal_strlit("remove");
    assert("remove"@.len() == 6);
    reveal_strlit("quit");
    assert("quit"@.len() == 4);
    reveal_strlit("q");
    assert("q"@.len() == 1);
    reveal_strlit("exit");
    assert("exit"@.len() == 4);
    reveal_strlit("symbol");
    assert("symbol"@.len() == 6);
    reveal_strlit("sym");
    assert("sym"@.len() == 3);
    reveal_strlit("s");
    assert("s"@.len() == 1);
    reveal_strlit("b-ret");
    assert("b-ret"@.len() == 5);
    reveal_strlit("skip");
    assert("skip"@.len() == 4);
    reveal_strlit("hook");
    assert("hook"@.len() == 4);
    reveal_strlit("ho");
    assert("ho"@.len() == 2);
    reveal_strlit("create-func");
    assert("create-func"@.len() == 11);
    reveal_strlit("crt-func");
    assert("crt-func"@.len() == 8);
    reveal_strlit("view");
    assert("view"@.len() == 4);
    reveal_strlit("watchpoint");
    assert("watchpoint"@.len() == 10);
    reveal_strlit("watch");
    assert("watch"@.len() == 5);
    reveal_strlit("w");
    assert("w"@.len() == 1);
    reveal_strlit("sym-info");
    assert("sym-info"@.len() == 8);
    reveal_strlit("args");
    assert("args"@.len() == 4);
    reveal_strlit("argc");
    assert("argc"@.len() == 4);
    reveal_strlit("argv");
    assert("argv"@.len() == 4);
    reveal_strlit("arg");
    assert("arg"@.len() == 3);
    reveal_strlit("help-c");
    assert("help-c"@.len() == 6);
    reveal_strlit("help");
    assert("help"@.len() == 4);
    assert("quit"@[0] != "file"@[0]);
    assert("q"@[0] != "b"@[0]);
    assert("exit"@[0] != "file"@[0]);
    assert("symbol"@[0] != "remove"@[0]);
    assert("sym"@[0] != "run"@[0]);
    assert("s"@[0] != "b"@[0]);
    assert("s"@[0] != "q"@[0]);
    assert("b-ret"@[0] != "reset"@[0]);
    assert("skip"@[0] != "file"@[0]);
    assert("skip"@[0] != "quit"@[0]);
    assert("skip"@[0] != "exit"@[0]);
    assert("hook"@[0] != "file"@[0]);
    assert("hook"@[0] != "quit"@[0]);
    assert("hook"@[0] != "exit"@[0]);
    assert("hook"@[0] != "skip"@[0]);
    assert("view"@[0] != "file"@[0]);
    assert("view"@[0] != "quit"@[0]);
    assert("view"@[0] != "exit"@[0]);
    assert("view"@[0] != "skip"@[0]);
    assert("view"@[0] != "hook"@[0]);
    assert("watchpoint"@[0] != "breakpoint"@[0]);
    assert("watch"@[0] != "reset"@[0]);
    assert("watch"@[0] != "b-ret"@[0]);
    assert("w"@[0] != "b"@[0]);
    assert("w"@[0] != "q"@[0]);
    assert("w"@[0] != "s"@[0]);
    assert("sym-info"@[0] != "crt-func"@[0]);
    assert("args"@[0] != "file"@[0]);
    assert("args"@[0] != "quit"@[0]);
    assert("args"@[0] != "exit"@[0]);
    assert("args"@[0] != "skip"@[0]);
    assert("args"@[0] != "hook"@[0]);
    assert("args"@[0] != "view"@[0]);
    assert("argc"@[0] != "file"@[0]);
    assert("argc"@[0] != "quit"@[0]);
    assert("argc"@[0] != "exit"@[0]);
    assert("argc"@[0] != "skip"@[0]);
    assert("argc"@[0] != "hook"@[0]);
    assert("argc"@[0] != "view"@[0]);
    assert("argv"@[0] != "file"@[0]);
    assert("argv"@[0] != "quit"@[0]);
    assert("argv"@[0] != "exit"@[0]);
    assert("argv"@[0] != "skip"@[0]);
    assert("argv"@[0] != "hook"@[0]);
    assert("argv"@[0] != "view"@[0]);
    assert("arg"@[0] != "run"@[0]);
    assert("arg"@[0] != "sym"@[0]);
    assert("help-c"@[0] != "remove"@[0]);
    assert("help-c"@[0] != "symbol"@[0]);
    assert("help"@[0] != "file"@[0]);
    assert("help"@[0] != "quit"@[0]);
    assert("help"@[0] != "exit"@[0]);
    assert("help"@[0] != "skip"@[0]);
    assert("help"@[1] != "hook"@[1]);
    assert("help"@[0] != "view"@[0]);
    assert("help"@[0] != "args"@[0]);
    assert("help"@[0] != "argc"@[0]);
    assert("help"@[0] != "argv"@[0]);
}


/// `help [<command>]`: the whole list without a name or with `all`, else
/// the help of the named command.
pub fn help(linev: &[&str]) -> (r: Topic)
    ensures
        linev@.len() < 2 || linev@[1]@ == "all"@ ==> r == Topic::All,
        !(linev@.len() < 2 || linev@[1]@ == "all"@) ==> match topic_named(linev@[1]@) {
            Some(t) => r == t,
            None => r matches Topic::Undefined(n) && n@ == linev@[1]@,
        },
{
    if linev.len() < 2 || str_eq(linev[1], "all") {
        return Topic::All;
    }
    let n = linev[1];
    if str_eq(n, "breakpoint") || str_eq(n, "b") {
        Topic::Breakpoint
    } else if str_eq(n, "file") {
        Topic::File
    } else if str_eq(n, "run") {
        Topic::Run
    } else if str_eq(n, "reset") {
        Topic::Reset
    } else if str_eq(n, "remove") {
        Topic::Remove
    } else if str_eq(n, "quit") || str_eq(n, "q") || str_eq(n, "exit") {
        Topic::Quit
    } else if str_eq(n, "symbol") || str_eq(n, "sym") || str_eq(n, "s") {
        Topic::Symbol
    } else if str_eq(n, "b-ret") {
        Topic::BRet
    } else if str_eq(n, "skip") {
        Topic::Skip
    } else if str_eq(n, "hook") || str_eq(n, "ho") {
        Topic::Hook
    } else if str_eq(n, "create-func") || str_eq(n, "crt-func") {
        Topic::CreateFunc
    } else if str_eq(n, "view") {
        Topic::View
    } else if str_eq(n, "watchpoint") || str_eq(n, "watch") || str_eq(n, "w") {
        Topic::Watchpoint
    } else if str_eq(n, "sym-info") {
        Topic::SymInfo
    } else if str_eq(n, "args") || str_eq(n, "argc") || str_eq(n, "argv") || str_eq(n, "arg") {
        Topic::Args
    } else if str_eq(n, "help-c") {
        Topic::HelpC
    } else if str_eq(n, "help") {
        Topic::Help
    } else {
        Topic::Undefined(string_of(n))
    }
}

/// The help texts of the commands available at a breakpoint.
#[derive(Debug, Clone, Copy, PartialEq, Eq, Structural)]
pub enum StopTopic {
    /// The list of all commands.
    All,
    Continue,
    Value,
    Symbol,
    Deref,
    SetReg,
    SetMem,
    Breakpoint,
    Reset,
    Cva,
    Skip,
    BRet,
    View,
    SymAddr,
    Disasm,
    Backtrace,
    SymInfo,
    Help,
    /// Nothing is shown for this name.
    Nothing,
}

/// The topic that a command name designates at a breakpoint.
pub open spec fn stop_topic_named(n: Seq<char>) -> StopTopic {
    if n == "c"@ || n == "continue"@ || n == "run"@ {
        StopTopic::Continue
    } else if n == "v"@ || n == "value"@ {
        StopTopic::Value
    } else if n == "s"@ || n == "symbol"@ {
        StopTopic::Symbol
    } else if n == "deref"@ {
        StopTopic::Deref
    } else if n == "setr"@ || n == "setreg"@ {
        StopTopic::SetReg
    } else if n == "setm"@ || n == "setmemory"@ {
        StopTopic::SetMem
    } else if n == "b"@ || n == "breakpoint"@ {
        StopTopic::Breakpoint
    } else if n == "reset"@ {
        StopTopic::Reset
    } else if n == "cva"@ {
        StopTopic::Cva
    } else if n == "skip"@ {
        StopTopic::Skip
    } else if n == "break-ret"@ || n == "b-ret"@ {
        StopTopic::BRet
    } else if n == "view"@ {
        StopTopic::View
    } else if n == "sym-addr"@ || n == "sym-address"@ {
        StopTopic::SymAddr
    } else if n == "disasm"@ {
        StopTopic::Disasm
    } else if n == "backtrace"@ || n == "frame"@ {
        StopTopic::Backtrace
    } else if n == "sym-info"@ {
        StopTopic::SymInfo
    } else if n == "help"@ {
        StopTopic::Help
    } else {
        StopTopic::Nothing
    }
}

/// Law: each help topic name at a stopped program designates the topic it names:
/// `c`/`continue`/`run` gives `StopTopic::Continue`; `v`/`value` gives
/// `StopTopic::Value`; `s`/`symbol` gives `StopTopic::Symbol`; `deref` gives
/// `StopTopic::Deref`; `setr`/`setreg` gives `StopTopic::SetReg`; `setm`/`setmemory`
/// gives `StopTopic::SetMem`; `b`/`breakpoint` gives `StopTopic::Breakpoint`; `reset`
/// gives `StopTopic::Reset`; `cva` gives `StopTopic::Cva`; `skip` gives
/// `StopTopic::Skip`; `break-ret`/`b-ret` gives `StopTopic::BRet`; `view` gives
/// `StopTopic::View`; `sym-addr`/`sym-address` gives `StopTopic::SymAddr`; `disasm` gives
/// `StopTopic::Disasm`; `backtrace`/`frame` gives `StopTopic::Backtrace`; `sym-info`
/// gives `StopTopic::SymInfo`; `help` gives `StopTopic::Help`.
pub proof fn lemma_stop_topic_names()
    ensures
        stop_topic_named("c"@) == StopTopic::Continue,
        stop_topic_named("continue"@) == StopTopic::Continue,
        stop_topic_named("run"@) == StopTopic::Continue,
        stop_topic_named("v"@) == StopTopic::Value,
        stop_topic_named("value"@) == StopTopic::Value,
        stop_topic_named("s"@) == StopTopic::Symbol,
        stop_topic_named("symbol"@) == StopTopic::Symbol,
        stop_topic_named("deref"@) == StopTopic::Deref,
        stop_topic_named("setr"@) == StopTopic::SetReg,
        stop_topic_named("setreg"@) == StopTopic::SetReg,
        stop_topic_named("setm"@) == StopTopic::SetMem,
        stop_topic_named("setmemory"@) == StopTopic::SetMem,
        stop_topic_named("b"@) == StopTopic::Breakpoint,
        stop_topic_named("breakpoint"@) == StopTopic::Breakpoint,
        stop_topic_named("reset"@) == StopTopic::Reset,
        stop_topic_named("cva"@) == StopTopic::Cva,
        stop_topic_named("skip"@) == StopTopic::Skip,
        stop_topic_named("break-ret"@) == StopTopic::BRet,
        stop_topic_named("b-ret"@) == StopTopic::BRet,
        stop_topic_named("view"@) == StopTopic::View,
        stop_topic_named("sym-addr"@) == StopTopic::SymAddr,
        stop_topic_named("sym-address"@) == StopTopic::SymAddr,
        stop_topic_named("disasm"@) == StopTopic::Disasm,
        stop_topic_named("backtrace"@) == StopTopic::Backtrace,
        stop_topic_named("frame"@) == StopTopic::Backtrace,
        stop_topic_named("sym-info"@) == StopTopic::SymInfo,
        stop_topic_named("help"@) == StopTopic::Help,
{
    reveal_strlit("c");
    assert("c"@.len() == 1);
    reveal_strlit("continue");
    assert("continue"@.len() == 8);
    reveal_strlit("run");
    assert("run"@.len() == 3);
    reveal_strlit("v");
    assert("v"@.len() == 1);
    reveal_strlit("value");
    assert("value"@.len() == 5);
    reveal_strlit("s");
    assert("s"@.len() == 1);
    reveal_strlit("symbol");
    assert("symbol"@.len() == 6);
    reveal_strlit("deref");
    assert("deref"@.len() == 5);
    reveal_strlit("setr");
    assert("setr"@.len() == 4);
    reveal_strlit("setreg");
    assert("setreg"@.len() == 6);
    reveal_strlit("setm");
    assert("setm"@.len() == 4);
    reveal_strlit("setmemory");
    assert("setmemory"@.len() == 9);
    reveal_strlit("b");
    assert("b"@.len() == 1);
    reveal_strlit("breakpoint");
    assert("breakpoint"@.len() == 10);
    reveal_strlit("reset");
    assert("reset"@.len() == 5);
    reveal_strlit("cva");
    assert("cva"@.len() == 3);
    reveal_strlit("skip");
    assert("skip"@.len() == 4);
    reveal_strlit("break-ret");
    assert("break-ret"@.len() == 9);
    reveal_strlit("b-ret");
    assert("b-ret"@.len() == 5);
    reveal_strlit("view");
    assert("view"@.len() == 4);
    reveal_strlit("sym-addr");
    assert("sym-addr"@.len() == 8);
    reveal_strlit("sym-address");
    assert("sym-address"@.len() == 11);
    reveal_strlit("disasm");
    assert("disasm"@.len() == 6);
    reveal_strlit("backtrace");
    assert("backtrace"@.len() == 9);
    reveal_strlit("frame");
    assert("frame"@.len() == 5);
    reveal_strlit("sym-info");
    assert("sym-info"@.len() == 8);
    reveal_strlit("help");
    assert("help"@.len() == 4);
    assert("v"@[0] != "c"@[0]);
    assert("s"@[0] != "c"@[0]);
    assert("s"@[0] != "v"@[0]);
    assert("deref"@[0] != "value"@[0]);
    assert("setreg"@[1] != "symbol"@[1]);
    assert("setm"@[3] != "setr"@[3]);
    assert("b"@[0] != "c"@[0]);
    assert("b"@[0] != "v"@[0]);
    assert("b"@[0] != "s"@[0]);
    assert("reset"@[0] != "value"@[0]);
    assert("reset"@[0] != "deref"@[0]);
    assert("cva"@[0] != "run"@[0]);
    assert("skip"@[1] != "setr"@[1]);
    assert("skip"@[1] != "setm"@[1]);
    assert("break-ret"@[0] != "setmemory"@[0]);
    assert("b-ret"@[0] != "value"@[0]);
    assert("b-ret"@[0] != "deref"@[0]);
    assert("b-ret"@[0] != "reset"@[0]);
    assert("view"@[0] != "setr"@[0]);
    assert("view"@[0] != "setm"@[0]);
    assert("view"@[0] != "skip"@[0]);
    assert("sym-addr"@[0] != "continue"@[0]);
    assert("disasm"@[0] != "symbol"@[0]);
    assert("disasm"@[0] != "setreg"@[0]);
    assert("backtrace"@[0] != "setmemory"@[0]);
    assert("backtrace"@[1] != "break-ret"@[1]);
    assert("frame"@[0] != "value"@[0]);
    assert("frame"@[0] != "deref"@[0]);
    assert("frame"@[0] != "reset"@[0]);
    assert("frame"@[0] != "b-ret"@[0]);
    assert("sym-info"@[0] != "continue"@[0]);
    assert("sym-info"@[4] != "sym-addr"@[4]);
    assert("help"@[0] != "setr"@[0]);
    assert("help"@[0] != "setm"@[0]);
    assert("help"@[0] != "skip"@[0]);
    assert("help"@[0] != "view"@[0]);
}


/// `help [<command>]` at a breakpoint: the list of commands for a command
/// of one word, else the help of the named command.
pub fn stop_help(linev: &[&str]) -> (r: StopTopic)
    requires
        linev@.len() >= 1,
    ensures
        linev@.len() == 1 ==> r == StopTopic::All,
        linev@.len() >= 2 ==> r == stop_topic_named(linev@[1]@),
{
    if linev.len() == 1 {
        return StopTopic::All;
    }
    let n = linev[1];
    if str_eq(n, "c") || str_eq(n, "continue") || str_eq(n, "run") {
        StopTopic::Continue
    } else if str_eq(n, "v") || str_eq(n, "value") {
        StopTopic::Value
    } else if str_eq(n, "s") || str_eq(n, "symbol") {
        StopTopic::Symbol
    } else if str_eq(n, "deref") {
        StopTopic::Deref
    } else if str_eq(n, "setr") || str_eq(n, "setreg") {
        StopTopic::SetReg
    } else if str_eq(n, "setm") || str_eq(n, "setmemory") {
        StopTopic::SetMem
    } else if str_eq(n, "b") || str_eq(n, "breakpoint") {
        StopTopic::Breakpoint
    } else if str_eq(n, "reset") {
        StopTopic::Reset
    } else if str_eq(n, "cva") {
        StopTopic::Cva
    } else if str_eq(n, "skip") {
        StopTopic::Skip
    } else if str_eq(n, "break-ret") || str_eq(n, "b-ret") {
        StopTopic::BRet
    } else if str_eq(n, "view") {
        StopTopic::View
    } else if str_eq(n, "sym-addr") || str_eq(n, "sym-address") {
        StopTopic::SymAddr
    } else if str_eq(n, "disasm") {
        StopTopic::Disasm
    } else if str_eq(n, "backtrace") || str_eq(n, "frame") {
        StopTopic::Backtrace
    } else if str_eq(n, "sym-info") {
        StopTopic::SymInfo
    } else if str_eq(n, "help") {
        StopTopic::Help
    } else {
        StopTopic::Nothing
    }
}

} // verus!
