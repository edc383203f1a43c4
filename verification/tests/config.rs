use lisadbg::cli::{All, CrtFunc, Hook};
use lisadbg::commands::{
    BreakList, BreakOutcome, HookOutcome, RemoveOutcome, RemoveProcOutcome, ResetKind, SkipOutcome,
    StOpOutcome,
    WatchOutcome,
};
use lisadbg::context::Context64;
use lisadbg::number::ParseError;
use lisadbg::pe::FuncEntry;
use lisadbg::symbol::{SymbolFile, SymbolType, Symbols};
use lisadbg::target::HookTargetError;
use lisadbg::watch::{CheckType, FlagTypeMem, WatchError, Watchpts};

fn sym(name: &str, offset: i64, size: usize) -> SymbolFile {
    SymbolFile {
        name: name.to_string(),
        offset,
        size,
        value_str: String::new(),
        types_e: String::new(),
        filename: String::new(),
        line: 0,
        register: 0,
    }
}

fn symbols() -> Symbols {
    Symbols {
        symbol_type: SymbolType::DWARF,
        symbol_file: vec![sym("main", 0x1450, 8), sym("counter", 0x3010, 4), sym("local", -16, 4)],
    }
}

#[test]
fn breakpoint_by_number_and_symbol() {
    let syms = symbols();
    let mut all = All::default();
    assert!(matches!(all.handle_breakpts(&["b", "0x1000"], &syms), BreakOutcome::Added(0x1000)));
    assert!(matches!(all.handle_breakpts(&["b", "main"], &syms), BreakOutcome::Added(0x1450)));
    assert_eq!(all.break_rva, vec![0x1000, 0x1450]);
}

#[test]
fn breakpoint_errors() {
    let syms = symbols();
    let mut all = All::default();
    assert!(matches!(all.handle_breakpts(&["b"], &syms), BreakOutcome::Usage));
    match all.handle_breakpts(&["b", "nothing"], &syms) {
        BreakOutcome::BadTarget(m) => assert_eq!(m, "\x1b[31minvalid target : nothing\x1b[0m"),
        o => panic!("{:?}", o),
    }
    match all.handle_breakpts(&["b", "local"], &syms) {
        BreakOutcome::BadTarget(m) => {
            assert_eq!(m, "\x1b[31mthe specified symbol cannot have a negative offset\x1b[0m")
        }
        o => panic!("{:?}", o),
    }
    assert!(all.break_rva.is_empty());
}

#[test]
fn breakpoint_set_twice_is_refused() {
    let mut all = All::default();
    assert!(matches!(all.handle_break_va(&["b-va", "0x401000"]), BreakOutcome::Added(0x401000)));
    assert!(matches!(
        all.handle_break_va(&["b-va", "0x401000"]),
        BreakOutcome::AlreadySet(0x401000)
    ));
    // a breakpoint in any list blocks the address for the others
    assert!(matches!(all.add_break(BreakList::Rva, 0x401000), BreakOutcome::AlreadySet(0x401000)));
    assert_eq!(all.break_va, vec![0x401000]);
    assert!(all.break_rva.is_empty());
}

#[test]
fn break_va_rejects_bad_numbers() {
    let mut all = All::default();
    assert!(matches!(
        all.handle_break_va(&["b-va", "zz"]),
        BreakOutcome::BadNumber(ParseError::InvalidDigit)
    ));
    assert!(matches!(all.handle_b_ret_va(&["b-ret-va"]), BreakOutcome::Usage));
    assert!(matches!(all.handle_b_ret_va(&["b-ret-va", "0x10"]), BreakOutcome::Added(0x10)));
    assert_eq!(all.break_ret_va, vec![0x10]);
}

#[test]
fn break_ret_with_absolute_flag() {
    let syms = symbols();
    let mut all = All::default();
    assert!(matches!(all.st_return(&["break-ret", "main"], &syms), BreakOutcome::Added(0x1450)));
    assert!(matches!(all.st_return(&["break-ret"], &syms), BreakOutcome::Usage));
    assert_eq!(all.break_ret, vec![0x1450]);
}

#[test]
fn add_then_remove_restores_configuration() {
    let syms = symbols();
    let mut all = All::default();
    all.break_rva.push(0x10);
    assert!(matches!(all.add_break(BreakList::Rva, 0x20), BreakOutcome::Added(0x20)));
    assert!(matches!(all.remove_element(&["remove", "b", "0x20"], &syms), RemoveOutcome::Removed));
    assert_eq!(all.break_rva, vec![0x10]);
}

#[test]
fn remove_outcomes() {
    let syms = symbols();
    let mut all = All::default();
    all.break_ret.push(0x1450);
    assert!(matches!(all.remove_element(&["remove", "b"], &syms), RemoveOutcome::Usage));
    assert!(matches!(all.remove_element(&["remove", "b", "0"], &syms), RemoveOutcome::InvalidTarget));
    assert!(matches!(all.remove_element(&["remove", "b", "unknown"], &syms), RemoveOutcome::InvalidTarget));
    match all.remove_element(&["remove", "B", "0x99"], &syms) {
        RemoveOutcome::NotValid(e) => assert_eq!(e, "b"),
        o => panic!("{:?}", o),
    }
    match all.remove_element(&["remove", "nothing", "0x99"], &syms) {
        RemoveOutcome::NotValid(e) => assert_eq!(e, "nothing"),
        o => panic!("{:?}", o),
    }
    assert!(matches!(all.remove_element(&["remove", "B-RET", "main"], &syms), RemoveOutcome::Removed));
    assert!(all.break_ret.is_empty());
}

#[test]
fn remove_hooks_and_definitions() {
    let syms = symbols();
    let mut all = All::default();
    all.hook.push(Hook { target: 0x10, replacen: 0x20 });
    all.hook.push(Hook { target: 0x30, replacen: 0x40 });
    all.hook.push(Hook { target: 0x10, replacen: 0x50 });
    assert!(matches!(all.remove_element(&["remove", "hook", "0x10"], &syms), RemoveOutcome::Removed));
    assert_eq!(all.hook, vec![Hook { target: 0x30, replacen: 0x40 }]);
    assert!(matches!(all.remove_element(&["remove", "def", "func"], &syms), RemoveOutcome::NoDefTarget));
    assert!(matches!(
        all.remove_element(&["remove", "def", "table", "x"], &syms),
        RemoveOutcome::UnknownDef
    ));
    assert!(matches!(
        all.remove_element(&["remove", "def", "struct", "x"], &syms),
        RemoveOutcome::DefRemoved
    ));
}

#[test]
fn hooks_are_recorded() {
    let syms = symbols();
    let mut all = All::default();
    assert_eq!(all.hook(&["hook", "0x10"], &syms), HookOutcome::Usage);
    assert_eq!(
        all.hook(&["hook", "main", "0x2000"], &syms),
        HookOutcome::Added(Hook { target: 0x1450, replacen: 0x2000 })
    );
    assert_eq!(
        all.hook(&["hook", "local", "0x2000"], &syms),
        HookOutcome::BadTarget(1, HookTargetError::LocalSymbol)
    );
    assert_eq!(
        all.hook(&["hook", "0x10", "what"], &syms),
        HookOutcome::BadTarget(2, HookTargetError::Invalid)
    );
    assert_eq!(all.hook, vec![Hook { target: 0x1450, replacen: 0x2000 }]);
}

#[test]
fn skip_needs_a_known_function() {
    let syms = symbols();
    let funcs = vec![FuncEntry { begin_address: 0x1450, end_address: 0x1500, unwind_data: 0 }];
    let mut all = All::default();
    assert!(matches!(all.skip(&["skip", "main"], &syms, &funcs), SkipOutcome::Added(0x1450)));
    assert!(matches!(all.skip(&["skip", "-a", "0x1460"], &syms, &funcs), SkipOutcome::UnknownFunction(0x1460)));
    assert!(matches!(all.skip(&["skip", "--address", "0x1450"], &syms, &funcs), SkipOutcome::Added(0x1450)));
    // without the flag the word is the name of a symbol
    match all.skip(&["skip", "0x1460"], &syms, &funcs) {
        SkipOutcome::BadTarget(m) => assert_eq!(m, "unknown symbol: '0x1460'"),
        o => panic!("{:?}", o),
    }
    assert!(matches!(all.skip(&["skip"], &syms, &funcs), SkipOutcome::Usage));
    assert_eq!(all.skip_addr, vec![0x1450, 0x1450]);
}

#[test]
fn reset_clears_the_named_list() {
    let mut all = All::default();
    all.break_rva.push(1);
    all.break_va.push(2);
    all.arg = Some("a b".to_string());
    assert_eq!(all.handle_reset(&["reset", "b"]), Some(ResetKind::Breakpoints));
    assert!(all.break_rva.is_empty());
    assert_eq!(all.break_va, vec![2]);
    assert_eq!(all.handle_reset(&["reset", "ARGS"]), Some(ResetKind::Args));
    assert_eq!(all.arg, None);
    assert_eq!(all.handle_reset(&["reset"]), None);
    assert_eq!(all.handle_reset(&["reset", "nothing"]), None);
    assert!(ResetKind::File.clears_symbols());
    assert!(!ResetKind::Hooks.clears_symbols());
}

#[test]
fn reset_twice_is_reset_once() {
    let mut all = All::default();
    all.hook.push(Hook { target: 1, replacen: 2 });
    all.break_va.push(5);
    all.apply_reset(ResetKind::All);
    let once = format!("{:?}", all);
    all.apply_reset(ResetKind::All);
    assert_eq!(format!("{:?}", all), once);
    assert!(all.hook.is_empty());
    assert!(all.break_va.is_empty());
}

#[test]
fn watchpoint_descriptions() {
    let syms = symbols();
    let mut all = All::default();
    assert!(matches!(all.watchpoint(&["watchpoint"], &syms), WatchOutcome::Usage));
    assert!(matches!(
        all.watchpoint(&["watchpoint", "0x3010", "--access=rw"], &syms),
        WatchOutcome::Added(1, true)
    ));
    let w = &all.watchpts[0];
    assert_eq!(w.offset, 0x3010);
    assert_eq!(w.flag_type_mem, FlagTypeMem::MemoryStatic);
    assert_eq!(w.check_type, vec![CheckType::R, CheckType::W]);
    assert_eq!(w.memory_size, 0);
    assert!(matches!(
        all.watchpoint(&["watchpoint", "counter", "--memory=STACK"], &syms),
        WatchOutcome::Added(2, true)
    ));
    assert_eq!(all.watchpts[1].offset, 0x3010);
    assert_eq!(all.watchpts[1].memory_size, 4);
    assert_eq!(all.watchpts[1].flag_type_mem, FlagTypeMem::Stack);
}

#[test]
fn watchpoint_refusals() {
    let syms = symbols();
    let mut all = All::default();
    match all.watchpoint(&["watchpoint", "1", "--memory=heap"], &syms) {
        WatchOutcome::Refused(WatchError::InvalidMemoryType(m)) => assert_eq!(m, "heap"),
        o => panic!("{:?}", o),
    }
    assert!(matches!(
        all.watchpoint(&["watchpoint", "1", "--access=rq"], &syms),
        WatchOutcome::Refused(WatchError::InvalidAccess('q'))
    ));
    assert!(matches!(
        all.watchpoint(&["watchpoint", "1", "--access=ww"], &syms),
        WatchOutcome::Refused(WatchError::DuplicateAccess(CheckType::W))
    ));
    assert!(matches!(
        all.watchpoint(&["watchpoint", "1", "--size"], &syms),
        WatchOutcome::Refused(WatchError::MissingSize)
    ));
    assert!(matches!(
        all.watchpoint(&["watchpoint", "--memory=stack"], &syms),
        WatchOutcome::Refused(WatchError::MissingOffset)
    ));
    assert!(all.watchpts.is_empty());
}

#[test]
fn at_most_four_watchpoints() {
    let syms = symbols();
    let mut all = All::default();
    for (i, off) in ["1", "2", "3", "4"].iter().enumerate() {
        assert!(matches!(all.watchpoint(&["watchpoint", off], &syms), WatchOutcome::Added(n, true) if n == i + 1));
    }
    assert!(matches!(all.watchpoint(&["watchpoint", "5"], &syms), WatchOutcome::Full));
    assert_eq!(all.watchpts.len(), 4);
}

#[test]
fn arguments_are_the_rest_of_the_line() {
    let mut all = All::default();
    assert!(all.set_argument(&["arg", "one", "two"], "arg one two"));
    assert_eq!(all.arg.as_deref(), Some(" one two"));
    // every occurrence of the command word goes
    assert!(all.set_argument(&["arg", "target"], "arg target"));
    assert_eq!(all.arg.as_deref(), Some(" tet"));
    assert!(!all.set_argument(&["arg"], "arg"));
}

fn func(name: &str, ret_value: u64) -> CrtFunc {
    CrtFunc { name: name.to_string(), ret_value, address: 0 }
}

#[test]
fn remove_crt_func_drops_the_functions_of_that_name() {
    let syms = symbols();
    let mut all = All::default();
    all.crt_func.push(func("test1", 1));
    all.crt_func.push(func("test2", 2));
    all.crt_func.push(func("test3", 3));
    all.crt_func.push(func("test2", 4));
    all.break_rva.push(0x20);
    assert!(matches!(all.remove_element(&["remove", "crt-func", "test2"], &syms), RemoveOutcome::Removed));
    let names: Vec<&str> = all.crt_func.iter().map(|f| f.name.as_str()).collect();
    assert_eq!(names, vec!["test1", "test3"]);
    assert_eq!(all.break_rva, vec![0x20]);
}

#[test]
fn reset_watch_and_crt_func_empty_their_lists() {
    let syms = symbols();
    let mut all = All::default();
    all.watchpts.push(Watchpts::from_str("0x2000", &syms).unwrap());
    all.crt_func.push(func("f", 1));
    all.break_rva.push(1);
    assert_eq!(all.handle_reset(&["reset", "watch"]), Some(ResetKind::Watchpoints));
    assert!(all.watchpts.is_empty());
    assert_eq!(all.crt_func.len(), 1);
    assert_eq!(all.handle_reset(&["reset", "crt-func"]), Some(ResetKind::CrtFuncs));
    assert!(all.crt_func.is_empty());
    assert_eq!(all.break_rva, vec![1]);
}

#[test]
fn the_value_after_size_is_never_the_offset() {
    let syms = symbols();
    let a = Watchpts::from_str("--size 2 0x2000", &syms).unwrap();
    let b = Watchpts::from_str("0x2000 --size 2", &syms).unwrap();
    assert_eq!(a.offset, 0x2000);
    assert_eq!(a.memory_size, 2);
    assert_eq!(b.offset, 0x2000);
    assert_eq!(b.memory_size, 2);
    assert_eq!(a.flag_type_mem, b.flag_type_mem);
    assert_eq!(a.check_type, b.check_type);
    assert!(matches!(Watchpts::from_str("--size 2", &syms), Err(WatchError::MissingOffset)));
}

#[test]
fn dskip_and_dret_drop_every_occurrence() {
    let syms = symbols();
    let mut all = All::default();
    all.skip_addr = vec![0x1450, 0x20, 0x1450];
    all.break_ret = vec![0x30, 0x1450];
    assert_eq!(all.dskip(&["dskip", "main"], &syms), StOpOutcome::Retained(0x1450));
    assert_eq!(all.skip_addr, vec![0x20]);
    assert_eq!(all.break_ret, vec![0x30, 0x1450]);
    assert_eq!(all.dret(&["dret", "0x30"], &syms), StOpOutcome::Retained(0x30));
    assert_eq!(all.break_ret, vec![0x1450]);
    assert_eq!(all.dret(&["dret", "nothing"], &syms), StOpOutcome::InvalidTarget);
    assert_eq!(all.dret(&["dret"], &syms), StOpOutcome::Usage);
    assert_eq!(all.process_st_operation(&["x", "0x1450"], BreakList::Ret, &syms), StOpOutcome::Retained(0x1450));
    assert!(all.break_ret.is_empty());
}

#[test]
fn remove_crt_func_while_running() {
    let syms = symbols();
    let mut all = All::default();
    all.crt_func.push(func("a", 1));
    all.crt_func.push(func("b", 2));
    let mut c = Context64::zeroed();
    let before = c;
    assert_eq!(
        all.remove_element_proc(&["remove", "crt-func", "a"], &mut c, &syms, &Vec::new(), 0),
        RemoveProcOutcome::FuncsRemoved
    );
    let names: Vec<&str> = all.crt_func.iter().map(|f| f.name.as_str()).collect();
    assert_eq!(names, vec!["b"]);
    assert_eq!(c, before);
}
