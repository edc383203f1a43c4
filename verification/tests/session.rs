use lisadbg::events::{debug_step, DebugEvent, LoopAction, LoopState};
use lisadbg::arith::{add_op, handle_calcule_rva, handle_calcule_va, sub_op, Calc, Rva};
use lisadbg::cli::{AfterB, All, CrtFunc, Hook};
use lisadbg::context::Context64;
use lisadbg::dbg::{
    access_str, classify_exception, crt_func_code, BreakPlan, ExceptionKind, ModIntpr, SaveInsn, SaveTable,
};
use lisadbg::deref::{deref_memory, handle_deref, string_done, DerefError, DerefKind, DerefPlan};
use lisadbg::dispatch::{
    command_of, set_what_of, stop_command32_of, stop_command_of, Cmd, SetWhat, StopCmd, StopCmd32,
};
use lisadbg::memory::ElemKind;
use lisadbg::number::ParseError;
use lisadbg::pe::FuncEntry;
use lisadbg::setmem::{
    get_size, padded_bytes_exec, set_items, set_memory64, write_len, SetItem, SetMemError,
};
use lisadbg::stack::{get_frame_before_func, get_real_frame, Frame};
use lisadbg::stop::{backtrace_count, function_start, handle_ret64, kill_answer, quit_confirmed};
use lisadbg::symbol::{SymbolFile, SymbolType, Symbols};
use lisadbg::usage::{help, stop_help, StopTopic, Topic};
use lisadbg::view::{frame_annotation, get_sym_name, view_brpkt, ViewWhat};

fn sym(name: &str, offset: i64) -> SymbolFile {
    SymbolFile {
        name: name.to_string(),
        offset,
        size: 8,
        value_str: String::new(),
        types_e: String::new(),
        filename: String::new(),
        line: 0,
        register: 0,
    }
}

#[test]
fn placing_then_removing_a_breakpoint_gives_the_byte_back() {
    let mut t = SaveTable::new();
    assert!(t.record(0x401000, 0x55));
    assert!(t.record(0x402000, 0x48));
    assert_eq!(t.take(0x401000), Some(SaveInsn { addr: 0x401000, last_oc: 0x55 }));
    assert_eq!(t.entries, vec![SaveInsn { addr: 0x402000, last_oc: 0x48 }]);
    assert_eq!(t.take(0x401000), None);
}

#[test]
fn a_breakpoint_byte_is_not_saved_twice() {
    let mut t = SaveTable::new();
    assert!(!t.record(0x401000, 0xcc));
    assert!(t.entries.is_empty());
    t.push(0x10, 0xcc);
    t.push(0x10, 0x90);
    // the oldest entry for an address leaves first
    assert_eq!(t.take(0x10), Some(SaveInsn { addr: 0x10, last_oc: 0xcc }));
    assert_eq!(t.take(0x10), Some(SaveInsn { addr: 0x10, last_oc: 0x90 }));
}

#[test]
fn created_function_code() {
    let code = crt_func_code(0x1122334455667788);
    assert_eq!(code, vec![0x48, 0xb8, 0x88, 0x77, 0x66, 0x55, 0x44, 0x33, 0x22, 0x11, 0xc3]);
    let mut v = [0u8; 8];
    v.copy_from_slice(&code[2..10]);
    assert_eq!(u64::from_le_bytes(v), 0x1122334455667788);
}

#[test]
fn exception_codes() {
    assert_eq!(classify_exception(0x80000003), ExceptionKind::Breakpoint);
    assert_eq!(classify_exception(0x4000001f), ExceptionKind::Breakpoint);
    assert_eq!(classify_exception(0x80000004), ExceptionKind::SingleStep);
    assert_eq!(classify_exception(0xC0000005), ExceptionKind::AccessViolation);
    assert_eq!(classify_exception(0x12345678), ExceptionKind::Other);
    assert!(ExceptionKind::AccessViolation.stops());
    assert_eq!(access_str(0), "read");
    assert_eq!(access_str(1), "write");
    assert_eq!(access_str(8), "execute");
    assert_eq!(access_str(3), "unknown");
}

#[test]
fn what_a_breakpoint_means() {
    let mut all = All::default();
    all.break_rva.push(0x1000);
    all.break_ret_va.push(0x402000);
    all.hook.push(Hook { target: 0x3000, replacen: 0x3100 });
    all.after_b.push(AfterB { last_addr_b: 0x401000, after_b: 0x401005, last_oc: 0x90 });
    let base = 0x400000;
    let p = all.breakpoint_plan(0x401000, base);
    assert_eq!(p, BreakPlan { after: None, hook: None, stop: true, ret_rva: false, ret_va: false });
    let p = all.breakpoint_plan(0x403000, base);
    assert_eq!(p.hook, Some(Hook { target: 0x3000, replacen: 0x3100 }));
    assert!(!p.stop);
    let p = all.breakpoint_plan(0x402000, base);
    assert!(p.ret_va && !p.stop);
    let p = all.breakpoint_plan(0x401005, base);
    assert_eq!(p.after, Some(AfterB { last_addr_b: 0x401000, after_b: 0x401005, last_oc: 0x90 }));
}

#[test]
fn breakpoints_placed_at_start() {
    let mut all = All::default();
    all.hook.push(Hook { target: 0x30, replacen: 0x40 });
    all.break_rva.push(0x10);
    all.break_ret.push(0x20);
    all.break_ret_va.push(0x500000);
    all.skip_addr.push(0x60);
    let (b, s) = all.init_plan(0x400000);
    assert_eq!(b, vec![0x400030, 0x400010, 0x400020, 0x500000]);
    assert_eq!(s, vec![0x60]);
}

#[test]
fn created_functions_lose_their_address_at_exit() {
    let mut all = All::default();
    all.crt_func.push(CrtFunc { name: "f".to_string(), ret_value: 1, address: 0x7000 });
    all.stop_dbg();
    assert_eq!(all.crt_func[0].address, 0);
    assert_eq!(all.crt_func[0].ret_value, 1);
    assert_eq!(all.crt_func[0].name, "f");
}

#[test]
fn return_breakpoint_from_the_stack() {
    let mut all = All::default();
    let frames = vec![
        Frame { pc: 0x401010, ret: 0x402020, frame_ptr: 0, stack: 0 },
        Frame { pc: 0x402020, ret: 0x403030, frame_ptr: 0, stack: 0 },
    ];
    assert_eq!(all.ret_breakpoint(&frames, 0x401010), Some(0x402020));
    assert_eq!(all.ret_breakpoint(&frames, 0x999), None);
    assert_eq!(all.break_va, vec![0x402020]);
    assert_eq!(get_real_frame(&frames, 0x402020), Some(frames[1]));
    assert_eq!(get_frame_before_func(&frames, 0x401010), Some(frames[1]));
    assert_eq!(get_frame_before_func(&frames, 0x402020), None);
}

#[test]
fn returning_from_a_function() {
    let frames = vec![Frame { pc: 0x401010, ret: 0x402020, frame_ptr: 0, stack: 0 }];
    let mut c = Context64::zeroed();
    c.rip = 0x401010;
    c.rsp = 0x1000;
    assert!(handle_ret64(&mut c, &frames, 8));
    assert_eq!(c.rip, 0x402020);
    assert_eq!(c.rsp, 0xff8);
    assert!(!handle_ret64(&mut c, &frames, 8));
    assert_eq!(c.rip, 0x402020);
}

#[test]
fn stop_prompt_answers() {
    assert!(quit_confirmed(" yes\n"));
    assert!(!quit_confirmed("no"));
    assert_eq!(kill_answer("y"), Some(true));
    assert_eq!(kill_answer("nop"), Some(false));
    assert_eq!(kill_answer("maybe"), None);
    assert_eq!(backtrace_count(None), Ok(usize::MAX));
    assert_eq!(backtrace_count(Some("full")), Ok(usize::MAX));
    assert_eq!(backtrace_count(Some("3")), Ok(3));
    assert_eq!(backtrace_count(Some("-")), Err(ParseError::InvalidDigit));
    let funcs = vec![FuncEntry { begin_address: 0x1000, end_address: 0x1100, unwind_data: 0 }];
    assert_eq!(function_start(&funcs, 0x401080, 0x400000), 0x401000);
}

#[test]
fn command_words() {
    assert_eq!(command_of(&["b", "main"]), Cmd::Breakpoint);
    assert_eq!(command_of(&["exit"]), Cmd::Quit);
    assert_eq!(command_of(&[]), Cmd::Empty);
    assert_eq!(command_of(&["fly"]), Cmd::Unknown);
    assert_eq!(stop_command_of(&["c"]), StopCmd::Continue);
    assert_eq!(stop_command_of(&["backtrace"]), StopCmd::Backtrace);
    assert_eq!(stop_command_of(&["setr", "rax", "0x10"]), StopCmd::SetReg);
    assert_eq!(stop_command_of(&["setreg", "rax", "0x10"]), StopCmd::SetReg);
    assert_eq!(stop_command_of(&["setm", "u8", "rax", "1"]), StopCmd::SetMem);
    assert_eq!(stop_command_of(&["setmemory", "u8", "rax", "1"]), StopCmd::SetMem);
    assert_eq!(stop_command32_of(&["setr", "eax", "1"]), StopCmd32::SetReg);
    assert_eq!(stop_command32_of(&["setmemory"]), StopCmd32::SetMem);
    assert_eq!(set_what_of(&["set", "MEM", "rax", "1"]), SetWhat::Memory);
    assert_eq!(set_what_of(&["set", "reg"]), SetWhat::Usage);
    assert_eq!(view_brpkt(&["view", "b"]), ViewWhat::Breakpoints);
    assert_eq!(view_brpkt(&["view"]), ViewWhat::Usage);
    assert_eq!(view_brpkt(&["view", "nothing"]), ViewWhat::Unknown);
}

#[test]
fn help_topics() {
    assert!(matches!(help(&["help"]), Topic::All));
    assert!(matches!(help(&["help", "b"]), Topic::Breakpoint));
    match help(&["help", "fly"]) {
        Topic::Undefined(n) => assert_eq!(n, "fly"),
        o => panic!("{:?}", o),
    }
    assert_eq!(stop_help(&["help"]), StopTopic::All);
    assert_eq!(stop_help(&["help", "c"]), StopTopic::Continue);
}

#[test]
fn address_arithmetic() {
    assert_eq!(handle_calcule_va(&["cva", "0x10"], 0x400000), Calc::Value(0x400010));
    assert_eq!(handle_calcule_va(&["cva"], 0x400000), Calc::Usage);
    assert_eq!(handle_calcule_va(&["cva", "x"], 0), Calc::BadFirst(ParseError::InvalidDigit));
    assert_eq!(handle_calcule_rva(&["crva", "0x401000"], 0x400000), Rva::Value(0x1000));
    assert_eq!(handle_calcule_rva(&["crva", "0x10"], 0x400000), Rva::BelowBase(0x10));
    assert_eq!(add_op(&["add", "1", "0x2"]), Calc::Value(3));
    assert_eq!(add_op(&["add", "x", "2"]), Calc::BadFirst(ParseError::InvalidDigit));
    assert_eq!(add_op(&["add", "1", "y"]), Calc::BadSecond(ParseError::InvalidDigit));
    assert_eq!(add_op(&["add", "x", ""]), Calc::BadBoth(ParseError::InvalidDigit, ParseError::Empty));
    assert_eq!(sub_op(&["sub", "1", "3"]), Calc::Value(-2));
}

#[test]
fn function_names_in_listings() {
    let syms = Symbols { symbol_type: SymbolType::PDB, symbol_file: vec![sym("main", 0x1000)] };
    let f = FuncEntry { begin_address: 0x1000, end_address: 0x1100, unwind_data: 0 };
    assert_eq!(get_sym_name(&syms, &f, 0x400000), "<main>");
    let g = FuncEntry { begin_address: 0x2000, end_address: 0x2100, unwind_data: 0 };
    assert_eq!(get_sym_name(&syms, &g, 0x400000), "");
    let funcs = vec![f, g];
    assert_eq!(frame_annotation(&funcs, &syms, 0x400000, 0x401010), "<main+16>");
    assert_eq!(frame_annotation(&funcs, &syms, 0x400000, 0x402004), "<func_2000+4");
    assert_eq!(frame_annotation(&funcs, &syms, 0x400000, 0x500000), "");
}

#[test]
fn memory_writes() {
    let mut c = Context64::zeroed();
    c.rbx = 0x7000;
    let syms = Symbols::new();
    let frames: Vec<Frame> = Vec::new();
    let p = set_memory64(&["u16[2]", "rbx", "1,", "2"], &c, &syms, &frames, 0).unwrap();
    assert_eq!(p.kind, Some(ElemKind::U16));
    assert_eq!(p.target, 0x7000);
    assert_eq!(p.size, 2);
    assert_eq!(p.values, "1, 2");
    let p = set_memory64(&["float", "0x10", "1"], &c, &syms, &frames, 0).unwrap();
    assert_eq!(p.kind, None);
    assert_eq!(p.target, 0x10);
    assert_eq!(set_memory64(&["u8", "rbx"], &c, &syms, &frames, 0).unwrap_err(), SetMemError::Usage);
    assert_eq!(set_memory64(&["u8", "xmm0", "1"], &c, &syms, &frames, 0).unwrap_err(), SetMemError::Simd);
    assert_eq!(
        set_memory64(&["u8", "nowhere", "1"], &c, &syms, &frames, 0).unwrap_err(),
        SetMemError::InvalidTarget
    );
    assert_eq!(get_size("u8"), 1);
    assert_eq!(get_size("u8[4]"), 4);
    assert_eq!(get_size("u8[]"), usize::MAX);
    assert_eq!(write_len(2, 5, 4), Some(8));
    assert_eq!(write_len(usize::MAX, 3, 2), Some(6));
    assert_eq!(write_len(2, 1, 8), Some(16));
    assert_eq!(write_len(usize::MAX / 2, 1, 8), None);
}

#[test]
fn set_memory_pads_with_zeros_up_to_the_count() {
    let mut two = 0x1400000000u64.to_le_bytes().to_vec();
    two.extend_from_slice(&[0u8; 8]);
    assert_eq!(padded_bytes_exec(&vec![0x1400000000], 2, 8), two);
    let mut four = 1u64.to_le_bytes().to_vec();
    four.extend_from_slice(&[0u8; 24]);
    assert_eq!(padded_bytes_exec(&vec![1], 4, 8), four);
    assert_eq!(padded_bytes_exec(&vec![1, 2, 3], 2, 1), vec![1, 2]);
    assert_eq!(padded_bytes_exec(&vec![0x41, 0x42], usize::MAX, 2), vec![0x41, 0, 0x42, 0]);
}

#[test]
fn values_to_write() {
    let items = set_items(ElemKind::U8, "1, 'AB', x").unwrap();
    assert_eq!(items.len(), 4);
    assert!(matches!(items[0], SetItem::Value(1)));
    assert!(matches!(items[1], SetItem::Value(65)));
    assert!(matches!(items[2], SetItem::Value(66)));
    match &items[3] {
        SetItem::ValueError(w, e) => {
            assert_eq!(w.iter().collect::<String>(), "x");
            assert_eq!(*e, ParseError::InvalidDigit);
        }
        o => panic!("{:?}", o),
    }
    let items = set_items(ElemKind::I16, "-2").unwrap();
    assert!(matches!(items[0], SetItem::Value(0xfffe)));
    assert!(set_items(ElemKind::U8, "'").is_none());
}

#[test]
fn deref_types() {
    assert_eq!(
        deref_memory("u32[4]"),
        Ok(DerefPlan { kind: DerefKind::U32, count_ptr: 1, size: 4 })
    );
    assert_eq!(
        deref_memory("u8**"),
        Ok(DerefPlan { kind: DerefKind::U8, count_ptr: 3, size: 1 })
    );
    assert_eq!(deref_memory("str"), Ok(DerefPlan { kind: DerefKind::Str, count_ptr: 1, size: 0 }));
    assert_eq!(deref_memory("what"), Err("Unknown type: what".to_string()));
    assert_eq!(deref_memory("u8[x]"), Err("invalid digit found in string".to_string()));
    assert!(string_done(0, 3, 0));
    assert!(!string_done(0, 3, 1));
    assert!(string_done(4, 4, 1));
}

#[test]
fn deref_targets() {
    let mut c = Context64::zeroed();
    c.rsi = 0x5000;
    let syms = Symbols::new();
    let frames: Vec<Frame> = Vec::new();
    assert_eq!(handle_deref(&["deref", "u8", "0x10"], &c, &syms, &frames, 0), Ok(0x10));
    assert_eq!(handle_deref(&["deref", "u8", "rsi"], &c, &syms, &frames, 0), Ok(0x5000));
    assert_eq!(handle_deref(&["deref", "u8", ""], &c, &syms, &frames, 0), Err(DerefError::EmptyTarget));
    assert_eq!(
        handle_deref(&["deref", "u8", "rdi"], &c, &syms, &frames, 0),
        Err(DerefError::InvalidTarget)
    );
    assert_eq!(handle_deref(&["deref", "u8"], &c, &syms, &frames, 0), Err(DerefError::Usage));
}

#[test]
fn redirection_names_by_symbol_by_default() {
    assert_eq!(ModIntpr::default(), ModIntpr::Name);
    assert_ne!(ModIntpr::default(), ModIntpr::Address);
}

#[test]
fn the_debug_loop_follows_its_events() {
    let mut all = All::default();
    all.break_rva.push(0x10);
    let mut st = LoopState::new();
    assert_eq!(
        debug_step(&mut st, &all, &DebugEvent::CreateProcess { base: 0x400000 }),
        LoopAction::ProcessCreated { base: 0x400000 }
    );
    assert_eq!(st, LoopState { go_on: true, base: 0x400000 });
    assert_eq!(debug_step(&mut st, &all, &DebugEvent::Handled { go_on: true }), LoopAction::Continue);
    match debug_step(&mut st, &all, &DebugEvent::Exception { code: 0x80000003, addr: 0x400010, info0: 0, info1: 0 }) {
        LoopAction::Breakpoint { addr, plan } => {
            assert_eq!(addr, 0x400010);
            assert!(plan.stop);
        }
        o => panic!("{:?}", o),
    }
    // the prompt quit: the debugger detaches and forgets the base
    assert_eq!(debug_step(&mut st, &all, &DebugEvent::Handled { go_on: false }), LoopAction::Detach);
    assert_eq!(st, LoopState { go_on: false, base: 0 });
    let mut st = LoopState::new();
    assert_eq!(
        debug_step(&mut st, &all, &DebugEvent::Exception { code: 0xC0000005, addr: 0x10, info0: 1, info1: 0x20 }),
        LoopAction::AccessViolation { addr: 0x10, access: 1, target: 0x20 }
    );
    assert_eq!(debug_step(&mut st, &all, &DebugEvent::Handled { go_on: true }), LoopAction::Detach);
    let mut st = LoopState::new();
    assert_eq!(debug_step(&mut st, &all, &DebugEvent::ExitProcess { code: 3 }), LoopAction::ProcessExited { code: 3 });
    assert_eq!(debug_step(&mut st, &all, &DebugEvent::Handled { go_on: true }), LoopAction::Detach);
    let mut st = LoopState::new();
    assert_eq!(debug_step(&mut st, &all, &DebugEvent::WaitFailed), LoopAction::Detach);
}

#[test]
fn a_breakpoint_is_rearmed_once_the_next_instruction_is_reached() {
    let mut all = All::default();
    all.break_rva.push(0x1000);
    let mut st = LoopState::new();
    debug_step(&mut st, &all, &DebugEvent::CreateProcess { base: 0x400000 });
    let mut t = SaveTable::new();
    // the breakpoint at 0x401000 was hit: its byte goes back
    assert!(t.record(0x401000, 0x55));
    assert_eq!(t.take(0x401000), Some(SaveInsn { addr: 0x401000, last_oc: 0x55 }));
    // a breakpoint goes after it, over the byte 0x8b of the next instruction
    all.add_after_b(0x401000, 0x401001, 0x8b);
    match debug_step(&mut st, &all, &DebugEvent::Exception { code: 0x80000003, addr: 0x401001, info0: 0, info1: 0 }) {
        LoopAction::Breakpoint { addr, plan } => {
            assert_eq!(addr, 0x401001);
            assert_eq!(plan.after, Some(AfterB { last_addr_b: 0x401000, after_b: 0x401001, last_oc: 0x8b }));
            assert!(!plan.stop);
        }
        o => panic!("{:?}", o),
    }
    // the first breakpoint is put back over its byte, which is saved again
    t.push(0x401000, 0x55);
    assert_eq!(t.take(0x401000), Some(SaveInsn { addr: 0x401000, last_oc: 0x55 }));
    assert!(t.entries.is_empty());
}
