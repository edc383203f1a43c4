//! Reading the target of a command: a number, the name of a symbol, or the
//! name of a register, into an address.

use vstd::prelude::*;
use crate::context::{value_named, Context32, Context64, ToValue, ToValue32, Value};
use crate::number::{error_text, str_to_spec, str_to_u32, str_to_u64, IntKind, ParseError};
use crate::stack::Frame;
use crate::symbol::{lookup_name, sym_addr32, sym_addr64, RealAddr, Symbols, SymbolFile};
use crate::text::{chars_of, concat, concat_str, lower_seq, string_from, string_of, str_eq};
use crate::context::value32_named;

verus! {

/// The terminal escape that starts an error message.
pub open spec fn err_color() -> Seq<char> {
    seq!['\x1b', '[', '3', '1', 'm']
}

/// The terminal escape that ends a colored message.
pub open spec fn reset_color() -> Seq<char> {
    seq!['\x1b', '[', '0', 'm']
}

fn err_color_exec() -> (r: Vec<char>)
    ensures
        r@ == err_color(),
{
    let r = vec!['\x1b', '[', '3', '1', 'm'];
    assert(r@ =~= err_color());
    r
}

fn reset_color_exec() -> (r: Vec<char>)
    ensures
        r@ == reset_color(),
{
    let r = vec!['\x1b', '[', '0', 'm'];
    assert(r@ =~= reset_color());
    r
}

/// `msg` in the error color.
pub open spec fn colored_error(msg: Seq<char>) -> Seq<char> {
    err_color() + msg + reset_color()
}

fn colored_error_exec(msg: &Vec<char>) -> (r: String)
    ensures
        r@ == colored_error(msg@),
{
    let a = concat(&err_color_exec(), msg);
    let b = concat(&a, &reset_color_exec());
    string_from(&b)
}

/// The message for a target that is neither a number, a symbol nor a
/// register.
pub open spec fn invalid_target_text(s: Seq<char>) -> Seq<char> {
    colored_error("Invalid target: '"@ + s + "'"@)
}

fn invalid_target_error(s: &str) -> (r: String)
    ensures
        r@ == invalid_target_text(s@),
{
    let m = concat_str(&concat_str(&chars_of("Invalid target: '"), s), "'");
    colored_error_exec(&m)
}

/// A breakpoint target: a number, else the offset of the first symbol of
/// that name, which must be positive.
pub open spec fn addr_br(s: Seq<char>, syms: Seq<SymbolFile>) -> Result<u64, Seq<char>> {
    match str_to_spec(s, IntKind::U64) {
        Ok(v) => Ok(v as u64),
        Err(_) => match lookup_name(syms, s) {
            Some(i) => if syms[i].offset > 0 {
                Ok(syms[i].offset as u64)
            } else {
                Err(colored_error("the specified symbol cannot have a negative offset"@))
            },
            None => Err(colored_error("invalid target : "@ + s)),
        },
    }
}

/// Reads a breakpoint target (see `addr_br`); an error is the message.
pub fn get_addr_br(addr_str: &str, syms: &Symbols) -> (r: Result<u64, String>)
    ensures
        match r {
            Ok(v) => addr_br(addr_str@, syms.symbol_file@) == Ok::<u64, Seq<char>>(v),
            Err(e) => addr_br(addr_str@, syms.symbol_file@) == Err::<u64, Seq<char>>(e@),
        },
{
    match str_to_u64(addr_str) {
        Ok(v) => Ok(v),
        Err(_) => match syms.find_name(addr_str) {
            Some(i) => {
                let off = syms.symbol_file[i].offset;
                if off > 0 {
                    Ok(off as u64)
                } else {
                    Err(
                        colored_error_exec(
                            &chars_of("the specified symbol cannot have a negative offset"),
                        ),
                    )
                }
            },
            None => Err(colored_error_exec(&concat_str(&chars_of("invalid target : "), addr_str))),
        },
    }
}

/// A target while a 64-bit program runs: a number; else, when the text is
/// not a number because of a bad digit, the run-time address of the first
/// symbol of that name (0 when it cannot be found), else the value of the
/// register of that name.
pub open spec fn addr_va(
    s: Seq<char>,
    ctx: Context64,
    syms: Seq<SymbolFile>,
    frames: Seq<Frame>,
    base: u64,
) -> Result<u64, Seq<char>> {
    match str_to_spec(s, IntKind::U64) {
        Ok(v) => Ok(v as u64),
        Err(e) => if e == ParseError::InvalidDigit {
            match lookup_name(syms, s) {
                Some(i) => Ok(
                    match sym_addr64(syms[i], ctx, frames, base) {
                        Ok(a) => a,
                        Err(_) => 0,
                    },
                ),
                None => match value_named(ctx, s) {
                    Value::U64(v) => Ok(v),
                    _ => Err(invalid_target_text(s)),
                },
            }
        } else {
            Err(invalid_target_text(s))
        },
    }
}

/// Reads a target while a 64-bit program runs (see `addr_va`).
pub fn get_addr_va(
    addr_str: &str,
    ctx: &Context64,
    syms: &Symbols,
    frames: &Vec<Frame>,
    base: u64,
) -> (r: Result<u64, String>)
    ensures
        match r {
            Ok(v) => addr_va(addr_str@, *ctx, syms.symbol_file@, frames@, base) == Ok::<
                u64,
                Seq<char>,
            >(v),
            Err(e) => addr_va(addr_str@, *ctx, syms.symbol_file@, frames@, base) == Err::<
                u64,
                Seq<char>,
            >(e@),
        },
{
    match str_to_u64(addr_str) {
        Ok(v) => Ok(v),
        Err(e) => {
            if e == ParseError::InvalidDigit {
                match syms.find_name(addr_str) {
                    Some(i) => match syms.symbol_file[i].real_addr64(ctx, frames, base) {
                        Ok(a) => Ok(a),
                        Err(_) => Ok(0),
                    },
                    None => match ctx.str_to_value_ctx(addr_str) {
                        Value::U64(v) => Ok(v),
                        _ => Err(invalid_target_error(addr_str)),
                    },
                }
            } else {
                Err(invalid_target_error(addr_str))
            }
        },
    }
}

/// A target while a 32-bit program runs: a number; else, when the text is
/// not a number because of a bad digit, the run-time address of the first
/// symbol of that name, else the value of the register of that name unless
/// it is 0.
pub open spec fn addr_va32(
    s: Seq<char>,
    ctx: Context32,
    syms: Seq<SymbolFile>,
    frames: Seq<Frame>,
    base: u64,
) -> Result<u32, Seq<char>> {
    match str_to_spec(s, IntKind::U32) {
        Ok(v) => Ok(v as u32),
        Err(e) => if e == ParseError::InvalidDigit {
            match lookup_name(syms, s) {
                Some(i) => Ok(sym_addr32(syms[i], ctx, frames, base)),
                None => {
                    let ad = value32_named(ctx, lower_seq(s));
                    if ad != 0 {
                        Ok(ad)
                    } else {
                        Err(invalid_target_text(s))
                    }
                },
            }
        } else {
            Err(invalid_target_text(s))
        },
    }
}

/// Reads a target while a 32-bit program runs (see `addr_va32`).
pub fn get_addr_va32(
    addr_str: &str,
    ctx: &Context32,
    syms: &Symbols,
    frames: &Vec<Frame>,
    base: u64,
) -> (r: Result<u32, String>)
    ensures
        match r {
            Ok(v) => addr_va32(addr_str@, *ctx, syms.symbol_file@, frames@, base) == Ok::<
                u32,
                Seq<char>,
            >(v),
            Err(e) => addr_va32(addr_str@, *ctx, syms.symbol_file@, frames@, base) == Err::<
                u32,
                Seq<char>,
            >(e@),
        },
{
    match str_to_u32(addr_str) {
        Ok(v) => Ok(v),
        Err(e) => {
            if e == ParseError::InvalidDigit {
                match syms.find_name(addr_str) {
                    Some(i) => Ok(syms.symbol_file[i].real_addr32(ctx, frames, base)),
                    None => {
                        let ad = ctx.str_to_ctx(addr_str);
                        if ad != 0 {
                            Ok(ad)
                        } else {
                            Err(invalid_target_error(addr_str))
                        }
                    },
                }
            } else {
                Err(invalid_target_error(addr_str))
            }
        },
    }
}

/// The address of the symbol named `name`: its offset, or 0 when no symbol
/// has that name.
pub open spec fn sym_addr_named(syms: Seq<SymbolFile>, name: Seq<char>) -> u64 {
    match lookup_name(syms, name) {
        Some(i) => syms[i].offset as u64,
        None => 0,
    }
}

/// The address of the symbol named `name` (see `sym_addr_named`).
pub fn target_addr_with_name_sym(name: &str, syms: &Symbols) -> (r: u64)
    ensures
        r == sym_addr_named(syms.symbol_file@, name@),
{
    match syms.find_name(name) {
        Some(i) => syms.symbol_file[i].offset as u64,
        None => 0,
    }
}

/// The position of the option word in a command: the word before the last
/// one, or the first word of a command of one word or none.
pub fn get_(linev: &[&str]) -> (r: usize)
    ensures
        r == if linev@.len() > 1 {
            linev@.len() - 2
        } else {
            0
        },
{
    if linev.len() > 1 {
        linev.len() - 2
    } else {
        0
    }
}

/// The function address of a command `<cmd> [-a|--address] <target>`: with
/// the option the last word is a number, without it the name of a symbol.
pub open spec fn address_of(linev: Seq<Seq<char>>, syms: Seq<SymbolFile>) -> Result<u64, Seq<char>> {
    let flag = linev[if linev.len() > 1 {
        linev.len() - 2
    } else {
        0
    }];
    let target = linev.last();
    if flag == "-a"@ || flag == "--address"@ {
        match str_to_spec(target, IntKind::U64) {
            Ok(v) => Ok(v as u64),
            Err(e) => Err(error_text(e)),
        }
    } else if sym_addr_named(syms, target) == 0 {
        Err("unknown symbol: '"@ + target + "'"@)
    } else {
        Ok(sym_addr_named(syms, target))
    }
}

pub open spec fn words(linev: Seq<&str>) -> Seq<Seq<char>> {
    linev.map_values(|w: &str| w@)
}

/// Reads the function address of a command (see `address_of`).
pub fn get_address(linev: &[&str], syms: &Symbols) -> (r: Result<u64, String>)
    requires
        linev@.len() >= 1,
    ensures
        match r {
            Ok(v) => address_of(words(linev@), syms.symbol_file@) == Ok::<u64, Seq<char>>(v),
            Err(e) => address_of(words(linev@), syms.symbol_file@) == Err::<u64, Seq<char>>(e@),
        },
{
    let flag = linev[get_(linev)];
    let target = linev[linev.len() - 1];
    proof {
        assert(words(linev@).last() == target@);
    }
    if str_eq(flag, "-a") || str_eq(flag, "--address") {
        match str_to_u64(target) {
            Ok(v) => Ok(v),
            Err(e) => Err(string_of(e.message())),
        }
    } else {
        let addr_func = target_addr_with_name_sym(target, syms);
        if addr_func == 0 {
            let m = concat_str(&concat_str(&chars_of("unknown symbol: '"), target), "'");
            Err(string_from(&m))
        } else {
            Ok(addr_func)
        }
    }
}

/// Why a hook endpoint is refused.
#[derive(Debug, Clone, Copy, PartialEq, Eq, Structural)]
pub enum HookTargetError {
    /// The name is that of a symbol whose offset is not positive (a local).
    LocalSymbol,
    /// The word is neither a number nor a symbol's name.
    Invalid,
}

/// A hook endpoint: a number, else the offset of the first symbol of that
/// name, which must be positive.
pub open spec fn hook_target(s: Seq<char>, syms: Seq<SymbolFile>) -> Result<u64, HookTargetError> {
    match str_to_spec(s, IntKind::U64) {
        Ok(v) => Ok(v as u64),
        Err(_) => match lookup_name(syms, s) {
            Some(i) => if syms[i].offset > 0 {
                Ok(syms[i].offset as u64)
            } else {
                Err(HookTargetError::LocalSymbol)
            },
            None => Err(HookTargetError::Invalid),
        },
    }
}

/// Reads word `idx` of a hook command as an endpoint (see `hook_target`).
pub fn get_addr_or_symbol(linev: &[&str], idx: usize, syms: &Symbols) -> (r: Result<u64, HookTargetError>)
    requires
        idx < linev@.len(),
    ensures
        r == hook_target(linev@[idx as int]@, syms.symbol_file@),
{
    match str_to_u64(linev[idx]) {
        Ok(v) => Ok(v),
        Err(_) => match syms.find_name(linev[idx]) {
            Some(i) => {
                let off = syms.symbol_file[i].offset;
                if off > 0 {
                    Ok(off as u64)
                } else {
                    Err(HookTargetError::LocalSymbol)
                }
            },
            None => Err(HookTargetError::Invalid),
        },
    }
}

} // verus!
