//! Address arithmetic commands: between relative and absolute addresses,
//! and sums and differences of numbers.

use vstd::prelude::*;
use vstd::wrapping::{isize_specs, u64_specs, usize_specs};
use crate::number::{
    agrees, str_to_isize, str_to_spec, str_to_u64, str_to_usize, IntKind, ParseError,
};

verus! {

/// What an arithmetic command gives.
#[derive(Debug, Clone, Copy, PartialEq, Eq, Structural)]
pub enum Calc<T> {
    /// The command has the wrong number of words.
    Usage,
    Value(T),
    /// The first operand is no number.
    BadFirst(ParseError),
    /// The second operand is no number.
    BadSecond(ParseError),
    /// Neither operand is a number.
    BadBoth(ParseError, ParseError),
}

/// `cva <rva>`: the absolute address of a relative one once the image is
/// loaded at `base` (wrapping).
pub fn handle_calcule_va(linev: &[&str], base: u64) -> (r: Calc<u64>)
    ensures
        linev@.len() != 2 ==> r == Calc::<u64>::Usage,
        linev@.len() == 2 ==> match str_to_spec(linev@[1]@, IntKind::U64) {
            Ok(v) => r == Calc::Value(u64_specs::wrapping_add(base, v as u64)),
            Err(e) => r == Calc::<u64>::BadFirst(e),
        },
{
    if linev.len() != 2 {
        return Calc::Usage;
    }
    match str_to_u64(linev[1]) {
        Ok(v) => Calc::Value(base.wrapping_add(v)),
        Err(e) => Calc::BadFirst(e),
    }
}

/// What `crva <va>` gives.
#[derive(Debug, Clone, Copy, PartialEq, Eq, Structural)]
pub enum Rva {
    /// Not two words: nothing is shown.
    Nothing,
    Value(u64),
    /// The address lies below the image base.
    BelowBase(u64),
    BadNumber(ParseError),
}

/// `crva <va>`: the address relative to the image loaded at `base`.
pub fn handle_calcule_rva(linev: &[&str], base: u64) -> (r: Rva)
    ensures
        linev@.len() != 2 ==> r == Rva::Nothing,
        linev@.len() == 2 ==> match str_to_spec(linev@[1]@, IntKind::U64) {
            Ok(v) => if v < base {
                r == Rva::BelowBase(v as u64)
            } else {
                r == Rva::Value((v - base) as u64)
            },
            Err(e) => r == Rva::BadNumber(e),
        },
{
    if linev.len() != 2 {
        return Rva::Nothing;
    }
    match str_to_u64(linev[1]) {
        Ok(v) => {
            if v < base {
                Rva::BelowBase(v)
            } else {
                Rva::Value(v - base)
            }
        },
        Err(e) => Rva::BadNumber(e),
    }
}

/// `add <a> <b>`: the sum of two unsigned numbers (wrapping).
pub fn add_op(linev: &[&str]) -> (r: Calc<usize>)
    ensures
        linev@.len() != 3 ==> r == Calc::<usize>::Usage,
        linev@.len() == 3 ==> match (
            str_to_spec(linev@[1]@, IntKind::Usize),
            str_to_spec(linev@[2]@, IntKind::Usize),
        ) {
            (Ok(a), Ok(b)) => r == Calc::Value(usize_specs::wrapping_add(a as usize, b as usize)),
            (Err(e), Ok(_)) => r == Calc::<usize>::BadFirst(e),
            (Ok(_), Err(e)) => r == Calc::<usize>::BadSecond(e),
            (Err(e1), Err(e2)) => r == Calc::<usize>::BadBoth(e1, e2),
        },
{
    if linev.len() != 3 {
        return Calc::Usage;
    }
    match (str_to_usize(linev[1]), str_to_usize(linev[2])) {
        (Ok(a), Ok(b)) => Calc::Value(a.wrapping_add(b)),
        (Err(e), Ok(_)) => Calc::BadFirst(e),
        (Ok(_), Err(e)) => Calc::BadSecond(e),
        (Err(e1), Err(e2)) => Calc::BadBoth(e1, e2),
    }
}

/// `sub <a> <b>`: the difference of two signed numbers (wrapping).
pub fn sub_op(linev: &[&str]) -> (r: Calc<isize>)
    ensures
        linev@.len() != 3 ==> r == Calc::<isize>::Usage,
        linev@.len() == 3 ==> match (
            str_to_spec(linev@[1]@, IntKind::Isize),
            str_to_spec(linev@[2]@, IntKind::Isize),
        ) {
            (Ok(a), Ok(b)) => r == Calc::Value(isize_specs::wrapping_sub(a as isize, b as isize)),
            (Err(e), Ok(_)) => r == Calc::<isize>::BadFirst(e),
            (Ok(_), Err(e)) => r == Calc::<isize>::BadSecond(e),
            (Err(e1), Err(e2)) => r == Calc::<isize>::BadBoth(e1, e2),
        },
{
    if linev.len() != 3 {
        return Calc::Usage;
    }
    match (str_to_isize(linev[1]), str_to_isize(linev[2])) {
        (Ok(a), Ok(b)) => Calc::Value(a.wrapping_sub(b)),
        (Err(e), Ok(_)) => Calc::BadFirst(e),
        (Ok(_), Err(e)) => Calc::BadSecond(e),
        (Err(e1), Err(e2)) => Calc::BadBoth(e1, e2),
    }
}

} // verus!
