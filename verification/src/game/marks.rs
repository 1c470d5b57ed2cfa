//! Marks and their comparison, which ignores the case of ASCII letters.

use vstd::prelude::*;

verus! {

/// The mark with an ASCII capital letter replaced by its small letter.
pub open spec fn ascii_lowercase(mark: char) -> char {
    if 'A' <= mark <= 'Z' {
        ((mark as u32) + 32) as char
    } else {
        mark
    }
}

/// Two marks are the same when they differ at most in the case of an ASCII letter.
pub open spec fn same_mark(left: char, right: char) -> bool {
    ascii_lowercase(left) == ascii_lowercase(right)
}

/// Whether a cell carries the given mark. An empty cell carries none.
pub open spec fn cell_has(cell: Option<char>, mark: char) -> bool {
    match cell {
        Some(held) => same_mark(held, mark),
        None => false,
    }
}

fn folded_code(mark: char) -> (code: u32)
    ensures
        code == ascii_lowercase(mark) as u32,
{
    let code: u32 = mark as u32;
    if 'A' as u32 <= code && code <= 'Z' as u32 {
        code + 32
    } else {
        code
    }
}

/// Whether two marks are the same mark.
pub fn marks_match(left: char, right: char) -> (same: bool)
    ensures
        same == same_mark(left, right),
{
    folded_code(left) == folded_code(right)
}

/// Whether a cell carries the given mark.
pub fn check_eq_from_option_char(left: &Option<char>, right: &char) -> (same: bool)
    ensures
        same == cell_has(*left, *right),
{
    match left {
        Some(v) => marks_match(*v, *right),
        None => false,
    }
}

} // verus!
