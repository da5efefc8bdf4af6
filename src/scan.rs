//! Executable bracket scans: linear re-scans of the program text, with no jump table.
use vstd::prelude::*;

use crate::semantics::{scan_backward, scan_forward};

verus! {

/// Finds the `]` that closes the loop whose `[` stands at `open`, scanning
/// forward from the character after it.
pub fn find_close(program: &Vec<char>, open: usize) -> (r: Option<usize>)
    requires
        open < program@.len(),
    ensures
        match r {
            Some(c) => open < c < program@.len() && scan_forward(program@, open + 1, 0) == Some(
                c as int,
            ),
            None => scan_forward(program@, open + 1, 0) is None,
        },
{
    let len = program.len();
    let mut pos: usize = open + 1;
    let mut depth: usize = 0;
    while pos < len
        invariant
            len == program@.len(),
            open < pos <= len,
            depth < pos - open,
            scan_forward(program@, pos as int, depth as nat) == scan_forward(
                program@,
                open + 1,
                0,
            ),
        decreases program@.len() - pos,
    {
        let c = program[pos];
        if c == '[' {
            depth = depth + 1;
        } else if c == ']' {
            if depth > 0 {
                depth = depth - 1;
            } else {
                return Some(pos);
            }
        }
        pos = pos + 1;
    }
    None
}

/// Finds the `[` that opens the loop whose `]` stands at `close`, scanning
/// backward from the character before it.
pub fn find_open(program: &Vec<char>, close: usize) -> (r: Option<usize>)
    requires
        close < program@.len(),
    ensures
        match r {
            Some(o) => o < close && scan_backward(program@, close - 1, 0) == Some(o as int),
            None => scan_backward(program@, close - 1, 0) is None,
        },
{
    let mut pos: usize = close;
    let mut depth: usize = 0;
    while pos > 0
        invariant
            pos <= close < program@.len(),
            depth <= close - pos,
            scan_backward(program@, pos - 1, depth as nat) == scan_backward(
                program@,
                close - 1,
                0,
            ),
        decreases pos,
    {
        let c = program[pos - 1];
        if c == ']' {
            depth = depth + 1;
        } else if c == '[' {
            if depth > 0 {
                depth = depth - 1;
            } else {
                return Some(pos - 1);
            }
        }
        pos = pos - 1;
    }
    None
}

} // verus!
