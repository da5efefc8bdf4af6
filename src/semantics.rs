//! The abstract machine: its state, one step of it, and runs of many steps.
use vstd::prelude::*;

verus! {

/// Number of cells on the tape.
pub const TAPE_LEN: usize = 30000;

/// What the interpreter is: the instruction pointer, the data pointer and the tape.
pub struct MachineState {
    pub ip: nat,
    pub dp: nat,
    pub tape: Seq<u8>,
}

/// A fault that ends execution.
#[derive(Clone, Copy, Debug, PartialEq, Eq, Structural)]
pub enum Fault {
    /// `<` with the data pointer on the first cell.
    PointerBelowTape,
    /// `>` with the data pointer on the last cell.
    PointerPastTape,
    /// `[` on a zero cell with no `]` that closes it.
    UnmatchedOpen,
    /// `]` on a non-zero cell with no `[` that opens it.
    UnmatchedClose,
}

/// What one step did, as seen from the outside.
#[derive(Clone, Copy, Debug, PartialEq, Eq, Structural)]
pub enum Action {
    /// An instruction without I/O ran.
    Stepped,
    /// `.` ran and wrote this byte.
    Wrote(u8),
    /// `,` ran and stored the byte that was supplied.
    Read,
    /// The next instruction is `,` and no byte was supplied: nothing changed.
    AwaitingInput,
    /// The instruction pointer is past the program: nothing changed.
    Halted,
}

/// How a bounded run ended.
#[derive(Clone, Copy, Debug, PartialEq, Eq, Structural)]
pub enum Status {
    /// The instruction pointer ran off the end of the program.
    Finished,
    /// A `,` was reached after all input bytes were consumed.
    InputExhausted,
    /// The step budget was spent before the program finished.
    OutOfFuel,
    /// A step faulted; the state is the one before that step.
    Faulted(Fault),
}

/// The tape has its fixed length and the data pointer stands on it.
pub open spec fn well_formed(s: MachineState) -> bool {
    &&& s.tape.len() == TAPE_LEN
    &&& s.dp < TAPE_LEN
}

/// A fresh machine: both pointers at zero and every cell zero.
pub open spec fn initial_state() -> MachineState {
    MachineState { ip: 0, dp: 0, tape: Seq::new(TAPE_LEN as nat, |i: int| 0u8) }
}

/// `+` on a cell: one more, modulo 256.
pub open spec fn cell_inc(v: u8) -> u8 {
    ((v + 1) % 256) as u8
}

/// `-` on a cell: one less, modulo 256.
pub open spec fn cell_dec(v: u8) -> u8 {
    ((v + 255) % 256) as u8
}

/// One step of the machine on `prog`. `input` is the byte offered to a `,`.
/// On a fault the state is left as it was.
pub open spec fn step_spec(prog: Seq<char>, s: MachineState, input: Option<u8>) -> Result<
    (MachineState, Action),
    Fault,
> {
    if s.ip >= prog.len() {
        Ok((s, Action::Halted))
    } else {
        let c = prog[s.ip as int];
        let cell = s.tape[s.dp as int];
        let next = MachineState { ip: s.ip + 1, dp: s.dp, tape: s.tape };
        if c == '>' {
            if s.dp + 1 >= TAPE_LEN {
                Err(Fault::PointerPastTape)
            } else {
                Ok((MachineState { ip: s.ip + 1, dp: s.dp + 1, tape: s.tape }, Action::Stepped))
            }
        } else if c == '<' {
            if s.dp == 0 {
                Err(Fault::PointerBelowTape)
            } else {
                Ok(
                    (
                        MachineState { ip: s.ip + 1, dp: (s.dp - 1) as nat, tape: s.tape },
                        Action::Stepped,
                    ),
                )
            }
        } else if c == '+' {
            Ok(
                (
                    MachineState {
                        ip: s.ip + 1,
                        dp: s.dp,
                        tape: s.tape.update(s.dp as int, cell_inc(cell)),
                    },
                    Action::Stepped,
                ),
            )
        } else if c == '-' {
            Ok(
                (
                    MachineState {
                        ip: s.ip + 1,
                        dp: s.dp,
                        tape: s.tape.update(s.dp as int, cell_dec(cell)),
                    },
                    Action::Stepped,
                ),
            )
        } else if c == '.' {
            Ok((next, Action::Wrote(cell)))
        } else if c == ',' {
            match input {
                Some(b) => Ok(
                    (
                        MachineState {
                            ip: s.ip + 1,
                            dp: s.dp,
                            tape: s.tape.update(s.dp as int, b),
                        },
                        Action::Read,
                    ),
                ),
                None => Ok((s, Action::AwaitingInput)),
            }
        } else if c == '[' {
            if cell == 0 {
                match scan_forward(prog, s.ip + 1 as int, 0) {
                    Some(close) => Ok(
                        (
                            MachineState { ip: (close + 1) as nat, dp: s.dp, tape: s.tape },
                            Action::Stepped,
                        ),
                    ),
                    None => Err(Fault::UnmatchedOpen),
                }
            } else {
                Ok((next, Action::Stepped))
            }
        } else if c == ']' {
            if cell != 0 {
                match scan_backward(prog, s.ip - 1 as int, 0) {
                    Some(open) => Ok(
                        (
                            MachineState { ip: (open + 1) as nat, dp: s.dp, tape: s.tape },
                            Action::Stepped,
                        ),
                    ),
                    None => Err(Fault::UnmatchedClose),
                }
            } else {
                Ok((next, Action::Stepped))
            }
        } else {
            Ok((next, Action::Stepped))
        }
    }
}

/// At most `fuel` steps of the machine on `prog` from `s`, feeding `,` from
/// `input` in order and appending what `.` writes to `out`. Gives the final
/// state, all output and how the run ended.
pub open spec fn run_spec(
    prog: Seq<char>,
    s: MachineState,
    input: Seq<u8>,
    out: Seq<u8>,
    fuel: nat,
) -> (MachineState, Seq<u8>, Status)
    decreases fuel,
{
    if s.ip >= prog.len() {
        (s, out, Status::Finished)
    } else if fuel == 0 {
        (s, out, Status::OutOfFuel)
    } else {
        let offered = if input.len() > 0 {
            Some(input[0])
        } else {
            None
        };
        match step_spec(prog, s, offered) {
            Err(f) => (s, out, Status::Faulted(f)),
            Ok((t, a)) => match a {
                Action::AwaitingInput => (s, out, Status::InputExhausted),
                Action::Read => run_spec(prog, t, input.drop_first(), out, (fuel - 1) as nat),
                Action::Wrote(b) => run_spec(prog, t, input, out.push(b), (fuel - 1) as nat),
                _ => run_spec(prog, t, input, out, (fuel - 1) as nat),
            },
        }
    }
}

/// How a bracket changes the loop nesting: `[` opens, `]` closes.
pub open spec fn bracket_delta(c: char) -> int {
    if c == '[' {
        1
    } else if c == ']' {
        -1
    } else {
        0
    }
}

/// Net change of the loop nesting over a stretch of program text.
pub open spec fn nesting(s: Seq<char>) -> int
    decreases s.len(),
{
    if s.len() == 0 {
        0
    } else {
        nesting(s.drop_last()) + bracket_delta(s.last())
    }
}

/// The forward scan for the `]` that ends a loop, started at `pos` with `depth`
/// loops opened since the `[`: a `[` goes one level deeper, a `]` one level up,
/// and a `]` met at depth zero is the partner.
pub open spec fn scan_forward(prog: Seq<char>, pos: int, depth: nat) -> Option<int>
    decreases prog.len() - pos,
{
    if pos < 0 || pos >= prog.len() {
        None
    } else if prog[pos] == '[' {
        scan_forward(prog, pos + 1, depth + 1)
    } else if prog[pos] == ']' {
        if depth > 0 {
            scan_forward(prog, pos + 1, (depth - 1) as nat)
        } else {
            Some(pos)
        }
    } else {
        scan_forward(prog, pos + 1, depth)
    }
}

/// The backward scan for the `[` that starts a loop, started at `pos` with
/// `depth` loops closed since the `]`: a `]` goes one level deeper, a `[` one
/// level up, and a `[` met at depth zero is the partner.
pub open spec fn scan_backward(prog: Seq<char>, pos: int, depth: nat) -> Option<int>
    decreases pos + 1,
{
    if pos < 0 || pos >= prog.len() {
        None
    } else if prog[pos] == ']' {
        scan_backward(prog, pos - 1, depth + 1)
    } else if prog[pos] == '[' {
        if depth > 0 {
            scan_backward(prog, pos - 1, (depth - 1) as nat)
        } else {
            Some(pos)
        }
    } else {
        scan_backward(prog, pos - 1, depth)
    }
}

} // verus!
