//! The executable interpreter.
use vstd::prelude::*;

use crate::scan::{find_close, find_open};
use crate::semantics::{
    initial_state, run_spec, step_spec, well_formed, Action, Fault, MachineState, Status,
    TAPE_LEN,
};

verus! {

/// The characters of a program text, in order.
pub fn program_chars(program: &str) -> (r: Vec<char>)
    ensures
        r@ == program@,
{
    let mut r: Vec<char> = Vec::new();
    for c in it: program.chars()
        invariant
            r@ == it.seq().take(it.index() as int),
    {
        r.push(c);
    }
    r
}

/// The result of a bounded run: everything written, and how the run ended.
pub struct Run {
    pub output: Vec<u8>,
    pub status: Status,
}

/// An interpreter with its own tape and pointers.
pub struct Brainfuck {
    ip: usize,
    dp: usize,
    data: Vec<u8>,
}

impl View for Brainfuck {
    type V = MachineState;

    closed spec fn view(&self) -> MachineState {
        MachineState { ip: self.ip as nat, dp: self.dp as nat, tape: self.data@ }
    }
}

impl Brainfuck {
    /// A fresh interpreter: both pointers at zero, every cell zero.
    pub fn new() -> (r: Self)
        ensures
            r@ == initial_state(),
            well_formed(r@),
    {
        let r = Brainfuck { ip: 0, dp: 0, data: vec![0u8; TAPE_LEN] };
        assert(r@.tape =~= initial_state().tape);
        r
    }

    /// The index of the next instruction.
    pub fn instruction_pointer(&self) -> (r: usize)
        ensures
            r == self@.ip,
    {
        self.ip
    }

    /// The index of the current cell.
    pub fn data_pointer(&self) -> (r: usize)
        ensures
            r == self@.dp,
    {
        self.dp
    }

    /// The value of cell `i`, or `None` past the end of the tape.
    pub fn cell(&self, i: usize) -> (r: Option<u8>)
        ensures
            r == (if i < self@.tape.len() {
                Some(self@.tape[i as int])
            } else {
                None
            }),
    {
        if i < self.data.len() {
            Some(self.data[i])
        } else {
            None
        }
    }

    /// Runs the instruction under the instruction pointer. A `,` stores `input`
    /// when one is given and otherwise waits; past the end of the program nothing
    /// happens. A fault leaves the interpreter as it was.
    pub fn step(&mut self, program: &Vec<char>, input: Option<u8>) -> (r: Result<Action, Fault>)
        requires
            well_formed(old(self)@),
        ensures
            well_formed(final(self)@),
            match step_spec(program@, old(self)@, input) {
                Ok((t, a)) => r == Ok::<Action, Fault>(a) && final(self)@ == t,
                Err(f) => r == Err::<Action, Fault>(f) && final(self)@ == old(self)@,
            },
    {
        let len = program.len();
        if self.ip >= len {
            return Ok(Action::Halted);
        }
        let c = program[self.ip];
        let dp = self.dp;
        let cell = self.data[dp];
        if c == '>' {
            if dp + 1 >= TAPE_LEN {
                return Err(Fault::PointerPastTape);
            }
            self.dp = dp + 1;
        } else if c == '<' {
            if dp == 0 {
                return Err(Fault::PointerBelowTape);
            }
            self.dp = dp - 1;
        } else if c == '+' {
            self.data[dp] = cell.wrapping_add(1);
        } else if c == '-' {
            self.data[dp] = cell.wrapping_sub(1);
        } else if c == '.' {
            self.ip = self.ip + 1;
            return Ok(Action::Wrote(cell));
        } else if c == ',' {
            match input {
                Some(b) => {
                    self.data[dp] = b;
                    self.ip = self.ip + 1;
                    return Ok(Action::Read);
                },
                None => {
                    return Ok(Action::AwaitingInput);
                },
            }
        } else if c == '[' {
            if cell == 0 {
                match find_close(program, self.ip) {
                    Some(close) => {
                        self.ip = close;
                    },
                    None => {
                        return Err(Fault::UnmatchedOpen);
                    },
                }
            }
        } else if c == ']' {
            if cell != 0 {
                match find_open(program, self.ip) {
                    Some(open) => {
                        self.ip = open;
                    },
                    None => {
                        return Err(Fault::UnmatchedClose);
                    },
                }
            }
        }
        self.ip = self.ip + 1;
        Ok(Action::Stepped)
    }

    /// Runs `program` for at most `fuel` steps, feeding `,` from `input` in order
    /// and collecting what `.` writes.
    pub fn execute(&mut self, program: &str, input: &Vec<u8>, fuel: u64) -> (r: Run)
        requires
            well_formed(old(self)@),
        ensures
            well_formed(final(self)@),
            (final(self)@, r.output@, r.status) == run_spec(
                program@,
                old(self)@,
                input@,
                Seq::empty(),
                fuel as nat,
            ),
    {
        let prog = program_chars(program);
        let mut out: Vec<u8> = Vec::new();
        let mut pos: usize = 0;
        let mut left: u64 = fuel;
        assert(input@.subrange(0, input@.len() as int) =~= input@);
        loop
            invariant
                well_formed(self@),
                prog@ == program@,
                pos <= input@.len(),
                run_spec(prog@, self@, input@.subrange(pos as int, input@.len() as int), out@, left as nat)
                    == run_spec(program@, old(self)@, input@, Seq::empty(), fuel as nat),
            decreases left,
        {
            let ghost rest = input@.subrange(pos as int, input@.len() as int);
            if self.ip >= prog.len() {
                return Run { output: out, status: Status::Finished };
            }
            if left == 0 {
                return Run { output: out, status: Status::OutOfFuel };
            }
            let offered = if pos < input.len() {
                Some(input[pos])
            } else {
                None
            };
            match self.step(&prog, offered) {
                Err(f) => {
                    return Run { output: out, status: Status::Faulted(f) };
                },
                Ok(Action::AwaitingInput) => {
                    return Run { output: out, status: Status::InputExhausted };
                },
                Ok(Action::Read) => {
                    assert(rest.drop_first() =~= input@.subrange(pos + 1, input@.len() as int));
                    pos = pos + 1;
                },
                Ok(Action::Wrote(b)) => {
                    out.push(b);
                },
                Ok(_) => {},
            }
            left = left - 1;
        }
    }
}

} // verus!
