//! What holds of the machine: bracket scans find the nesting partner, and the
//! cell arithmetic, loop entry and I/O behave as the instruction set says.
use vstd::prelude::*;

use crate::semantics::{
    bracket_delta, cell_dec, cell_inc, nesting, run_spec, scan_backward, scan_forward, step_spec,
    well_formed, Action, Fault, MachineState, Status,
};

verus! {

/// `close` is the `]` that ends the loop opened at `open`: counting the nesting
/// from just after `open`, it is the first position where the count drops below zero.
pub open spec fn loop_closes(prog: Seq<char>, open: int, close: int) -> bool {
    &&& 0 <= open < close < prog.len()
    &&& nesting(prog.subrange(open + 1, close + 1)) == -1
    &&& forall|k: int|
        open < k < close ==> #[trigger] nesting(prog.subrange(open + 1, k + 1)) >= 0
}

/// `open` is the `[` that starts the loop closed at `close`: counting the nesting
/// back from just before `close`, it is the first position where the count rises above zero.
pub open spec fn loop_opens(prog: Seq<char>, open: int, close: int) -> bool {
    &&& 0 <= open < close < prog.len()
    &&& nesting(prog.subrange(open, close)) == 1
    &&& forall|k: int| open < k < close ==> #[trigger] nesting(prog.subrange(k, close)) <= 0
}

proof fn lemma_nesting_append(a: Seq<char>, b: Seq<char>)
    ensures
        nesting(a + b) == nesting(a) + nesting(b),
    decreases b.len(),
{
    if b.len() == 0 {
        assert(a + b =~= a);
    } else {
        assert((a + b).drop_last() =~= a + b.drop_last());
        lemma_nesting_append(a, b.drop_last());
    }
}

proof fn lemma_nesting_extend(prog: Seq<char>, from: int, to: int)
    requires
        0 <= from <= to < prog.len(),
    ensures
        nesting(prog.subrange(from, to + 1)) == nesting(prog.subrange(from, to)) + bracket_delta(
            prog[to],
        ),
{
    assert(prog.subrange(from, to + 1).drop_last() =~= prog.subrange(from, to));
}

proof fn lemma_nesting_prepend(prog: Seq<char>, from: int, to: int)
    requires
        0 <= from < to <= prog.len(),
    ensures
        nesting(prog.subrange(from, to)) == bracket_delta(prog[from]) + nesting(
            prog.subrange(from + 1, to),
        ),
{
    let head = prog.subrange(from, from + 1);
    assert(prog.subrange(from, to) =~= head + prog.subrange(from + 1, to));
    lemma_nesting_append(head, prog.subrange(from + 1, to));
    assert(head.drop_last() =~= Seq::<char>::empty());
    assert(nesting(Seq::<char>::empty()) == 0);
    assert(head.last() == prog[from]);
    assert(nesting(head) == bracket_delta(prog[from]));
}

proof fn lemma_scan_forward_from(prog: Seq<char>, open: int, pos: int, depth: nat)
    requires
        0 <= open < pos <= prog.len(),
        depth == nesting(prog.subrange(open + 1, pos)),
        forall|k: int|
            open < k < pos ==> #[trigger] nesting(prog.subrange(open + 1, k + 1)) >= 0,
    ensures
        match scan_forward(prog, pos, depth) {
            Some(c) => loop_closes(prog, open, c),
            None => forall|c: int| !loop_closes(prog, open, c),
        },
    decreases prog.len() - pos,
{
    if pos >= prog.len() {
        assert forall|c: int| !loop_closes(prog, open, c) by {
            if loop_closes(prog, open, c) {
                assert(nesting(prog.subrange(open + 1, c + 1)) >= 0);
            }
        }
    } else {
        lemma_nesting_extend(prog, open + 1, pos);
        let here = nesting(prog.subrange(open + 1, pos + 1));
        if prog[pos] == ']' && depth == 0 {
            assert(loop_closes(prog, open, pos));
        } else {
            assert(here >= 0);
            lemma_scan_forward_from(prog, open, pos + 1, here as nat);
            if scan_forward(prog, pos, depth) is None {
                assert forall|c: int| !loop_closes(prog, open, c) by {
                    if loop_closes(prog, open, c) && c <= pos {
                        assert(nesting(prog.subrange(open + 1, c + 1)) >= 0);
                    }
                }
            }
        }
    }
}

proof fn lemma_scan_backward_from(prog: Seq<char>, close: int, pos: int, depth: nat)
    requires
        0 <= close < prog.len(),
        -1 <= pos < close,
        depth == -nesting(prog.subrange(pos + 1, close)),
        forall|k: int| pos < k < close ==> #[trigger] nesting(prog.subrange(k, close)) <= 0,
    ensures
        match scan_backward(prog, pos, depth) {
            Some(o) => loop_opens(prog, o, close),
            None => forall|o: int| !loop_opens(prog, o, close),
        },
    decreases pos + 1,
{
    if pos < 0 {
        assert forall|o: int| !loop_opens(prog, o, close) by {
            if loop_opens(prog, o, close) {
                assert(nesting(prog.subrange(o, close)) <= 0);
            }
        }
    } else {
        lemma_nesting_prepend(prog, pos, close);
        let here = nesting(prog.subrange(pos, close));
        if prog[pos] == '[' && depth == 0 {
            assert(loop_opens(prog, pos, close));
        } else {
            assert(here <= 0);
            lemma_scan_backward_from(prog, close, pos - 1, (-here) as nat);
            if scan_backward(prog, pos, depth) is None {
                assert forall|o: int| !loop_opens(prog, o, close) by {
                    if loop_opens(prog, o, close) && o >= pos {
                        assert(nesting(prog.subrange(o, close)) <= 0);
                    }
                }
            }
        }
    }
}

/// The forward scan started just after `open` stops exactly at the `]` that
/// closes the loop opened there, however deeply loops nest in between, and
/// finds nothing exactly when no `]` closes it.
pub proof fn law_forward_scan_finds_partner(prog: Seq<char>, open: int)
    requires
        0 <= open < prog.len(),
    ensures
        forall|c: int|
            #![trigger loop_closes(prog, open, c)]
            scan_forward(prog, open + 1, 0) == Some(c) <==> loop_closes(prog, open, c),
        scan_forward(prog, open + 1, 0) is None <==> forall|c: int|
            !loop_closes(prog, open, c),
{
    assert(prog.subrange(open + 1, open + 1) =~= Seq::<char>::empty());
    lemma_scan_forward_from(prog, open, open + 1, 0);
    assert forall|c: int|
        #![trigger loop_closes(prog, open, c)]
        scan_forward(prog, open + 1, 0) == Some(c) <==> loop_closes(prog, open, c) by {
        if let Some(found) = scan_forward(prog, open + 1, 0) {
            if loop_closes(prog, open, c) && c != found {
                if c < found {
                    assert(nesting(prog.subrange(open + 1, c + 1)) >= 0);
                } else {
                    assert(nesting(prog.subrange(open + 1, found + 1)) >= 0);
                }
            }
        }
    }
}

/// The backward scan started just before `close` stops exactly at the `[` that
/// opens the loop closed there, however deeply loops nest in between, and finds
/// nothing exactly when no `[` opens it.
pub proof fn law_backward_scan_finds_partner(prog: Seq<char>, close: int)
    requires
        0 <= close < prog.len(),
    ensures
        forall|o: int|
            #![trigger loop_opens(prog, o, close)]
            scan_backward(prog, close - 1, 0) == Some(o) <==> loop_opens(prog, o, close),
        scan_backward(prog, close - 1, 0) is None <==> forall|o: int|
            !loop_opens(prog, o, close),
{
    assert(prog.subrange(close, close) =~= Seq::<char>::empty());
    lemma_scan_backward_from(prog, close, close - 1, 0);
    assert forall|o: int|
        #![trigger loop_opens(prog, o, close)]
        scan_backward(prog, close - 1, 0) == Some(o) <==> loop_opens(prog, o, close) by {
        if let Some(found) = scan_backward(prog, close - 1, 0) {
            if loop_opens(prog, o, close) && o != found {
                if o > found {
                    assert(nesting(prog.subrange(o, close)) <= 0);
                } else {
                    assert(nesting(prog.subrange(found, close)) <= 0);
                }
            }
        }
    }
}

/// On a zero cell, `[` sends the instruction pointer just past the `]` that
/// closes its loop; when no `]` closes it, the step is the `UnmatchedOpen` fault.
pub proof fn law_open_bracket_on_zero_cell(prog: Seq<char>, s: MachineState, input: Option<u8>)
    requires
        well_formed(s),
        s.ip < prog.len(),
        prog[s.ip as int] == '[',
        s.tape[s.dp as int] == 0,
    ensures
        forall|c: int|
            #![trigger loop_closes(prog, s.ip as int, c)]
            loop_closes(prog, s.ip as int, c) ==> step_spec(prog, s, input) == Ok::<
                (MachineState, Action),
                Fault,
            >((MachineState { ip: (c + 1) as nat, dp: s.dp, tape: s.tape }, Action::Stepped)),
        (forall|c: int| !loop_closes(prog, s.ip as int, c)) ==> step_spec(prog, s, input) == Err::<
            (MachineState, Action),
            Fault,
        >(Fault::UnmatchedOpen),
{
    law_forward_scan_finds_partner(prog, s.ip as int);
}

/// On a non-zero cell, `]` sends the instruction pointer just past the `[` that
/// opens its loop; when no `[` opens it, the step is the `UnmatchedClose` fault.
pub proof fn law_close_bracket_on_nonzero_cell(
    prog: Seq<char>,
    s: MachineState,
    input: Option<u8>,
)
    requires
        well_formed(s),
        s.ip < prog.len(),
        prog[s.ip as int] == ']',
        s.tape[s.dp as int] != 0,
    ensures
        forall|o: int|
            #![trigger loop_opens(prog, o, s.ip as int)]
            loop_opens(prog, o, s.ip as int) ==> step_spec(prog, s, input) == Ok::<
                (MachineState, Action),
                Fault,
            >((MachineState { ip: (o + 1) as nat, dp: s.dp, tape: s.tape }, Action::Stepped)),
        (forall|o: int| !loop_opens(prog, o, s.ip as int)) ==> step_spec(prog, s, input) == Err::<
            (MachineState, Action),
            Fault,
        >(Fault::UnmatchedClose),
{
    law_backward_scan_finds_partner(prog, s.ip as int);
}

/// A program of `n` `+` instructions.
pub open spec fn pluses(n: nat) -> Seq<char> {
    Seq::new(n, |i: int| '+')
}

proof fn lemma_run_pluses(n: nat, s: MachineState, input: Seq<u8>, out: Seq<u8>, fuel: nat)
    requires
        well_formed(s),
        s.ip <= n,
        fuel >= n - s.ip,
    ensures
        run_spec(pluses(n), s, input, out, fuel) == (
            MachineState {
                ip: n,
                dp: s.dp,
                tape: s.tape.update(s.dp as int, ((s.tape[s.dp as int] + (n - s.ip)) % 256) as u8),
            },
            out,
            Status::Finished,
        ),
    decreases n - s.ip,
{
    let v = s.tape[s.dp as int];
    if s.ip == n {
        assert(s.tape.update(s.dp as int, ((v + (n - s.ip)) % 256) as u8) =~= s.tape);
    } else {
        let t = MachineState {
            ip: s.ip + 1,
            dp: s.dp,
            tape: s.tape.update(s.dp as int, cell_inc(v)),
        };
        assert(pluses(n)[s.ip as int] == '+');
        lemma_run_pluses(n, t, input, out, (fuel - 1) as nat);
        assert((((v + 1) % 256) + (n - s.ip - 1)) % 256 == (v + (n - s.ip)) % 256);
        assert(t.tape.update(s.dp as int, ((cell_inc(v) + (n - t.ip)) % 256) as u8)
            =~= s.tape.update(s.dp as int, ((v + (n - s.ip)) % 256) as u8));
    }
}

/// `+` wraps around: 256 of them leave the current cell as it was, and
/// `n < 256` of them on a zero cell leave it equal to `n`.
pub proof fn law_plus_wraps_around(s: MachineState, input: Seq<u8>, n: nat)
    requires
        well_formed(s),
        s.ip == 0,
    ensures
        run_spec(pluses(256), s, input, Seq::empty(), 256) == (
            MachineState { ip: 256, dp: s.dp, tape: s.tape },
            Seq::<u8>::empty(),
            Status::Finished,
        ),
        n < 256 && s.tape[s.dp as int] == 0 ==> run_spec(
            pluses(n),
            s,
            input,
            Seq::empty(),
            n,
        ).0.tape[s.dp as int] == n,
{
    lemma_run_pluses(256, s, input, Seq::empty(), 256);
    assert(s.tape.update(s.dp as int, ((s.tape[s.dp as int] + 256) % 256) as u8) =~= s.tape);
    lemma_run_pluses(n, s, input, Seq::empty(), n);
}

/// `-` undoes `+` on a cell, and `+` undoes `-`.
pub proof fn law_dec_inverts_inc(v: u8)
    ensures
        cell_dec(cell_inc(v)) == v,
        cell_inc(cell_dec(v)) == v,
{
}

/// Running `+-` leaves the tape and the data pointer as they were.
pub proof fn law_plus_then_minus_restores(s: MachineState, input: Seq<u8>, out: Seq<u8>)
    requires
        well_formed(s),
        s.ip == 0,
    ensures
        run_spec(seq!['+', '-'], s, input, out, 2) == (
            MachineState { ip: 2, dp: s.dp, tape: s.tape },
            out,
            Status::Finished,
        ),
{
    reveal_with_fuel(run_spec, 3);
    let v = s.tape[s.dp as int];
    assert(cell_dec(cell_inc(v)) == v);
    assert(s.tape.update(s.dp as int, cell_inc(v)).update(s.dp as int, cell_dec(cell_inc(v)))
        =~= s.tape);
}

proof fn lemma_scan_plain(prog: Seq<char>, pos: int, end: int)
    requires
        0 <= pos <= end < prog.len(),
        prog[end] == ']',
        forall|i: int| pos <= i < end ==> prog[i] != '[' && prog[i] != ']',
    ensures
        scan_forward(prog, pos, 0) == Some(end),
    decreases end - pos,
{
    if pos < end {
        lemma_scan_plain(prog, pos + 1, end);
    }
}

/// A loop whose body holds no brackets, entered on a zero cell, is skipped
/// whole: its body runs zero times and nothing else changes.
pub proof fn law_loop_skipped_on_zero_cell(
    body: Seq<char>,
    s: MachineState,
    input: Seq<u8>,
    out: Seq<u8>,
    fuel: nat,
)
    requires
        well_formed(s),
        s.ip == 0,
        s.tape[s.dp as int] == 0,
        fuel >= 1,
        forall|i: int| 0 <= i < body.len() ==> body[i] != '[' && body[i] != ']',
    ensures
        run_spec(seq!['['] + body + seq![']'], s, input, out, fuel) == (
            MachineState { ip: body.len() + 2, dp: s.dp, tape: s.tape },
            out,
            Status::Finished,
        ),
{
    let prog = seq!['['] + body + seq![']'];
    assert(prog[0] == '[');
    assert(prog[body.len() + 1int] == ']');
    assert forall|i: int| 1 <= i < body.len() + 1 implies prog[i] != '[' && prog[i] != ']' by {
        assert(prog[i] == body[i - 1]);
    }
    lemma_scan_plain(prog, 1, body.len() + 1int);
    reveal_with_fuel(run_spec, 2);
}

/// `,` then `.` writes back the byte that was read, whatever its value.
pub proof fn law_read_then_write_echoes(s: MachineState, input: Seq<u8>)
    requires
        well_formed(s),
        s.ip == 0,
        input.len() > 0,
    ensures
        run_spec(seq![',', '.'], s, input, Seq::empty(), 2) == (
            MachineState { ip: 2, dp: s.dp, tape: s.tape.update(s.dp as int, input[0]) },
            seq![input[0]],
            Status::Finished,
        ),
{
    reveal_with_fuel(run_spec, 3);
    assert(Seq::<u8>::empty().push(input[0]) =~= seq![input[0]]);
}

} // verus!
