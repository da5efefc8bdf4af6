use brainfuck::{find_close, find_open, program_chars, Action, Brainfuck, Fault, Status, TAPE_LEN};

fn run(program: &str, input: &[u8], fuel: u64) -> (Brainfuck, Vec<u8>, Status) {
    let mut bf = Brainfuck::new();
    let r = bf.execute(program, &input.to_vec(), fuel);
    (bf, r.output, r.status)
}

#[test]
fn hello_world() {
    let (_, output, status) = run(
        "++++++++[>++++[>++>+++>+++>+<<<<-]>+>+>->>+[<]<-]>>.>---.+++++++..+++.>>.<-.<.+++.------.--------.>>+.>++.",
        &[],
        u64::MAX,
    );
    assert_eq!(output, b"Hello World!\n");
    assert_eq!(status, Status::Finished);
}

#[test]
fn eight_pluses_leave_eight_in_cell_zero() {
    let (bf, output, status) = run("++++++++", &[], 100);
    assert_eq!(bf.cell(0), Some(8));
    assert_eq!(bf.data_pointer(), 0);
    assert_eq!(bf.instruction_pointer(), 8);
    assert!(output.is_empty());
    assert_eq!(status, Status::Finished);
}

#[test]
fn plus_wraps_after_256() {
    let program = "+".repeat(256);
    let (bf, _, status) = run(&program, &[], 1000);
    assert_eq!(bf.cell(0), Some(0));
    assert_eq!(status, Status::Finished);
    let (bf, _, _) = run(&"+".repeat(255), &[], 1000);
    assert_eq!(bf.cell(0), Some(255));
    let (bf, _, _) = run(&"+".repeat(257), &[], 1000);
    assert_eq!(bf.cell(0), Some(1));
}

#[test]
fn minus_wraps_below_zero() {
    let (bf, _, _) = run("-", &[], 10);
    assert_eq!(bf.cell(0), Some(255));
}

#[test]
fn plus_then_minus_restores_cell() {
    let (bf, _, _) = run("+++>+-", &[], 10);
    assert_eq!(bf.cell(1), Some(0));
    assert_eq!(bf.cell(0), Some(3));
    assert_eq!(bf.data_pointer(), 1);
    let (bf, _, _) = run("-+", &[], 10);
    assert_eq!(bf.cell(0), Some(0));
}

#[test]
fn loop_on_zero_cell_is_skipped() {
    let (bf, _, status) = run("[+++++++]", &[], 100);
    assert_eq!(bf.cell(0), Some(0));
    assert_eq!(bf.instruction_pointer(), 9);
    assert_eq!(status, Status::Finished);
}

#[test]
fn nested_loop_on_zero_cell_is_skipped_whole() {
    let (bf, _, status) = run("[[-]+[+]]+", &[], 100);
    assert_eq!(bf.cell(0), Some(1));
    assert_eq!(status, Status::Finished);
}

#[test]
fn nested_loops_run_to_exhaustion() {
    // 3 outer passes, each adding 4 to cell 2 through an inner loop.
    let (bf, _, status) = run("+++[>++++[>+<-]<-]", &[], 10_000);
    assert_eq!(status, Status::Finished);
    assert_eq!(bf.cell(0), Some(0));
    assert_eq!(bf.cell(1), Some(0));
    assert_eq!(bf.cell(2), Some(12));
}

#[test]
fn comma_dot_echoes_every_byte() {
    for b in 0..=255u8 {
        let (bf, output, status) = run(",.", &[b], 10);
        assert_eq!(output, vec![b]);
        assert_eq!(bf.cell(0), Some(b));
        assert_eq!(status, Status::Finished);
    }
}

#[test]
fn input_is_consumed_in_order() {
    let (_, output, status) = run(",.,.,.", b"abc", 100);
    assert_eq!(output, b"abc");
    assert_eq!(status, Status::Finished);
}

#[test]
fn comments_are_ignored() {
    let (bf, output, status) = run("add two: ++ then print.\n", &[], 100);
    assert_eq!(bf.cell(0), Some(2));
    assert_eq!(output, vec![2]);
    assert_eq!(status, Status::Finished);
}

#[test]
fn empty_program_finishes_at_once() {
    let (bf, output, status) = run("", &[], 0);
    assert_eq!(status, Status::Finished);
    assert!(output.is_empty());
    assert_eq!(bf.instruction_pointer(), 0);
}

#[test]
fn unmatched_open_faults() {
    let (bf, _, status) = run("+-[+", &[], 100);
    assert_eq!(status, Status::Faulted(Fault::UnmatchedOpen));
    assert_eq!(bf.instruction_pointer(), 2);
}

#[test]
fn unmatched_close_faults() {
    let (bf, _, status) = run("+]", &[], 100);
    assert_eq!(status, Status::Faulted(Fault::UnmatchedClose));
    assert_eq!(bf.instruction_pointer(), 1);
    assert_eq!(bf.cell(0), Some(1));
}

#[test]
fn unmatched_brackets_pass_when_not_scanned() {
    let (_, _, status) = run("]", &[], 100);
    assert_eq!(status, Status::Finished);
}

#[test]
fn pointer_below_tape_faults() {
    let (bf, _, status) = run("+<", &[], 100);
    assert_eq!(status, Status::Faulted(Fault::PointerBelowTape));
    assert_eq!(bf.data_pointer(), 0);
    assert_eq!(bf.instruction_pointer(), 1);
}

#[test]
fn pointer_past_tape_faults() {
    let program = ">".repeat(TAPE_LEN - 1);
    let (bf, _, status) = run(&program, &[], 100_000);
    assert_eq!(status, Status::Finished);
    assert_eq!(bf.data_pointer(), TAPE_LEN - 1);
    let program = ">".repeat(TAPE_LEN);
    let (bf, _, status) = run(&program, &[], 100_000);
    assert_eq!(status, Status::Faulted(Fault::PointerPastTape));
    assert_eq!(bf.data_pointer(), TAPE_LEN - 1);
}

#[test]
fn missing_input_stops_the_run() {
    let (bf, output, status) = run(".,.", &[], 100);
    assert_eq!(status, Status::InputExhausted);
    assert_eq!(output, vec![0]);
    assert_eq!(bf.instruction_pointer(), 1);
}

#[test]
fn endless_loop_runs_out_of_fuel() {
    let (bf, _, status) = run("+[]", &[], 50);
    assert_eq!(status, Status::OutOfFuel);
    assert_eq!(bf.cell(0), Some(1));
}

#[test]
fn step_reports_each_action() {
    let program = program_chars("+.,x");
    let mut bf = Brainfuck::new();
    assert_eq!(bf.step(&program, None), Ok(Action::Stepped));
    assert_eq!(bf.step(&program, None), Ok(Action::Wrote(1)));
    assert_eq!(bf.step(&program, None), Ok(Action::AwaitingInput));
    assert_eq!(bf.instruction_pointer(), 2);
    assert_eq!(bf.step(&program, Some(42)), Ok(Action::Read));
    assert_eq!(bf.cell(0), Some(42));
    assert_eq!(bf.step(&program, None), Ok(Action::Stepped));
    assert_eq!(bf.step(&program, None), Ok(Action::Halted));
    assert_eq!(bf.instruction_pointer(), 4);
}

#[test]
fn step_fault_leaves_state_unchanged() {
    let program = program_chars("<");
    let mut bf = Brainfuck::new();
    assert_eq!(bf.step(&program, None), Err(Fault::PointerBelowTape));
    assert_eq!(bf.instruction_pointer(), 0);
    assert_eq!(bf.data_pointer(), 0);
}

#[test]
fn fresh_tape_is_zero() {
    let bf = Brainfuck::new();
    assert_eq!(bf.cell(0), Some(0));
    assert_eq!(bf.cell(TAPE_LEN - 1), Some(0));
    assert_eq!(bf.cell(TAPE_LEN), None);
    assert_eq!(bf.instruction_pointer(), 0);
    assert_eq!(bf.data_pointer(), 0);
}

#[test]
fn scans_find_nested_partners() {
    let program = program_chars("[a[b[]c]d]e]");
    assert_eq!(find_close(&program, 0), Some(9));
    assert_eq!(find_close(&program, 2), Some(7));
    assert_eq!(find_close(&program, 4), Some(5));
    assert_eq!(find_open(&program, 9), Some(0));
    assert_eq!(find_open(&program, 7), Some(2));
    assert_eq!(find_open(&program, 5), Some(4));
    assert_eq!(find_open(&program, 11), None);
    let program = program_chars("[[]");
    assert_eq!(find_close(&program, 0), None);
}

#[test]
fn program_chars_keeps_every_character() {
    assert_eq!(program_chars("a[é]\n"), vec!['a', '[', 'é', ']', '\n']);
    assert_eq!(program_chars(""), Vec::<char>::new());
}
