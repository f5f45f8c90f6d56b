use sbl::{parse_file, Action, Instructions, Machine, RuntimeError, EMPTY_SLOT, TAPE_SIZE};

fn program(src: &[&str]) -> Instructions {
    parse_file(src.iter().map(|l| l.to_string()).collect()).unwrap()
}

/// Runs `p` for at most `limit` steps, answering each `READ` with the next
/// line of `input`; gives what was printed and how the run ended (`None`
/// where it was still going).
fn run(
    m: &mut Machine,
    p: &Instructions,
    input: &[&str],
    limit: usize,
) -> (Vec<String>, Option<Result<(), RuntimeError>>) {
    let mut out = Vec::new();
    let mut next_input = 0;
    for _ in 0..limit {
        match m.step(p) {
            Ok(Action::Continue) => {}
            Ok(Action::PrintValue(v)) => out.push(v.to_string()),
            Ok(Action::PrintCells(c)) => out.push(format!("{:?}", c)),
            Ok(Action::PrintText(s)) => out.push(s),
            Ok(Action::Read) => {
                let line = input[next_input];
                next_input += 1;
                if let Err(e) = m.supply_input(line) {
                    return (out, Some(Err(e)));
                }
            }
            Ok(Action::Halt) => return (out, Some(Ok(()))),
            Err(e) => return (out, Some(Err(e))),
        }
    }
    (out, None)
}

#[test]
fn machine_starts_empty() {
    let m = Machine::new();
    assert_eq!(m.pc, 0);
    assert_eq!(m.stack.pointer(), 0);
    assert_eq!(m.stack.slot(TAPE_SIZE - 1), EMPTY_SLOT);
    assert!(m.stack.get_stack().is_empty());
}

#[test]
fn push_then_print_top() {
    let p = program(&["PUSH 5", "PRINT TOP", "EXIT"]);
    let mut m = Machine::new();
    let (out, end) = run(&mut m, &p, &[], 100);
    assert_eq!(out, vec!["5"]);
    assert_eq!(end, Some(Ok(())));
}

#[test]
fn add_writes_at_cursor_after_pops() {
    let p = program(&["PUSH 1", "INC", "PUSH 2", "ADD", "PRINT TOP", "PRINT STACK", "EXIT"]);
    let mut m = Machine::new();
    let (out, end) = run(&mut m, &p, &[], 100);
    assert_eq!(out, vec!["3", "[3]"]);
    assert_eq!(end, Some(Ok(())));
    assert_eq!(m.stack.pointer(), 0);
    assert_eq!(m.stack.slot(0), 3);
    assert_eq!(m.stack.slot(1), EMPTY_SLOT);
}

#[test]
fn division_by_zero_is_fatal() {
    let p = program(&["PUSH 6", "INC", "PUSH 0", "DIV", "PRINT TOP", "EXIT"]);
    let mut m = Machine::new();
    let (out, end) = run(&mut m, &p, &[], 100);
    assert!(out.is_empty());
    assert_eq!(end, Some(Err(RuntimeError::DivisionByZero)));
    assert_eq!(m.pc, 3);
}

#[test]
fn sub_and_div_take_operands_in_order() {
    let p = program(&[
        "PUSH 10", "INC", "PUSH 3", "SUB", "PRINT TOP", "PUSH -7", "INC", "PUSH 2", "DIV",
        "PRINT TOP", "PUSH 6", "INC", "PUSH -4", "MUL", "PRINT TOP", "EXIT",
    ]);
    let mut m = Machine::new();
    let (out, end) = run(&mut m, &p, &[], 100);
    assert_eq!(out, vec!["7", "-3", "-24"]);
    assert_eq!(end, Some(Ok(())));
}

#[test]
fn add_at_slot_zero_reads_empty_slot() {
    let p = program(&["PUSH 1", "ADD", "PRINT TOP", "EXIT"]);
    let mut m = Machine::new();
    let (out, _) = run(&mut m, &p, &[], 100);
    assert_eq!(out, vec![(i32::MIN + 1).to_string()]);
}

#[test]
fn overflow_is_fatal() {
    let p = program(&["PUSH 2147483647", "INC", "PUSH 1", "ADD", "EXIT"]);
    let mut m = Machine::new();
    let (_, end) = run(&mut m, &p, &[], 100);
    assert_eq!(end, Some(Err(RuntimeError::Overflow)));
}

#[test]
fn countdown_loop_runs_five_bodies() {
    let p = program(&[
        "PUSH 5", "loop:", "PRINT \"body\"", "INC", "PUSH 1", "SUB", "JUMP_GT_0 loop", "PRINT TOP",
        "EXIT",
    ]);
    let mut m = Machine::new();
    let (out, end) = run(&mut m, &p, &[], 1000);
    assert_eq!(end, Some(Ok(())));
    assert_eq!(out.iter().filter(|s| *s == "body").count(), 5);
    assert_eq!(out.last().unwrap(), "0");
}

#[test]
fn endless_loop_hits_guard() {
    let p = program(&["PUSH 0", "again:", "JUMP_EQ_0 again", "EXIT"]);
    let mut m = Machine::new();
    let (_, end) = run(&mut m, &p, &[], 1000);
    assert_eq!(end, None);
    assert_eq!(m.pc, 1);
}

#[test]
fn undeclared_label_fails_only_when_taken() {
    let p = program(&["PUSH 1", "JUMP_EQ_0 target", "PRINT \"passed\"", "EXIT"]);
    let mut m = Machine::new();
    let (out, end) = run(&mut m, &p, &[], 100);
    assert_eq!(out, vec!["passed"]);
    assert_eq!(end, Some(Ok(())));

    let p = program(&["PUSH 0", "JUMP_EQ_0 target", "PRINT \"passed\"", "EXIT"]);
    let mut m = Machine::new();
    let (out, end) = run(&mut m, &p, &[], 100);
    assert!(out.is_empty());
    assert_eq!(end, Some(Err(RuntimeError::UndeclaredLabel("target".to_string()))));
}

#[test]
fn jump_forward_to_later_label() {
    let p = program(&["PUSH 3", "JUMP_GT_0 skip", "PRINT \"skipped\"", "skip:", "PRINT TOP",
        "EXIT"]);
    let mut m = Machine::new();
    let (out, _) = run(&mut m, &p, &[], 100);
    assert_eq!(out, vec!["3"]);
}

#[test]
fn jump_past_the_end_is_fatal() {
    let p = program(&["PUSH 0", "JUMP_EQ_0 end", "EXIT", "end:"]);
    let mut m = Machine::new();
    let (_, end) = run(&mut m, &p, &[], 100);
    assert_eq!(end, Some(Err(RuntimeError::OutOfProgram)));
}

#[test]
fn read_pushes_trimmed_input() {
    let p = program(&["READ", "PRINT TOP", "EXIT"]);
    let mut m = Machine::new();
    let (out, end) = run(&mut m, &p, &[" -42 \n"], 100);
    assert_eq!(out, vec!["-42"]);
    assert_eq!(end, Some(Ok(())));
}

#[test]
fn read_refuses_non_integer() {
    let p = program(&["READ", "EXIT"]);
    let mut m = Machine::new();
    let (_, end) = run(&mut m, &p, &["forty"], 100);
    assert_eq!(end, Some(Err(RuntimeError::InvalidInput)));
    assert_eq!(m.pc, 0);
    let mut m = Machine::new();
    assert_eq!(m.supply_input("\t\n"), Err(RuntimeError::InvalidInput));
    assert_eq!(m.supply_input("99999999999"), Err(RuntimeError::InvalidInput));
}

#[test]
fn stack_directive_is_inert() {
    let p = program(&["STACK 4", "PUSH 2", "PRINT STACK", "EXIT"]);
    let mut m = Machine::new();
    let (out, _) = run(&mut m, &p, &[], 100);
    assert_eq!(out, vec!["[2]"]);
    assert_eq!(m.stack.slot(TAPE_SIZE - 1), EMPTY_SLOT);
}

#[test]
fn cursor_stops_at_tape_end() {
    let mut src = vec!["PUSH 1"];
    for _ in 0..300 {
        src.push("INC");
    }
    src.push("PUSH 9");
    src.push("PRINT STACK");
    src.push("EXIT");
    let p = program(&src);
    let mut m = Machine::new();
    let (out, _) = run(&mut m, &p, &[], 1000);
    assert_eq!(m.stack.pointer(), TAPE_SIZE - 1);
    assert_eq!(out, vec!["[1, 9]"]);
}
