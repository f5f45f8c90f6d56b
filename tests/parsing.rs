use sbl::{check_extension, parse_file, Instructions, ParseError, PrintVariants, Tokens};

fn lines(src: &[&str]) -> Vec<String> {
    src.iter().map(|l| l.to_string()).collect()
}

fn parse(src: &[&str]) -> Result<Instructions, ParseError> {
    parse_file(lines(src))
}

#[test]
fn extension_accepted() {
    assert!(check_extension("program.sbl", ".sbl"));
    assert!(check_extension(".sbl", ".sbl"));
}

#[test]
fn extension_refused() {
    assert!(!check_extension("program.txt", ".sbl"));
    assert!(!check_extension("program.sb", ".sbl"));
    assert!(!check_extension("sbl", ".sbl"));
    assert!(!check_extension("", ".sbl"));
}

#[test]
fn parses_every_opcode() {
    let p = parse(&[
        "PUSH 5", "POP", "ADD", "SUB", "MUL", "DIV", "INC", "DEC", "READ", "PRINT TOP",
        "PRINT STACK", "PRINT \"hello world\"", "JUMP_EQ_0 a", "JUMP_GT_0 b", "STACK 16", "EXIT",
    ])
    .unwrap();
    assert_eq!(
        p.program,
        vec![
            Tokens::PUSH(5),
            Tokens::POP,
            Tokens::ADD,
            Tokens::SUB,
            Tokens::MUL,
            Tokens::DIV,
            Tokens::INC,
            Tokens::DEC,
            Tokens::READ,
            Tokens::PRINT(PrintVariants::TOP),
            Tokens::PRINT(PrintVariants::STACK),
            Tokens::PRINT(PrintVariants::STR("hello world".to_string())),
            Tokens::JUMPEQ0("a".to_string()),
            Tokens::JUMPGT0("b".to_string()),
            Tokens::STACK(16),
            Tokens::EXIT,
        ]
    );
    assert!(p.labels.is_empty());
}

#[test]
fn opcodes_round_trip() {
    let src = [
        "start:", "PUSH 3", "", "loop:", "PRINT \"x y\"", "INC", "PUSH 1", "SUB", "JUMP_GT_0 loop",
        "STACK 8", "READ", "EXIT",
    ];
    let p = parse(&src).unwrap();
    let written: Vec<&str> = p.program.iter().map(|t| t.opcode()).collect();
    let expected: Vec<&str> = src
        .iter()
        .map(|l| l.split(' ').next().unwrap())
        .filter(|w| !w.is_empty() && !w.ends_with(':'))
        .collect();
    assert_eq!(written, expected);
    assert_eq!(
        written,
        vec!["PUSH", "PRINT", "INC", "PUSH", "SUB", "JUMP_GT_0", "STACK", "READ", "EXIT"]
    );
}

#[test]
fn labels_point_at_next_instruction() {
    let p = parse(&["start:", "PUSH 1", "mid:", "", "POP", "end:", "EXIT", "after:"]).unwrap();
    let labels: Vec<(&str, usize)> = p.labels.iter().map(|l| (l.name.as_str(), l.index)).collect();
    assert_eq!(labels, vec![("start", 0), ("mid", 1), ("end", 2), ("after", 3)]);
    assert_eq!(p.program.len(), 3);
}

#[test]
fn duplicate_label_is_refused() {
    let r = parse(&["loop:", "PUSH 1", "loop:", "PRINT TOP", "EXIT"]);
    assert_eq!(r, Err(ParseError::DuplicateLabel { line: 3, name: "loop".to_string() }));
}

#[test]
fn unknown_opcode_is_refused() {
    assert_eq!(parse(&["PUSH 1", "push 2", "EXIT"]), Err(ParseError::InvalidSyntax { line: 2 }));
    assert_eq!(parse(&["EXIT", "JUMP 1"]), Err(ParseError::InvalidSyntax { line: 2 }));
}

#[test]
fn stack_size_must_be_unsigned() {
    assert_eq!(parse(&["STACK -4", "EXIT"]), Err(ParseError::InvalidStackSize { line: 1 }));
    assert_eq!(parse(&["STACK big", "EXIT"]), Err(ParseError::InvalidStackSize { line: 1 }));
    assert_eq!(parse(&["STACK", "EXIT"]), Err(ParseError::MissingOperand { line: 1 }));
    assert_eq!(parse(&["STACK +12"]).unwrap().program, vec![Tokens::STACK(12)]);
}

#[test]
fn bad_push_operand_becomes_minus_one() {
    let p = parse(&["PUSH abc", "PUSH 2147483648", "PUSH -2147483648", "PUSH +7", "PUSH -",
        "PUSH 12 34"])
    .unwrap();
    assert_eq!(
        p.program,
        vec![
            Tokens::PUSH(-1),
            Tokens::PUSH(-1),
            Tokens::PUSH(i32::MIN),
            Tokens::PUSH(7),
            Tokens::PUSH(-1),
            Tokens::PUSH(12),
        ]
    );
}

#[test]
fn operands_are_required() {
    assert_eq!(parse(&["PUSH"]), Err(ParseError::MissingOperand { line: 1 }));
    assert_eq!(parse(&["", "JUMP_EQ_0"]), Err(ParseError::MissingOperand { line: 2 }));
    assert_eq!(parse(&["PRINT"]), Err(ParseError::MissingOperand { line: 1 }));
}

#[test]
fn print_text_loses_its_quotes() {
    let p = parse(&["PRINT \"a  b\"", "PRINT \"\""]).unwrap();
    assert_eq!(
        p.program,
        vec![
            Tokens::PRINT(PrintVariants::STR("a  b".to_string())),
            Tokens::PRINT(PrintVariants::STR(String::new())),
        ]
    );
    assert_eq!(parse(&["PRINT \""]), Err(ParseError::MalformedText { line: 1 }));
    assert_eq!(parse(&["PRINT "]), Err(ParseError::MalformedText { line: 1 }));
}

#[test]
fn blank_and_indented_lines_are_skipped() {
    let p = parse(&["", "  PUSH 1", "EXIT"]).unwrap();
    assert_eq!(p.program, vec![Tokens::EXIT]);
}

#[test]
fn missing_exit_is_detected() {
    let p = parse(&["PRINT \"never\"", "PUSH 1"]).unwrap();
    assert!(!p.has_exit());
    assert!(parse(&["PUSH 1", "EXIT"]).unwrap().has_exit());
}
