use vstd::prelude::*;
use vstd::string::StrSliceExecFns;
use crate::text::{
    chars_of, find_space, i32_literal, lemma_space_from_bounds, parse_i32, parse_usize,
    space_from, usize_literal, word_is,
};

verus! {

/// What `PRINT` prints.
#[derive(Debug, PartialEq, Eq)]
pub enum PrintVariants {
    /// The value at the cursor.
    TOP,
    /// The occupied slots of the tape.
    STACK,
    /// A fixed text.
    STR(String),
}

/// One instruction of a program.
#[derive(Debug, PartialEq, Eq)]
pub enum Tokens {
    PUSH(i32),
    POP,
    PRINT(PrintVariants),
    ADD,
    SUB,
    JUMPEQ0(String),
    JUMPGT0(String),
    MUL,
    DIV,
    DEC,
    INC,
    READ,
    STACK(usize),
    EXIT,
}

/// A label: its name and the index of the instruction that follows it.
#[derive(Debug, PartialEq, Eq)]
pub struct Label {
    pub name: String,
    pub index: usize,
}

/// A parsed program: its instructions and its labels, in order of
/// declaration.
#[derive(Debug, PartialEq, Eq)]
pub struct Instructions {
    pub program: Vec<Tokens>,
    pub labels: Vec<Label>,
}

/// Why a source text is refused; `line` counts from 1.
#[derive(Debug, PartialEq, Eq)]
pub enum ParseError {
    /// A label is declared a second time.
    DuplicateLabel { line: usize, name: String },
    /// The first word of a line is no opcode.
    InvalidSyntax { line: usize },
    /// The operand of `STACK` is no unsigned integer.
    InvalidStackSize { line: usize },
    /// An opcode that takes an operand has none.
    MissingOperand { line: usize },
    /// The text of a `PRINT` is too short to be enclosed in quotes.
    MalformedText { line: usize },
}

/// What `PRINT` prints, as a value.
pub enum PrintModel {
    Top,
    Whole,
    Text(Seq<char>),
}

/// An instruction, as a value.
pub enum Instr {
    Push(i32),
    Pop,
    Print(PrintModel),
    Add,
    Sub,
    JumpIfZero(Seq<char>),
    JumpIfPositive(Seq<char>),
    Mul,
    Div,
    Dec,
    Inc,
    Read,
    DeclareStack(usize),
    Exit,
}

/// A program, as a value: its instructions, and its labels with their
/// instruction indices in order of declaration.
pub struct ProgramModel {
    pub code: Seq<Instr>,
    pub labels: Seq<(Seq<char>, usize)>,
}

/// A parse error, as a value.
pub enum ParseFailure {
    DuplicateLabel { line: int, name: Seq<char> },
    InvalidSyntax { line: int },
    InvalidStackSize { line: int },
    MissingOperand { line: int },
    MalformedText { line: int },
}

impl View for PrintVariants {
    type V = PrintModel;

    open spec fn view(&self) -> PrintModel {
        match self {
            PrintVariants::TOP => PrintModel::Top,
            PrintVariants::STACK => PrintModel::Whole,
            PrintVariants::STR(s) => PrintModel::Text(s@),
        }
    }
}

impl View for Tokens {
    type V = Instr;

    open spec fn view(&self) -> Instr {
        match self {
            Tokens::PUSH(n) => Instr::Push(*n),
            Tokens::POP => Instr::Pop,
            Tokens::PRINT(p) => Instr::Print(p@),
            Tokens::ADD => Instr::Add,
            Tokens::SUB => Instr::Sub,
            Tokens::JUMPEQ0(l) => Instr::JumpIfZero(l@),
            Tokens::JUMPGT0(l) => Instr::JumpIfPositive(l@),
            Tokens::MUL => Instr::Mul,
            Tokens::DIV => Instr::Div,
            Tokens::DEC => Instr::Dec,
            Tokens::INC => Instr::Inc,
            Tokens::READ => Instr::Read,
            Tokens::STACK(n) => Instr::DeclareStack(*n),
            Tokens::EXIT => Instr::Exit,
        }
    }
}

impl View for Instructions {
    type V = ProgramModel;

    open spec fn view(&self) -> ProgramModel {
        ProgramModel {
            code: self.program@.map_values(|t: Tokens| t@),
            labels: self.labels@.map_values(|l: Label| (l.name@, l.index)),
        }
    }
}

impl View for ParseError {
    type V = ParseFailure;

    open spec fn view(&self) -> ParseFailure {
        match self {
            ParseError::DuplicateLabel { line, name } => ParseFailure::DuplicateLabel {
                line: *line as int,
                name: name@,
            },
            ParseError::InvalidSyntax { line } => ParseFailure::InvalidSyntax { line: *line as int },
            ParseError::InvalidStackSize { line } => ParseFailure::InvalidStackSize {
                line: *line as int,
            },
            ParseError::MissingOperand { line } => ParseFailure::MissingOperand { line: *line as int },
            ParseError::MalformedText { line } => ParseFailure::MalformedText { line: *line as int },
        }
    }
}

/// The first word of a line: everything before its first space.
pub open spec fn first_word(line: Seq<char>) -> Seq<char> {
    line.subrange(0, space_from(line, 0))
}

/// Whether the line has text after its first word.
pub open spec fn has_operand(line: Seq<char>) -> bool {
    space_from(line, 0) < line.len()
}

/// The second word of a line: what stands between its first and second
/// spaces.
pub open spec fn operand(line: Seq<char>) -> Seq<char> {
    let a = space_from(line, 0) + 1;
    line.subrange(a, space_from(line, a))
}

/// Everything after the first space of a line.
pub open spec fn rest(line: Seq<char>) -> Seq<char> {
    line.subrange(space_from(line, 0) + 1, line.len() as int)
}

/// Whether some label of `labels` is called `name`.
pub open spec fn declares(labels: Seq<(Seq<char>, usize)>, name: Seq<char>) -> bool {
    exists|i: int| 0 <= i < labels.len() && (#[trigger] labels[i]).0 == name
}

/// The instruction that a line with the opcode `op` stands for, or the kind
/// of error it makes (reported with line number 0).
pub open spec fn instr_of(op: Seq<char>, line: Seq<char>) -> Result<Instr, ParseFailure> {
    if op == "PUSH"@ || op == "PRINT"@ || op == "JUMP_EQ_0"@ || op == "JUMP_GT_0"@ || op
        == "STACK"@ {
        if !has_operand(line) {
            Err(ParseFailure::MissingOperand { line: 0 })
        } else if op == "PUSH"@ {
            Ok(
                Instr::Push(
                    match i32_literal(operand(line)) {
                        Some(v) => v,
                        None => -1i32,
                    },
                ),
            )
        } else if op == "PRINT"@ {
            if operand(line) == "TOP"@ {
                Ok(Instr::Print(PrintModel::Top))
            } else if operand(line) == "STACK"@ {
                Ok(Instr::Print(PrintModel::Whole))
            } else if rest(line).len() < 2 {
                Err(ParseFailure::MalformedText { line: 0 })
            } else {
                Ok(Instr::Print(PrintModel::Text(rest(line).subrange(1, rest(line).len() - 1))))
            }
        } else if op == "JUMP_EQ_0"@ {
            Ok(Instr::JumpIfZero(operand(line)))
        } else if op == "JUMP_GT_0"@ {
            Ok(Instr::JumpIfPositive(operand(line)))
        } else {
            match usize_literal(operand(line)) {
                Some(n) => Ok(Instr::DeclareStack(n)),
                None => Err(ParseFailure::InvalidStackSize { line: 0 }),
            }
        }
    } else if op == "POP"@ {
        Ok(Instr::Pop)
    } else if op == "ADD"@ {
        Ok(Instr::Add)
    } else if op == "SUB"@ {
        Ok(Instr::Sub)
    } else if op == "MUL"@ {
        Ok(Instr::Mul)
    } else if op == "DIV"@ {
        Ok(Instr::Div)
    } else if op == "INC"@ {
        Ok(Instr::Inc)
    } else if op == "DEC"@ {
        Ok(Instr::Dec)
    } else if op == "READ"@ {
        Ok(Instr::Read)
    } else if op == "EXIT"@ {
        Ok(Instr::Exit)
    } else {
        Err(ParseFailure::InvalidSyntax { line: 0 })
    }
}

/// The error `e` reported at line `n`.
pub open spec fn at_line(e: ParseFailure, n: int) -> ParseFailure {
    match e {
        ParseFailure::DuplicateLabel { name, .. } => ParseFailure::DuplicateLabel { line: n, name },
        ParseFailure::InvalidSyntax { .. } => ParseFailure::InvalidSyntax { line: n },
        ParseFailure::InvalidStackSize { .. } => ParseFailure::InvalidStackSize { line: n },
        ParseFailure::MissingOperand { .. } => ParseFailure::MissingOperand { line: n },
        ParseFailure::MalformedText { .. } => ParseFailure::MalformedText { line: n },
    }
}

/// The program `p` after reading `line`, the `n`-th line of the source.
pub open spec fn parse_line(p: ProgramModel, line: Seq<char>, n: int) -> Result<
    ProgramModel,
    ParseFailure,
> {
    let op = first_word(line);
    if op.len() == 0 {
        Ok(p)
    } else if op.last() == ':' {
        let name = op.drop_last();
        if declares(p.labels, name) {
            Err(ParseFailure::DuplicateLabel { line: n, name })
        } else {
            Ok(ProgramModel { code: p.code, labels: p.labels.push((name, p.code.len() as usize)) })
        }
    } else {
        match instr_of(op, line) {
            Ok(i) => Ok(ProgramModel { code: p.code.push(i), labels: p.labels }),
            Err(e) => Err(at_line(e, n)),
        }
    }
}

/// The program that the source `lines` hold, or the first error in them.
pub open spec fn parse_lines(lines: Seq<Seq<char>>) -> Result<ProgramModel, ParseFailure>
    decreases lines.len(),
{
    if lines.len() == 0 {
        Ok(ProgramModel { code: Seq::empty(), labels: Seq::empty() })
    } else {
        match parse_lines(lines.drop_last()) {
            Ok(p) => parse_line(p, lines.last(), lines.len() as int),
            Err(e) => Err(e),
        }
    }
}

/// The lines of a source text, as values.
pub open spec fn source_of(lines: Seq<String>) -> Seq<Seq<char>> {
    lines.map_values(|l: String| l@)
}

} // verus!

verus! {

/// The index of the first label of `labels` from position `i` on that is
/// called `name`.
pub open spec fn lookup_from(labels: Seq<(Seq<char>, usize)>, name: Seq<char>, i: int) -> Option<
    usize,
>
    decreases labels.len() - i,
{
    if i < 0 || i >= labels.len() {
        None
    } else if labels[i].0 == name {
        Some(labels[i].1)
    } else {
        lookup_from(labels, name, i + 1)
    }
}

/// The instruction index of the label `name`: that of its first declaration.
pub open spec fn lookup(labels: Seq<(Seq<char>, usize)>, name: Seq<char>) -> Option<usize> {
    lookup_from(labels, name, 0)
}

proof fn lemma_lookup_from_declares(labels: Seq<(Seq<char>, usize)>, name: Seq<char>, i: int)
    requires
        0 <= i <= labels.len(),
    ensures
        lookup_from(labels, name, i) is Some <==> exists|j: int|
            i <= j < labels.len() && (#[trigger] labels[j]).0 == name,
    decreases labels.len() - i,
{
    if i < labels.len() {
        lemma_lookup_from_declares(labels, name, i + 1);
        if labels[i].0 != name {
            if exists|j: int| i <= j < labels.len() && (#[trigger] labels[j]).0 == name {
                let j = choose|j: int| i <= j < labels.len() && (#[trigger] labels[j]).0 == name;
                assert(i + 1 <= j);
            }
        }
    }
}

/// A label is found exactly where it is declared.
pub proof fn lemma_lookup_declares(labels: Seq<(Seq<char>, usize)>, name: Seq<char>)
    ensures
        lookup(labels, name) is Some <==> declares(labels, name),
{
    lemma_lookup_from_declares(labels, name, 0);
}

/// Finds the instruction index of the label `name`.
pub fn find_label(labels: &Vec<Label>, name: &String) -> (r: Option<usize>)
    ensures
        r == lookup(labels@.map_values(|l: Label| (l.name@, l.index)), name@),
{
    let ghost m = labels@.map_values(|l: Label| (l.name@, l.index));
    let mut i: usize = 0;
    while i < labels.len()
        invariant
            i <= labels@.len(),
            m == labels@.map_values(|l: Label| (l.name@, l.index)),
            lookup_from(m, name@, i as int) == lookup(m, name@),
        decreases labels@.len() - i,
    {
        if labels[i].name == *name {
            return Some(labels[i].index);
        }
        i += 1;
    }
    None
}

/// Reads the instruction of a line whose opcode ends before `e0`.
fn decode(chars: &Vec<char>, line: &str, e0: usize, n: usize) -> (r: Result<Tokens, ParseError>)
    requires
        chars@ == line@,
        e0 == space_from(line@, 0),
    ensures
        match instr_of(first_word(line@), line@) {
            Ok(i) => r is Ok && r->Ok_0@ == i,
            Err(e) => r is Err && r->Err_0@ == at_line(e, n as int),
        },
{
    proof {
        lemma_space_from_bounds(line@, 0);
    }
    let len = chars.len();
    let is_push = word_is(chars, 0, e0, "PUSH");
    let is_print = word_is(chars, 0, e0, "PRINT");
    let is_jeq = word_is(chars, 0, e0, "JUMP_EQ_0");
    let is_jgt = word_is(chars, 0, e0, "JUMP_GT_0");
    let is_stack = word_is(chars, 0, e0, "STACK");
    if is_push || is_print || is_jeq || is_jgt || is_stack {
        if e0 >= len {
            return Err(ParseError::MissingOperand { line: n });
        }
        let a = e0 + 1;
        let e1 = find_space(chars, a);
        if is_push {
            let v = match parse_i32(chars, a, e1) {
                Some(v) => v,
                None => -1i32,
            };
            Ok(Tokens::PUSH(v))
        } else if is_print {
            if word_is(chars, a, e1, "TOP") {
                Ok(Tokens::PRINT(PrintVariants::TOP))
            } else if word_is(chars, a, e1, "STACK") {
                Ok(Tokens::PRINT(PrintVariants::STACK))
            } else if len - a < 2 {
                Err(ParseError::MalformedText { line: n })
            } else {
                let text = line.substring_char(a + 1, len - 1).to_owned();
                assert(text@ =~= rest(line@).subrange(1, rest(line@).len() - 1));
                Ok(Tokens::PRINT(PrintVariants::STR(text)))
            }
        } else if is_jeq {
            Ok(Tokens::JUMPEQ0(line.substring_char(a, e1).to_owned()))
        } else if is_jgt {
            Ok(Tokens::JUMPGT0(line.substring_char(a, e1).to_owned()))
        } else {
            match parse_usize(chars, a, e1) {
                Some(size) => Ok(Tokens::STACK(size)),
                None => Err(ParseError::InvalidStackSize { line: n }),
            }
        }
    } else if word_is(chars, 0, e0, "POP") {
        Ok(Tokens::POP)
    } else if word_is(chars, 0, e0, "ADD") {
        Ok(Tokens::ADD)
    } else if word_is(chars, 0, e0, "SUB") {
        Ok(Tokens::SUB)
    } else if word_is(chars, 0, e0, "MUL") {
        Ok(Tokens::MUL)
    } else if word_is(chars, 0, e0, "DIV") {
        Ok(Tokens::DIV)
    } else if word_is(chars, 0, e0, "INC") {
        Ok(Tokens::INC)
    } else if word_is(chars, 0, e0, "DEC") {
        Ok(Tokens::DEC)
    } else if word_is(chars, 0, e0, "READ") {
        Ok(Tokens::READ)
    } else if word_is(chars, 0, e0, "EXIT") {
        Ok(Tokens::EXIT)
    } else {
        Err(ParseError::InvalidSyntax { line: n })
    }
}

/// Reads `line`, the `n`-th line of the source, into `prog`.
fn parse_line_into(prog: &mut Instructions, line: &String, n: usize) -> (r: Result<(), ParseError>)
    ensures
        match parse_line(old(prog)@, line@, n as int) {
            Ok(p) => r is Ok && final(prog)@ == p,
            Err(e) => r is Err && r->Err_0@ == e,
        },
{
    let s = line.as_str();
    let chars = chars_of(s);
    let e0 = find_space(&chars, 0);
    if e0 == 0 {
        assert(first_word(line@).len() == 0);
        return Ok(());
    }
    assert(first_word(line@).last() == chars@[e0 - 1]);
    if chars[e0 - 1] == ':' {
        let name = s.substring_char(0, e0 - 1).to_owned();
        assert(name@ =~= first_word(line@).drop_last());
        proof {
            lemma_lookup_declares(old(prog)@.labels, name@);
        }
        match find_label(&prog.labels, &name) {
            Some(_) => {
                return Err(ParseError::DuplicateLabel { line: n, name });
            },
            None => {
                let index = prog.program.len();
                let ghost before = prog.labels@;
                prog.labels.push(Label { name, index });
                assert(prog.labels@.map_values(|l: Label| (l.name@, l.index)) =~= before.map_values(
                    |l: Label| (l.name@, l.index),
                ).push((first_word(line@).drop_last(), index)));
                return Ok(());
            },
        }
    }
    match decode(&chars, s, e0, n) {
        Ok(t) => {
            let ghost before = prog.program@;
            prog.program.push(t);
            assert(prog.program@.map_values(|t: Tokens| t@) =~= before.map_values(
                |t: Tokens| t@,
            ).push(t@));
            Ok(())
        },
        Err(e) => Err(e),
    }
}

proof fn lemma_error_persists(lines: Seq<Seq<char>>, i: int)
    requires
        0 <= i <= lines.len(),
        parse_lines(lines.subrange(0, i)) is Err,
    ensures
        parse_lines(lines) == parse_lines(lines.subrange(0, i)),
    decreases lines.len() - i,
{
    if i < lines.len() {
        let next = lines.subrange(0, i + 1);
        assert(next.drop_last() =~= lines.subrange(0, i));
        lemma_error_persists(lines, i + 1);
    } else {
        assert(lines.subrange(0, i) =~= lines);
    }
}

/// Reads a source text, given as its lines, into a program: each line is
/// blank, a label declaration `name:`, or an instruction.
pub fn parse_file(lines: Vec<String>) -> (r: Result<Instructions, ParseError>)
    ensures
        match parse_lines(source_of(lines@)) {
            Ok(p) => r is Ok && r->Ok_0@ == p,
            Err(e) => r is Err && r->Err_0@ == e,
        },
{
    let ghost src = source_of(lines@);
    let mut prog = Instructions { program: Vec::new(), labels: Vec::new() };
    assert(prog@.code =~= Seq::<Instr>::empty());
    assert(prog@.labels =~= Seq::<(Seq<char>, usize)>::empty());
    assert(src.subrange(0, 0) =~= Seq::<Seq<char>>::empty());
    let mut i: usize = 0;
    while i < lines.len()
        invariant
            i <= lines@.len(),
            src == source_of(lines@),
            parse_lines(src.subrange(0, i as int)) == Ok::<ProgramModel, ParseFailure>(prog@),
        decreases lines@.len() - i,
    {
        proof {
            let next = src.subrange(0, i + 1);
            assert(next.drop_last() =~= src.subrange(0, i as int));
            assert(next.last() == lines@[i as int]@);
        }
        match parse_line_into(&mut prog, &lines[i], i + 1) {
            Ok(()) => {},
            Err(e) => {
                proof {
                    lemma_error_persists(src, i + 1);
                }
                return Err(e);
            },
        }
        i += 1;
    }
    assert(src.subrange(0, lines@.len() as int) =~= src);
    Ok(prog)
}

} // verus!

verus! {

/// The opcode that an instruction is written with.
pub open spec fn mnemonic(i: Instr) -> Seq<char> {
    match i {
        Instr::Push(_) => "PUSH"@,
        Instr::Pop => "POP"@,
        Instr::Print(_) => "PRINT"@,
        Instr::Add => "ADD"@,
        Instr::Sub => "SUB"@,
        Instr::JumpIfZero(_) => "JUMP_EQ_0"@,
        Instr::JumpIfPositive(_) => "JUMP_GT_0"@,
        Instr::Mul => "MUL"@,
        Instr::Div => "DIV"@,
        Instr::Dec => "DEC"@,
        Instr::Inc => "INC"@,
        Instr::Read => "READ"@,
        Instr::DeclareStack(_) => "STACK"@,
        Instr::Exit => "EXIT"@,
    }
}

/// The opcodes of the instruction lines of a source, in order: the first
/// words of the lines that are neither blank nor label declarations.
pub open spec fn opcode_words(lines: Seq<Seq<char>>) -> Seq<Seq<char>>
    decreases lines.len(),
{
    if lines.len() == 0 {
        Seq::empty()
    } else {
        let w = first_word(lines.last());
        if w.len() == 0 || w.last() == ':' {
            opcode_words(lines.drop_last())
        } else {
            opcode_words(lines.drop_last()).push(w)
        }
    }
}

/// Whether some instruction of `code` is `EXIT`.
pub open spec fn has_exit_instr(code: Seq<Instr>) -> bool {
    exists|i: int| 0 <= i < code.len() && code[i] is Exit
}

impl Tokens {
    /// The opcode this instruction is written with.
    pub fn opcode(&self) -> (r: &'static str)
        ensures
            r@ == mnemonic(self@),
    {
        match self {
            Tokens::PUSH(_) => "PUSH",
            Tokens::POP => "POP",
            Tokens::PRINT(_) => "PRINT",
            Tokens::ADD => "ADD",
            Tokens::SUB => "SUB",
            Tokens::JUMPEQ0(_) => "JUMP_EQ_0",
            Tokens::JUMPGT0(_) => "JUMP_GT_0",
            Tokens::MUL => "MUL",
            Tokens::DIV => "DIV",
            Tokens::DEC => "DEC",
            Tokens::INC => "INC",
            Tokens::READ => "READ",
            Tokens::STACK(_) => "STACK",
            Tokens::EXIT => "EXIT",
        }
    }
}

impl Instructions {
    /// Whether the program holds an `EXIT`, without which it could not end.
    pub fn has_exit(&self) -> (r: bool)
        ensures
            r == has_exit_instr(self@.code),
    {
        let mut i: usize = 0;
        while i < self.program.len()
            invariant
                i <= self.program@.len(),
                forall|j: int| 0 <= j < i ==> !(self@.code[j] is Exit),
            decreases self.program@.len() - i,
        {
            if let Tokens::EXIT = self.program[i] {
                assert(self@.code[i as int] is Exit);
                return true;
            }
            i += 1;
        }
        false
    }
}

proof fn lemma_instr_of_mnemonic(op: Seq<char>, line: Seq<char>)
    requires
        instr_of(op, line) is Ok,
    ensures
        mnemonic(instr_of(op, line)->Ok_0) == op,
{
}

/// Parsing keeps the opcodes: where a source parses, writing out the opcode
/// of each instruction gives back the opcodes of its instruction lines, in
/// order.
pub proof fn lemma_opcodes_round_trip(lines: Seq<Seq<char>>)
    requires
        parse_lines(lines) is Ok,
    ensures
        parse_lines(lines)->Ok_0.code.map_values(|i: Instr| mnemonic(i)) == opcode_words(lines),
    decreases lines.len(),
{
    if lines.len() > 0 {
        let prev = lines.drop_last();
        lemma_opcodes_round_trip(prev);
        let p = parse_lines(prev)->Ok_0;
        let line = lines.last();
        let op = first_word(line);
        let q = parse_lines(lines)->Ok_0;
        if op.len() == 0 || op.last() == ':' {
            assert(q.code == p.code);
        } else {
            lemma_instr_of_mnemonic(op, line);
            assert(q.code.map_values(|i: Instr| mnemonic(i)) =~= p.code.map_values(
                |i: Instr| mnemonic(i),
            ).push(op));
        }
    } else {
        assert(parse_lines(lines)->Ok_0.code.map_values(|i: Instr| mnemonic(i)) =~= Seq::<
            Seq<char>,
        >::empty());
    }
}

} // verus!
