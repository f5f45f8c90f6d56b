use vstd::prelude::*;
use crate::parser::{lookup, find_label, Instr, Instructions, PrintModel, PrintVariants, ProgramModel, Tokens};
use crate::stack::{cursor_down, cursor_up, occupied, Stack, EMPTY_SLOT};
use crate::text::{chars_of, i32_literal, parse_i32, trim, trim_bounds};

verus! {

/// The number of slots of the tape a program runs on.
pub const TAPE_SIZE: usize = 256;

/// The state of a run: the tape with its cursor, and the index of the next
/// instruction.
#[derive(Debug)]
pub struct Machine {
    pub stack: Stack,
    pub pc: usize,
}

/// What the driver of a run does after a step.
#[derive(Debug, PartialEq, Eq)]
pub enum Action {
    /// Nothing: go on.
    Continue,
    /// Print a number.
    PrintValue(i32),
    /// Print the occupied slots of the tape.
    PrintCells(Vec<i32>),
    /// Print a text.
    PrintText(String),
    /// Read a line of input and hand it to `Machine::supply_input`.
    Read,
    /// The run is over.
    Halt,
}

/// Why a run stops with an error.
#[derive(Debug, PartialEq, Eq)]
pub enum RuntimeError {
    /// `DIV` with a divisor of 0.
    DivisionByZero,
    /// An arithmetic result that does not fit in 32 bits.
    Overflow,
    /// A jump was taken to a label that is not declared.
    UndeclaredLabel(String),
    /// The input for `READ` is no 32-bit integer.
    InvalidInput,
    /// The next instruction lies past the end of the program.
    OutOfProgram,
}

/// A machine state, as a value.
pub struct MachineModel {
    pub tape: Seq<i32>,
    pub cursor: int,
    pub pc: int,
}

/// An action, as a value.
pub enum Effect {
    Continue,
    PrintValue(i32),
    PrintCells(Seq<i32>),
    PrintText(Seq<char>),
    Read,
    Halt,
}

/// A runtime error, as a value.
pub enum Fault {
    DivisionByZero,
    Overflow,
    UndeclaredLabel(Seq<char>),
    InvalidInput,
    OutOfProgram,
}

impl View for Machine {
    type V = MachineModel;

    open spec fn view(&self) -> MachineModel {
        MachineModel { tape: self.stack.tape(), cursor: self.stack.cursor(), pc: self.pc as int }
    }
}

impl View for Action {
    type V = Effect;

    open spec fn view(&self) -> Effect {
        match self {
            Action::Continue => Effect::Continue,
            Action::PrintValue(v) => Effect::PrintValue(*v),
            Action::PrintCells(v) => Effect::PrintCells(v@),
            Action::PrintText(s) => Effect::PrintText(s@),
            Action::Read => Effect::Read,
            Action::Halt => Effect::Halt,
        }
    }
}

impl View for RuntimeError {
    type V = Fault;

    open spec fn view(&self) -> Fault {
        match self {
            RuntimeError::DivisionByZero => Fault::DivisionByZero,
            RuntimeError::Overflow => Fault::Overflow,
            RuntimeError::UndeclaredLabel(l) => Fault::UndeclaredLabel(l@),
            RuntimeError::InvalidInput => Fault::InvalidInput,
            RuntimeError::OutOfProgram => Fault::OutOfProgram,
        }
    }
}

/// `m` with its program counter on the next instruction.
pub open spec fn advanced(m: MachineModel) -> MachineModel {
    MachineModel { pc: m.pc + 1, ..m }
}

/// The result of an arithmetic instruction whose first pop gave `first` and
/// whose second gave `second`: the sum, the difference `second - first`, the
/// product, or the quotient `second / first` rounded toward zero.
pub open spec fn arith(i: Instr, first: i32, second: i32) -> Result<i32, Fault> {
    match i {
        Instr::Add => match first.checked_add(second) {
            Some(r) => Ok(r),
            None => Err(Fault::Overflow),
        },
        Instr::Sub => match second.checked_sub(first) {
            Some(r) => Ok(r),
            None => Err(Fault::Overflow),
        },
        Instr::Mul => match first.checked_mul(second) {
            Some(r) => Ok(r),
            None => Err(Fault::Overflow),
        },
        _ => if first == 0 {
            Err(Fault::DivisionByZero)
        } else {
            match second.checked_div(first) {
                Some(r) => Ok(r),
                None => Err(Fault::Overflow),
            }
        },
    }
}

/// An arithmetic instruction: pop twice, then put the result at the cursor.
pub open spec fn binary_step(m: MachineModel, i: Instr) -> Result<(MachineModel, Effect), Fault> {
    let first = m.tape[m.cursor];
    let t1 = m.tape.update(m.cursor, EMPTY_SLOT);
    let c1 = cursor_down(m.cursor);
    let second = t1[c1];
    let t2 = t1.update(c1, EMPTY_SLOT);
    let c2 = cursor_down(c1);
    match arith(i, first, second) {
        Ok(r) => Ok(
            (MachineModel { tape: t2.update(c2, r), cursor: c2, pc: m.pc + 1 }, Effect::Continue),
        ),
        Err(f) => Err(f),
    }
}

/// A conditional jump to `label`, taken when `taken` holds.
pub open spec fn jump_step(m: MachineModel, p: ProgramModel, label: Seq<char>, taken: bool) -> Result<
    (MachineModel, Effect),
    Fault,
> {
    if taken {
        match lookup(p.labels, label) {
            Some(t) => Ok((MachineModel { pc: t as int, ..m }, Effect::Continue)),
            None => Err(Fault::UndeclaredLabel(label)),
        }
    } else {
        Ok((advanced(m), Effect::Continue))
    }
}

/// One step of `p` from `m`: the next state and what the driver does, or the
/// error that ends the run. `READ` leaves the state as it is: the driver reads
/// and hands the line to `Machine::supply_input`.
pub open spec fn step_spec(m: MachineModel, p: ProgramModel) -> Result<(MachineModel, Effect), Fault> {
    if !(0 <= m.pc < p.code.len()) {
        Err(Fault::OutOfProgram)
    } else {
        let top = m.tape[m.cursor];
        match p.code[m.pc] {
            Instr::Exit => Ok((m, Effect::Halt)),
            Instr::Push(n) => Ok(
                (MachineModel { tape: m.tape.update(m.cursor, n), ..advanced(m) }, Effect::Continue),
            ),
            Instr::Pop => Ok(
                (
                    MachineModel {
                        tape: m.tape.update(m.cursor, EMPTY_SLOT),
                        cursor: cursor_down(m.cursor),
                        pc: m.pc + 1,
                    },
                    Effect::Continue,
                ),
            ),
            Instr::Add => binary_step(m, Instr::Add),
            Instr::Sub => binary_step(m, Instr::Sub),
            Instr::Mul => binary_step(m, Instr::Mul),
            Instr::Div => binary_step(m, Instr::Div),
            Instr::Inc => Ok(
                (
                    MachineModel { cursor: cursor_up(m.cursor, m.tape.len() as int), ..advanced(m) },
                    Effect::Continue,
                ),
            ),
            Instr::Dec => Ok(
                (MachineModel { cursor: cursor_down(m.cursor), ..advanced(m) }, Effect::Continue),
            ),
            Instr::Read => Ok((m, Effect::Read)),
            Instr::Print(PrintModel::Top) => Ok((advanced(m), Effect::PrintValue(top))),
            Instr::Print(PrintModel::Whole) => Ok(
                (advanced(m), Effect::PrintCells(occupied(m.tape))),
            ),
            Instr::Print(PrintModel::Text(s)) => Ok((advanced(m), Effect::PrintText(s))),
            Instr::JumpIfZero(l) => jump_step(m, p, l, top == 0),
            Instr::JumpIfPositive(l) => jump_step(m, p, l, top > 0),
            Instr::DeclareStack(_) => Ok((advanced(m), Effect::Continue)),
        }
    }
}

/// The state after `m` finishes a `READ` with the input line `s`: its value,
/// read as an integer without surrounding white space, goes to the cursor.
pub open spec fn input_spec(m: MachineModel, s: Seq<char>) -> Result<MachineModel, Fault> {
    match i32_literal(trim(s)) {
        Some(v) => Ok(MachineModel { tape: m.tape.update(m.cursor, v), ..advanced(m) }),
        None => Err(Fault::InvalidInput),
    }
}

impl Machine {
    /// The tape has `TAPE_SIZE` slots and the cursor designates one of them.
    pub open spec fn wf(&self) -> bool {
        &&& self.stack.wf()
        &&& self.stack.tape().len() == TAPE_SIZE
    }

    /// The state a run starts from: an empty tape of `TAPE_SIZE` slots, the
    /// cursor and the program counter at 0.
    pub fn new() -> (m: Self)
        ensures
            m.wf(),
            m@ == (MachineModel {
                tape: Seq::new(TAPE_SIZE as nat, |i: int| EMPTY_SLOT),
                cursor: 0,
                pc: 0,
            }),
    {
        Machine { stack: Stack::new(TAPE_SIZE), pc: 0 }
    }

    /// Runs an arithmetic instruction.
    fn binary(&mut self, i: &Tokens) -> (r: Result<Action, RuntimeError>)
        requires
            old(self).wf(),
            old(self).pc < usize::MAX,
            i@ is Add || i@ is Sub || i@ is Mul || i@ is Div,
        ensures
            final(self).wf(),
            match binary_step(old(self)@, i@) {
                Ok((m, e)) => r is Ok && r->Ok_0@ == e && final(self)@ == m,
                Err(f) => r is Err && r->Err_0@ == f && final(self)@ == old(self)@,
            },
    {
        let c = self.stack.pointer();
        let first = self.stack.top();
        let second = if c > 0 {
            self.stack.slot(c - 1)
        } else {
            EMPTY_SLOT
        };
        let res = match i {
            Tokens::ADD => first.checked_add(second),
            Tokens::SUB => second.checked_sub(first),
            Tokens::MUL => first.checked_mul(second),
            _ => {
                if first == 0 {
                    return Err(RuntimeError::DivisionByZero);
                }
                second.checked_div(first)
            },
        };
        match res {
            Some(v) => {
                self.stack.pop();
                self.stack.pop();
                self.stack.push(v);
                self.pc += 1;
                Ok(Action::Continue)
            },
            None => Err(RuntimeError::Overflow),
        }
    }

    /// Runs a conditional jump to `label`, taken when `taken` holds.
    fn jump(&mut self, program: &Instructions, label: &String, taken: bool) -> (r: Result<
        Action,
        RuntimeError,
    >)
        requires
            old(self).wf(),
            old(self).pc < usize::MAX,
        ensures
            final(self).wf(),
            match jump_step(old(self)@, program@, label@, taken) {
                Ok((m, e)) => r is Ok && r->Ok_0@ == e && final(self)@ == m,
                Err(f) => r is Err && r->Err_0@ == f && final(self)@ == old(self)@,
            },
    {
        if taken {
            match find_label(&program.labels, label) {
                Some(t) => {
                    self.pc = t;
                    Ok(Action::Continue)
                },
                None => Err(RuntimeError::UndeclaredLabel(label.clone())),
            }
        } else {
            self.pc += 1;
            Ok(Action::Continue)
        }
    }

    /// Runs the instruction at the program counter and says what the driver
    /// does next. On an error the state is left as it was.
    pub fn step(&mut self, program: &Instructions) -> (r: Result<Action, RuntimeError>)
        requires
            old(self).wf(),
        ensures
            final(self).wf(),
            match step_spec(old(self)@, program@) {
                Ok((m, e)) => r is Ok && r->Ok_0@ == e && final(self)@ == m,
                Err(f) => r is Err && r->Err_0@ == f && final(self)@ == old(self)@,
            },
    {
        if self.pc >= program.program.len() {
            return Err(RuntimeError::OutOfProgram);
        }
        let ins = &program.program[self.pc];
        assert(program@.code[self.pc as int] == ins@);
        match ins {
            Tokens::EXIT => Ok(Action::Halt),
            Tokens::PUSH(n) => {
                self.stack.push(*n);
                self.pc += 1;
                Ok(Action::Continue)
            },
            Tokens::POP => {
                self.stack.pop();
                self.pc += 1;
                Ok(Action::Continue)
            },
            Tokens::ADD | Tokens::SUB | Tokens::MUL | Tokens::DIV => self.binary(ins),
            Tokens::INC => {
                self.stack.increment_pointer();
                self.pc += 1;
                Ok(Action::Continue)
            },
            Tokens::DEC => {
                self.stack.decrement_pointer();
                self.pc += 1;
                Ok(Action::Continue)
            },
            Tokens::READ => Ok(Action::Read),
            Tokens::PRINT(PrintVariants::TOP) => {
                let v = self.stack.top();
                self.pc += 1;
                Ok(Action::PrintValue(v))
            },
            Tokens::PRINT(PrintVariants::STACK) => {
                let cells = self.stack.get_stack();
                self.pc += 1;
                Ok(Action::PrintCells(cells))
            },
            Tokens::PRINT(PrintVariants::STR(s)) => {
                self.pc += 1;
                Ok(Action::PrintText(s.clone()))
            },
            Tokens::JUMPEQ0(l) => {
                let taken = self.stack.top() == 0;
                self.jump(program, l, taken)
            },
            Tokens::JUMPGT0(l) => {
                let taken = self.stack.top() > 0;
                self.jump(program, l, taken)
            },
            Tokens::STACK(_) => {
                self.pc += 1;
                Ok(Action::Continue)
            },
        }
    }

    /// Finishes a `READ` with the input line `line`: its integer value goes
    /// to the cursor and the run moves on; a line that is no integer is an
    /// error, and leaves the state as it was.
    pub fn supply_input(&mut self, line: &str) -> (r: Result<(), RuntimeError>)
        requires
            old(self).wf(),
            old(self).pc < usize::MAX,
        ensures
            final(self).wf(),
            match input_spec(old(self)@, line@) {
                Ok(m) => r is Ok && final(self)@ == m,
                Err(f) => r is Err && r->Err_0@ == f && final(self)@ == old(self)@,
            },
    {
        let chars = chars_of(line);
        let (a, b) = trim_bounds(&chars);
        match parse_i32(&chars, a, b) {
            Some(v) => {
                self.stack.push(v);
                self.pc += 1;
                Ok(())
            },
            None => Err(RuntimeError::InvalidInput),
        }
    }
}

} // verus!

verus! {

/// The state after one step of `p` from `m` that neither ends the run nor
/// waits for input.
pub open spec fn next_state(m: MachineModel, p: ProgramModel) -> Option<MachineModel> {
    match step_spec(m, p) {
        Ok((m2, e)) => if e is Halt || e is Read {
            None
        } else {
            Some(m2)
        },
        Err(_) => None,
    }
}

/// The state after `n` such steps from `m`, or `None` where the run halts,
/// fails or waits for input before.
pub open spec fn run_steps(m: MachineModel, p: ProgramModel, n: nat) -> Option<MachineModel>
    decreases n,
{
    if n == 0 {
        Some(m)
    } else {
        match run_steps(m, p, (n - 1) as nat) {
            Some(x) => next_state(x, p),
            None => None,
        }
    }
}

proof fn lemma_run_steps_split(m: MachineModel, p: ProgramModel, a: nat, b: nat)
    requires
        run_steps(m, p, a) is Some,
    ensures
        run_steps(m, p, a + b) == run_steps(run_steps(m, p, a)->Some_0, p, b),
    decreases b,
{
    if b > 0 {
        lemma_run_steps_split(m, p, a, (b - 1) as nat);
        assert((a + b - 1) as nat == a + (b - 1) as nat);
    }
}

proof fn lemma_run_steps_stops(m: MachineModel, p: ProgramModel, a: nat, b: nat)
    requires
        a <= b,
        run_steps(m, p, b) is Some,
    ensures
        run_steps(m, p, a) is Some,
    decreases b - a,
{
    if a < b {
        lemma_run_steps_stops(m, p, a, (b - 1) as nat);
    }
}

/// A run is deterministic, so one that comes back to a state it was in goes
/// round that cycle forever: it never halts, fails or waits for input. A run
/// that ends therefore never passes through the same state twice.
pub proof fn lemma_cycle_never_ends(m: MachineModel, p: ProgramModel, n: nat, k: nat)
    requires
        n > 0,
        run_steps(m, p, n) == Some(m),
    ensures
        run_steps(m, p, k) is Some,
    decreases k,
{
    if k < n {
        lemma_run_steps_stops(m, p, k, n);
    } else {
        lemma_cycle_never_ends(m, p, n, (k - n) as nat);
        lemma_run_steps_split(m, p, n, (k - n) as nat);
        assert(n + (k - n) as nat == k);
    }
}

} // verus!
