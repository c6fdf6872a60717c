//! The execution engine.
//!
//! The engine runs a program on a memory bank, one instruction at a time. It
//! does no input or output itself: a step that needs the outside world says
//! so in the `Action` it returns, and the host does what is asked and calls
//! the engine again. A character that the host has read is handed in through
//! `Machine::input`.

use crate::errors::RuntimeError;
use crate::instructions::{get_literal_value, Instruction, Value};
use crate::memory::{
    address_register, comparison_flag, store_address, store_flag, store_target, target, Memory,
    MEMORY_SIZE,
};
use crate::text::{char_from_u32, is_scalar_value};
use std::collections::HashMap;
use vstd::prelude::*;

verus! {

/// What the host has to do after a step.
#[derive(Debug, Clone, Copy, PartialEq, Eq, Structural)]
pub enum Action {
    /// Nothing: call the engine again.
    Continue,
    /// Write the number to the output.
    Output(u16),
    /// Write the character to the output.
    CharacterOutput(char),
    /// Read one character and hand it to `Machine::input`.
    CharacterInput,
    /// Write a dump of the memory to the diagnostic sink.
    Dump,
    /// The run is over, with this exit code.
    Exit(u16),
}

/// The state of a run, as mathematics sees it.
pub struct State {
    /// The content of the memory bank, cell by cell.
    pub memory: Seq<u16>,
    /// The index of the instruction to execute next.
    pub pointer: nat,
    /// The indices of the jumps that have not returned yet, oldest first.
    pub call_stack: Seq<nat>,
}

/// What a step gives: the state after it, and the action for the host or the
/// error that stops the run.
pub struct Outcome {
    pub state: State,
    pub result: Result<Action, RuntimeError>,
}

/// The index of the instruction that declares the label `literal`: the last
/// `Label` instruction of the program whose operand is that literal.
pub open spec fn label_index(program: Seq<Instruction>, literal: u16) -> Option<nat>
    decreases program.len(),
{
    if program.len() == 0 {
        None
    } else if program.last() == Instruction::Label(Value::Literal(literal)) {
        Some((program.len() - 1) as nat)
    } else {
        label_index(program.drop_last(), literal)
    }
}

/// A label is declared where the program holds a `Label` instruction with
/// its literal, and nowhere behind the index that `label_index` gives is
/// there another one. A label that no instruction declares has no index.
pub proof fn lemma_label_index(program: Seq<Instruction>, literal: u16)
    ensures
        match label_index(program, literal) {
            Some(index) => {
                &&& index < program.len()
                &&& program[index as int] == Instruction::Label(Value::Literal(literal))
                &&& forall|later: int|
                    index < later < program.len() ==> program[later] != Instruction::Label(
                        Value::Literal(literal),
                    )
            },
            None => forall|any: int|
                0 <= any < program.len() ==> program[any] != Instruction::Label(
                    Value::Literal(literal),
                ),
        },
    decreases program.len(),
{
    if program.len() > 0 && program.last() != Instruction::Label(Value::Literal(literal)) {
        let shorter = program.drop_last();
        lemma_label_index(shorter, literal);
        assert(forall|any: int| 0 <= any < shorter.len() ==> shorter[any] == program[any]);
    }
}

/// `n`, reduced to 16 bits.
pub open spec fn wrap(n: int) -> u16 {
    (n % 65536) as u16
}

/// The state after an ordinary instruction: the next instruction is the one
/// behind it.
pub open spec fn advance(state: State, memory: Seq<u16>) -> Outcome {
    Outcome {
        state: State { memory, pointer: state.pointer + 1, call_stack: state.call_stack },
        result: Ok(Action::Continue),
    }
}

/// The state after an instruction that ran into `error`: as before.
pub open spec fn fail(state: State, error: RuntimeError) -> Outcome {
    Outcome { state, result: Err(error) }
}

/// What a conditional branch to `label` does, where `taken` says whether the
/// comparison flag asks for it. The label is looked up before the flag is.
pub open spec fn branch(program: Seq<Instruction>, state: State, label: u16, taken: bool) -> Outcome {
    match label_index(program, label) {
        None => fail(state, RuntimeError::UndeclaredLabel(label)),
        Some(index) => if taken {
            Outcome {
                state: State {
                    memory: state.memory,
                    pointer: index,
                    call_stack: state.call_stack,
                },
                result: Ok(Action::Continue),
            }
        } else {
            advance(state, state.memory)
        },
    }
}

/// One step of the engine: what executing the instruction under the pointer
/// does to the state, and what it asks of the host.
///
/// Behind the end of the program the run is over with exit code 0. `Exit` and
/// `CharacterInput` leave the state as it is: the first ends the run, the
/// second waits for `input`. An instruction that fails leaves the state as it
/// is too.
pub open spec fn execute(program: Seq<Instruction>, state: State) -> Outcome {
    let memory = state.memory;
    if state.pointer >= program.len() {
        Outcome { state, result: Ok(Action::Exit(0)) }
    } else {
        match program[state.pointer as int] {
            Instruction::Output => Outcome {
                state: advance(state, memory).state,
                result: Ok(Action::Output(target(memory))),
            },
            Instruction::CharacterOutput => if is_scalar_value(target(memory) as u32) {
                Outcome {
                    state: advance(state, memory).state,
                    result: Ok(Action::CharacterOutput(target(memory) as char)),
                }
            } else {
                fail(state, RuntimeError::InvalidCharacter)
            },
            Instruction::CharacterInput => Outcome { state, result: Ok(Action::CharacterInput) },
            Instruction::Dump => Outcome {
                state: advance(state, memory).state,
                result: Ok(Action::Dump),
            },
            Instruction::Return => if state.call_stack.len() == 0 {
                fail(state, RuntimeError::EmptyCallStack)
            } else {
                Outcome {
                    state: State {
                        memory,
                        pointer: state.call_stack.last() + 1,
                        call_stack: state.call_stack.drop_last(),
                    },
                    result: Ok(Action::Continue),
                }
            },
            Instruction::SetAddress(value) => advance(
                state,
                store_address(memory, value.resolve(memory)),
            ),
            Instruction::SetValue(value) => advance(
                state,
                store_target(memory, value.resolve(memory)),
            ),
            Instruction::Add(value) => advance(
                state,
                store_target(memory, wrap(target(memory) + value.resolve(memory))),
            ),
            Instruction::Subtract(value) => advance(
                state,
                store_target(memory, wrap(target(memory) - value.resolve(memory))),
            ),
            Instruction::Multiply(value) => advance(
                state,
                store_target(memory, wrap(target(memory) * value.resolve(memory))),
            ),
            Instruction::Divide(value) => if value.resolve(memory) == 0 {
                fail(state, RuntimeError::DivisionByZero)
            } else {
                advance(state, store_target(memory, target(memory) / value.resolve(memory)))
            },
            Instruction::Label(_) => advance(state, memory),
            Instruction::Compare(value) => advance(
                state,
                store_flag(memory, target(memory) == value.resolve(memory)),
            ),
            Instruction::GreaterThan(value) => advance(
                state,
                store_flag(memory, target(memory) > value.resolve(memory)),
            ),
            Instruction::LessThan(value) => advance(
                state,
                store_flag(memory, target(memory) < value.resolve(memory)),
            ),
            Instruction::GreaterThanEqual(value) => advance(
                state,
                store_flag(memory, target(memory) >= value.resolve(memory)),
            ),
            Instruction::LessThanEqual(value) => advance(
                state,
                store_flag(memory, target(memory) <= value.resolve(memory)),
            ),
            Instruction::BranchIfNotEqual(label) => branch(
                program,
                state,
                label.resolve(memory),
                comparison_flag(memory) == 0,
            ),
            Instruction::BranchIfEqual(label) => branch(
                program,
                state,
                label.resolve(memory),
                comparison_flag(memory) == 1,
            ),
            Instruction::Jump(label) => match label_index(program, label.resolve(memory)) {
                None => fail(state, RuntimeError::UndeclaredLabel(label.resolve(memory))),
                Some(index) => Outcome {
                    state: State {
                        memory,
                        pointer: index,
                        call_stack: state.call_stack.push(state.pointer),
                    },
                    result: Ok(Action::Continue),
                },
            },
            Instruction::Exit(value) => Outcome {
                state,
                result: Ok(Action::Exit(value.resolve(memory))),
            },
        }
    }
}

/// Whether the engine waits for a character: the instruction under the
/// pointer is `CharacterInput`.
pub open spec fn awaits_input(program: Seq<Instruction>, state: State) -> bool {
    state.pointer < program.len() && program[state.pointer as int] == Instruction::CharacterInput
}

/// The code point of `c`, reduced to 16 bits.
pub open spec fn code_point(c: char) -> u16 {
    wrap(c as u32 as int)
}

/// The state after the host has read `c` for a `CharacterInput`: the code
/// point stands in the target cell and the pointer has moved on. Where the
/// engine does not wait for a character, the state is as before.
pub open spec fn receive(program: Seq<Instruction>, state: State, c: char) -> State {
    if awaits_input(program, state) {
        State {
            memory: store_target(state.memory, code_point(c)),
            pointer: state.pointer + 1,
            call_stack: state.call_stack,
        }
    } else {
        state
    }
}

/// At most `budget` steps of the engine, taken as long as a step asks
/// nothing of the host. What the last step gave is what the run gives.
pub open spec fn execute_many(program: Seq<Instruction>, state: State, budget: nat) -> Outcome
    decreases budget,
{
    if budget == 0 {
        Outcome { state, result: Ok(Action::Continue) }
    } else {
        let first = execute(program, state);
        if first.result == Ok::<Action, RuntimeError>(Action::Continue) {
            execute_many(program, first.state, (budget - 1) as nat)
        } else {
            first
        }
    }
}

/// Whether `table` is the label table of `program`.
pub open spec fn is_label_table(table: Map<u16, usize>, program: Seq<Instruction>) -> bool {
    forall|literal: u16|
        #![trigger label_index(program, literal)]
        #![trigger table.contains_key(literal)]
        match label_index(program, literal) {
            Some(index) => table.contains_key(literal) && table[literal] == index,
            None => !table.contains_key(literal),
        }
}

/// The call stack of the engine as a sequence of natural numbers.
pub open spec fn stack_view(stack: Seq<usize>) -> Seq<nat> {
    Seq::new(stack.len(), |i: int| stack[i] as nat)
}

/// Builds the label table of a program: one pass over its instructions, in
/// which a later declaration of a literal replaces an earlier one.
pub fn build_labels(program: &Vec<Instruction>) -> (labels: HashMap<u16, usize>)
    ensures
        is_label_table(labels@, program@),
{
    broadcast use vstd::std_specs::hash::group_hash_axioms;

    let mut labels: HashMap<u16, usize> = HashMap::new();
    let mut index: usize = 0;
    while index < program.len()
        invariant
            index <= program.len(),
            is_label_table(labels@, program@.take(index as int)),
        decreases program.len() - index,
    {
        assert(program@.take(index + 1).drop_last() =~= program@.take(index as int));
        match program[index] {
            Instruction::Label(Value::Literal(literal)) => {
                labels.insert(literal, index);
            },
            _ => {},
        }
        index += 1;
    }
    assert(program@.take(index as int) =~= program@);
    labels
}

/// The engine: a program, its label table, the memory bank, the instruction
/// pointer and the call stack.
pub struct Machine {
    program: Vec<Instruction>,
    labels: HashMap<u16, usize>,
    memory: Memory,
    pointer: usize,
    call_stack: Vec<usize>,
}

impl View for Machine {
    type V = State;

    closed spec fn view(&self) -> State {
        State {
            memory: self.memory@,
            pointer: self.pointer as nat,
            call_stack: stack_view(self.call_stack@),
        }
    }
}

impl Machine {
    /// The program that the engine runs.
    pub closed spec fn program(&self) -> Seq<Instruction> {
        self.program@
    }

    /// What holds of every engine: its label table is that of its program,
    /// and its call stack holds indices of instructions.
    pub closed spec fn wf(&self) -> bool {
        &&& is_label_table(self.labels@, self.program@)
        &&& forall|i: int|
            0 <= i < self.call_stack@.len() ==> (#[trigger] self.call_stack@[i])
                < self.program@.len()
    }

    /// An engine at the start of a run of `program` on `memory`: the pointer
    /// at the first instruction, the call stack empty.
    pub fn new(memory: Memory, program: Vec<Instruction>) -> (machine: Machine)
        ensures
            machine.wf(),
            machine.program() == program@,
            machine@ == (State { memory: memory@, pointer: 0, call_stack: Seq::empty() }),
    {
        let labels = build_labels(&program);
        let machine = Machine { program, labels, memory, pointer: 0, call_stack: Vec::new() };
        assert(machine@.call_stack =~= Seq::<nat>::empty());
        machine
    }

    /// The memory bank.
    pub fn memory(&self) -> (memory: &Memory)
        ensures
            memory@ == self@.memory,
    {
        &self.memory
    }

    /// Ends the run and gives the memory bank back.
    pub fn into_memory(self) -> (memory: Memory)
        ensures
            memory@ == self@.memory,
    {
        self.memory
    }

    /// The index of the instruction to execute next.
    pub fn pointer(&self) -> (pointer: usize)
        ensures
            pointer == self@.pointer,
    {
        self.pointer
    }

    /// The indices of the jumps that have not returned yet, oldest first.
    pub fn call_stack(&self) -> (stack: &Vec<usize>)
        ensures
            stack_view(stack@) == self@.call_stack,
    {
        &self.call_stack
    }

    /// The instructions of the program.
    pub fn instructions(&self) -> (program: &Vec<Instruction>)
        ensures
            program@ == self.program(),
    {
        &self.program
    }

    /// The index of the instruction that declares `label`.
    fn find_label(&self, label: u16) -> (index: Option<usize>)
        requires
            self.wf(),
        ensures
            match index {
                Some(found) => label_index(self.program(), label) == Some(found as nat),
                None => label_index(self.program(), label).is_none(),
            },
    {
        broadcast use vstd::std_specs::hash::group_hash_axioms;

        match self.labels.get(&label) {
            Some(found) => Some(*found),
            None => None,
        }
    }

    /// Moves the pointer to the next instruction.
    fn advance(&mut self)
        requires
            old(self).wf(),
            old(self).pointer < old(self).program.len(),
        ensures
            final(self).wf(),
            final(self).program() == old(self).program(),
            final(self)@ == advance(old(self)@, old(self)@.memory).state,
    {
        self.pointer = self.pointer + 1;
    }

    /// Executes the instruction under the pointer.
    pub fn step(&mut self) -> (result: Result<Action, RuntimeError>)
        requires
            old(self).wf(),
        ensures
            final(self).wf(),
            final(self).program() == old(self).program(),
            final(self)@ == execute(old(self).program(), old(self)@).state,
            result == execute(old(self).program(), old(self)@).result,
    {
        if self.pointer >= self.program.len() {
            return Ok(Action::Exit(0));
        }
        let instruction = self.program[self.pointer];
        match instruction {
            Instruction::Output => {
                let number = self.memory.target();
                self.advance();
                Ok(Action::Output(number))
            },
            Instruction::CharacterOutput => {
                match char_from_u32(self.memory.target() as u32) {
                    None => Err(RuntimeError::InvalidCharacter),
                    Some(c) => {
                        self.advance();
                        Ok(Action::CharacterOutput(c))
                    },
                }
            },
            Instruction::CharacterInput => Ok(Action::CharacterInput),
            Instruction::Dump => {
                self.advance();
                Ok(Action::Dump)
            },
            Instruction::Return => {
                match self.call_stack.pop() {
                    None => Err(RuntimeError::EmptyCallStack),
                    Some(caller) => {
                        self.pointer = caller + 1;
                        assert(self@.call_stack =~= old(self)@.call_stack.drop_last());
                        Ok(Action::Continue)
                    },
                }
            },
            Instruction::SetAddress(new_address) => {
                let address = get_literal_value(&new_address, &mut self.memory);
                self.memory.set_address_register(address);
                self.advance();
                Ok(Action::Continue)
            },
            Instruction::SetValue(value) => {
                let number = get_literal_value(&value, &mut self.memory);
                self.memory.set_target(number);
                self.advance();
                Ok(Action::Continue)
            },
            Instruction::Add(other) => {
                let number = get_literal_value(&other, &mut self.memory);
                let sum = self.memory.target().wrapping_add(number);
                self.memory.set_target(sum);
                self.advance();
                Ok(Action::Continue)
            },
            Instruction::Subtract(other) => {
                let number = get_literal_value(&other, &mut self.memory);
                let difference = self.memory.target().wrapping_sub(number);
                self.memory.set_target(difference);
                self.advance();
                Ok(Action::Continue)
            },
            Instruction::Multiply(other) => {
                let number = get_literal_value(&other, &mut self.memory);
                let product = self.memory.target().wrapping_mul(number);
                self.memory.set_target(product);
                self.advance();
                Ok(Action::Continue)
            },
            Instruction::Divide(other) => {
                let number = get_literal_value(&other, &mut self.memory);
                if number == 0 {
                    return Err(RuntimeError::DivisionByZero);
                }
                let quotient = self.memory.target() / number;
                self.memory.set_target(quotient);
                self.advance();
                Ok(Action::Continue)
            },
            Instruction::Label(_) => {
                self.advance();
                Ok(Action::Continue)
            },
            Instruction::Compare(other) => {
                let number = get_literal_value(&other, &mut self.memory);
                let holds = self.memory.target() == number;
                self.memory.set_comparison_flag(holds);
                self.advance();
                Ok(Action::Continue)
            },
            Instruction::GreaterThan(other) => {
                let number = get_literal_value(&other, &mut self.memory);
                let holds = self.memory.target() > number;
                self.memory.set_comparison_flag(holds);
                self.advance();
                Ok(Action::Continue)
            },
            Instruction::LessThan(other) => {
                let number = get_literal_value(&other, &mut self.memory);
                let holds = self.memory.target() < number;
                self.memory.set_comparison_flag(holds);
                self.advance();
                Ok(Action::Continue)
            },
            Instruction::GreaterThanEqual(other) => {
                let number = get_literal_value(&other, &mut self.memory);
                let holds = self.memory.target() >= number;
                self.memory.set_comparison_flag(holds);
                self.advance();
                Ok(Action::Continue)
            },
            Instruction::LessThanEqual(other) => {
                let number = get_literal_value(&other, &mut self.memory);
                let holds = self.memory.target() <= number;
                self.memory.set_comparison_flag(holds);
                self.advance();
                Ok(Action::Continue)
            },
            Instruction::BranchIfNotEqual(label) => {
                let literal = get_literal_value(&label, &mut self.memory);
                let taken = self.memory.comparison_flag() == 0;
                self.branch(literal, taken)
            },
            Instruction::BranchIfEqual(label) => {
                let literal = get_literal_value(&label, &mut self.memory);
                let taken = self.memory.comparison_flag() == 1;
                self.branch(literal, taken)
            },
            Instruction::Jump(label) => {
                let literal = get_literal_value(&label, &mut self.memory);
                match self.find_label(literal) {
                    None => Err(RuntimeError::UndeclaredLabel(literal)),
                    Some(index) => {
                        self.call_stack.push(self.pointer);
                        self.pointer = index;
                        proof {
                            lemma_label_index(self.program@, literal);
                            assert(self@.call_stack =~= old(self)@.call_stack.push(
                                old(self)@.pointer,
                            ));
                        }
                        Ok(Action::Continue)
                    },
                }
            },
            Instruction::Exit(value) => {
                let code = get_literal_value(&value, &mut self.memory);
                Ok(Action::Exit(code))
            },
        }
    }

    /// Branches to `label`, if `taken`, or moves on.
    fn branch(&mut self, label: u16, taken: bool) -> (result: Result<Action, RuntimeError>)
        requires
            old(self).wf(),
            old(self).pointer < old(self).program.len(),
        ensures
            final(self).wf(),
            final(self).program() == old(self).program(),
            final(self)@ == branch(old(self).program(), old(self)@, label, taken).state,
            result == branch(old(self).program(), old(self)@, label, taken).result,
    {
        match self.find_label(label) {
            None => Err(RuntimeError::UndeclaredLabel(label)),
            Some(index) => {
                if taken {
                    self.pointer = index;
                } else {
                    self.advance();
                }
                Ok(Action::Continue)
            },
        }
    }

    /// Hands in the character that the host has read for a `CharacterInput`.
    /// The answer is the character to echo on the output, or `None` where
    /// the engine did not wait for a character.
    pub fn input(&mut self, c: char) -> (echo: Option<char>)
        requires
            old(self).wf(),
        ensures
            final(self).wf(),
            final(self).program() == old(self).program(),
            final(self)@ == receive(old(self).program(), old(self)@, c),
            echo == (if awaits_input(old(self).program(), old(self)@) {
                Some(c)
            } else {
                None::<char>
            }),
    {
        if self.pointer >= self.program.len() {
            return None;
        }
        match self.program[self.pointer] {
            Instruction::CharacterInput => {
                let wide: u32 = c as u32;
                assert((wide & 0xFFFF) == wide % 65536 && (wide & 0xFFFF) <= 0xFFFF)
                    by (bit_vector);
                let code = (wide & 0xFFFF) as u16;
                self.memory.set_target(code);
                self.advance();
                Some(c)
            },
            _ => None,
        }
    }

    /// Executes instructions until one asks something of the host, the run
    /// is over, or `budget` instructions have been executed.
    pub fn run(&mut self, budget: usize) -> (result: Result<Action, RuntimeError>)
        requires
            old(self).wf(),
        ensures
            final(self).wf(),
            final(self).program() == old(self).program(),
            final(self)@ == execute_many(old(self).program(), old(self)@, budget as nat).state,
            result == execute_many(old(self).program(), old(self)@, budget as nat).result,
    {
        let ghost program = self.program();
        let ghost start = self@;
        let mut left = budget;
        while left > 0
            invariant
                self.wf(),
                self.program() == program,
                program == old(self).program(),
                start == old(self)@,
                execute_many(program, start, budget as nat) == execute_many(
                    program,
                    self@,
                    left as nat,
                ),
            decreases left,
        {
            let outcome = self.step();
            match outcome {
                Ok(Action::Continue) => {},
                _ => {
                    return outcome;
                },
            }
            left -= 1;
        }
        Ok(Action::Continue)
    }
}

/// A step and a character handed in leave the memory bank at its size.
pub proof fn lemma_memory_size_is_kept(program: Seq<Instruction>, state: State, c: char)
    requires
        state.memory.len() == MEMORY_SIZE,
    ensures
        execute(program, state).state.memory.len() == MEMORY_SIZE,
        receive(program, state, c).memory.len() == MEMORY_SIZE,
{
}

/// Arithmetic wraps at 16 bits: `Add`, `Subtract` and `Multiply` leave in the
/// target cell the exact result reduced modulo 65536, and `Divide` by a
/// number other than zero leaves the quotient, which needs no reduction.
pub proof fn lemma_arithmetic_wraps(program: Seq<Instruction>, state: State, operand: Value)
    requires
        state.memory.len() == MEMORY_SIZE,
        state.pointer < program.len(),
    ensures
        ({
            let instruction = program[state.pointer as int];
            let cell = address_register(state.memory) as int;
            let before = target(state.memory) as int;
            let number = operand.resolve(state.memory) as int;
            let after = execute(program, state).state.memory[cell] as int;
            &&& instruction == Instruction::Add(operand) ==> after == (before + number) % 65536
            &&& instruction == Instruction::Subtract(operand) ==> after == (before - number)
                % 65536
            &&& instruction == Instruction::Multiply(operand) ==> after == (before * number)
                % 65536
            &&& instruction == Instruction::Divide(operand) && number != 0 ==> after == before
                / number && after == (before / number) % 65536
        }),
{
    let before = target(state.memory) as int;
    let number = operand.resolve(state.memory) as int;
    if number != 0 {
        assert(0 <= before / number <= before) by (nonlinear_arith)
            requires
                0 <= before,
                0 < number,
        ;
    }
}

/// The addressing modes: `SetValue` with a literal leaves the literal in the
/// target cell, `SetValue` with an address leaves the content that the cell
/// at that address had.
pub proof fn lemma_addressing_modes(program: Seq<Instruction>, state: State, raw: u16)
    requires
        state.memory.len() == MEMORY_SIZE,
        state.pointer < program.len(),
    ensures
        ({
            let instruction = program[state.pointer as int];
            let cell = address_register(state.memory) as int;
            let after = execute(program, state).state.memory[cell];
            &&& instruction == Instruction::SetValue(Value::Literal(raw)) ==> after == raw
            &&& instruction == Instruction::SetValue(Value::Address(raw)) ==> after
                == state.memory[raw as int]
        }),
{
}

/// `Compare` with an operand equal to the target cell sets the comparison
/// flag to 1.
pub proof fn lemma_compare_equal(program: Seq<Instruction>, state: State, operand: Value)
    requires
        state.memory.len() == MEMORY_SIZE,
        state.pointer < program.len(),
        program[state.pointer as int] == Instruction::Compare(operand),
        operand.resolve(state.memory) == target(state.memory),
    ensures
        comparison_flag(execute(program, state).state.memory) == 1,
        execute(program, state).state.pointer == state.pointer + 1,
{
}

/// With the comparison flag at 1, `BranchIfEqual` to a declared label moves
/// the pointer to the label, and `BranchIfNotEqual` to the same label moves
/// it to the next instruction.
pub proof fn lemma_branch_on_flag(program: Seq<Instruction>, state: State, label: Value)
    requires
        state.memory.len() == MEMORY_SIZE,
        state.pointer < program.len(),
        comparison_flag(state.memory) == 1,
        label_index(program, label.resolve(state.memory)).is_some(),
    ensures
        ({
            let instruction = program[state.pointer as int];
            let index = label_index(program, label.resolve(state.memory)).unwrap();
            let after = execute(program, state);
            &&& instruction == Instruction::BranchIfEqual(label) ==> after.state.pointer == index
                && after.result == Ok::<Action, RuntimeError>(Action::Continue)
            &&& instruction == Instruction::BranchIfNotEqual(label) ==> after.state.pointer
                == state.pointer + 1 && after.result == Ok::<Action, RuntimeError>(
                Action::Continue,
            )
        }),
{
}

/// `Jump` to a declared label pushes its own index and moves the pointer to
/// the label. The `Return` that finds the call stack as the jump left it
/// moves the pointer to the instruction behind the jump and leaves the call
/// stack as it was before the jump.
pub proof fn lemma_call_and_return(
    program: Seq<Instruction>,
    state: State,
    label: Value,
    later: State,
)
    requires
        state.pointer < program.len(),
        program[state.pointer as int] == Instruction::Jump(label),
        label_index(program, label.resolve(state.memory)).is_some(),
        later.pointer < program.len(),
        program[later.pointer as int] == Instruction::Return,
        later.call_stack == execute(program, state).state.call_stack,
    ensures
        execute(program, state).result == Ok::<Action, RuntimeError>(Action::Continue),
        execute(program, state).state.pointer == label_index(
            program,
            label.resolve(state.memory),
        ).unwrap(),
        execute(program, state).state.call_stack == state.call_stack.push(state.pointer),
        execute(program, state).state.memory == state.memory,
        execute(program, later).result == Ok::<Action, RuntimeError>(Action::Continue),
        execute(program, later).state.pointer == state.pointer + 1,
        execute(program, later).state.call_stack == state.call_stack,
{
}

/// `Return` with an empty call stack fails, and changes nothing.
pub proof fn lemma_return_without_call(program: Seq<Instruction>, state: State)
    requires
        state.pointer < program.len(),
        program[state.pointer as int] == Instruction::Return,
        state.call_stack.len() == 0,
    ensures
        execute(program, state).result == Err::<Action, RuntimeError>(
            RuntimeError::EmptyCallStack,
        ),
        execute(program, state).state == state,
{
}

/// A jump or a branch to a label that no `Label` instruction of the program
/// declares fails with the label's number, and changes nothing.
pub proof fn lemma_undeclared_label(program: Seq<Instruction>, state: State, label: Value)
    requires
        state.pointer < program.len(),
        program[state.pointer as int] == Instruction::Jump(label) || program[state.pointer as int]
            == Instruction::BranchIfEqual(label) || program[state.pointer as int]
            == Instruction::BranchIfNotEqual(label),
        forall|i: int|
            0 <= i < program.len() ==> program[i] != Instruction::Label(
                Value::Literal(label.resolve(state.memory)),
            ),
    ensures
        execute(program, state).result == Err::<Action, RuntimeError>(
            RuntimeError::UndeclaredLabel(label.resolve(state.memory)),
        ),
        execute(program, state).state == state,
{
    lemma_label_index(program, label.resolve(state.memory));
}

} // verus!
