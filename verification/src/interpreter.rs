//! The interpreter: a machine that runs a program one instruction at a time.
//!
//! The machine does no input or output of its own. A step tells the host
//! what to do: deliver a value, supply one, or stop.

use crate::instructions::{is_instruction_table, Instruction, Instructions, ParameterModes};
use crate::machine::{
    decode, execute, fetch, has_digit, initial_machine, jump, mode_digit, modes_valid,
    operand_mode, operand_modes, operand_value, operand_values, pow10, read_at, run_outcome, step,
    store, Action, Decoded, Fetched, Machine, RunError, Step, VmError,
};
use crate::machine_laws::{
    lemma_next_digit, lemma_no_higher_digit, lemma_operand_fault_stays,
    lemma_stopping_step_changes_nothing,
};
use crate::memory::{cell_value, Memory};
use std::collections::HashMap;
use vstd::prelude::*;

verus! {

broadcast use vstd::std_specs::hash::group_hash_axioms;

/// A copy of `modes`.
fn copy_modes(modes: &Vec<ParameterModes>) -> (copy: Vec<ParameterModes>)
    ensures
        copy@ == modes@,
{
    let mut copy: Vec<ParameterModes> = Vec::new();
    let mut i: usize = 0;
    while i < modes.len()
        invariant
            i <= modes.len(),
            copy@ == modes@.take(i as int),
        decreases modes.len() - i,
    {
        copy.push(modes[i]);
        assert(modes@.take(i + 1) =~= modes@.take(i as int).push(modes@[i as int]));
        i += 1;
    }
    assert(modes@.take(i as int) =~= modes@);
    copy
}

/// A machine with its program, its input queue and its output log.
pub struct IntCodeProgram {
    instruction_pointer: usize,
    memory: Memory,
    base: i64,
    opcodes: HashMap<usize, Instruction>,
    input: Vec<i64>,
    next_input: usize,
    output: Vec<i64>,
}

impl View for IntCodeProgram {
    type V = Machine;

    closed spec fn view(&self) -> Machine {
        Machine {
            ip: self.instruction_pointer,
            base: self.base,
            cells: self.memory@,
            input: self.input@,
            next_input: self.next_input as nat,
            output: self.output@,
        }
    }
}

impl IntCodeProgram {
    /// Whether the machine holds the instruction table. Every machine made
    /// by `new` does, and no step changes that.
    pub closed spec fn wf(&self) -> bool {
        is_instruction_table(self.opcodes@)
    }

    /// A machine at address zero with base zero, the memory `p_memory`, the
    /// input queue `input` and an empty output log.
    pub fn new(p_memory: Memory, input: Vec<i64>) -> (program: IntCodeProgram)
        ensures
            program.wf(),
            program@ == initial_machine(p_memory@, input@),
    {
        let program = IntCodeProgram {
            instruction_pointer: 0,
            memory: p_memory,
            opcodes: Instructions::new(),
            base: 0,
            input: input,
            next_input: 0,
            output: Vec::new(),
        };
        assert(program@.output =~= Seq::<i64>::empty());
        program
    }

    /// The address of the next instruction word.
    pub fn instruction_pointer(&self) -> (ip: usize)
        ensures
            ip == self@.ip,
    {
        self.instruction_pointer
    }

    /// The base of relative addressing.
    pub fn base(&self) -> (base: i64)
        ensures
            base == self@.base,
    {
        self.base
    }

    /// The value of the memory cell at `index`.
    pub fn read(&self, index: usize) -> (value: i64)
        ensures
            value == cell_value(self@.cells, index),
    {
        self.memory.read(index)
    }

    /// The values put out so far.
    pub fn output(&self) -> (log: &Vec<i64>)
        ensures
            log@ == self@.output,
    {
        &self.output
    }

    /// Takes an instruction word apart: the instruction and the mode of each
    /// of its operands.
    pub fn parse_instruction(&self, instruction_opc: i64) -> (r: Result<
        (Instructions, Vec<ParameterModes>),
        VmError,
    >)
        requires
            self.wf(),
        ensures
            match decode(instruction_opc) {
                Ok(d) => r matches Ok(p) && p.0 == d.instr && p.1@ == d.modes,
                Err(e) => r == Err::<(Instructions, Vec<ParameterModes>), VmError>(e),
            },
    {
        if instruction_opc < 0 {
            return Err(VmError::UnknownOpcode);
        }
        let opc = (instruction_opc % 100) as usize;
        let instruction = match Instructions::get_instruction_from_opc(opc) {
            Ok(found) => found,
            Err(_) => {
                return Err(VmError::UnknownOpcode);
            },
        };
        let ghost word = instruction_opc as int;
        let ghost defaults = instruction.default_modes();
        let mut modes_arr = match self.opcodes.get(&opc) {
            Some(instruction_data) => copy_modes(&instruction_data.default_modes),
            None => Vec::new(),
        };
        assert(self.opcodes@.contains_key(opc));
        assert(modes_arr@ == defaults);
        let mut modes = instruction_opc / 100;
        let mut i: usize = 0;
        assert(pow10(2) == 100) by {
            assert(pow10(0) == 1);
            assert(pow10(1) == 10);
        }
        while modes != 0 && i < modes_arr.len()
            invariant
                0 <= word == instruction_opc,
                Instructions::of_opcode((instruction_opc % 100) as usize) == Some(instruction),
                defaults == instruction.default_modes(),
                defaults.len() == instruction.arity(),
                modes_arr@.len() == defaults.len(),
                i <= modes_arr@.len(),
                0 <= modes,
                modes == word / pow10(2 + i as nat),
                forall|k: nat|
                    k < i ==> (#[trigger] operand_mode(instruction, word, k)) == Some(
                        modes_arr@[k as int],
                    ),
                forall|k: int| i <= k < modes_arr@.len() ==> modes_arr@[k] == defaults[k],
            decreases modes_arr.len() - i,
        {
            proof {
                lemma_next_digit(word, 2 + i as nat);
            }
            let digit = modes % 10;
            let mode = if digit == 0 {
                ParameterModes::Position
            } else if digit == 1 {
                ParameterModes::Immediate
            } else if digit == 2 {
                if modes_arr[i] == ParameterModes::Immediate {
                    ParameterModes::RelativeImmediate
                } else {
                    ParameterModes::Relative
                }
            } else {
                assert(has_digit(word, i as nat));
                assert(mode_digit(word, i as nat) == digit);
                assert(operand_mode(instruction, word, i as nat) is None);
                assert(!modes_valid(instruction, word));
                return Err(VmError::UnknownMode);
            };
            assert(operand_mode(instruction, word, i as nat) == Some(mode));
            modes_arr[i] = mode;
            modes = modes / 10;
            i += 1;
        }
        proof {
            assert forall|k: nat| k < instruction.arity() implies (#[trigger] operand_mode(
                instruction,
                word,
                k,
            )) == Some(modes_arr@[k as int]) by {
                if k >= i {
                    lemma_no_higher_digit(word, 2 + i as nat, 2 + k);
                }
            }
            assert(modes_arr@ =~= operand_modes(instruction, word));
        }
        Ok((instruction, modes_arr))
    }

    /// Reads the cell at `index`, which may lie outside the address space.
    fn read_cell(&self, index: i128) -> (r: Result<i64, VmError>)
        ensures
            r == read_at(self@.cells, index as int),
    {
        if index < 0 {
            Err(VmError::NegativeReadIndex)
        } else if index > usize::MAX as i128 {
            Err(VmError::AddressOutOfRange)
        } else {
            Ok(self.memory.read(index as usize))
        }
    }

    /// Fetches the instruction at the instruction pointer and resolves its
    /// operands. The machine is left as it is; the third part of the result
    /// is the address that follows the instruction.
    pub fn get_next_instruction(&self) -> (r: Result<(Instructions, Vec<i64>, usize), VmError>)
        requires
            self.wf(),
        ensures
            match fetch(self@) {
                Ok(f) => r matches Ok(p) && p.0 == f.instr && p.1@ == f.args && p.2 == f.next_ip,
                Err(e) => r == Err::<(Instructions, Vec<i64>, usize), VmError>(e),
            },
            r matches Ok(p) ==> p.1@.len() == p.0.arity(),
    {
        let instruction = self.memory.read(self.instruction_pointer);
        let (instruction, modes) = match self.parse_instruction(instruction) {
            Ok(parsed) => parsed,
            Err(e) => {
                return Err(e);
            },
        };
        let arg_count = modes.len();
        if self.instruction_pointer > usize::MAX - arg_count - 1 {
            return Err(VmError::AddressOutOfRange);
        }
        let mut args: Vec<i64> = Vec::new();
        let mut i: usize = 0;
        assert(args@ =~= Seq::<i64>::empty());
        while i < arg_count
            invariant
                i <= arg_count,
                arg_count == modes@.len(),
                arg_count == instruction.arity(),
                decode(cell_value(self@.cells, self@.ip)) == Ok::<Decoded, VmError>(
                    Decoded { instr: instruction, modes: modes@ },
                ),
                self.instruction_pointer + arg_count + 1 <= usize::MAX,
                operand_values(self@, modes@, i as nat) == Ok::<Seq<i64>, VmError>(args@),
                args@.len() == i,
            decreases arg_count - i,
        {
            let raw = self.memory.read(self.instruction_pointer + 1 + i);
            let resolved = match modes[i] {
                ParameterModes::Position => self.read_cell(raw as i128),
                ParameterModes::Immediate => Ok(raw),
                ParameterModes::Relative => self.read_cell(self.base as i128 + raw as i128),
                ParameterModes::RelativeImmediate => match self.base.checked_add(raw) {
                    Some(sum) => Ok(sum),
                    None => Err(VmError::ArithmeticOverflow),
                },
            };
            assert(resolved == operand_value(self@, modes@[i as int], raw));
            match resolved {
                Ok(value) => {
                    args.push(value);
                },
                Err(e) => {
                    assert(operand_values(self@, modes@, (i + 1) as nat) is Err);
                    proof {
                        lemma_operand_fault_stays(self@, modes@, (i + 1) as nat, arg_count as nat);
                    }
                    return Err(e);
                },
            }
            i += 1;
        }
        Ok((instruction, args, self.instruction_pointer + arg_count + 1))
    }

    /// Stores `value` at `address` and moves on to `next_ip`, unless the
    /// address cannot be stored to.
    fn store(&mut self, address: i64, value: i64, next_ip: usize) -> (action: Action)
        requires
            old(self).wf(),
        ensures
            final(self).wf(),
            (Step { machine: final(self)@, action: action }) == store(
                old(self)@,
                Machine { ip: next_ip, ..old(self)@ },
                address,
                value,
            ),
            final(self).next_input == old(self).next_input,
            final(self).input == old(self).input,
    {
        if address < 0 {
            Action::Fault(VmError::NegativeStoreAddress)
        } else if address as u64 > usize::MAX as u64 {
            Action::Fault(VmError::AddressOutOfRange)
        } else {
            self.memory.write(address as usize, value);
            self.instruction_pointer = next_ip;
            Action::Continue
        }
    }

    /// Continues at `target`, unless it is no address.
    fn jump(&mut self, target: i64) -> (action: Action)
        requires
            old(self).wf(),
        ensures
            final(self).wf(),
            (Step { machine: final(self)@, action: action }) == jump(old(self)@, target),
    {
        if target < 0 {
            Action::Fault(VmError::NegativeReadIndex)
        } else if target as u64 > usize::MAX as u64 {
            Action::Fault(VmError::AddressOutOfRange)
        } else {
            self.instruction_pointer = target as usize;
            Action::Continue
        }
    }

    /// Executes the instruction `instr` on the resolved operands `args`;
    /// `next_ip` is the address that follows the instruction. The halt
    /// instruction is not executed: a step ends before it.
    pub fn execute_instruction(&mut self, instr: Instructions, args: &Vec<i64>, next_ip: usize) -> (action:
        Action)
        requires
            old(self).wf(),
            instr != Instructions::HLT,
            args@.len() == instr.arity(),
        ensures
            final(self).wf(),
            (Step { machine: final(self)@, action: action }) == execute(
                old(self)@,
                Fetched { instr: instr, args: args@, next_ip: next_ip },
            ),
    {
        match instr {
            Instructions::ADD => match args[0].checked_add(args[1]) {
                Some(value) => self.store(args[2], value, next_ip),
                None => Action::Fault(VmError::ArithmeticOverflow),
            },
            Instructions::MUL => match args[0].checked_mul(args[1]) {
                Some(value) => self.store(args[2], value, next_ip),
                None => Action::Fault(VmError::ArithmeticOverflow),
            },
            Instructions::IN => {
                if self.next_input >= self.input.len() {
                    Action::NeedInput
                } else {
                    let value = self.input[self.next_input];
                    let action = self.store(args[0], value, next_ip);
                    if action == Action::Continue {
                        self.next_input += 1;
                    }
                    action
                }
            },
            Instructions::OUT => {
                self.output.push(args[0]);
                self.instruction_pointer = next_ip;
                Action::Output(args[0])
            },
            Instructions::JMP => {
                if args[0] != 0 {
                    self.jump(args[1])
                } else {
                    self.instruction_pointer = next_ip;
                    Action::Continue
                }
            },
            Instructions::JMPF => {
                if args[0] == 0 {
                    self.jump(args[1])
                } else {
                    self.instruction_pointer = next_ip;
                    Action::Continue
                }
            },
            Instructions::LESS => {
                let value: i64 = if args[0] < args[1] {
                    1
                } else {
                    0
                };
                self.store(args[2], value, next_ip)
            },
            Instructions::EQ => {
                let value: i64 = if args[0] == args[1] {
                    1
                } else {
                    0
                };
                self.store(args[2], value, next_ip)
            },
            Instructions::ARB => match self.base.checked_add(args[0]) {
                Some(base) => {
                    self.base = base;
                    self.instruction_pointer = next_ip;
                    Action::Continue
                },
                None => Action::Fault(VmError::ArithmeticOverflow),
            },
            Instructions::MOV => self.store(args[1], args[0], next_ip),
            Instructions::GRT => {
                let value: i64 = if args[0] > args[1] {
                    1
                } else {
                    0
                };
                self.store(args[2], value, next_ip)
            },
            Instructions::HLT => Action::Halt,
        }
    }


    /// Runs one instruction and says what the host has to do. After a
    /// fault, a halt or a request for input the machine is as it was before.
    pub fn step(&mut self) -> (action: Action)
        requires
            old(self).wf(),
        ensures
            final(self).wf(),
            (Step { machine: final(self)@, action: action }) == step(old(self)@),
    {
        match self.get_next_instruction() {
            Ok((instr, args, next_ip)) => {
                if instr == Instructions::HLT {
                    Action::Halt
                } else {
                    self.execute_instruction(instr, &args, next_ip)
                }
            },
            Err(e) => Action::Fault(e),
        }
    }

    /// Adds `value` to the end of the input queue.
    pub fn feed(&mut self, value: i64)
        requires
            old(self).wf(),
        ensures
            final(self).wf(),
            final(self)@ == (Machine { input: old(self)@.input.push(value), ..old(self)@ }),
    {
        self.input.push(value);
    }

    /// Runs the program until it halts and returns its output log. The run
    /// ends early on a fault, when the program asks for input that the queue
    /// does not hold, and after `fuel` instructions.
    pub fn run(self, fuel: usize) -> (r: Result<Vec<i64>, RunError>)
        requires
            self.wf(),
        ensures
            match run_outcome(self@, fuel as nat) {
                Ok(log) => r matches Ok(output) && output@ == log,
                Err(e) => r == Err::<Vec<i64>, RunError>(e),
            },
    {
        let ghost start = self@;
        let mut program = self;
        let mut left = fuel;
        loop
            invariant
                program.wf(),
                start == self@,
                run_outcome(start, fuel as nat) == run_outcome(program@, left as nat),
            decreases left,
        {
            let ghost before = program@;
            proof {
                lemma_stopping_step_changes_nothing(before);
            }
            match program.step() {
                Action::Halt => {
                    return Ok(program.output);
                },
                Action::Fault(e) => {
                    return Err(RunError::Fault(e));
                },
                Action::NeedInput => {
                    return Err(RunError::InputExhausted);
                },
                _ => {
                    if left == 0 {
                        return Err(RunError::StepLimit);
                    }
                    left -= 1;
                },
            }
        }
    }
}

} // verus!
