//! What running a program means: the state of the machine, how an
//! instruction word is decoded, how operands are resolved, and what one
//! instruction does to the state.

use crate::instructions::{Instructions, ParameterModes};
use crate::memory::cell_value;
use vstd::prelude::*;

verus! {

/// Why the machine stops for good.
#[derive(Copy, Clone, PartialEq, Eq, Debug, Structural)]
pub enum VmError {
    /// The word at the instruction pointer names no instruction.
    UnknownOpcode,
    /// A mode digit of an operand is none of 0, 1 and 2.
    UnknownMode,
    /// An instruction would store to a negative address.
    NegativeStoreAddress,
    /// An operand would be read from a negative address, or a jump would go
    /// to one.
    NegativeReadIndex,
    /// A sum or a product does not fit in a cell.
    ArithmeticOverflow,
    /// An address does not fit in the address space of this machine.
    AddressOutOfRange,
}

/// What the host has to do after one step of the machine.
#[derive(Copy, Clone, PartialEq, Eq, Debug, Structural)]
pub enum Action {
    /// Nothing: the instruction is done.
    Continue,
    /// Deliver this value: the instruction has logged it as output.
    Output(i64),
    /// Supply an input value and step again: the queue is empty.
    NeedInput,
    /// Stop: the program has ended.
    Halt,
    /// Stop: the program cannot go on.
    Fault(VmError),
}

/// The state of the machine.
pub ghost struct Machine {
    /// The address of the next instruction word.
    pub ip: usize,
    /// The base of relative addressing.
    pub base: i64,
    /// The recorded cells of the memory; every other cell is zero.
    pub cells: Map<usize, i64>,
    /// The input values given so far.
    pub input: Seq<i64>,
    /// How many of them have been consumed.
    pub next_input: nat,
    /// The values put out so far.
    pub output: Seq<i64>,
}

/// An instruction word taken apart.
pub ghost struct Decoded {
    pub instr: Instructions,
    pub modes: Seq<ParameterModes>,
}

/// An instruction ready to execute.
pub ghost struct Fetched {
    pub instr: Instructions,
    /// The resolved operands, one for each operand of the instruction.
    pub args: Seq<i64>,
    /// The address of the word that follows the instruction.
    pub next_ip: usize,
}

/// The outcome of one step.
pub ghost struct Step {
    pub machine: Machine,
    pub action: Action,
}

/// The machine before its first step, with the memory `cells` and the input
/// queue `input`.
pub open spec fn initial_machine(cells: Map<usize, i64>, input: Seq<i64>) -> Machine {
    Machine { ip: 0, base: 0, cells: cells, input: input, next_input: 0, output: Seq::empty() }
}

/// Ten to the power `k`.
pub open spec fn pow10(k: nat) -> int
    decreases k,
{
    if k == 0 {
        1
    } else {
        10 * pow10((k - 1) as nat)
    }
}

/// The mode digit of operand `k` in the instruction word `word`: the decimal
/// digit `k` places above the two digits of the opcode.
pub open spec fn mode_digit(word: int, k: nat) -> int {
    (word / pow10(2 + k)) % 10
}

/// Whether the word carries a digit for operand `k`: whether any digit at
/// that place or above is not zero.
pub open spec fn has_digit(word: int, k: nat) -> bool {
    word / pow10(2 + k) != 0
}

/// The mode that a digit selects for an operand whose default is `default`.
/// Digit 2 on an operand that is immediate by default, a store address,
/// makes it relative to the base without reading memory.
pub open spec fn digit_mode(default: ParameterModes, digit: int) -> Option<ParameterModes> {
    if digit == 0 {
        Some(ParameterModes::Position)
    } else if digit == 1 {
        Some(ParameterModes::Immediate)
    } else if digit == 2 {
        if default == ParameterModes::Immediate {
            Some(ParameterModes::RelativeImmediate)
        } else {
            Some(ParameterModes::Relative)
        }
    } else {
        None
    }
}

/// The mode of operand `k` of `instr` under the word `word`: the default
/// where the word carries no digit for it, else what the digit selects.
pub open spec fn operand_mode(instr: Instructions, word: int, k: nat) -> Option<ParameterModes> {
    let default = instr.default_modes()[k as int];
    if has_digit(word, k) {
        digit_mode(default, mode_digit(word, k))
    } else {
        Some(default)
    }
}

/// Whether every operand of `instr` has a mode under `word`. Digits above the
/// last operand are not looked at.
pub open spec fn modes_valid(instr: Instructions, word: int) -> bool {
    forall|k: nat| k < instr.arity() ==> (#[trigger] operand_mode(instr, word, k)) is Some
}

/// The modes of the operands of `instr` under `word`.
pub open spec fn operand_modes(instr: Instructions, word: int) -> Seq<ParameterModes> {
    Seq::new(instr.arity() as nat, |k: int| operand_mode(instr, word, k as nat)->0)
}

/// The instruction word `word` taken apart: the opcode is its two low digits.
pub open spec fn decode(word: i64) -> Result<Decoded, VmError> {
    if word < 0 {
        Err(VmError::UnknownOpcode)
    } else {
        match Instructions::of_opcode((word % 100) as usize) {
            None => Err(VmError::UnknownOpcode),
            Some(instr) => if modes_valid(instr, word as int) {
                Ok(Decoded { instr: instr, modes: operand_modes(instr, word as int) })
            } else {
                Err(VmError::UnknownMode)
            },
        }
    }
}

/// A read of the cell at `index`.
pub open spec fn read_at(cells: Map<usize, i64>, index: int) -> Result<i64, VmError> {
    if index < 0 {
        Err(VmError::NegativeReadIndex)
    } else if index > usize::MAX {
        Err(VmError::AddressOutOfRange)
    } else {
        Ok(cell_value(cells, index as usize))
    }
}

/// The value of an operand with the raw cell `raw` under `mode`.
pub open spec fn operand_value(m: Machine, mode: ParameterModes, raw: i64) -> Result<i64, VmError> {
    match mode {
        ParameterModes::Position => read_at(m.cells, raw as int),
        ParameterModes::Immediate => Ok(raw),
        ParameterModes::Relative => read_at(m.cells, m.base + raw),
        ParameterModes::RelativeImmediate => if i64::MIN <= m.base + raw <= i64::MAX {
            Ok((m.base + raw) as i64)
        } else {
            Err(VmError::ArithmeticOverflow)
        },
    }
}

/// The values of the first `n` operands of the instruction at the
/// instruction pointer, or the fault of the first operand that has one.
/// Operand `k` has its raw cell at `ip + 1 + k`.
pub open spec fn operand_values(m: Machine, modes: Seq<ParameterModes>, n: nat) -> Result<
    Seq<i64>,
    VmError,
>
    decreases n,
{
    if n == 0 {
        Ok(Seq::empty())
    } else {
        match operand_values(m, modes, (n - 1) as nat) {
            Err(e) => Err(e),
            Ok(before) => match operand_value(
                m,
                modes[n - 1],
                cell_value(m.cells, (m.ip + n) as usize),
            ) {
                Err(e) => Err(e),
                Ok(value) => Ok(before.push(value)),
            },
        }
    }
}

/// The instruction at the instruction pointer with its operands resolved.
/// The instruction and the address after it must lie in the address space.
pub open spec fn fetch(m: Machine) -> Result<Fetched, VmError> {
    match decode(cell_value(m.cells, m.ip)) {
        Err(e) => Err(e),
        Ok(d) => if m.ip + d.instr.arity() + 1 > usize::MAX {
            Err(VmError::AddressOutOfRange)
        } else {
            match operand_values(m, d.modes, d.instr.arity() as nat) {
                Err(e) => Err(e),
                Ok(args) => Ok(
                    Fetched {
                        instr: d.instr,
                        args: args,
                        next_ip: (m.ip + d.instr.arity() + 1) as usize,
                    },
                ),
            }
        },
    }
}

/// A step that changes nothing and stops the machine with the fault `e`.
pub open spec fn fault(m: Machine, e: VmError) -> Step {
    Step { machine: m, action: Action::Fault(e) }
}

/// The step that stores `value` at `address` and otherwise leaves `next`
/// behind; with an address that cannot be stored to, the machine stays as it
/// was, at `m`.
pub open spec fn store(m: Machine, next: Machine, address: i64, value: i64) -> Step {
    if address < 0 {
        fault(m, VmError::NegativeStoreAddress)
    } else if address > usize::MAX {
        fault(m, VmError::AddressOutOfRange)
    } else {
        Step {
            machine: Machine { cells: next.cells.insert(address as usize, value), ..next },
            action: Action::Continue,
        }
    }
}

/// The step that continues at `target`.
pub open spec fn jump(m: Machine, target: i64) -> Step {
    if target < 0 {
        fault(m, VmError::NegativeReadIndex)
    } else if target > usize::MAX {
        fault(m, VmError::AddressOutOfRange)
    } else {
        Step { machine: Machine { ip: target as usize, ..m }, action: Action::Continue }
    }
}

/// One for true, zero for false.
pub open spec fn flag(b: bool) -> i64 {
    if b {
        1
    } else {
        0
    }
}

/// What the fetched instruction `f` does to the machine `m`. A step that
/// ends in a fault, in a halt or in a request for input leaves the machine
/// as it was.
pub open spec fn execute(m: Machine, f: Fetched) -> Step {
    let next = Machine { ip: f.next_ip, ..m };
    let a = f.args;
    match f.instr {
        Instructions::ADD => if i64::MIN <= a[0] + a[1] <= i64::MAX {
            store(m, next, a[2], (a[0] + a[1]) as i64)
        } else {
            fault(m, VmError::ArithmeticOverflow)
        },
        Instructions::MUL => if i64::MIN <= a[0] * a[1] <= i64::MAX {
            store(m, next, a[2], (a[0] * a[1]) as i64)
        } else {
            fault(m, VmError::ArithmeticOverflow)
        },
        Instructions::IN => if m.next_input < m.input.len() {
            store(
                m,
                Machine { next_input: m.next_input + 1, ..next },
                a[0],
                m.input[m.next_input as int],
            )
        } else {
            Step { machine: m, action: Action::NeedInput }
        },
        Instructions::OUT => Step {
            machine: Machine { output: m.output.push(a[0]), ..next },
            action: Action::Output(a[0]),
        },
        Instructions::JMP => if a[0] != 0 {
            jump(m, a[1])
        } else {
            Step { machine: next, action: Action::Continue }
        },
        Instructions::JMPF => if a[0] == 0 {
            jump(m, a[1])
        } else {
            Step { machine: next, action: Action::Continue }
        },
        Instructions::LESS => store(m, next, a[2], flag(a[0] < a[1])),
        Instructions::EQ => store(m, next, a[2], flag(a[0] == a[1])),
        Instructions::GRT => store(m, next, a[2], flag(a[0] > a[1])),
        Instructions::ARB => if i64::MIN <= m.base + a[0] <= i64::MAX {
            Step {
                machine: Machine { base: (m.base + a[0]) as i64, ..next },
                action: Action::Continue,
            }
        } else {
            fault(m, VmError::ArithmeticOverflow)
        },
        Instructions::MOV => store(m, next, a[1], a[0]),
        Instructions::HLT => Step { machine: m, action: Action::Halt },
    }
}

/// One step of the machine: fetch, decode, resolve, execute.
pub open spec fn step(m: Machine) -> Step {
    match fetch(m) {
        Err(e) => fault(m, e),
        Ok(f) => execute(m, f),
    }
}

/// Why a run ended without the program halting.
#[derive(Copy, Clone, PartialEq, Eq, Debug, Structural)]
pub enum RunError {
    /// The machine stopped with a fault.
    Fault(VmError),
    /// The program asked for input and the queue was empty.
    InputExhausted,
    /// The program did not halt within the steps it was given.
    StepLimit,
}

/// The outcome of running the machine from `m` for at most `fuel`
/// instructions: the output log when the program halts.
pub open spec fn run_outcome(m: Machine, fuel: nat) -> Result<Seq<i64>, RunError>
    decreases fuel,
{
    let s = step(m);
    match s.action {
        Action::Halt => Ok(m.output),
        Action::Fault(e) => Err(RunError::Fault(e)),
        Action::NeedInput => Err(RunError::InputExhausted),
        _ => if fuel == 0 {
            Err(RunError::StepLimit)
        } else {
            run_outcome(s.machine, (fuel - 1) as nat)
        },
    }
}

} // verus!
