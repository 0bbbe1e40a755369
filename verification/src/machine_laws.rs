//! What holds of every machine: how the modes follow from the digits of the
//! instruction word, how the base enters relative operands, and when a run
//! ends at once.

use crate::instructions::{Instructions, ParameterModes};
use crate::machine::{
    decode, execute, fault, fetch, initial_machine, mode_digit, modes_valid, operand_mode,
    operand_modes, operand_value, operand_values, pow10, read_at, run_outcome, step, Action,
    Decoded, Fetched, Machine, RunError, VmError,
};
use crate::memory::cell_value;
use vstd::arithmetic::div_mod::lemma_div_denominator;
use vstd::prelude::*;

verus! {

/// Every power of ten is positive.
pub proof fn lemma_pow10_positive(k: nat)
    ensures
        pow10(k) > 0,
    decreases k,
{
    if k > 0 {
        lemma_pow10_positive((k - 1) as nat);
    }
}

/// Dropping the lowest of the digits from place `k` on leaves the digits
/// from place `k + 1` on.
pub proof fn lemma_next_digit(word: int, k: nat)
    requires
        0 <= word,
    ensures
        (word / pow10(k)) / 10 == word / pow10(k + 1),
        0 <= word / pow10(k),
{
    lemma_pow10_positive(k);
    lemma_div_denominator(word, pow10(k), 10);
    assert(pow10(k + 1) == 10 * pow10(k));
    assert(pow10(k) * 10 == 10 * pow10(k));
    assert(0 <= word / pow10(k)) by (nonlinear_arith)
        requires
            0 <= word,
            pow10(k) > 0,
    ;
}

/// Where no digit is left at place `i` or above, none is left at any higher
/// place.
pub proof fn lemma_no_higher_digit(word: int, i: nat, k: nat)
    requires
        0 <= word,
        word / pow10(i) == 0,
        i <= k,
    ensures
        word / pow10(k) == 0,
    decreases k - i,
{
    if i < k {
        lemma_no_higher_digit(word, i, (k - 1) as nat);
        lemma_next_digit(word, (k - 1) as nat);
    }
}

/// The mode digits of an instruction word. Where a word decodes, the mode of
/// operand `k` is the default if no digit is left at its place or above;
/// otherwise the digit at its place, `(word / 10^(2+k)) mod 10`, is 0, 1 or 2
/// and selects the mode.
pub proof fn lemma_modes_follow_digits(word: i64, k: nat)
    requires
        decode(word) is Ok,
        k < decode(word)->Ok_0.instr.arity(),
    ensures
        ({
            let d = decode(word)->Ok_0;
            let default = d.instr.default_modes()[k as int];
            let rest = (word as int) / pow10(2 + k);
            let digit = rest % 10;
            &&& d.modes.len() == d.instr.arity()
            &&& mode_digit(word as int, k) == digit
            &&& rest == 0 ==> d.modes[k as int] == default
            &&& rest != 0 ==> 0 <= digit <= 2
            &&& rest != 0 && digit == 0 ==> d.modes[k as int] == ParameterModes::Position
            &&& rest != 0 && digit == 1 ==> d.modes[k as int] == ParameterModes::Immediate
            &&& rest != 0 && digit == 2 ==> d.modes[k as int] == (if default
                == ParameterModes::Immediate {
                ParameterModes::RelativeImmediate
            } else {
                ParameterModes::Relative
            })
        }),
{
    let d = decode(word)->Ok_0;
    assert(modes_valid(d.instr, word as int));
    assert(operand_mode(d.instr, word as int, k) is Some);
    assert(d.modes[k as int] == operand_mode(d.instr, word as int, k)->0);
}

/// A program whose first word is the halt instruction puts out nothing,
/// whatever its input and however many steps it is given.
pub proof fn lemma_halt_at_start(cells: Map<usize, i64>, input: Seq<i64>, fuel: nat)
    requires
        cell_value(cells, 0) == 99,
    ensures
        run_outcome(initial_machine(cells, input), fuel) == Ok::<Seq<i64>, RunError>(Seq::empty()),
{
    let m = initial_machine(cells, input);
    assert(Instructions::of_opcode(99) == Some(Instructions::HLT));
    assert(modes_valid(Instructions::HLT, 99));
    assert(operand_modes(Instructions::HLT, 99) =~= Seq::<ParameterModes>::empty());
    assert(decode(99) == Ok::<Decoded, VmError>(
        Decoded { instr: Instructions::HLT, modes: operand_modes(Instructions::HLT, 99) },
    ));
    assert(operand_values(m, operand_modes(Instructions::HLT, 99), 0) == Ok::<
        Seq<i64>,
        VmError,
    >(Seq::empty()));
    assert(fetch(m) is Ok);
    assert(step(m).action == Action::Halt);
}

/// The base moves by the operand of the instruction that adjusts it, up or
/// down, and a relative operand is resolved from the base as it then is: a
/// relative read takes the cell at base plus raw cell, a relative store
/// address is base plus raw cell.
pub proof fn lemma_relative_operands(m: Machine, f: Fetched, raw: i64)
    ensures
        f.instr == Instructions::ARB && i64::MIN <= m.base + f.args[0] <= i64::MAX ==> execute(
            m,
            f,
        ).machine.base == m.base + f.args[0] && execute(m, f).action == Action::Continue,
        operand_value(m, ParameterModes::Relative, raw) == read_at(m.cells, m.base + raw),
        0 <= m.base + raw <= usize::MAX ==> operand_value(m, ParameterModes::Relative, raw) == Ok::<
            i64,
            VmError,
        >(cell_value(m.cells, (m.base + raw) as usize)),
        i64::MIN <= m.base + raw <= i64::MAX ==> operand_value(
            m,
            ParameterModes::RelativeImmediate,
            raw,
        ) == Ok::<i64, VmError>((m.base + raw) as i64),
{
}

/// A store to a negative address stops the machine and changes nothing.
pub proof fn lemma_negative_store_is_fatal(m: Machine, f: Fetched)
    requires
        f.args.len() == f.instr.arity(),
        match f.instr {
            Instructions::ADD => f.args[2] < 0 && i64::MIN <= f.args[0] + f.args[1] <= i64::MAX,
            Instructions::MUL => f.args[2] < 0 && i64::MIN <= f.args[0] * f.args[1] <= i64::MAX,
            Instructions::LESS | Instructions::EQ | Instructions::GRT => f.args[2] < 0,
            Instructions::MOV => f.args[1] < 0,
            Instructions::IN => f.args[0] < 0 && m.next_input < m.input.len(),
            _ => false,
        },
    ensures
        execute(m, f) == fault(m, VmError::NegativeStoreAddress),
{
}

/// A step that does not go on leaves the machine as it was: after a fault, a
/// halt or a request for input no cell, no register and no queue has changed.
pub proof fn lemma_stopping_step_changes_nothing(m: Machine)
    ensures
        step(m).action is Halt || step(m).action is Fault || step(m).action is NeedInput ==> step(
            m,
        ).machine == m,
{
}


/// The fuel is only a limit. A run that ends for another reason than the
/// limit ends in the same way under every larger limit.
pub proof fn lemma_fuel_is_only_a_limit(m: Machine, fuel: nat, more: nat)
    requires
        fuel <= more,
        run_outcome(m, fuel) != Err::<Seq<i64>, RunError>(RunError::StepLimit),
    ensures
        run_outcome(m, more) == run_outcome(m, fuel),
    decreases fuel,
{
    let s = step(m);
    match s.action {
        Action::Halt => {},
        Action::Fault(_) => {},
        Action::NeedInput => {},
        _ => {
            if fuel > 0 {
                lemma_fuel_is_only_a_limit(s.machine, (fuel - 1) as nat, (more - 1) as nat);
            }
        },
    }
}

/// Once an operand has a fault, resolving more operands keeps that fault.
pub proof fn lemma_operand_fault_stays(m: Machine, modes: Seq<ParameterModes>, n: nat, more: nat)
    requires
        operand_values(m, modes, n) is Err,
        n <= more,
    ensures
        operand_values(m, modes, more) == operand_values(m, modes, n),
    decreases more - n,
{
    if n < more {
        lemma_operand_fault_stays(m, modes, n, (more - 1) as nat);
    }
}

} // verus!
