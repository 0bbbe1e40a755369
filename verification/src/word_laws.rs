//! How the assembler and the machine agree on instruction words: the word
//! that the assembler writes for an instruction is a number that the machine
//! decodes to that instruction, and the digits written select the modes.

use crate::argument::{mode_number, mode_prefix, opcode_word};
use crate::image::{all_digits, digits_value, parse_i64};
use crate::instructions::{Instructions, ParameterModes};
use crate::machine::{
    decode, digit_mode, mode_digit, modes_valid, operand_mode, operand_modes, pow10, Decoded,
    VmError,
};
use crate::machine_laws::{lemma_next_digit, lemma_pow10_positive};
use crate::text::{decimal, digit_char, digit_value, is_digit};
use vstd::arithmetic::div_mod::lemma_div_denominator;
use vstd::prelude::*;

verus! {

/// The digit that a mode of the source is written with.
pub open spec fn mode_value(mode: ParameterModes) -> nat {
    digit_value(mode_number(mode).0)
}

/// The number that the mode digits of an instruction make up: operand `k`
/// contributes its digit `k` places up.
pub open spec fn modes_number(modes: Seq<ParameterModes>) -> nat
    decreases modes.len(),
{
    if modes.len() == 0 {
        0
    } else {
        mode_value(modes[0]) + 10 * modes_number(modes.drop_first())
    }
}

/// The number of an instruction word: the mode digits above the two places
/// of the opcode.
pub open spec fn word_number(modes: Seq<ParameterModes>, opc: usize) -> nat {
    (modes_number(modes) * 100 + opc) as nat
}

/// The mode that the machine gives operand `k` of `instr` when the source
/// gave the operands the modes `modes`. Where the operand and all operands
/// above it are written in position mode, no digit is written for it and the
/// default of the instruction stays; otherwise its digit selects the mode.
pub open spec fn machine_mode(instr: Instructions, modes: Seq<ParameterModes>, k: int) -> ParameterModes {
    if modes_number(modes.skip(k)) == 0 {
        instr.default_modes()[k]
    } else {
        digit_mode(instr.default_modes()[k], mode_value(modes[k]) as int)->0
    }
}

/// The value of digits followed by one more digit.
pub proof fn lemma_digits_push(digits: Seq<char>, c: char)
    ensures
        digits_value(digits.push(c)) == digits_value(digits) * 10 + digit_value(c),
{
    assert(digits.push(c).drop_last() =~= digits);
}

/// The value of two digit sequences written one after the other.
pub proof fn lemma_digits_concat(a: Seq<char>, b: Seq<char>)
    ensures
        digits_value(a + b) == digits_value(a) * pow10(b.len()) + digits_value(b),
    decreases b.len(),
{
    if b.len() == 0 {
        assert(a + b =~= a);
    } else {
        lemma_digits_concat(a, b.drop_last());
        assert((a + b).drop_last() =~= a + b.drop_last());
        assert(pow10(b.len()) == 10 * pow10((b.len() - 1) as nat));
        assert(digits_value(a) * pow10(b.len()) == (digits_value(a) * pow10(
            (b.len() - 1) as nat,
        )) * 10) by (nonlinear_arith)
            requires
                pow10(b.len()) == 10 * pow10((b.len() - 1) as nat),
        ;
    }
}

/// A decimal numeral holds digits only, and they write the number.
pub proof fn lemma_decimal_value(n: nat)
    ensures
        all_digits(decimal(n)),
        digits_value(decimal(n)) == n,
        decimal(n).len() >= 1,
        n < 10 ==> decimal(n).len() == 1,
        10 <= n < 100 ==> decimal(n).len() == 2,
    decreases n,
{
    if n < 10 {
        assert(decimal(n).drop_last() =~= Seq::<char>::empty());
        assert(digits_value(Seq::<char>::empty()) == 0);
    } else {
        lemma_decimal_value(n / 10);
        lemma_digits_push(decimal(n / 10), digit_char(n % 10));
    }
}

/// The written mode digits hold digits only and make up the number of the
/// modes; no digit is written exactly where the number is zero.
pub proof fn lemma_prefix_value(modes: Seq<ParameterModes>)
    ensures
        all_digits(mode_prefix(modes)),
        digits_value(mode_prefix(modes)) == modes_number(modes),
        mode_prefix(modes).len() == 0 <==> modes_number(modes) == 0,
        mode_prefix(modes).len() <= modes.len(),
    decreases modes.len(),
{
    if modes.len() > 0 {
        let higher = mode_prefix(modes.drop_first());
        lemma_prefix_value(modes.drop_first());
        lemma_digits_push(higher, mode_number(modes[0]).0);
    }
}

/// The number of the modes has no more digits than there are operands.
pub proof fn lemma_modes_number_bound(modes: Seq<ParameterModes>)
    ensures
        modes_number(modes) < pow10(modes.len()),
    decreases modes.len(),
{
    if modes.len() > 0 {
        lemma_modes_number_bound(modes.drop_first());
    }
}

/// Dropping `k` digits from the number of the modes leaves the number of the
/// modes from operand `k` on.
pub proof fn lemma_modes_number_skip(modes: Seq<ParameterModes>, k: nat)
    requires
        k <= modes.len(),
    ensures
        (modes_number(modes) as int) / pow10(k) == modes_number(modes.skip(k as int)),
        k < modes.len() ==> modes_number(modes.skip(k as int)) % 10 == mode_value(modes[k as int]),
    decreases k,
{
    if k == 0 {
        assert(modes.skip(0) =~= modes);
    } else {
        lemma_modes_number_skip(modes, (k - 1) as nat);
        lemma_next_digit(modes_number(modes) as int, (k - 1) as nat);
        let rest = modes.skip(k - 1);
        assert(rest.drop_first() =~= modes.skip(k as int));
        assert(modes_number(rest) == mode_value(rest[0]) + 10 * modes_number(rest.drop_first()));
    }
    if k < modes.len() {
        let rest = modes.skip(k as int);
        assert(rest[0] == modes[k as int]);
        assert(modes_number(rest) == mode_value(rest[0]) + 10 * modes_number(rest.drop_first()));
    }
}

/// What the assembler writes. After its line break, the instruction word for
/// the modes `modes` and the opcode `opc` is the decimal numeral, perhaps
/// with leading zeros left out, of the mode digits followed by the two places
/// of the opcode.
pub proof fn lemma_word_is_a_number(modes: Seq<ParameterModes>, opc: usize)
    requires
        opc < 100,
        modes.len() <= 3,
    ensures
        opcode_word(modes, opc)[0] == '\n',
        parse_i64(opcode_word(modes, opc).skip(1)) == Some(word_number(modes, opc) as i64),
        word_number(modes, opc) < 100_000,
{
    let prefix = mode_prefix(modes);
    let pad = if opc < 10 && prefix.len() > 0 {
        seq!['0']
    } else {
        Seq::<char>::empty()
    };
    let low = pad + decimal(opc as nat);
    let digits = prefix + low;
    assert(opcode_word(modes, opc).skip(1) =~= digits);
    lemma_prefix_value(modes);
    lemma_decimal_value(opc as nat);
    lemma_modes_number_bound(modes);
    lemma_pow10_small();
    lemma_digits_concat(pad, decimal(opc as nat));
    assert(digits_value(pad) == 0) by {
        if pad.len() > 0 {
            lemma_digits_push(Seq::<char>::empty(), '0');
            assert(pad =~= Seq::<char>::empty().push('0'));
        }
    }
    assert(digits_value(low) == opc);
    lemma_digits_concat(prefix, low);
    assert(all_digits(digits));
    if prefix.len() > 0 {
        assert(low.len() == 2);
    } else {
        assert(digits_value(prefix) == 0);
        assert(digits_value(prefix) * pow10(low.len()) == 0) by (nonlinear_arith)
            requires
                digits_value(prefix) == 0,
        ;
    }
    assert(digits_value(digits) == word_number(modes, opc));
    assert(is_digit(digits[0]));
}

/// What the machine makes of it. The number of the instruction word that
/// the assembler writes for `instr` decodes to `instr`, and each operand gets
/// the mode that its written digit selects, or the default of the
/// instruction where no digit is written for it: position is written as 0,
/// immediate as 1, relative as 2, and a relative operand that receives a
/// result becomes a relative store address.
pub proof fn lemma_machine_reads_the_word(instr: Instructions, modes: Seq<ParameterModes>)
    requires
        modes.len() == instr.arity(),
    ensures
        decode(word_number(modes, instr.opcode()) as i64) == Ok::<Decoded, VmError>(
            Decoded {
                instr: instr,
                modes: Seq::new(modes.len(), |k: int| machine_mode(instr, modes, k)),
            },
        ),
{
    let opc = instr.opcode();
    let number = modes_number(modes);
    let word = word_number(modes, opc) as int;
    lemma_modes_number_bound(modes);
    lemma_pow10_small();
    assert(word % 100 == opc);
    assert(word / 100 == number);
    assert(Instructions::of_opcode(opc) == Some(instr));
    assert forall|k: nat| k < instr.arity() implies (#[trigger] operand_mode(instr, word, k))
        == Some(machine_mode(instr, modes, k as int)) by {
        lemma_pow10_positive(k);
        lemma_div_denominator(word, 100, pow10(k));
        lemma_pow10_shift(k);
        lemma_modes_number_skip(modes, k);
        assert(word / pow10(2 + k) == modes_number(modes.skip(k as int)));
        assert(mode_digit(word, k) == mode_value(modes[k as int]));
    }
    assert(modes_valid(instr, word));
    assert(operand_modes(instr, word) =~= Seq::new(
        modes.len(),
        |k: int| machine_mode(instr, modes, k),
    ));
}

/// The first powers of ten.
pub proof fn lemma_pow10_small()
    ensures
        pow10(0) == 1,
        pow10(1) == 10,
        pow10(2) == 100,
        pow10(3) == 1000,
{
    assert(pow10(0) == 1);
    assert(pow10(1) == 10);
    assert(pow10(2) == 100);
    assert(pow10(3) == 1000);
}

/// Two more places are a factor of a hundred.
pub proof fn lemma_pow10_shift(k: nat)
    ensures
        pow10(2 + k) == 100 * pow10(k),
    decreases k,
{
    if k == 0 {
        lemma_pow10_small();
    } else {
        lemma_pow10_shift((k - 1) as nat);
    }
}

} // verus!
