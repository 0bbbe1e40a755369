//! The instruction set: the twelve instructions, their opcodes, their
//! mnemonics, how many operands each takes and the mode each operand has
//! when the instruction word gives none.

use crate::text::{chars_are, chars_of, decimal, lowercase, lowercase_chars, push_decimal, string_of};
use std::collections::HashMap;
use vstd::prelude::*;

verus! {

broadcast use vstd::std_specs::hash::group_hash_axioms;

/// How an operand's raw cell is turned into the operand's value.
#[derive(Copy, Clone, PartialEq, Eq, Debug, Structural)]
pub enum ParameterModes {
    /// The value is the cell that the raw cell points at.
    Position,
    /// The value is the raw cell itself.
    Immediate,
    /// The value is the cell at base plus the raw cell.
    Relative,
    /// The value is base plus the raw cell: a relative store address.
    RelativeImmediate,
}

/// What the machine needs to know to decode one instruction.
#[derive(Clone)]
pub struct Instruction {
    /// The number of operands.
    pub arguments_count: u8,
    /// The mode of each operand when the instruction word names none.
    pub default_modes: Vec<ParameterModes>,
}

impl Instruction {
    /// A descriptor with the given operand count and default modes.
    pub fn new(arg_count: u8, default_mode: Vec<ParameterModes>) -> (d: Instruction)
        ensures
            d.arguments_count == arg_count,
            d.default_modes == default_mode,
    {
        Instruction { arguments_count: arg_count, default_modes: default_mode }
    }

    /// Whether this descriptor is the one of `instr`.
    pub open spec fn describes(self, instr: Instructions) -> bool {
        &&& self.arguments_count == instr.arity()
        &&& self.default_modes@ == instr.default_modes()
    }
}

/// The instructions of the machine.
#[derive(Copy, Clone, PartialEq, Eq, Hash, Debug, Structural)]
pub enum Instructions {
    ADD,
    MUL,
    IN,
    OUT,
    JMP,
    JMPF,
    LESS,
    EQ,
    ARB,
    MOV,
    GRT,
    HLT,
}

/// The message for an opcode that names no instruction.
pub open spec fn unknown_instruction_text(opc: usize) -> Seq<char> {
    "Unknown instruction "@ + decimal(opc as nat)
}

/// Whether `table` maps exactly the twelve opcodes, each to the descriptor
/// of its instruction.
pub open spec fn is_instruction_table(table: Map<usize, Instruction>) -> bool {
    &&& forall|opc: usize| #[trigger]
        table.contains_key(opc) <==> Instructions::of_opcode(opc) is Some
    &&& forall|opc: usize| #[trigger]
        table.contains_key(opc) ==> table[opc].describes(Instructions::of_opcode(opc)->Some_0)
}

impl Instructions {
    /// The opcode: the two low decimal digits of the instruction word.
    pub open spec fn opcode(self) -> usize {
        match self {
            Instructions::ADD => 1,
            Instructions::MUL => 2,
            Instructions::IN => 3,
            Instructions::OUT => 4,
            Instructions::JMP => 5,
            Instructions::JMPF => 6,
            Instructions::LESS => 7,
            Instructions::EQ => 8,
            Instructions::ARB => 9,
            Instructions::MOV => 10,
            Instructions::GRT => 11,
            Instructions::HLT => 99,
        }
    }

    /// The instruction with opcode `opc`, if there is one.
    pub open spec fn of_opcode(opc: usize) -> Option<Instructions> {
        if opc == 1 {
            Some(Instructions::ADD)
        } else if opc == 2 {
            Some(Instructions::MUL)
        } else if opc == 3 {
            Some(Instructions::IN)
        } else if opc == 4 {
            Some(Instructions::OUT)
        } else if opc == 5 {
            Some(Instructions::JMP)
        } else if opc == 6 {
            Some(Instructions::JMPF)
        } else if opc == 7 {
            Some(Instructions::LESS)
        } else if opc == 8 {
            Some(Instructions::EQ)
        } else if opc == 9 {
            Some(Instructions::ARB)
        } else if opc == 10 {
            Some(Instructions::MOV)
        } else if opc == 11 {
            Some(Instructions::GRT)
        } else if opc == 99 {
            Some(Instructions::HLT)
        } else {
            None
        }
    }

    /// The mnemonic, in lower case.
    pub open spec fn mnemonic(self) -> Seq<char> {
        match self {
            Instructions::ADD => "add"@,
            Instructions::MUL => "mul"@,
            Instructions::IN => "in"@,
            Instructions::OUT => "out"@,
            Instructions::JMP => "jmp"@,
            Instructions::JMPF => "jmpf"@,
            Instructions::LESS => "less"@,
            Instructions::EQ => "eq"@,
            Instructions::ARB => "arb"@,
            Instructions::MOV => "mov"@,
            Instructions::GRT => "grt"@,
            Instructions::HLT => "hlt"@,
        }
    }

    /// The instruction that `name` is the mnemonic of, in any mix of upper
    /// and lower case, if there is one.
    pub open spec fn of_name(name: Seq<char>) -> Option<Instructions> {
        let low = lowercase(name);
        if low == "add"@ {
            Some(Instructions::ADD)
        } else if low == "mul"@ {
            Some(Instructions::MUL)
        } else if low == "in"@ {
            Some(Instructions::IN)
        } else if low == "out"@ {
            Some(Instructions::OUT)
        } else if low == "jmp"@ {
            Some(Instructions::JMP)
        } else if low == "jmpf"@ {
            Some(Instructions::JMPF)
        } else if low == "less"@ {
            Some(Instructions::LESS)
        } else if low == "eq"@ {
            Some(Instructions::EQ)
        } else if low == "arb"@ {
            Some(Instructions::ARB)
        } else if low == "mov"@ {
            Some(Instructions::MOV)
        } else if low == "grt"@ {
            Some(Instructions::GRT)
        } else if low == "hlt"@ {
            Some(Instructions::HLT)
        } else {
            None
        }
    }

    /// The name of the instruction, in capitals.
    pub open spec fn name(self) -> Seq<char> {
        match self {
            Instructions::ADD => "ADD"@,
            Instructions::MUL => "MUL"@,
            Instructions::IN => "IN"@,
            Instructions::OUT => "OUT"@,
            Instructions::JMP => "JMP"@,
            Instructions::JMPF => "JMPF"@,
            Instructions::LESS => "LESS"@,
            Instructions::EQ => "EQ"@,
            Instructions::ARB => "ARB"@,
            Instructions::MOV => "MOV"@,
            Instructions::GRT => "GRT"@,
            Instructions::HLT => "HLT"@,
        }
    }

    /// The number of operands.
    pub open spec fn arity(self) -> u8 {
        match self {
            Instructions::ADD | Instructions::MUL | Instructions::LESS | Instructions::EQ
            | Instructions::GRT => 3,
            Instructions::JMP | Instructions::JMPF | Instructions::MOV => 2,
            Instructions::IN | Instructions::OUT | Instructions::ARB => 1,
            Instructions::HLT => 0,
        }
    }

    /// The mode of each operand when the instruction word names none. An
    /// operand that receives the result is immediate: its raw cell is the
    /// address to store to.
    pub open spec fn default_modes(self) -> Seq<ParameterModes> {
        match self {
            Instructions::ADD | Instructions::MUL | Instructions::LESS | Instructions::EQ
            | Instructions::GRT => seq![
                ParameterModes::Position,
                ParameterModes::Position,
                ParameterModes::Immediate,
            ],
            Instructions::JMP | Instructions::JMPF => seq![
                ParameterModes::Position,
                ParameterModes::Position,
            ],
            Instructions::MOV => seq![ParameterModes::Position, ParameterModes::Immediate],
            Instructions::IN => seq![ParameterModes::Immediate],
            Instructions::OUT | Instructions::ARB => seq![ParameterModes::Position],
            Instructions::HLT => Seq::<ParameterModes>::empty(),
        }
    }

    /// The name of the instruction, in capitals.
    pub fn to_text(&self) -> (s: String)
        ensures
            s@ == self.name(),
    {
        let name = match self {
            Instructions::ADD => "ADD",
            Instructions::MUL => "MUL",
            Instructions::IN => "IN",
            Instructions::OUT => "OUT",
            Instructions::JMP => "JMP",
            Instructions::JMPF => "JMPF",
            Instructions::LESS => "LESS",
            Instructions::EQ => "EQ",
            Instructions::ARB => "ARB",
            Instructions::MOV => "MOV",
            Instructions::GRT => "GRT",
            Instructions::HLT => "HLT",
        };
        string_of(&chars_of(name))
    }

    /// Decodes an opcode. An opcode that names no instruction gives the
    /// message that says so.
    pub fn get_instruction_from_opc(instr_opc: usize) -> (r: Result<Instructions, String>)
        ensures
            match Instructions::of_opcode(instr_opc) {
                Some(instr) => r == Ok::<Instructions, String>(instr),
                None => r is Err && r->Err_0@ == unknown_instruction_text(instr_opc),
            },
    {
        match instr_opc {
            1 => Ok(Instructions::ADD),
            2 => Ok(Instructions::MUL),
            3 => Ok(Instructions::IN),
            4 => Ok(Instructions::OUT),
            5 => Ok(Instructions::JMP),
            6 => Ok(Instructions::JMPF),
            7 => Ok(Instructions::LESS),
            8 => Ok(Instructions::EQ),
            9 => Ok(Instructions::ARB),
            10 => Ok(Instructions::MOV),
            11 => Ok(Instructions::GRT),
            99 => Ok(Instructions::HLT),
            _ => {
                let mut message = chars_of("Unknown instruction ");
                push_decimal(&mut message, instr_opc);
                Err(string_of(&message))
            },
        }
    }

    /// The opcode of this instruction.
    pub fn get_instruction_opc(&self) -> (opc: usize)
        ensures
            opc == self.opcode(),
    {
        match self {
            Instructions::ADD => 1,
            Instructions::MUL => 2,
            Instructions::IN => 3,
            Instructions::OUT => 4,
            Instructions::JMP => 5,
            Instructions::JMPF => 6,
            Instructions::LESS => 7,
            Instructions::EQ => 8,
            Instructions::ARB => 9,
            Instructions::MOV => 10,
            Instructions::GRT => 11,
            Instructions::HLT => 99,
        }
    }

    /// Looks a mnemonic up, whatever its case.
    pub fn get_instruction_from_name(instr_name: &str) -> (r: Option<Instructions>)
        ensures
            r == Instructions::of_name(instr_name@),
    {
        let name = chars_of(instr_name);
        let low = lowercase_chars(&name);
        if chars_are(&low, "add") {
            Some(Instructions::ADD)
        } else if chars_are(&low, "mul") {
            Some(Instructions::MUL)
        } else if chars_are(&low, "in") {
            Some(Instructions::IN)
        } else if chars_are(&low, "out") {
            Some(Instructions::OUT)
        } else if chars_are(&low, "jmp") {
            Some(Instructions::JMP)
        } else if chars_are(&low, "jmpf") {
            Some(Instructions::JMPF)
        } else if chars_are(&low, "less") {
            Some(Instructions::LESS)
        } else if chars_are(&low, "eq") {
            Some(Instructions::EQ)
        } else if chars_are(&low, "arb") {
            Some(Instructions::ARB)
        } else if chars_are(&low, "mov") {
            Some(Instructions::MOV)
        } else if chars_are(&low, "grt") {
            Some(Instructions::GRT)
        } else if chars_are(&low, "hlt") {
            Some(Instructions::HLT)
        } else {
            None
        }
    }

    /// The descriptor of this instruction.
    pub fn descriptor(&self) -> (d: Instruction)
        ensures
            d.describes(*self),
    {
        let modes = match self {
            Instructions::ADD | Instructions::MUL | Instructions::LESS | Instructions::EQ
            | Instructions::GRT => vec![
                ParameterModes::Position,
                ParameterModes::Position,
                ParameterModes::Immediate,
            ],
            Instructions::JMP | Instructions::JMPF => vec![
                ParameterModes::Position,
                ParameterModes::Position,
            ],
            Instructions::MOV => vec![ParameterModes::Position, ParameterModes::Immediate],
            Instructions::IN => vec![ParameterModes::Immediate],
            Instructions::OUT | Instructions::ARB => vec![ParameterModes::Position],
            Instructions::HLT => Vec::new(),
        };
        assert(modes@ =~= self.default_modes());
        let count: u8 = match self {
            Instructions::ADD | Instructions::MUL | Instructions::LESS | Instructions::EQ
            | Instructions::GRT => 3,
            Instructions::JMP | Instructions::JMPF | Instructions::MOV => 2,
            Instructions::IN | Instructions::OUT | Instructions::ARB => 1,
            Instructions::HLT => 0,
        };
        Instruction::new(count, modes)
    }

    /// The instruction table, keyed by opcode.
    pub fn new() -> (table: HashMap<usize, Instruction>)
        ensures
            is_instruction_table(table@),
    {
        let mut opcodes: HashMap<usize, Instruction> = HashMap::new();
        opcodes.insert(1, Instructions::ADD.descriptor());
        opcodes.insert(2, Instructions::MUL.descriptor());
        opcodes.insert(3, Instructions::IN.descriptor());
        opcodes.insert(4, Instructions::OUT.descriptor());
        opcodes.insert(5, Instructions::JMP.descriptor());
        opcodes.insert(6, Instructions::JMPF.descriptor());
        opcodes.insert(7, Instructions::LESS.descriptor());
        opcodes.insert(8, Instructions::EQ.descriptor());
        opcodes.insert(9, Instructions::ARB.descriptor());
        opcodes.insert(10, Instructions::MOV.descriptor());
        opcodes.insert(11, Instructions::GRT.descriptor());
        opcodes.insert(99, Instructions::HLT.descriptor());
        opcodes
    }
}

/// Opcode and instruction determine each other: decoding the opcode of an
/// instruction gives that instruction back, and an opcode that decodes at all
/// is the opcode of what it decodes to.
pub proof fn lemma_opcode_round_trip(instr: Instructions, opc: usize)
    ensures
        Instructions::of_opcode(instr.opcode()) == Some(instr),
        Instructions::of_opcode(opc) matches Some(found) ==> found.opcode() == opc,
{
}

/// Mnemonic and instruction determine each other: looking the mnemonic of an
/// instruction up gives that instruction back.
pub proof fn lemma_mnemonic_round_trip(instr: Instructions)
    ensures
        Instructions::of_name(instr.mnemonic()) == Some(instr),
{
    reveal_strlit("add");
    reveal_strlit("mul");
    reveal_strlit("in");
    reveal_strlit("out");
    reveal_strlit("jmp");
    reveal_strlit("jmpf");
    reveal_strlit("less");
    reveal_strlit("eq");
    reveal_strlit("arb");
    reveal_strlit("mov");
    reveal_strlit("grt");
    reveal_strlit("hlt");
    let name = instr.mnemonic();
    assert(lowercase(name) =~= name);
    assert(name.len() >= 2);
    assert("add"@[1] == 'd' && "mul"@[1] == 'u' && "in"@[1] == 'n' && "out"@[1] == 'u');
    assert("jmp"@[1] == 'm' && "jmpf"@[1] == 'm' && "less"@[1] == 'e' && "eq"@[1] == 'q');
    assert("arb"@[1] == 'r' && "mov"@[1] == 'o' && "grt"@[1] == 'r' && "hlt"@[1] == 'l');
    assert("add"@[0] == 'a' && "mul"@[0] == 'm' && "in"@[0] == 'i' && "out"@[0] == 'o');
    assert("jmp"@[0] == 'j' && "jmpf"@[0] == 'j' && "less"@[0] == 'l' && "eq"@[0] == 'e');
    assert("arb"@[0] == 'a' && "mov"@[0] == 'm' && "grt"@[0] == 'g' && "hlt"@[0] == 'h');
}

/// Every instruction has as many default modes as it has operands.
pub proof fn lemma_default_modes_len(instr: Instructions)
    ensures
        instr.default_modes().len() == instr.arity(),
{
}

} // verus!
