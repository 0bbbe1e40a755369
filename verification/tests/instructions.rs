use icc::ParameterModes::{Immediate, Position};
use icc::{Instruction, Instructions, ParameterModes};

const ALL: [(Instructions, usize, &str, u8); 12] = [
    (Instructions::ADD, 1, "add", 3),
    (Instructions::MUL, 2, "mul", 3),
    (Instructions::IN, 3, "in", 1),
    (Instructions::OUT, 4, "out", 1),
    (Instructions::JMP, 5, "jmp", 2),
    (Instructions::JMPF, 6, "jmpf", 2),
    (Instructions::LESS, 7, "less", 3),
    (Instructions::EQ, 8, "eq", 3),
    (Instructions::ARB, 9, "arb", 1),
    (Instructions::MOV, 10, "mov", 2),
    (Instructions::GRT, 11, "grt", 3),
    (Instructions::HLT, 99, "hlt", 0),
];

#[test]
fn opcode_and_instruction_determine_each_other() {
    for (instr, opc, _, _) in ALL {
        assert_eq!(instr.get_instruction_opc(), opc);
        assert_eq!(Instructions::get_instruction_from_opc(opc), Ok(instr));
    }
}

#[test]
fn unknown_opcode_gives_the_message() {
    assert_eq!(
        Instructions::get_instruction_from_opc(0),
        Err(String::from("Unknown instruction 0"))
    );
    assert_eq!(
        Instructions::get_instruction_from_opc(12),
        Err(String::from("Unknown instruction 12"))
    );
    assert_eq!(
        Instructions::get_instruction_from_opc(98),
        Err(String::from("Unknown instruction 98"))
    );
    assert_eq!(
        Instructions::get_instruction_from_opc(100),
        Err(String::from("Unknown instruction 100"))
    );
    assert_eq!(
        Instructions::get_instruction_from_opc(18446744073709551615),
        Err(String::from("Unknown instruction 18446744073709551615"))
    );
}

#[test]
fn mnemonics_are_found_in_any_case() {
    for (instr, _, name, _) in ALL {
        assert_eq!(Instructions::get_instruction_from_name(name), Some(instr));
        assert_eq!(
            Instructions::get_instruction_from_name(&name.to_uppercase()),
            Some(instr)
        );
    }
    assert_eq!(Instructions::get_instruction_from_name("Jmpf"), Some(Instructions::JMPF));
    assert_eq!(Instructions::get_instruction_from_name("hLt"), Some(Instructions::HLT));
}

#[test]
fn other_names_are_no_mnemonics() {
    for name in ["", "ad", "addd", " add", "add ", "halt", "jump", "a_d", "1", "nop", "ädd"] {
        assert_eq!(Instructions::get_instruction_from_name(name), None);
    }
}

#[test]
fn table_holds_the_twelve_instructions() {
    let table = Instructions::new();
    assert_eq!(table.len(), 12);
    for (instr, opc, _, arity) in ALL {
        let descriptor = &table[&opc];
        assert_eq!(descriptor.arguments_count, arity);
        assert_eq!(descriptor.default_modes.len(), arity as usize);
        let own = instr.descriptor();
        assert_eq!(own.arguments_count, arity);
        assert_eq!(own.default_modes, descriptor.default_modes);
    }
}

#[test]
fn default_modes_make_the_store_operand_immediate() {
    let table = Instructions::new();
    for opc in [1, 2, 7, 8, 11] {
        assert_eq!(table[&opc].default_modes, vec![Position, Position, Immediate]);
    }
    assert_eq!(table[&3].default_modes, vec![Immediate]);
    assert_eq!(table[&4].default_modes, vec![Position]);
    assert_eq!(table[&5].default_modes, vec![Position, Position]);
    assert_eq!(table[&6].default_modes, vec![Position, Position]);
    assert_eq!(table[&9].default_modes, vec![Position]);
    assert_eq!(table[&10].default_modes, vec![Position, Immediate]);
    assert_eq!(table[&99].default_modes, vec![]);
}

#[test]
fn descriptor_keeps_what_it_is_given() {
    let descriptor = Instruction::new(2, vec![ParameterModes::Relative, ParameterModes::Immediate]);
    assert_eq!(descriptor.arguments_count, 2);
    assert_eq!(
        descriptor.default_modes,
        vec![ParameterModes::Relative, ParameterModes::Immediate]
    );
}

#[test]
fn instructions_are_named_in_capitals() {
    for (instr, _, name, _) in ALL {
        assert_eq!(instr.to_text(), name.to_uppercase());
    }
    assert_eq!(Instructions::JMPF.to_text(), "JMPF");
}
