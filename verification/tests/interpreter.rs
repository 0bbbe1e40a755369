use icc::{Action, IntCodeProgram, Instructions, Memory, ParameterModes, RunError, VmError};

const FUEL: usize = 100_000;

fn run(image: &[i64], input: &[i64]) -> Result<Vec<i64>, RunError> {
    IntCodeProgram::new(Memory::new(image.to_vec()), input.to_vec()).run(FUEL)
}

#[test]
fn halt_at_address_zero_yields_empty_output() {
    assert_eq!(run(&[99], &[]), Ok(vec![]));
    assert_eq!(run(&[99, 4, 0], &[5]), Ok(vec![]));
    assert_eq!(
        IntCodeProgram::new(Memory::new(vec![99]), vec![]).run(0),
        Ok(vec![])
    );
}

#[test]
fn self_copying_program_puts_out_itself() {
    let image = [
        109, 1, 204, -1, 1001, 100, 1, 100, 1008, 100, 16, 101, 1006, 101, 0, 99,
    ];
    let output = run(&image, &[]).unwrap();
    assert_eq!(output[0], 109);
    assert_eq!(output, image.to_vec());
}

#[test]
fn comparator_tells_whether_the_input_is_eight() {
    let image = [3, 9, 8, 9, 10, 9, 4, 9, 99, -1, 8];
    assert_eq!(run(&image, &[8]), Ok(vec![1]));
    assert_eq!(run(&image, &[7]), Ok(vec![0]));
}

#[test]
fn conditional_tells_whether_the_input_is_not_zero() {
    let image = [3, 12, 6, 12, 15, 1, 13, 14, 13, 4, 13, 99, -1, 0, 1, 9];
    assert_eq!(run(&image, &[0]), Ok(vec![0]));
    assert_eq!(run(&image, &[5]), Ok(vec![1]));
}

#[test]
fn negative_base_resolves_relative_operands() {
    // base becomes 7, then -3; -3 + 6 = 3: the cell that holds -10.
    let image = [109, 7, 109, -10, 204, 6, 99];
    assert_eq!(run(&image, &[]), Ok(vec![-10]));
    // base -3; store the input at -3 + 10 = 7, then put out cell 7.
    let image = [109, -3, 203, 10, 4, 7, 99, 0];
    assert_eq!(run(&image, &[42]), Ok(vec![42]));
}

#[test]
fn negative_store_address_is_a_fault() {
    // base -3; store at -3 + 1 = -2.
    let image = [109, -3, 203, 1, 99];
    assert_eq!(
        run(&image, &[42]),
        Err(RunError::Fault(VmError::NegativeStoreAddress))
    );
    assert_eq!(
        run(&[1101, 1, 2, -1, 99], &[]),
        Err(RunError::Fault(VmError::NegativeStoreAddress))
    );
}

#[test]
fn negative_read_index_is_a_fault() {
    assert_eq!(
        run(&[4, -1, 99], &[]),
        Err(RunError::Fault(VmError::NegativeReadIndex))
    );
    assert_eq!(
        run(&[109, -5, 204, 1, 99], &[]),
        Err(RunError::Fault(VmError::NegativeReadIndex))
    );
    assert_eq!(
        run(&[1105, 1, -4, 99], &[]),
        Err(RunError::Fault(VmError::NegativeReadIndex))
    );
}

#[test]
fn unknown_opcode_is_a_fault() {
    assert_eq!(run(&[12], &[]), Err(RunError::Fault(VmError::UnknownOpcode)));
    assert_eq!(run(&[0], &[]), Err(RunError::Fault(VmError::UnknownOpcode)));
    assert_eq!(run(&[-99], &[]), Err(RunError::Fault(VmError::UnknownOpcode)));
    assert_eq!(run(&[], &[]), Err(RunError::Fault(VmError::UnknownOpcode)));
}

#[test]
fn unknown_mode_digit_is_a_fault() {
    assert_eq!(run(&[304, 0, 99], &[]), Err(RunError::Fault(VmError::UnknownMode)));
    assert_eq!(
        run(&[90001, 0, 0, 0, 99], &[]),
        Err(RunError::Fault(VmError::UnknownMode))
    );
}

#[test]
fn mode_digits_above_the_last_operand_are_ignored() {
    assert_eq!(run(&[7104, 5, 99], &[]), Ok(vec![5]));
    assert_eq!(run(&[399], &[]), Ok(vec![]));
}

#[test]
fn overflow_is_a_fault() {
    assert_eq!(
        run(&[1101, i64::MAX, 1, 0, 99], &[]),
        Err(RunError::Fault(VmError::ArithmeticOverflow))
    );
    assert_eq!(
        run(&[1102, i64::MAX, 2, 0, 99], &[]),
        Err(RunError::Fault(VmError::ArithmeticOverflow))
    );
    assert_eq!(
        run(&[109, i64::MAX, 109, 1, 99], &[]),
        Err(RunError::Fault(VmError::ArithmeticOverflow))
    );
}

#[test]
fn run_stops_when_the_queue_is_empty_or_the_fuel_is_spent() {
    assert_eq!(run(&[3, 0, 99], &[]), Err(RunError::InputExhausted));
    let forever = IntCodeProgram::new(Memory::new(vec![1105, 1, 0]), vec![]);
    assert_eq!(forever.run(1000), Err(RunError::StepLimit));
    let two_steps = [1101, 1, 2, 0, 4, 0, 99];
    assert_eq!(
        IntCodeProgram::new(Memory::new(two_steps.to_vec()), vec![]).run(1),
        Err(RunError::StepLimit)
    );
    assert_eq!(
        IntCodeProgram::new(Memory::new(two_steps.to_vec()), vec![]).run(2),
        Ok(vec![3])
    );
}

#[test]
fn step_tells_the_host_what_to_do() {
    let mut program = IntCodeProgram::new(Memory::new(vec![3, 0, 4, 0, 99]), vec![]);
    assert_eq!(program.step(), Action::NeedInput);
    assert_eq!(program.step(), Action::NeedInput);
    program.feed(17);
    assert_eq!(program.step(), Action::Continue);
    assert_eq!(program.step(), Action::Output(17));
    assert_eq!(program.step(), Action::Halt);
    assert_eq!(program.step(), Action::Halt);
}

#[test]
fn arithmetic_and_comparisons_store_their_results() {
    assert_eq!(run(&[1101, 20, 22, 7, 4, 7, 99, 0], &[]), Ok(vec![42]));
    assert_eq!(run(&[1102, -6, 7, 7, 4, 7, 99, 0], &[]), Ok(vec![-42]));
    assert_eq!(run(&[1107, 1, 2, 7, 4, 7, 99, 5], &[]), Ok(vec![1]));
    assert_eq!(run(&[1107, 2, 2, 7, 4, 7, 99, 5], &[]), Ok(vec![0]));
    assert_eq!(run(&[1108, 2, 2, 7, 4, 7, 99, 5], &[]), Ok(vec![1]));
    assert_eq!(run(&[1111, 3, 2, 7, 4, 7, 99, 5], &[]), Ok(vec![1]));
    assert_eq!(run(&[1111, 2, 3, 7, 4, 7, 99, 5], &[]), Ok(vec![0]));
    assert_eq!(run(&[110, 33, 6, 4, 6, 99, 0], &[]), Ok(vec![33]));
    assert_eq!(run(&[1, 5, 6, 40, 4, 40, 99], &[]), Ok(vec![139]));
}

#[test]
fn instruction_words_decode_digit_by_digit() {
    let program = IntCodeProgram::new(Memory::new(vec![99]), vec![]);
    assert_eq!(
        program.parse_instruction(1),
        Ok((
            Instructions::ADD,
            vec![
                ParameterModes::Position,
                ParameterModes::Position,
                ParameterModes::Immediate
            ]
        ))
    );
    assert_eq!(
        program.parse_instruction(21002),
        Ok((
            Instructions::MUL,
            vec![
                ParameterModes::Position,
                ParameterModes::Immediate,
                ParameterModes::RelativeImmediate
            ]
        ))
    );
    assert_eq!(
        program.parse_instruction(203),
        Ok((Instructions::IN, vec![ParameterModes::RelativeImmediate]))
    );
    assert_eq!(
        program.parse_instruction(204),
        Ok((Instructions::OUT, vec![ParameterModes::Relative]))
    );
    assert_eq!(
        program.parse_instruction(1010),
        Ok((
            Instructions::MOV,
            vec![ParameterModes::Position, ParameterModes::Immediate]
        ))
    );
    assert_eq!(program.parse_instruction(99), Ok((Instructions::HLT, vec![])));
    assert_eq!(program.parse_instruction(312), Err(VmError::UnknownOpcode));
    assert_eq!(program.parse_instruction(1301), Err(VmError::UnknownMode));
}

#[test]
fn address_beyond_the_address_space_is_a_fault() {
    // Where an address has 64 bits every cell value that is not negative is
    // an address; where it has fewer, the large ones are none.
    let far = run(&[4, 4294967296, 99], &[]);
    let far_store = run(&[1101, 1, 2, 4294967296, 99], &[]);
    let far_jump = run(&[1105, 1, 4294967296], &[]);
    if usize::BITS >= 64 {
        assert_eq!(far, Ok(vec![0]));
        assert_eq!(far_store, Ok(vec![]));
        assert_eq!(far_jump, Err(RunError::Fault(VmError::UnknownOpcode)));
    } else {
        assert_eq!(far, Err(RunError::Fault(VmError::AddressOutOfRange)));
        assert_eq!(far_store, Err(RunError::Fault(VmError::AddressOutOfRange)));
        assert_eq!(far_jump, Err(RunError::Fault(VmError::AddressOutOfRange)));
    }
}

#[test]
fn a_fault_leaves_the_machine_as_it_was() {
    let mut program = IntCodeProgram::new(Memory::new(vec![109, 5, 4, -1, 99]), vec![]);
    assert_eq!(program.step(), Action::Continue);
    assert_eq!((program.instruction_pointer(), program.base()), (2, 5));
    assert_eq!(program.step(), Action::Fault(VmError::NegativeReadIndex));
    assert_eq!(program.step(), Action::Fault(VmError::NegativeReadIndex));
    assert_eq!((program.instruction_pointer(), program.base()), (2, 5));
    assert_eq!(program.output(), &Vec::<i64>::new());
    assert_eq!(program.read(3), -1);
}

#[test]
fn the_machine_keeps_its_state_between_steps() {
    let mut program = IntCodeProgram::new(Memory::new(vec![3, 10, 204, 10, 99]), vec![7, 8]);
    assert_eq!(program.step(), Action::Continue);
    assert_eq!(program.read(10), 7);
    assert_eq!(program.step(), Action::Output(7));
    assert_eq!(program.output(), &vec![7]);
    assert_eq!(program.instruction_pointer(), 4);
    assert_eq!(program.step(), Action::Halt);
    assert_eq!(program.instruction_pointer(), 4);
}

#[test]
fn a_run_that_halts_does_so_under_every_larger_limit() {
    let image = [3, 9, 8, 9, 10, 9, 4, 9, 99, -1, 8];
    for fuel in [3, 4, 10, 1000, usize::MAX] {
        assert_eq!(
            IntCodeProgram::new(Memory::new(image.to_vec()), vec![8]).run(fuel),
            Ok(vec![1])
        );
    }
    assert_eq!(
        IntCodeProgram::new(Memory::new(image.to_vec()), vec![8]).run(2),
        Err(RunError::StepLimit)
    );
}

#[test]
fn words_written_by_the_assembler_decode_in_the_machine() {
    use_word(
        &[ParameterModes::Immediate, ParameterModes::Immediate, ParameterModes::Position],
        Instructions::ADD,
        1101,
        &[ParameterModes::Immediate, ParameterModes::Immediate, ParameterModes::Immediate],
    );
    use_word(
        &[ParameterModes::Relative, ParameterModes::Relative, ParameterModes::Relative],
        Instructions::MUL,
        22202,
        &[ParameterModes::Relative, ParameterModes::Relative, ParameterModes::RelativeImmediate],
    );
    use_word(
        &[ParameterModes::Position, ParameterModes::Relative, ParameterModes::Position],
        Instructions::LESS,
        2007,
        &[ParameterModes::Position, ParameterModes::Relative, ParameterModes::Immediate],
    );
    use_word(
        &[ParameterModes::Position, ParameterModes::Position, ParameterModes::Immediate],
        Instructions::GRT,
        10011,
        &[ParameterModes::Position, ParameterModes::Position, ParameterModes::Immediate],
    );
    use_word(
        &[ParameterModes::Relative],
        Instructions::IN,
        203,
        &[ParameterModes::RelativeImmediate],
    );
    use_word(
        &[ParameterModes::Position],
        Instructions::IN,
        3,
        &[ParameterModes::Immediate],
    );
    use_word(&[], Instructions::HLT, 99, &[]);
}

fn use_word(
    written: &[ParameterModes],
    instr: Instructions,
    number: i64,
    decoded: &[ParameterModes],
) {
    let word: String = icc::encode_opcode(&written.to_vec(), instr.get_instruction_opc())
        .into_iter()
        .collect();
    assert_eq!(word.chars().next(), Some('\n'));
    assert_eq!(icc::read_integer(&word[1..]), Some(number));
    let program = IntCodeProgram::new(Memory::new(vec![99]), vec![]);
    assert_eq!(
        program.parse_instruction(number),
        Ok((instr, decoded.to_vec()))
    );
}
