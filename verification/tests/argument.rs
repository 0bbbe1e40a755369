use icc::ParameterModes::{Immediate, Position, Relative};
use icc::{
    encode_opcode, get_mode_number_from_mode, parse_argument, parse_instruction, ParameterModes,
    DEFAULT_MODE,
};

fn parsed(token: &str) -> (ParameterModes, String, bool) {
    parse_argument(&String::from(token)).unwrap()
}

fn word(modes: &[ParameterModes], opc: usize) -> String {
    encode_opcode(&modes.to_vec(), opc).into_iter().collect()
}

#[test]
fn default_mode_is_relative() {
    assert_eq!(DEFAULT_MODE, ParameterModes::Relative);
    assert_eq!(parsed("7"), (ParameterModes::Relative, String::from("7"), false));
    assert_eq!(parsed("-7"), (ParameterModes::Relative, String::from("-7"), false));
}

#[test]
fn mode_signs_select_the_mode_and_leave_the_payload() {
    assert_eq!(parsed("$5"), (ParameterModes::Immediate, String::from("5"), false));
    assert_eq!(parsed("$-12"), (ParameterModes::Immediate, String::from("-12"), false));
    assert_eq!(parsed("#0"), (ParameterModes::Position, String::from("0"), false));
    assert_eq!(parsed("#100"), (ParameterModes::Position, String::from("100"), false));
    assert_eq!(parsed("$"), (ParameterModes::Immediate, String::from(""), false));
    assert_eq!(parsed("#"), (ParameterModes::Position, String::from(""), false));
}

#[test]
fn names_are_tags() {
    assert_eq!(parsed("target"), (ParameterModes::Relative, String::from("target"), true));
    assert_eq!(parsed("data"), (ParameterModes::Relative, String::from("data"), true));
    assert_eq!(parsed("x"), (ParameterModes::Relative, String::from("x"), true));
    assert_eq!(parsed("_"), (ParameterModes::Relative, String::from("_"), true));
    assert_eq!(parsed("$loop"), (ParameterModes::Immediate, String::from("loop"), true));
    assert_eq!(parsed("#loop"), (ParameterModes::Position, String::from("loop"), true));
}

#[test]
fn a_later_character_that_is_no_numeral_makes_a_tag() {
    assert_eq!(parsed("1x"), (ParameterModes::Relative, String::from("1x"), true));
    assert_eq!(parsed("12x"), (ParameterModes::Relative, String::from("12x"), true));
    assert_eq!(parsed("-a"), (ParameterModes::Relative, String::from("-a"), true));
    assert_eq!(parsed("$1a"), (ParameterModes::Immediate, String::from("1a"), true));
    assert_eq!(parsed("1-2"), (ParameterModes::Relative, String::from("1-2"), false));
    assert_eq!(parsed("--"), (ParameterModes::Relative, String::from("--"), false));
    assert_eq!(parsed("$$"), (ParameterModes::Immediate, String::from("$"), true));
}

#[test]
fn empty_argument_is_an_error() {
    assert_eq!(
        parse_argument(&String::new()),
        Err(String::from("Empty argument"))
    );
}

#[test]
fn head_splits_at_the_first_colon() {
    let split = |head: &str| parse_instruction(&String::from(head));
    assert_eq!(split("hlt"), (String::from("hlt"), None));
    assert_eq!(split("loop:add"), (String::from("add"), Some(String::from("loop"))));
    assert_eq!(split(":add"), (String::from("add"), Some(String::new())));
    assert_eq!(split("loop:"), (String::new(), Some(String::from("loop"))));
    assert_eq!(split("a:b:c"), (String::from("b"), Some(String::from("a"))));
    assert_eq!(split(""), (String::new(), None));
}

#[test]
fn mode_numbers() {
    assert_eq!(get_mode_number_from_mode(ParameterModes::Position), ('0', false));
    assert_eq!(get_mode_number_from_mode(ParameterModes::Immediate), ('1', true));
    assert_eq!(get_mode_number_from_mode(ParameterModes::Relative), ('2', true));
}

#[test]
fn instruction_word_writes_the_modes_highest_operand_first() {
    assert_eq!(word(&[], 99), "\n99");
    assert_eq!(word(&[Position], 4), "\n4");
    assert_eq!(word(&[Immediate], 4), "\n104");
    assert_eq!(word(&[Relative], 9), "\n209");
    assert_eq!(word(&[Position, Position, Position], 1), "\n1");
    assert_eq!(word(&[Immediate, Immediate, Position], 1), "\n1101");
    assert_eq!(word(&[Position, Immediate, Position], 2), "\n1002");
    assert_eq!(word(&[Position, Position, Relative], 7), "\n20007");
    assert_eq!(word(&[Relative, Position, Immediate], 8), "\n10208");
    assert_eq!(word(&[Immediate, Relative], 5), "\n2105");
    assert_eq!(word(&[Position, Immediate], 10), "\n1010");
    assert_eq!(word(&[Position, Position], 10), "\n10");
    assert_eq!(word(&[Relative, Relative, Relative], 11), "\n22211");
}
