use icc::{Assembler, CodePosition, CompileError, CompileErrorType};

fn source(lines: &[&[&str]]) -> Vec<Vec<String>> {
    lines
        .iter()
        .map(|line| line.iter().map(|token| token.to_string()).collect())
        .collect()
}

fn strings(tokens: &[&str]) -> Vec<String> {
    tokens.iter().map(|token| token.to_string()).collect()
}

fn texts(errors: &[CompileError]) -> Vec<String> {
    errors.iter().map(|error| error.to_text()).collect()
}

fn at(line: usize, column: usize, address: usize) -> CodePosition {
    CodePosition { line, column, address }
}

fn is_unused(error: &CompileError, name: &str) -> bool {
    match &error.error_type {
        CompileErrorType::UnusedTag(tag) => tag == name,
        _ => false,
    }
}

#[test]
fn forward_tag_resolves_to_the_index_of_the_tagged_instruction() {
    let input = source(&[&["jmp $1", "target"], &["add $5", "$6", "#0"], &["target:hlt"]]);
    let mut assembler = Assembler::new(input, String::from("forward.asm"));
    let (tokens, errors) = assembler.assemble();
    assert_eq!(
        tokens,
        strings(&["\n2105", "1", "7", "\n1101", "5", "6", "0", "\n99"])
    );
    let hlt_index = tokens.iter().position(|token| token == "\n99").unwrap();
    assert_eq!(hlt_index, 7);
    assert_eq!(tokens[2], hlt_index.to_string());
    assert_eq!(errors.len(), 1);
    assert!(is_unused(&errors[0], "data"));
    assert_eq!(errors[0].pos, at(0, 0, 8));
}

#[test]
fn forward_tag_compiles_once_the_reserved_tag_is_used() {
    let input = source(&[
        &["jmp $1", "target"],
        &["add $5", "$6", "#0"],
        &["target:hlt"],
        &["out data"],
    ]);
    let mut assembler = Assembler::new(input, String::from("forward.asm"));
    let tokens = match assembler.compile() {
        Ok(tokens) => tokens,
        Err(_) => panic!("the source has no error"),
    };
    assert_eq!(
        tokens,
        strings(&["\n2105", "1", "7", "\n1101", "5", "6", "0", "\n99", "\n204", "10"])
    );
}

#[test]
fn every_use_holds_the_address_of_its_tag() {
    let input = source(&[
        &["a:jmp b", "$a"],
        &["b:out #a"],
        &["jmpf $b", "data"],
        &["c:hlt"],
        &["out c"],
        &["out $c"],
    ]);
    let mut assembler = Assembler::new(input, String::from("tags.asm"));
    let tokens = match assembler.compile() {
        Ok(tokens) => tokens,
        Err(_) => panic!("the source has no error"),
    };
    // a = 0, b = 3, c = 8, data = 13
    assert_eq!(
        tokens,
        strings(&[
            "\n1205", "3", "0", "\n4", "0", "\n2106", "3", "13", "\n99", "\n204", "8", "\n104",
            "8",
        ])
    );
}

#[test]
fn duplicate_tag_is_reported_once_with_the_first_position() {
    let input = source(&[&["foo:hlt"], &["foo:hlt"], &["jmp foo", "data"]]);
    let mut assembler = Assembler::new(input, String::from("dup.asm"));
    let errors = match assembler.compile() {
        Ok(_) => panic!("a tag is declared twice"),
        Err(errors) => errors,
    };
    assert_eq!(errors.len(), 1);
    assert_eq!(errors[0].file, "dup.asm");
    assert_eq!(errors[0].pos, at(2, 0, 1));
    match &errors[0].error_type {
        CompileErrorType::DuplicateTag(tag, first) => {
            assert_eq!(tag, "foo");
            assert_eq!(*first, at(1, 0, 0));
        }
        _ => panic!("expected a duplicate tag"),
    }
    assert_eq!(
        errors[0].to_text(),
        "dup.asm:2:0 Tag <foo> is already defined at: 1:0"
    );
}

#[test]
fn reserved_tag_resolves_to_the_number_of_tokens() {
    let input = source(&[&["out data"], &["hlt"]]);
    let mut assembler = Assembler::new(input, String::from("data.asm"));
    let tokens = match assembler.compile() {
        Ok(tokens) => tokens,
        Err(_) => panic!("the source has no error"),
    };
    assert_eq!(tokens, strings(&["\n204", "3", "\n99"]));
}

#[test]
fn reserved_tag_may_be_used_before_anything_is_declared() {
    let input = source(&[&["jmp $data", "#data"], &["mov data", "$data"]]);
    let mut assembler = Assembler::new(input, String::from("data.asm"));
    let tokens = match assembler.compile() {
        Ok(tokens) => tokens,
        Err(_) => panic!("the source has no error"),
    };
    assert_eq!(tokens, strings(&["\n105", "6", "6", "\n1210", "6", "6"]));
}

#[test]
fn declaring_the_reserved_tag_is_an_error() {
    let input = source(&[&["data:hlt"], &["out data"]]);
    let mut assembler = Assembler::new(input, String::from("data.asm"));
    let errors = match assembler.compile() {
        Ok(_) => panic!("the reserved tag is declared"),
        Err(errors) => errors,
    };
    assert_eq!(errors.len(), 1);
    assert_eq!(errors[0].pos, at(1, 0, 0));
    match &errors[0].error_type {
        CompileErrorType::ReservedTag(tag) => assert_eq!(tag, "data"),
        _ => panic!("expected a reserved tag"),
    }
    assert_eq!(
        errors[0].to_text(),
        "data.asm:1:0 Tag <data> is reserved by the compiler and can't be declared."
    );
}

#[test]
fn no_output_when_there_is_an_error() {
    let input = source(&[&["out $1"], &["hlt"]]);
    let mut assembler = Assembler::new(input, String::from("x.asm"));
    match assembler.compile() {
        Ok(_) => panic!("the reserved tag is never used"),
        Err(errors) => assert_eq!(texts(&errors), vec!["x.asm:0:0 Tag <data> is never used."]),
    }
    let input = source(&[&["out $1"], &["hlt"]]);
    let mut assembler = Assembler::new(input, String::from("x.asm"));
    let (tokens, errors) = assembler.assemble();
    assert_eq!(tokens, strings(&["\n104", "1", "\n99"]));
    assert_eq!(errors.len(), 1);
}

#[test]
fn missing_operands_are_reported_one_by_one() {
    let input = source(&[&["add $1"]]);
    let mut assembler = Assembler::new(input, String::from("a.asm"));
    let (tokens, errors) = assembler.assemble();
    assert_eq!(tokens, strings(&["\n101", "1"]));
    assert_eq!(
        texts(&errors),
        vec![
            "a.asm:1:0 Wrong number of arguments expected 3 found 1",
            "a.asm:1:2 Argument parsing failed: Empty argument",
            "a.asm:1:3 Argument parsing failed: Empty argument",
            "a.asm:0:0 Tag <data> is never used.",
        ]
    );
    assert_eq!(errors[0].pos, at(1, 0, 0));
    assert_eq!(errors[1].pos, at(1, 2, 2));
    assert_eq!(errors[2].pos, at(1, 3, 3));
    assert_eq!(errors[3].pos, at(0, 0, 2));
    match &errors[0].error_type {
        CompileErrorType::WrongArgumentsCount(expected, found) => {
            assert_eq!((*expected, *found), (3, 1));
        }
        _ => panic!("expected a wrong count"),
    }
    match &errors[1].error_type {
        CompileErrorType::ArgumentParse(reason) => assert_eq!(reason, "Empty argument"),
        _ => panic!("expected a parse error"),
    }
}

#[test]
fn surplus_operands_are_counted_and_left_out() {
    let input = source(&[&["out $1", "$2", "data"]]);
    let mut assembler = Assembler::new(input, String::from("a.asm"));
    let (tokens, errors) = assembler.assemble();
    assert_eq!(tokens, strings(&["\n104", "1"]));
    assert_eq!(
        texts(&errors),
        vec![
            "a.asm:1:0 Wrong number of arguments expected 1 found 3",
            "a.asm:0:0 Tag <data> is never used.",
        ]
    );
}

#[test]
fn halt_takes_no_operands_and_counts_none() {
    let input = source(&[&["hlt $1", "$2"], &["out data"]]);
    let mut assembler = Assembler::new(input, String::from("a.asm"));
    assert_eq!(assembler.compile().ok(), Some(strings(&["\n99", "\n204", "3"])));
}

#[test]
fn a_head_without_a_space_is_its_own_first_operand() {
    let input = source(&[&["in"]]);
    let mut assembler = Assembler::new(input, String::from("a.asm"));
    let (tokens, errors) = assembler.assemble();
    assert_eq!(tokens, strings(&["\n203", "in"]));
    assert_eq!(
        texts(&errors),
        vec!["a.asm:1:2 undefined tag <in>", "a.asm:0:0 Tag <data> is never used."]
    );
    assert_eq!(errors[0].pos, at(1, 2, 1));
}

#[test]
fn only_the_text_up_to_the_second_space_is_the_first_operand() {
    let input = source(&[&["out $1 $2"], &["out  $1"], &["out data"]]);
    let mut assembler = Assembler::new(input, String::from("a.asm"));
    let (tokens, errors) = assembler.assemble();
    // The second line has an error, so its operand slot stays empty and the
    // use of the reserved tag lies past the end of what was emitted.
    assert_eq!(tokens, strings(&["\n104", "1", "\n4", "\n204", "data"]));
    assert_eq!(
        texts(&errors),
        vec![
            "a.asm:2:0 Wrong number of arguments expected 1 found 0",
            "a.asm:2:1 Argument parsing failed: Empty argument",
        ]
    );
}

#[test]
fn unknown_instruction_is_reported_and_the_line_left_out() {
    let input = source(&[&["nop $1"], &["x:frob"], &["out data"]]);
    let mut assembler = Assembler::new(input, String::from("a.asm"));
    let (tokens, errors) = assembler.assemble();
    assert_eq!(tokens, strings(&["\n204", "2"]));
    assert_eq!(
        texts(&errors),
        vec![
            "a.asm:1:0 Unknown instruction <nop>",
            "a.asm:2:0 Unknown instruction <frob>",
            "a.asm:2:0 Tag <x> is never used.",
        ]
    );
    match &errors[0].error_type {
        CompileErrorType::UnknownInstruction(name) => assert_eq!(name, "nop"),
        _ => panic!("expected an unknown instruction"),
    }
}

#[test]
fn undefined_tags_are_reported_use_by_use_and_tag_by_tag() {
    let input = source(&[&["jmp here", "there"], &["out here"], &["out data"]]);
    let mut assembler = Assembler::new(input, String::from("a.asm"));
    let errors = match assembler.compile() {
        Ok(_) => panic!("two tags are not declared"),
        Err(errors) => errors,
    };
    assert_eq!(
        texts(&errors),
        vec![
            "a.asm:1:2 undefined tag <here>",
            "a.asm:2:2 undefined tag <here>",
            "a.asm:1:3 undefined tag <there>",
        ]
    );
    assert_eq!(errors[0].pos, at(1, 2, 1));
    assert_eq!(errors[1].pos, at(2, 2, 4));
    assert_eq!(errors[2].pos, at(1, 3, 2));
    match &errors[2].error_type {
        CompileErrorType::UndefinedTag(tag) => assert_eq!(tag, "there"),
        _ => panic!("expected an undefined tag"),
    }
}

#[test]
fn unused_tags_are_reported_in_the_order_of_their_declarations() {
    let input = source(&[&["one:hlt"], &["two:hlt"], &["three:out three"]]);
    let mut assembler = Assembler::new(input, String::from("a.asm"));
    let errors = match assembler.compile() {
        Ok(_) => panic!("tags are not used"),
        Err(errors) => errors,
    };
    assert_eq!(
        texts(&errors),
        vec![
            "a.asm:1:0 Tag <one> is never used.",
            "a.asm:2:0 Tag <two> is never used.",
            "a.asm:0:0 Tag <data> is never used.",
        ]
    );
    assert_eq!(errors[1].pos, at(2, 0, 1));
    assert_eq!(errors[2].pos, at(0, 0, 4));
}

#[test]
fn empty_lines_and_carriage_return_lines_are_passed_over_but_counted() {
    let input = source(&[&[""], &["\rhlt"], &[], &[" out $1"], &["bad"], &["out data"]]);
    let mut assembler = Assembler::new(input, String::from("a.asm"));
    let (tokens, errors) = assembler.assemble();
    assert_eq!(tokens, strings(&["\n204", "2"]));
    assert_eq!(texts(&errors), vec!["a.asm:5:0 Unknown instruction <bad>"]);
}

#[test]
fn mnemonics_may_be_written_in_any_case() {
    let input = source(&[&["OUT $1"], &["Hlt"], &["oUt data"]]);
    let mut assembler = Assembler::new(input, String::from("a.asm"));
    assert_eq!(
        assembler.compile().ok(),
        Some(strings(&["\n104", "1", "\n99", "\n204", "5"]))
    );
}

#[test]
fn bare_numbers_assemble_as_relative_operands() {
    let input = source(&[&["add 1", "-2", "3"], &["out data"]]);
    let mut assembler = Assembler::new(input, String::from("a.asm"));
    assert_eq!(
        assembler.compile().ok(),
        Some(strings(&["\n22201", "1", "-2", "3", "\n204", "6"]))
    );
}

#[test]
fn assembling_again_gives_the_same_result() {
    let input = source(&[&["start:out data"], &["jmp $1", "$start"]]);
    let mut assembler = Assembler::new(input, String::from("a.asm"));
    let first = assembler.compile().ok();
    let second = assembler.compile().ok();
    assert_eq!(first, Some(strings(&["\n204", "5", "\n1105", "1", "0"])));
    assert_eq!(second, first);
}

#[test]
fn empty_source_has_only_the_unused_reserved_tag() {
    let mut assembler = Assembler::new(Vec::new(), String::from("a.asm"));
    let (tokens, errors) = assembler.assemble();
    assert!(tokens.is_empty());
    assert_eq!(texts(&errors), vec!["a.asm:0:0 Tag <data> is never used."]);
}

#[test]
fn error_keeps_what_it_is_made_of() {
    let error = CompileError::new(
        CompileErrorType::UnusedTag(String::from("t")),
        "file.asm",
        at(3, 0, 9),
    );
    assert_eq!(error.file, "file.asm");
    assert_eq!(error.pos, at(3, 0, 9));
    assert!(is_unused(&error, "t"));
    assert_eq!(error.to_text(), "file.asm:3:0 Tag <t> is never used.");
    assert_eq!(at(12, 5, 0).to_text(), "12:5");
}
