use icc::{replace_matches, split_lines, split_source, Assembler, SourceError, TAG_BREAK};

fn lines(expected: &[&[&str]]) -> Vec<Vec<String>> {
    expected
        .iter()
        .map(|line| line.iter().map(|token| token.to_string()).collect())
        .collect()
}

#[test]
fn lines_are_cut_at_line_feeds_and_tokens_at_commas() {
    assert_eq!(
        split_lines("add $1, $2 ,#3\nhlt"),
        lines(&[&["add $1", "$2", "#3"], &["hlt"]])
    );
    assert_eq!(split_lines(""), lines(&[&[""]]));
    assert_eq!(split_lines("\n"), lines(&[&[""], &[""]]));
    assert_eq!(split_lines("a,,b,"), lines(&[&["a", "", "b", ""]]));
}

#[test]
fn tokens_lose_the_white_space_around_them_and_every_carriage_return() {
    assert_eq!(
        split_lines("  out\t$1 \r\n\thlt\r\n"),
        lines(&[&["out\t$1"], &["hlt"], &[""]])
    );
    assert_eq!(split_lines("a\rb , \r c \r"), lines(&[&["ab", "c"]]));
    assert_eq!(split_lines("\u{a0}x\u{3000}"), lines(&[&["x"]]));
}

#[test]
fn a_tag_on_its_own_line_joins_the_instruction_below() {
    assert_eq!(
        split_source("foo:\n  hlt"),
        Ok(lines(&[&["foo:hlt"]]))
    );
    assert_eq!(
        split_source("start :  \r\n\n   in $0\nend: hlt\n"),
        Ok(lines(&[&["start:in $0"], &["end:hlt"], &[""]]))
    );
    assert_eq!(
        split_source("jmp $1, target\nadd $5, $6, #0\ntarget: hlt"),
        Ok(lines(&[
            &["jmp $1", "target"],
            &["add $5", "$6", "#0"],
            &["target:hlt"]
        ]))
    );
    assert_eq!(split_source("a: :b"), Ok(lines(&[&["a::b"]])));
}

#[test]
fn text_without_colons_is_only_cut() {
    assert_eq!(
        split_source("out $1\nhlt"),
        Ok(lines(&[&["out $1"], &["hlt"]]))
    );
}

#[test]
fn the_pattern_is_the_colon_with_the_blanks_around_it() {
    assert_eq!(TAG_BREAK, " *:( *\\n*\\r*)*");
}

#[test]
fn source_text_assembles() {
    let text = "start:\n  in $20\nadd #20, $1, $21\nout #21\njmpf $0, $end\nout data\nend: hlt\nout start\n";
    let input = split_source(text).unwrap();
    let mut assembler = Assembler::new(input, String::from("echo.asm"));
    let tokens = assembler.compile().ok().unwrap();
    let expected: Vec<String> = [
        "\n103", "20", "\n11001", "20", "1", "21", "\n4", "21", "\n1106", "0", "13", "\n204",
        "16", "\n99", "\n204", "0",
    ]
    .iter()
    .map(|token| token.to_string())
    .collect();
    assert_eq!(tokens, expected);
}

#[test]
fn matches_are_replaced_from_the_left() {
    assert_eq!(replace_matches("a+", "caaandaab", "-"), Ok(String::from("c-nd-b")));
    assert_eq!(replace_matches(TAG_BREAK, "x  :  \n y", ":"), Ok(String::from("x:y")));
    assert_eq!(replace_matches("z", "abc", "-"), Ok(String::from("abc")));
}

#[test]
fn a_pattern_that_does_not_compile_is_an_error() {
    assert_eq!(replace_matches("(", "abc", "-"), Err(SourceError::Pattern));
    assert_eq!(replace_matches("a{2,1}", "abc", "-"), Err(SourceError::Pattern));
}
