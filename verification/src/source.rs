//! From the text of a source file to its lines of tokens.
//!
//! A tag may stand on a line of its own: before the text is cut into lines,
//! the blanks and line breaks around every colon are taken out, so that the
//! tag joins the instruction that follows it.

use crate::text::{
    chars_of, rows, split, split_chars, string_of, text_rows, texts, trim, trim_chars, without,
    without_char,
};
use vstd::prelude::*;

verus! {

/// The error of the regular-expression library for a pattern that it cannot
/// compile.
#[verifier::external_type_specification]
#[verifier::external_body]
pub struct ExRegexError(regex::Error);

/// Whether the regular-expression library compiles `pattern`.
pub uninterp spec fn pattern_is_valid(pattern: Seq<char>) -> bool;

/// `text` with every match of `pattern` replaced by `replacement`, as the
/// regular-expression library finds the matches: from the left, without
/// overlap.
pub uninterp spec fn replaced(pattern: Seq<char>, text: Seq<char>, replacement: Seq<char>) -> Seq<
    char,
>;

/// Compiles `pattern` with `regex::Regex::new` and replaces every match in
/// `text` with `regex::Regex::replace_all`. Taken on trust: the call fails
/// exactly for the patterns that do not compile, and what it returns depends
/// on pattern, text and replacement alone.
#[verifier::external_body]
fn replace_all(pattern: &str, text: &str, replacement: &str) -> (r: Result<String, regex::Error>)
    ensures
        r is Ok <==> pattern_is_valid(pattern@),
        r matches Ok(s) ==> s@ == replaced(pattern@, text@, replacement@),
{
    match regex::Regex::new(pattern) {
        Ok(re) => Ok(re.replace_all(text, replacement).into_owned()),
        Err(e) => Err(e),
    }
}

/// The pattern of a colon with the blanks before it and the blanks, line
/// feeds and carriage returns after it.
pub const TAG_BREAK: &'static str = r" *:( *\n*\r*)*";

/// Why a source text could not be cut into lines.
#[derive(Copy, Clone, PartialEq, Eq, Debug, Structural)]
pub enum SourceError {
    /// The pattern is no regular expression, or one too large to compile.
    Pattern,
}

/// `text` with every match of `pattern` replaced by `replacement`, where the
/// pattern is a regular expression.
pub fn replace_matches(pattern: &str, text: &str, replacement: &str) -> (r: Result<
    String,
    SourceError,
>)
    ensures
        r is Ok <==> pattern_is_valid(pattern@),
        r matches Ok(s) ==> s@ == replaced(pattern@, text@, replacement@),
        r matches Err(e) ==> e == SourceError::Pattern,
{
    match replace_all(pattern, text, replacement) {
        Ok(s) => Ok(s),
        Err(_) => Err(SourceError::Pattern),
    }
}

/// A token as the assembler takes it: without the white space around it and
/// without any carriage return.
pub open spec fn clean_token(raw: Seq<char>) -> Seq<char> {
    without(trim(raw), '\r')
}

/// The tokens of one line: its pieces between commas, each cleaned.
pub open spec fn line_tokens(line: Seq<char>) -> Seq<Seq<char>> {
    let pieces = split(line, ',');
    Seq::new(pieces.len(), |i: int| clean_token(pieces[i]))
}

/// The lines of a text, each cut into its tokens.
pub open spec fn source_lines(text: Seq<char>) -> Seq<Seq<Seq<char>>> {
    let lines = split(text, '\n');
    Seq::new(lines.len(), |i: int| line_tokens(lines[i]))
}

/// Cuts one line into its tokens.
fn split_line(line: &Vec<char>) -> (tokens: Vec<String>)
    ensures
        texts(tokens@) == line_tokens(line@),
{
    let pieces = split_chars(line, ',');
    let mut tokens: Vec<String> = Vec::new();
    let mut i: usize = 0;
    while i < pieces.len()
        invariant
            i <= pieces.len(),
            rows(pieces@) == split(line@, ','),
            tokens@.len() == i,
            forall|j: int| 0 <= j < i ==> tokens@[j]@ == clean_token(pieces@[j]@),
        decreases pieces.len() - i,
    {
        let trimmed = trim_chars(&pieces[i]);
        let cleaned = without_char(&trimmed, '\r');
        tokens.push(string_of(&cleaned));
        i += 1;
    }
    assert(texts(tokens@) =~= line_tokens(line@));
    tokens
}

/// Cuts a text into lines at every line feed and each line into tokens at
/// every comma.
pub fn split_lines(text: &str) -> (lines: Vec<Vec<String>>)
    ensures
        text_rows(lines@) == source_lines(text@),
{
    let all = chars_of(text);
    let pieces = split_chars(&all, '\n');
    let mut lines: Vec<Vec<String>> = Vec::new();
    let mut i: usize = 0;
    while i < pieces.len()
        invariant
            i <= pieces.len(),
            rows(pieces@) == split(text@, '\n'),
            lines@.len() == i,
            forall|j: int| 0 <= j < i ==> texts(lines@[j]@) == line_tokens(pieces@[j]@),
        decreases pieces.len() - i,
    {
        lines.push(split_line(&pieces[i]));
        i += 1;
    }
    assert(text_rows(lines@) =~= source_lines(text@));
    lines
}

/// Turns the text of a source file into the lines of tokens that the
/// assembler takes: joins every tag to the instruction that follows it, then
/// cuts the text into lines and tokens.
pub fn split_source(text: &str) -> (r: Result<Vec<Vec<String>>, SourceError>)
    ensures
        r is Ok <==> pattern_is_valid(TAG_BREAK@),
        r matches Ok(lines) ==> text_rows(lines@) == source_lines(
            replaced(TAG_BREAK@, text@, ":"@),
        ),
        r matches Err(e) ==> e == SourceError::Pattern,
{
    match replace_matches(TAG_BREAK, text, ":") {
        Ok(joined) => Ok(split_lines(joined.as_str())),
        Err(e) => Err(e),
    }
}

} // verus!
