//! What the assembler reports: positions in the source and the kinds of
//! error, with the text of each report.

use crate::text::{chars_of, decimal, push_decimal, string_of};
use vstd::prelude::*;

verus! {

/// A place in the source, and the index in the emitted stream that belongs
/// to it. A definition has column zero; the use in operand `i` has column
/// `i + 2`.
#[derive(Copy, Clone, PartialEq, Eq, Debug, Structural)]
pub struct CodePosition {
    /// The line, counted from one; zero for what the assembler defines itself.
    pub line: usize,
    /// The column of the report.
    pub column: usize,
    /// The index of the token in the emitted stream.
    pub address: usize,
}

/// The text of a position: line and column.
pub open spec fn position_text(pos: CodePosition) -> Seq<char> {
    decimal(pos.line as nat) + ":"@ + decimal(pos.column as nat)
}

impl CodePosition {
    /// Appends line and column to `out`.
    pub fn push_text(&self, out: &mut Vec<char>)
        ensures
            final(out)@ == old(out)@ + position_text(*self),
    {
        push_decimal(out, self.line);
        let mut colon = chars_of(":");
        out.append(&mut colon);
        push_decimal(out, self.column);
        assert(out@ =~= old(out)@ + position_text(*self));
    }

    /// Line and column, separated by a colon.
    pub fn to_text(&self) -> (s: String)
        ensures
            s@ == position_text(*self),
    {
        let mut out: Vec<char> = Vec::new();
        self.push_text(&mut out);
        assert(out@ =~= position_text(*self));
        string_of(&out)
    }
}

/// The kinds of error that assembling can find.
pub enum CompileErrorType {
    /// The reserved tag was declared.
    ReservedTag(String),
    /// A tag was declared again; the position is that of the first declaration.
    DuplicateTag(String, CodePosition),
    /// The mnemonic names no instruction.
    UnknownInstruction(String),
    /// The instruction takes the first number of operands and got the second.
    WrongArgumentsCount(u8, usize),
    /// An operand could not be read; the text says why.
    ArgumentParse(String),
    /// A tag was used and never declared.
    UndefinedTag(String),
    /// A tag was declared and never used.
    UnusedTag(String),
}

/// A kind of error as contracts see it: strings by their characters.
pub ghost enum ErrorKind {
    ReservedTag(Seq<char>),
    DuplicateTag(Seq<char>, CodePosition),
    UnknownInstruction(Seq<char>),
    WrongArgumentsCount(u8, usize),
    ArgumentParse(Seq<char>),
    UndefinedTag(Seq<char>),
    UnusedTag(Seq<char>),
}

impl View for CompileErrorType {
    type V = ErrorKind;

    open spec fn view(&self) -> ErrorKind {
        match *self {
            CompileErrorType::ReservedTag(tag) => ErrorKind::ReservedTag(tag@),
            CompileErrorType::DuplicateTag(tag, first) => ErrorKind::DuplicateTag(tag@, first),
            CompileErrorType::UnknownInstruction(name) => ErrorKind::UnknownInstruction(name@),
            CompileErrorType::WrongArgumentsCount(expected, found) => ErrorKind::WrongArgumentsCount(
                expected,
                found,
            ),
            CompileErrorType::ArgumentParse(reason) => ErrorKind::ArgumentParse(reason@),
            CompileErrorType::UndefinedTag(tag) => ErrorKind::UndefinedTag(tag@),
            CompileErrorType::UnusedTag(tag) => ErrorKind::UnusedTag(tag@),
        }
    }
}

/// An error with the file and the position it was found at.
pub struct CompileError<'a> {
    /// What went wrong.
    pub error_type: CompileErrorType,
    /// The name of the source file.
    pub file: &'a str,
    /// Where it went wrong.
    pub pos: CodePosition,
}

/// An error as contracts see it.
pub ghost struct Diagnostic {
    pub kind: ErrorKind,
    pub file: Seq<char>,
    pub pos: CodePosition,
}

impl<'a> View for CompileError<'a> {
    type V = Diagnostic;

    open spec fn view(&self) -> Diagnostic {
        Diagnostic { kind: self.error_type@, file: self.file@, pos: self.pos }
    }
}

/// The errors held by a vector, as contracts see them.
pub open spec fn diagnostics(errors: Seq<CompileError>) -> Seq<Diagnostic> {
    Seq::new(errors.len(), |i: int| errors[i]@)
}

/// What a report says after file and position.
pub open spec fn kind_text(kind: ErrorKind) -> Seq<char> {
    match kind {
        ErrorKind::ReservedTag(tag) => "Tag <"@ + tag
            + "> is reserved by the compiler and can't be declared."@,
        ErrorKind::DuplicateTag(tag, first) => "Tag <"@ + tag + "> is already defined at: "@
            + position_text(first),
        ErrorKind::UnknownInstruction(name) => "Unknown instruction <"@ + name + ">"@,
        ErrorKind::WrongArgumentsCount(expected, found) => "Wrong number of arguments expected "@
            + decimal(expected as nat) + " found "@ + decimal(found as nat),
        ErrorKind::ArgumentParse(reason) => "Argument parsing failed: "@ + reason,
        ErrorKind::UndefinedTag(tag) => "undefined tag <"@ + tag + ">"@,
        ErrorKind::UnusedTag(tag) => "Tag <"@ + tag + "> is never used."@,
    }
}

/// The whole report: file, line and column, then what went wrong.
pub open spec fn diagnostic_text(d: Diagnostic) -> Seq<char> {
    d.file + ":"@ + position_text(d.pos) + " "@ + kind_text(d.kind)
}

/// Appends the characters of `s` to `out`.
fn push_str(out: &mut Vec<char>, s: &str)
    ensures
        final(out)@ == old(out)@ + s@,
{
    let mut more = chars_of(s);
    out.append(&mut more);
}

impl CompileErrorType {
    /// Appends what a report of this kind says to `out`.
    fn push_text(&self, out: &mut Vec<char>)
        ensures
            final(out)@ == old(out)@ + kind_text(self@),
    {
        match self {
            CompileErrorType::ReservedTag(tag) => {
                push_str(out, "Tag <");
                push_str(out, tag.as_str());
                push_str(out, "> is reserved by the compiler and can't be declared.");
            },
            CompileErrorType::DuplicateTag(tag, first) => {
                push_str(out, "Tag <");
                push_str(out, tag.as_str());
                push_str(out, "> is already defined at: ");
                first.push_text(out);
            },
            CompileErrorType::UnknownInstruction(name) => {
                push_str(out, "Unknown instruction <");
                push_str(out, name.as_str());
                push_str(out, ">");
            },
            CompileErrorType::WrongArgumentsCount(expected, found) => {
                push_str(out, "Wrong number of arguments expected ");
                push_decimal(out, *expected as usize);
                push_str(out, " found ");
                push_decimal(out, *found);
            },
            CompileErrorType::ArgumentParse(reason) => {
                push_str(out, "Argument parsing failed: ");
                push_str(out, reason.as_str());
            },
            CompileErrorType::UndefinedTag(tag) => {
                push_str(out, "undefined tag <");
                push_str(out, tag.as_str());
                push_str(out, ">");
            },
            CompileErrorType::UnusedTag(tag) => {
                push_str(out, "Tag <");
                push_str(out, tag.as_str());
                push_str(out, "> is never used.");
            },
        }
        assert(out@ =~= old(out)@ + kind_text(self@));
    }
}

impl<'a> CompileError<'a> {
    /// An error of kind `error`, found in `file` at `pos`.
    pub fn new(error: CompileErrorType, file: &'a str, pos: CodePosition) -> (e: CompileError<'a>)
        ensures
            e.error_type == error,
            e.file == file,
            e.pos == pos,
    {
        CompileError { error_type: error, file: file, pos: pos }
    }

    /// The report as one line of text.
    pub fn to_text(&self) -> (s: String)
        ensures
            s@ == diagnostic_text(self@),
    {
        let mut out: Vec<char> = Vec::new();
        push_str(&mut out, self.file);
        push_str(&mut out, ":");
        self.pos.push_text(&mut out);
        push_str(&mut out, " ");
        self.error_type.push_text(&mut out);
        assert(out@ =~= diagnostic_text(self@));
        string_of(&out)
    }
}

} // verus!
