//! What the assembler hands to its user: the emitted text, the report of a
//! failed build, and the name of the file that the text goes to.

use crate::diagnostics::{diagnostic_text, diagnostics, CompileError, Diagnostic};
use crate::text::{
    chars_of, decimal, find_char, index_of, lemma_take_next, push_decimal, slice_chars, string_of,
    texts, trim_start, trim_start_chars, without, without_char,
};
use vstd::prelude::*;

verus! {

/// The tokens one after the other with a comma between each two.
pub open spec fn joined(tokens: Seq<Seq<char>>) -> Seq<char>
    decreases tokens.len(),
{
    if tokens.len() == 0 {
        Seq::empty()
    } else if tokens.len() == 1 {
        tokens[0]
    } else {
        joined(tokens.drop_last()) + seq![','] + tokens.last()
    }
}

/// The text of an emitted stream: its tokens joined by commas, without the
/// white space at the front. The line break before each instruction word but
/// the first stays, so that the text has one instruction on each line.
pub open spec fn emitted_text(tokens: Seq<Seq<char>>) -> Seq<char> {
    trim_start(joined(tokens))
}

/// The text of an emitted stream on a single line: the emitted text without
/// its line breaks.
pub open spec fn flat_text(tokens: Seq<Seq<char>>) -> Seq<char> {
    without(emitted_text(tokens), '\n')
}

/// The most errors that a report lists.
pub const REPORT_LIMIT: usize = 50;

/// The last line of a report that lists `shown` errors.
pub open spec fn summary_text(shown: nat) -> Seq<char> {
    "Build failed with "@ + decimal(shown) + " errors."@
}

/// The report of a failed build: one line for each of the first fifty
/// errors, then the summary with the number of errors listed.
pub open spec fn report_lines(errors: Seq<Diagnostic>) -> Seq<Seq<char>> {
    let shown = if errors.len() > REPORT_LIMIT {
        REPORT_LIMIT as nat
    } else {
        errors.len()
    };
    Seq::new(shown, |i: int| diagnostic_text(errors[i])).push(summary_text(shown))
}

/// The name of the file that the text assembled from `filename` goes to.
/// The name is cut one character before the first dot that is not its first
/// character, if it has such a dot, and `.icc` is added.
pub open spec fn output_name(filename: Seq<char>) -> Seq<char> {
    let rest = filename.skip(1);
    let dot = index_of(rest, '.');
    if dot < rest.len() {
        filename.take(dot) + ".icc"@
    } else {
        filename + ".icc"@
    }
}

/// The characters of the text of an emitted stream.
fn join_chars(tokens: &Vec<String>) -> (text: Vec<char>)
    ensures
        text@ == emitted_text(texts(tokens@)),
{
    let mut all: Vec<char> = Vec::new();
    let mut i: usize = 0;
    assert(texts(tokens@).take(0) =~= Seq::<Seq<char>>::empty());
    while i < tokens.len()
        invariant
            i <= tokens.len(),
            all@ == joined(texts(tokens@).take(i as int)),
        decreases tokens.len() - i,
    {
        proof {
            lemma_take_next(texts(tokens@), i as int);
        }
        if i > 0 {
            all.push(',');
        }
        let mut token = chars_of(tokens[i].as_str());
        let ghost before = all@;
        let ghost more = token@;
        all.append(&mut token);
        assert(all@ =~= before + more);
        assert(i == 0 ==> joined(texts(tokens@).take(0)) =~= Seq::<char>::empty());
        assert(all@ =~= joined(texts(tokens@).take(i + 1)));
        i += 1;
    }
    assert(texts(tokens@).take(i as int) =~= texts(tokens@));
    trim_start_chars(&all)
}

/// The text of an emitted stream, one instruction on each line.
pub fn join_tokens(tokens: &Vec<String>) -> (text: String)
    ensures
        text@ == emitted_text(texts(tokens@)),
{
    string_of(&join_chars(tokens))
}

/// The text of an emitted stream on a single line.
pub fn join_tokens_flat(tokens: &Vec<String>) -> (text: String)
    ensures
        text@ == flat_text(texts(tokens@)),
{
    string_of(&without_char(&join_chars(tokens), '\n'))
}

/// The lines of the report of a failed build.
pub fn failure_report(errors: &Vec<CompileError>) -> (lines: Vec<String>)
    ensures
        texts(lines@) == report_lines(diagnostics(errors@)),
{
    let shown: usize = if errors.len() > REPORT_LIMIT {
        REPORT_LIMIT
    } else {
        errors.len()
    };
    let mut lines: Vec<String> = Vec::new();
    let mut i: usize = 0;
    while i < shown
        invariant
            i <= shown <= errors.len(),
            lines@.len() == i,
            forall|j: int| 0 <= j < i ==> lines@[j]@ == diagnostic_text(errors@[j]@),
        decreases shown - i,
    {
        lines.push(errors[i].to_text());
        i += 1;
    }
    let mut summary = chars_of("Build failed with ");
    push_decimal(&mut summary, shown);
    let mut end = chars_of(" errors.");
    summary.append(&mut end);
    assert(summary@ =~= summary_text(shown as nat));
    lines.push(string_of(&summary));
    assert(texts(lines@) =~= report_lines(diagnostics(errors@)));
    lines
}

/// The name of the file that the text assembled from `filename` goes to.
pub fn name_output(filename: &str) -> (name: String)
    requires
        filename@.len() > 0,
    ensures
        name@ == output_name(filename@),
{
    let all = chars_of(filename);
    let dot = find_char(&all, 1, '.');
    let mut name = if dot < all.len() {
        slice_chars(&all, 0, dot - 1)
    } else {
        slice_chars(&all, 0, all.len())
    };
    let ghost stem = name@;
    let mut extension = chars_of(".icc");
    name.append(&mut extension);
    assert(all@.skip(1).len() == all@.len() - 1);
    assert(all@.subrange(0, all@.len() as int) =~= all@);
    assert(name@ =~= stem + ".icc"@);
    string_of(&name)
}

} // verus!
