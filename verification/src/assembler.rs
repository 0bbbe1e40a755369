//! The assembler: from lines of tokens to the stream of tokens that the
//! machine runs, or to the list of everything that is wrong with the source.

use crate::argument::{encode_opcode, read_argument, read_head};
use crate::assembly::{
    assemble, assemble_line, assemble_lines, emit_instruction, find_definition, first_token,
    initial_assembly, line_operands, nonempty, operand_at, outcome, patch_at, patched,
    read_operands, record_use, reserved_tag, resolve, undefined_at, undefined_uses,
    unused_definitions, use_index, Assembly, Definition, Operands, Uses,
};
use crate::assembly_laws::lemma_use_index;
use crate::diagnostics::{
    diagnostics, CodePosition, CompileError, CompileErrorType, Diagnostic, ErrorKind,
};
use crate::instructions::{is_instruction_table, Instruction, Instructions, ParameterModes};
use crate::text::{
    chars_are, chars_of, decimal_chars, lemma_take_next, rows, same_chars, slice_chars, split,
    split_chars, string_of, strings_of, text_rows, texts,
};
use std::collections::HashMap;
use vstd::prelude::*;

verus! {

broadcast use vstd::std_specs::hash::group_hash_axioms;

/// A declared tag and where it was declared.
pub struct TagDefinition {
    pub name: Vec<char>,
    pub pos: CodePosition,
}

impl View for TagDefinition {
    type V = Definition;

    open spec fn view(&self) -> Definition {
        Definition { name: self.name@, pos: self.pos }
    }
}

/// A tag that operands name, with every place that names it.
pub struct TagUse {
    pub name: Vec<char>,
    pub positions: Vec<CodePosition>,
}

impl View for TagUse {
    type V = Uses;

    open spec fn view(&self) -> Uses {
        Uses { name: self.name@, positions: self.positions@ }
    }
}

/// The declarations held by a vector, as contracts see them.
pub open spec fn definitions_of(v: Seq<TagDefinition>) -> Seq<Definition> {
    Seq::new(v.len(), |i: int| v[i]@)
}

/// The uses held by a vector, as contracts see them.
pub open spec fn uses_of(v: Seq<TagUse>) -> Seq<Uses> {
    Seq::new(v.len(), |i: int| v[i]@)
}

/// Where `name` was declared first among `definitions`.
fn lookup_definition(definitions: &Vec<TagDefinition>, name: &Vec<char>) -> (r: Option<CodePosition>)
    ensures
        r == find_definition(definitions_of(definitions@), name@),
{
    let ghost all = definitions_of(definitions@);
    let mut i: usize = 0;
    assert(all.skip(0) =~= all);
    while i < definitions.len()
        invariant
            i <= definitions.len(),
            all == definitions_of(definitions@),
            find_definition(all, name@) == find_definition(all.skip(i as int), name@),
        decreases definitions.len() - i,
    {
        assert(all.skip(i as int).drop_first() =~= all.skip(i + 1));
        if same_chars(&definitions[i].name, name) {
            return Some(definitions[i].pos);
        }
        i += 1;
    }
    None
}

/// The index of the entry for `name` in `uses`, or the length of `uses`.
fn find_use(uses: &Vec<TagUse>, name: &Vec<char>) -> (i: usize)
    ensures
        i == use_index(uses_of(uses@), name@),
        i <= uses.len(),
{
    let ghost all = uses_of(uses@);
    let mut i: usize = 0;
    assert(all.skip(0) =~= all);
    while i < uses.len()
        invariant
            i <= uses.len(),
            all == uses_of(uses@),
            use_index(all, name@) == i + use_index(all.skip(i as int), name@),
        decreases uses.len() - i,
    {
        assert(all.skip(i as int).drop_first() =~= all.skip(i + 1));
        if same_chars(&uses[i].name, name) {
            return i;
        }
        i += 1;
    }
    i
}

/// Records that the operand at `pos` names the tag `name`.
fn add_use(uses: &mut Vec<TagUse>, name: Vec<char>, pos: CodePosition)
    ensures
        uses_of(final(uses)@) == record_use(uses_of(old(uses)@), name@, pos),
{
    let i = find_use(uses, &name);
    proof {
        lemma_use_index(uses_of(uses@), name@);
    }
    if i < uses.len() {
        uses[i].positions.push(pos);
    } else {
        let mut positions: Vec<CodePosition> = Vec::new();
        positions.push(pos);
        uses.push(TagUse { name: name, positions: positions });
    }
    assert(uses_of(uses@) =~= record_use(uses_of(old(uses)@), name@, pos));
}


/// The state of an assembly under way, for the file named `file`.
struct Emitter<'a> {
    tokens: Vec<Vec<char>>,
    errors: Vec<CompileError<'a>>,
    definitions: Vec<TagDefinition>,
    uses: Vec<TagUse>,
    line: usize,
    address: usize,
    file: &'a str,
}

impl<'a> View for Emitter<'a> {
    type V = Assembly;

    closed spec fn view(&self) -> Assembly {
        Assembly {
            tokens: rows(self.tokens@),
            errors: diagnostics(self.errors@),
            definitions: definitions_of(self.definitions@),
            uses: uses_of(self.uses@),
            line: self.line,
            address: self.address,
        }
    }
}

/// The operands of a line, where `pieces` are the pieces of its first token
/// between spaces.
fn gather_operands(line: &Vec<String>, pieces: &Vec<Vec<char>>) -> (operands: Vec<Vec<char>>)
    requires
        rows(pieces@) == split(first_token(texts(line@)), ' '),
    ensures
        rows(operands@) == line_operands(texts(line@)),
{
    let ghost raw = if pieces@.len() > 1 {
        texts(line@).update(0, pieces@[1]@)
    } else {
        texts(line@)
    };
    assert(pieces@.len() == rows(pieces@).len());
    assert(pieces@.len() > 1 ==> rows(pieces@)[1] == pieces@[1]@);
    let mut operands: Vec<Vec<char>> = Vec::new();
    let mut j: usize = 0;
    while j < line.len()
        invariant
            j <= line.len(),
            raw.len() == line@.len(),
            forall|k: int|
                0 <= k < line@.len() ==> #[trigger] raw[k] == (if k == 0 && pieces@.len() > 1 {
                    pieces@[1]@
                } else {
                    line@[k]@
                }),
            rows(operands@) == nonempty(raw.take(j as int)),
        decreases line.len() - j,
    {
        let token = if j == 0 && pieces.len() > 1 {
            slice_chars(&pieces[1], 0, pieces[1].len())
        } else {
            chars_of(line[j].as_str())
        };
        assert(token@ =~= raw[j as int]);
        proof {
            lemma_take_next(raw, j as int);
        }
        let ghost before = rows(operands@);
        if token.len() > 0 {
            operands.push(token);
            assert(rows(operands@) =~= before.push(raw[j as int]));
        }
        j += 1;
    }
    assert(raw.take(j as int) =~= raw);
    operands
}

impl<'a> Emitter<'a> {
    /// Adds an error of kind `kind` at `pos`.
    fn report(&mut self, kind: CompileErrorType, pos: CodePosition)
        ensures
            final(self)@ == old(self)@.report(kind@, old(self).file@, pos),
            final(self).file == old(self).file,
            final(self).tokens == old(self).tokens,
            final(self).definitions == old(self).definitions,
            final(self).uses == old(self).uses,
    {
        let ghost before = diagnostics(self.errors@);
        self.errors.push(CompileError::new(kind, self.file, pos));
        assert(diagnostics(self.errors@) =~= before.push(
            Diagnostic { kind: kind@, file: self.file@, pos: pos },
        ));
    }

    /// Reads the first `arity` operands of an instruction: records the
    /// errors and the uses of tags, and returns modes and payloads.
    fn read_operands(&mut self, operands: &Vec<Vec<char>>, arity: u8) -> (r: (
        Vec<ParameterModes>,
        Vec<Vec<char>>,
    ))
        requires
            old(self).address + arity < usize::MAX,
        ensures
            final(self).file == old(self).file,
            ({
                let read = read_operands(
                    old(self)@,
                    rows(operands@),
                    old(self).file@,
                    arity as nat,
                );
                &&& r.0@ == read.modes
                &&& rows(r.1@) == read.payloads
                &&& final(self)@ == Assembly { errors: read.errors, uses: read.uses, ..old(self)@ }
            }),
            forall|i: int| 0 <= i < r.0@.len() ==> r.0@[i] != ParameterModes::RelativeImmediate,
    {
        let mut modes: Vec<ParameterModes> = Vec::new();
        let mut payloads: Vec<Vec<char>> = Vec::new();
        let mut i: usize = 0;
        let ghost start = self@;
        let ghost file = self.file@;
        let ghost ops = rows(operands@);
        assert(modes@ =~= Seq::<ParameterModes>::empty());
        assert(rows(payloads@) =~= Seq::<Seq<char>>::empty());
        while i < arity as usize
            invariant
                i <= arity,
                start.address + arity < usize::MAX,
                ops == rows(operands@),
                self.file@ == file,
                self.file == old(self).file,
                self@ == (Assembly { errors: self@.errors, uses: self@.uses, ..start }),
                read_operands(start, ops, file, i as nat) == (Operands {
                    modes: modes@,
                    payloads: rows(payloads@),
                    errors: self@.errors,
                    uses: self@.uses,
                }),
                forall|k: int| 0 <= k < modes@.len() ==> modes@[k] != ParameterModes::RelativeImmediate,
            decreases arity - i,
        {
            let address = self.address + i + 1;
            let parsed = if i < operands.len() {
                read_argument(&operands[i])
            } else {
                None
            };
            assert(operand_at(ops, i as int) == if i < operands@.len() {
                operands@[i as int]@
            } else {
                Seq::<char>::empty()
            });
            let ghost before_errors = self@.errors;
            let ghost before_payloads = rows(payloads@);
            match parsed {
                None => {
                    let pos = CodePosition { line: self.line, column: i + 1, address: address };
                    let reason = string_of(&chars_of("Empty argument"));
                    self.report(CompileErrorType::ArgumentParse(reason), pos);
                },
                Some((mode, payload, is_tag)) => {
                    modes.push(mode);
                    if is_tag {
                        let name = slice_chars(&payload, 0, payload.len());
                        assert(name@ =~= payload@);
                        let pos = CodePosition { line: self.line, column: i + 2, address: address };
                        add_use(&mut self.uses, name, pos);
                    }
                    let ghost text = payload@;
                    payloads.push(payload);
                    assert(rows(payloads@) =~= before_payloads.push(text));
                },
            }
            i += 1;
        }
        (modes, payloads)
    }

    /// Emits the instruction `instr` with the operands `operands`.
    fn emit_instruction(
        &mut self,
        opcodes: &HashMap<usize, Instruction>,
        instr: Instructions,
        operands: &Vec<Vec<char>>,
    )
        requires
            is_instruction_table(opcodes@),
            old(self).address + 4 <= usize::MAX,
        ensures
            final(self)@ == emit_instruction(old(self)@, instr, rows(operands@), old(self).file@),
            final(self).file == old(self).file,
    {
        let opc = instr.get_instruction_opc();
        let arg_count: u8 = match opcodes.get(&opc) {
            Some(descriptor) => descriptor.arguments_count,
            None => 0,
        };
        assert(opcodes@.contains_key(opc));
        assert(arg_count == instr.arity());
        let here = CodePosition { line: self.line, column: 0, address: self.address };
        let base = self.address;
        if operands.len() != arg_count as usize && arg_count != 0 {
            self.report(CompileErrorType::WrongArgumentsCount(arg_count, operands.len()), here);
        }
        let (modes, mut payloads) = self.read_operands(operands, arg_count);
        let word = encode_opcode(&modes, opc);
        let ghost before = rows(self.tokens@);
        let ghost more = rows(payloads@);
        self.tokens.push(word);
        self.tokens.append(&mut payloads);
        assert(rows(self.tokens@) =~= before.push(word@) + more);
        self.address = base + arg_count as usize + 1;
    }

    /// Reads one more line of the source.
    fn assemble_line(&mut self, opcodes: &HashMap<usize, Instruction>, line: &Vec<String>)
        requires
            is_instruction_table(opcodes@),
            old(self).line < usize::MAX,
            old(self).address + 4 <= usize::MAX,
        ensures
            final(self)@ == assemble_line(old(self)@, texts(line@), old(self).file@),
            final(self).file == old(self).file,
            final(self).line == old(self).line + 1,
            final(self).address <= old(self).address + 4,
    {
        self.line += 1;
        let first: Vec<char> = if line.len() > 0 {
            chars_of(line[0].as_str())
        } else {
            Vec::new()
        };
        assert(first@ =~= first_token(texts(line@)));
        let pieces = split_chars(&first, ' ');
        assert(pieces@[0]@ == rows(pieces@)[0]);
        if pieces[0].len() == 0 || pieces[0][0] == '\r' {
            return ;
        }
        let (name, tag) = read_head(&pieces[0]);
        let here = CodePosition { line: self.line, column: 0, address: self.address };
        match tag {
            Some(t) => {
                if chars_are(&t, "data") {
                    let reserved = string_of(&chars_of("data"));
                    self.report(CompileErrorType::ReservedTag(reserved), here);
                    return ;
                }
                match lookup_definition(&self.definitions, &t) {
                    Some(first_pos) => {
                        self.report(CompileErrorType::DuplicateTag(string_of(&t), first_pos), here);
                        return ;
                    },
                    None => {
                        let ghost before = definitions_of(self.definitions@);
                        let ghost text = t@;
                        self.definitions.push(TagDefinition { name: t, pos: here });
                        assert(definitions_of(self.definitions@) =~= before.push(
                            Definition { name: text, pos: here },
                        ));
                    },
                }
            },
            None => {},
        }
        let mnemonic = string_of(&name);
        let instr = match Instructions::get_instruction_from_name(mnemonic.as_str()) {
            Some(found) => found,
            None => {
                self.report(CompileErrorType::UnknownInstruction(mnemonic), here);
                return ;
            },
        };
        let operands = gather_operands(line, &pieces);
        self.emit_instruction(opcodes, instr, &operands);
    }
}


/// Adds one error for each place in `positions`: the tag `name` is not
/// declared.
fn report_undefined<'a>(
    errors: &mut Vec<CompileError<'a>>,
    file: &'a str,
    name: &Vec<char>,
    positions: &Vec<CodePosition>,
)
    ensures
        diagnostics(final(errors)@) == diagnostics(old(errors)@) + undefined_at(
            name@,
            positions@,
            file@,
        ),
{
    let ghost before = diagnostics(errors@);
    let ghost all = undefined_at(name@, positions@, file@);
    let mut k: usize = 0;
    assert(diagnostics(errors@) =~= before + all.take(0));
    while k < positions.len()
        invariant
            k <= positions.len(),
            all == undefined_at(name@, positions@, file@),
            diagnostics(errors@) == before + all.take(k as int),
        decreases positions.len() - k,
    {
        let ghost so_far = diagnostics(errors@);
        let tag = string_of(name);
        errors.push(CompileError::new(CompileErrorType::UndefinedTag(tag), file, positions[k]));
        assert(diagnostics(errors@) =~= so_far.push(all[k as int]));
        assert(before + all.take(k + 1) =~= (before + all.take(k as int)).push(all[k as int]));
        k += 1;
    }
    assert(all.take(k as int) =~= all);
}

/// Writes `text` at the address of each place in `positions` that lies
/// within `tokens`.
fn patch_tokens(tokens: &mut Vec<Vec<char>>, positions: &Vec<CodePosition>, text: &Vec<char>)
    ensures
        rows(final(tokens)@) == patch_at(rows(old(tokens)@), positions@, text@),
{
    let ghost start = rows(tokens@);
    let mut k: usize = 0;
    assert(positions@.take(0) =~= Seq::<CodePosition>::empty());
    while k < positions.len()
        invariant
            k <= positions.len(),
            rows(tokens@) == patch_at(start, positions@.take(k as int), text@),
        decreases positions.len() - k,
    {
        proof {
            lemma_take_next(positions@, k as int);
        }
        let address = positions[k].address;
        let ghost before = rows(tokens@);
        if address < tokens.len() {
            let copy = slice_chars(text, 0, text.len());
            assert(copy@ =~= text@);
            tokens[address] = copy;
            assert(rows(tokens@) =~= before.update(address as int, text@));
        }
        k += 1;
    }
    assert(positions@.take(k as int) =~= positions@);
}

impl<'a> Emitter<'a> {
    /// Patches the uses of declared tags and reports those of undeclared ones.
    fn resolve_uses(&mut self)
        ensures
            final(self).file == old(self).file,
            final(self)@ == (Assembly {
                tokens: patched(old(self)@.tokens, old(self)@.uses, old(self)@.definitions),
                errors: old(self)@.errors + undefined_uses(
                    old(self)@.uses,
                    old(self)@.definitions,
                    old(self).file@,
                ),
                ..old(self)@
            }),
    {
        let ghost start = self@;
        let ghost file = self.file@;
        let mut g: usize = 0;
        assert(start.uses.take(0) =~= Seq::<Uses>::empty());
        assert(start.errors + Seq::<Diagnostic>::empty() =~= start.errors);
        while g < self.uses.len()
            invariant
                g <= self.uses.len(),
                self.file == old(self).file,
                self.file@ == file,
                start.uses == uses_of(self.uses@),
                self@ == (Assembly { tokens: self@.tokens, errors: self@.errors, ..start }),
                self@.tokens == patched(start.tokens, start.uses.take(g as int), start.definitions),
                self@.errors == start.errors + undefined_uses(
                    start.uses.take(g as int),
                    start.definitions,
                    file,
                ),
            decreases self.uses.len() - g,
        {
            proof {
                lemma_take_next(start.uses, g as int);
            }
            let ghost errors_before = self@.errors;
            let ghost so_far = undefined_uses(start.uses.take(g as int), start.definitions, file);
            match lookup_definition(&self.definitions, &self.uses[g].name) {
                None => {
                    report_undefined(
                        &mut self.errors,
                        self.file,
                        &self.uses[g].name,
                        &self.uses[g].positions,
                    );
                    let ghost added = undefined_at(
                        start.uses[g as int].name,
                        start.uses[g as int].positions,
                        file,
                    );
                    assert(self@.errors =~= start.errors + (so_far + added));
                },
                Some(pos) => {
                    let text = decimal_chars(pos.address);
                    patch_tokens(&mut self.tokens, &self.uses[g].positions, &text);
                },
            }
            g += 1;
        }
        assert(start.uses.take(g as int) =~= start.uses);
    }

    /// Reports the declarations that no operand names.
    fn report_unused(&mut self)
        ensures
            final(self).file == old(self).file,
            final(self)@ == (Assembly {
                errors: old(self)@.errors + unused_definitions(
                    old(self)@.definitions,
                    old(self)@.uses,
                    old(self).file@,
                ),
                ..old(self)@
            }),
    {
        let ghost start = self@;
        let ghost file = self.file@;
        let mut d: usize = 0;
        assert(start.definitions.take(0) =~= Seq::<Definition>::empty());
        assert(start.errors + Seq::<Diagnostic>::empty() =~= start.errors);
        while d < self.definitions.len()
            invariant
                d <= self.definitions.len(),
                self.file == old(self).file,
                self.file@ == file,
                start.definitions == definitions_of(self.definitions@),
                self@ == (Assembly { errors: self@.errors, ..start }),
                self@.errors == start.errors + unused_definitions(
                    start.definitions.take(d as int),
                    start.uses,
                    file,
                ),
            decreases self.definitions.len() - d,
        {
            proof {
                lemma_take_next(start.definitions, d as int);
            }
            let ghost so_far = unused_definitions(start.definitions.take(d as int), start.uses, file);
            if find_use(&self.uses, &self.definitions[d].name) >= self.uses.len() {
                let tag = string_of(&self.definitions[d].name);
                let pos = self.definitions[d].pos;
                self.report(CompileErrorType::UnusedTag(tag), pos);
                assert(self@.errors =~= start.errors + so_far.push(
                    Diagnostic {
                        kind: ErrorKind::UnusedTag(start.definitions[d as int].name),
                        file: file,
                        pos: start.definitions[d as int].pos,
                    },
                ));
            }
            d += 1;
        }
        assert(start.definitions.take(d as int) =~= start.definitions);
    }

    /// Declares the reserved tag and resolves all tags.
    fn resolve(&mut self)
        ensures
            final(self).file == old(self).file,
            final(self)@ == resolve(old(self)@, old(self).file@),
    {
        let ghost start = self@;
        let pos = CodePosition { line: 0, column: 0, address: self.tokens.len() };
        let ghost before = definitions_of(self.definitions@);
        self.definitions.push(TagDefinition { name: chars_of("data"), pos: pos });
        assert(definitions_of(self.definitions@) =~= before.push(
            Definition { name: reserved_tag(), pos: pos },
        ));
        self.resolve_uses();
        self.report_unused();
        assert(self@.errors =~= resolve(start, self.file@).errors);
    }
}

/// An assembler for one source, given as its lines of tokens.
pub struct Assembler {
    input: Vec<Vec<String>>,
    tag_definitions: Vec<TagDefinition>,
    tag_uses: Vec<TagUse>,
    current_line: usize,
    current_address: usize,
    filename: String,
}

impl Assembler {
    /// The source: its lines, each a sequence of tokens.
    pub closed spec fn lines(&self) -> Seq<Seq<Seq<char>>> {
        text_rows(self.input@)
    }

    /// The name of the source file.
    pub closed spec fn file(&self) -> Seq<char> {
        self.filename@
    }

    /// The tags declared by the last assembly.
    pub closed spec fn definitions(&self) -> Seq<Definition> {
        definitions_of(self.tag_definitions@)
    }

    /// The tags used by the last assembly.
    pub closed spec fn uses(&self) -> Seq<Uses> {
        uses_of(self.tag_uses@)
    }

    /// The number of the line that the last assembly read last.
    pub closed spec fn line(&self) -> usize {
        self.current_line
    }

    /// The address that the last assembly reached.
    pub closed spec fn address(&self) -> usize {
        self.current_address
    }

    /// An assembler for the source `input`, read from the file named `file`.
    pub fn new(input: Vec<Vec<String>>, file: String) -> (a: Assembler)
        ensures
            a.lines() == text_rows(input@),
            a.file() == file@,
            a.definitions() == Seq::<Definition>::empty(),
            a.uses() == Seq::<Uses>::empty(),
            a.line() == 0,
            a.address() == 0,
    {
        let a = Assembler {
            input: input,
            tag_definitions: Vec::new(),
            tag_uses: Vec::new(),
            current_line: 0,
            current_address: 0,
            filename: file,
        };
        assert(a.definitions() =~= Seq::<Definition>::empty());
        assert(a.uses() =~= Seq::<Uses>::empty());
        a
    }

    /// Assembles the source and returns the emitted tokens together with
    /// every error found, whether or not there are errors. The tags that the
    /// source declares and uses are kept in the assembler.
    pub fn assemble<'a>(&'a mut self) -> (r: (Vec<String>, Vec<CompileError<'a>>))
        requires
            4 * old(self).lines().len() <= usize::MAX,
        ensures
            final(self).lines() == old(self).lines(),
            final(self).file() == old(self).file(),
            ({
                let a = assemble(old(self).lines(), old(self).file());
                &&& texts(r.0@) == a.tokens
                &&& diagnostics(r.1@) == a.errors
                &&& final(self).definitions() == a.definitions
                &&& final(self).uses() == a.uses
                &&& final(self).line() == a.line
                &&& final(self).address() == a.address
            }),
    {
        let opcodes = Instructions::new();
        let mut emitter = Emitter {
            tokens: Vec::new(),
            errors: Vec::new(),
            definitions: Vec::new(),
            uses: Vec::new(),
            line: 0,
            address: 0,
            file: self.filename.as_str(),
        };
        let ghost lines = self.lines();
        let ghost file = self.file();
        assert(emitter@.tokens =~= initial_assembly().tokens);
        assert(emitter@.errors =~= initial_assembly().errors);
        assert(emitter@.definitions =~= initial_assembly().definitions);
        assert(emitter@.uses =~= initial_assembly().uses);
        let mut i: usize = 0;
        while i < self.input.len()
            invariant
                i <= self.input.len(),
                is_instruction_table(opcodes@),
                lines == text_rows(self.input@),
                4 * lines.len() <= usize::MAX,
                emitter.file@ == file,
                emitter@ == assemble_lines(lines, file, i as nat),
                emitter.line == i,
                emitter.address <= 4 * i,
            decreases self.input.len() - i,
        {
            emitter.assemble_line(&opcodes, &self.input[i]);
            i += 1;
        }
        emitter.resolve();
        let Emitter { tokens, errors, definitions, uses, line, address, file: _ } = emitter;
        self.tag_definitions = definitions;
        self.tag_uses = uses;
        self.current_line = line;
        self.current_address = address;
        (strings_of(&tokens), errors)
    }

    /// Assembles the source. With no error found the result is the emitted
    /// tokens; otherwise it is every error found, and no token.
    pub fn compile<'a>(&'a mut self) -> (r: Result<Vec<String>, Vec<CompileError<'a>>>)
        requires
            4 * old(self).lines().len() <= usize::MAX,
        ensures
            final(self).lines() == old(self).lines(),
            final(self).file() == old(self).file(),
            match outcome(assemble(old(self).lines(), old(self).file())) {
                Ok(tokens) => r matches Ok(emitted) && texts(emitted@) == tokens,
                Err(errors) => r matches Err(found) && diagnostics(found@) == errors,
            },
            ({
                let a = assemble(old(self).lines(), old(self).file());
                &&& final(self).definitions() == a.definitions
                &&& final(self).uses() == a.uses
                &&& final(self).line() == a.line
                &&& final(self).address() == a.address
            }),
    {
        let (output, errors_found) = self.assemble();
        if errors_found.len() > 0 {
            Err(errors_found)
        } else {
            Ok(output)
        }
    }
}

} // verus!
