//! What assembling means: the state that the assembler carries from line to
//! line, what one line does to it, and how tags are resolved at the end.

use crate::argument::{argument, head_name, head_tag, opcode_word};
use crate::diagnostics::{CodePosition, Diagnostic, ErrorKind};
use crate::instructions::{Instructions, ParameterModes};
use crate::text::{decimal, split};
use vstd::prelude::*;

verus! {

/// A declared tag and where it was declared.
pub ghost struct Definition {
    pub name: Seq<char>,
    pub pos: CodePosition,
}

/// A tag that operands name, with every place that names it, in source order.
pub ghost struct Uses {
    pub name: Seq<char>,
    pub positions: Seq<CodePosition>,
}

/// The state of an assembly.
pub ghost struct Assembly {
    /// The tokens emitted so far.
    pub tokens: Seq<Seq<char>>,
    /// The errors found so far, in the order they were found.
    pub errors: Seq<Diagnostic>,
    /// The tags declared so far, in the order of their declarations.
    pub definitions: Seq<Definition>,
    /// The tags used so far, in the order of their first use.
    pub uses: Seq<Uses>,
    /// The number of the line read last.
    pub line: usize,
    /// The index that the next emitted token is to have.
    pub address: usize,
}

/// What the operands of one instruction come to.
pub ghost struct Operands {
    /// The mode of each operand that could be read.
    pub modes: Seq<ParameterModes>,
    /// The payload of each operand that could be read.
    pub payloads: Seq<Seq<char>>,
    /// The errors found so far, those of the operands included.
    pub errors: Seq<Diagnostic>,
    /// The tags used so far, those of the operands included.
    pub uses: Seq<Uses>,
}

/// The tag that the assembler defines itself: the index one past the last
/// emitted token.
pub open spec fn reserved_tag() -> Seq<char> {
    "data"@
}

/// Why an empty operand cannot be read.
pub open spec fn empty_argument() -> Seq<char> {
    "Empty argument"@
}

/// The state before the first line.
pub open spec fn initial_assembly() -> Assembly {
    Assembly {
        tokens: Seq::empty(),
        errors: Seq::empty(),
        definitions: Seq::empty(),
        uses: Seq::empty(),
        line: 0,
        address: 0,
    }
}

/// Where `name` was declared first, if it was declared.
pub open spec fn find_definition(definitions: Seq<Definition>, name: Seq<char>) -> Option<
    CodePosition,
>
    decreases definitions.len(),
{
    if definitions.len() == 0 {
        None
    } else if definitions[0].name == name {
        Some(definitions[0].pos)
    } else {
        find_definition(definitions.drop_first(), name)
    }
}

/// The index of the entry for `name` in `uses`, or the length of `uses` if
/// it has none.
pub open spec fn use_index(uses: Seq<Uses>, name: Seq<char>) -> int
    decreases uses.len(),
{
    if uses.len() == 0 {
        0
    } else if uses[0].name == name {
        0
    } else {
        1 + use_index(uses.drop_first(), name)
    }
}

/// `uses` with one more place that names `name`.
pub open spec fn record_use(uses: Seq<Uses>, name: Seq<char>, pos: CodePosition) -> Seq<Uses> {
    let i = use_index(uses, name);
    if i < uses.len() {
        uses.update(i, Uses { name: name, positions: uses[i].positions.push(pos) })
    } else {
        uses.push(Uses { name: name, positions: seq![pos] })
    }
}

/// The first token of a line; a line without tokens counts as an empty one.
pub open spec fn first_token(line: Seq<Seq<char>>) -> Seq<char> {
    if line.len() > 0 {
        line[0]
    } else {
        Seq::empty()
    }
}

/// The head of a line: its first token up to the first space.
pub open spec fn line_head(line: Seq<Seq<char>>) -> Seq<char> {
    split(first_token(line), ' ')[0]
}

/// The tokens of `tokens` that are not empty, in order.
pub open spec fn nonempty(tokens: Seq<Seq<char>>) -> Seq<Seq<char>>
    decreases tokens.len(),
{
    if tokens.len() == 0 {
        tokens
    } else if tokens.last().len() == 0 {
        nonempty(tokens.drop_last())
    } else {
        nonempty(tokens.drop_last()).push(tokens.last())
    }
}

/// The operands of a line. Where the first token holds a space, what stands
/// between that space and the next takes the place of the first token; empty
/// tokens are then dropped.
pub open spec fn line_operands(line: Seq<Seq<char>>) -> Seq<Seq<char>> {
    let pieces = split(first_token(line), ' ');
    if pieces.len() > 1 {
        nonempty(line.update(0, pieces[1]))
    } else {
        nonempty(line)
    }
}

/// Operand `i` of an instruction; an operand that the line lacks counts as
/// an empty one.
pub open spec fn operand_at(operands: Seq<Seq<char>>, i: int) -> Seq<char> {
    if 0 <= i < operands.len() {
        operands[i]
    } else {
        Seq::empty()
    }
}

impl Assembly {
    /// This state with one more error.
    pub open spec fn report(self, kind: ErrorKind, file: Seq<char>, pos: CodePosition) -> Assembly {
        Assembly { errors: self.errors.push(Diagnostic { kind: kind, file: file, pos: pos }), ..self }
    }

    /// The position of a report on the current line as a whole.
    pub open spec fn here(self) -> CodePosition {
        CodePosition { line: self.line, column: 0, address: self.address }
    }
}

/// What the first `n` operands of an instruction come to, read from the
/// state `st` on. Operand `i` sits at address `st.address + i + 1`. One that
/// cannot be read is reported in column `i + 1` and leaves neither mode nor
/// payload; one that names a tag is recorded as a use in column `i + 2`.
pub open spec fn read_operands(
    st: Assembly,
    operands: Seq<Seq<char>>,
    file: Seq<char>,
    n: nat,
) -> Operands
    decreases n,
{
    if n == 0 {
        Operands {
            modes: Seq::empty(),
            payloads: Seq::empty(),
            errors: st.errors,
            uses: st.uses,
        }
    } else {
        let before = read_operands(st, operands, file, (n - 1) as nat);
        let address = (st.address + n) as usize;
        match argument(operand_at(operands, n - 1)) {
            None => Operands {
                errors: before.errors.push(
                    Diagnostic {
                        kind: ErrorKind::ArgumentParse(empty_argument()),
                        file: file,
                        pos: CodePosition { line: st.line, column: n as usize, address: address },
                    },
                ),
                ..before
            },
            Some(a) => Operands {
                modes: before.modes.push(a.mode),
                payloads: before.payloads.push(a.payload),
                errors: before.errors,
                uses: if a.is_tag {
                    record_use(
                        before.uses,
                        a.payload,
                        CodePosition {
                            line: st.line,
                            column: (n + 1) as usize,
                            address: address,
                        },
                    )
                } else {
                    before.uses
                },
            },
        }
    }
}

/// The state after the instruction `instr` with the operands `operands` was
/// emitted from the state `st`: a wrong operand count is reported, the
/// operands are read, and the instruction word and the payloads are emitted.
pub open spec fn emit_instruction(
    st: Assembly,
    instr: Instructions,
    operands: Seq<Seq<char>>,
    file: Seq<char>,
) -> Assembly {
    let arity = instr.arity();
    let counted = if operands.len() != arity && arity != 0 {
        st.report(ErrorKind::WrongArgumentsCount(arity, operands.len() as usize), file, st.here())
    } else {
        st
    };
    let read = read_operands(counted, operands, file, arity as nat);
    Assembly {
        tokens: st.tokens.push(opcode_word(read.modes, instr.opcode())) + read.payloads,
        errors: read.errors,
        uses: read.uses,
        address: (st.address + arity + 1) as usize,
        ..st
    }
}

/// The state after one more line. A line whose head is empty or starts with
/// a carriage return is passed over. A declaration of the reserved tag, a
/// second declaration of a tag and an unknown mnemonic are each reported, and
/// the line emits nothing.
pub open spec fn assemble_line(st: Assembly, line: Seq<Seq<char>>, file: Seq<char>) -> Assembly {
    let st = Assembly { line: (st.line + 1) as usize, ..st };
    let head = line_head(line);
    if head.len() == 0 || head[0] == '\r' {
        st
    } else {
        let tag = head_tag(head);
        if tag is Some && tag->0 == reserved_tag() {
            st.report(ErrorKind::ReservedTag(reserved_tag()), file, st.here())
        } else if tag is Some && find_definition(st.definitions, tag->0) is Some {
            st.report(
                ErrorKind::DuplicateTag(tag->0, find_definition(st.definitions, tag->0)->0),
                file,
                st.here(),
            )
        } else {
            let declared = if tag is Some {
                Assembly {
                    definitions: st.definitions.push(Definition { name: tag->0, pos: st.here() }),
                    ..st
                }
            } else {
                st
            };
            match Instructions::of_name(head_name(head)) {
                None => declared.report(
                    ErrorKind::UnknownInstruction(head_name(head)),
                    file,
                    declared.here(),
                ),
                Some(instr) => emit_instruction(declared, instr, line_operands(line), file),
            }
        }
    }
}

/// The state after the first `n` lines of `lines`.
pub open spec fn assemble_lines(lines: Seq<Seq<Seq<char>>>, file: Seq<char>, n: nat) -> Assembly
    decreases n,
{
    if n == 0 {
        initial_assembly()
    } else {
        assemble_line(assemble_lines(lines, file, (n - 1) as nat), lines[n - 1], file)
    }
}

/// One error for each place in `positions`: the tag `name` is not declared.
pub open spec fn undefined_at(name: Seq<char>, positions: Seq<CodePosition>, file: Seq<char>) -> Seq<
    Diagnostic,
> {
    Seq::new(
        positions.len(),
        |k: int| Diagnostic { kind: ErrorKind::UndefinedTag(name), file: file, pos: positions[k] },
    )
}

/// The errors for the uses of tags that `definitions` does not declare: tag
/// by tag in the order of `uses`, and for each tag place by place.
pub open spec fn undefined_uses(
    uses: Seq<Uses>,
    definitions: Seq<Definition>,
    file: Seq<char>,
) -> Seq<Diagnostic>
    decreases uses.len(),
{
    if uses.len() == 0 {
        Seq::empty()
    } else {
        let before = undefined_uses(uses.drop_last(), definitions, file);
        if find_definition(definitions, uses.last().name) is None {
            before + undefined_at(uses.last().name, uses.last().positions, file)
        } else {
            before
        }
    }
}

/// The errors for the tags of `definitions` that `uses` does not name, in the
/// order of `definitions`, each at the place of its declaration.
pub open spec fn unused_definitions(
    definitions: Seq<Definition>,
    uses: Seq<Uses>,
    file: Seq<char>,
) -> Seq<Diagnostic>
    decreases definitions.len(),
{
    if definitions.len() == 0 {
        Seq::empty()
    } else {
        let before = unused_definitions(definitions.drop_last(), uses, file);
        if use_index(uses, definitions.last().name) >= uses.len() {
            before.push(
                Diagnostic {
                    kind: ErrorKind::UnusedTag(definitions.last().name),
                    file: file,
                    pos: definitions.last().pos,
                },
            )
        } else {
            before
        }
    }
}

/// `tokens` with `text` written at the address of each place in `positions`
/// that lies within the stream.
pub open spec fn patch_at(tokens: Seq<Seq<char>>, positions: Seq<CodePosition>, text: Seq<char>) -> Seq<
    Seq<char>,
>
    decreases positions.len(),
{
    if positions.len() == 0 {
        tokens
    } else {
        let before = patch_at(tokens, positions.drop_last(), text);
        if positions.last().address < before.len() {
            before.update(positions.last().address as int, text)
        } else {
            before
        }
    }
}

/// `tokens` with the operand of every use of a declared tag replaced by the
/// decimal numeral of the address that the tag was declared at.
pub open spec fn patched(tokens: Seq<Seq<char>>, uses: Seq<Uses>, definitions: Seq<Definition>) -> Seq<
    Seq<char>,
>
    decreases uses.len(),
{
    if uses.len() == 0 {
        tokens
    } else {
        let before = patched(tokens, uses.drop_last(), definitions);
        match find_definition(definitions, uses.last().name) {
            None => before,
            Some(pos) => patch_at(before, uses.last().positions, decimal(pos.address as nat)),
        }
    }
}

/// The state after the tags were resolved: the reserved tag is declared at
/// the index one past the last token, every use of a declared tag is patched,
/// and the uses of undeclared tags and then the unused declarations are added
/// to the errors.
pub open spec fn resolve(st: Assembly, file: Seq<char>) -> Assembly {
    let definitions = st.definitions.push(
        Definition {
            name: reserved_tag(),
            pos: CodePosition { line: 0, column: 0, address: st.tokens.len() as usize },
        },
    );
    Assembly {
        tokens: patched(st.tokens, st.uses, definitions),
        errors: st.errors + undefined_uses(st.uses, definitions, file) + unused_definitions(
            definitions,
            st.uses,
            file,
        ),
        definitions: definitions,
        ..st
    }
}

/// The assembly of the source `lines`, a sequence of lines of tokens, read
/// from the file named `file`.
pub open spec fn assemble(lines: Seq<Seq<Seq<char>>>, file: Seq<char>) -> Assembly {
    resolve(assemble_lines(lines, file, lines.len()), file)
}

/// What an assembly yields: its tokens if it found no error, else its errors.
pub open spec fn outcome(assembly: Assembly) -> Result<Seq<Seq<char>>, Seq<Diagnostic>> {
    if assembly.errors.len() > 0 {
        Err(assembly.errors)
    } else {
        Ok(assembly.tokens)
    }
}

} // verus!
