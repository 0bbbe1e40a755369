//! What holds of every assembly: the addresses of the recorded uses never
//! collide, an assembly without errors has one token for each address, and
//! every use of a declared tag ends up holding the address of the tag.

use crate::argument::{argument, head_name, head_tag};
use crate::assembly::{
    assemble, assemble_line, assemble_lines, emit_instruction, find_definition, line_head,
    line_operands, operand_at, outcome, patch_at, patched, read_operands, record_use,
    reserved_tag, resolve, undefined_at, undefined_uses, use_index, Assembly, Definition, Uses,
};
use crate::diagnostics::{CodePosition, ErrorKind};
use crate::instructions::Instructions;
use crate::text::decimal;
use vstd::prelude::*;

verus! {

/// Whether every recorded use has an address below `bound`.
pub open spec fn uses_below(uses: Seq<Uses>, bound: int) -> bool {
    forall|g: int, k: int|
        0 <= g < uses.len() && 0 <= k < uses[g].positions.len() ==> (
        #[trigger] uses[g].positions[k]).address < bound
}

/// Whether the uses of two different tags never have the same address.
pub open spec fn tags_apart(uses: Seq<Uses>) -> bool {
    forall|g: int, k: int, h: int, l: int|
        0 <= g < uses.len() && 0 <= k < uses[g].positions.len() && 0 <= h < uses.len() && 0 <= l
            < uses[h].positions.len() && g != h ==> (#[trigger] uses[g].positions[k]).address != (
        #[trigger] uses[h].positions[l]).address
}

/// What every state of an assembly satisfies between two lines: the uses lie
/// below the current address, the uses of different tags lie apart, and as
/// long as no error was found the address is the number of tokens.
pub open spec fn consistent(st: Assembly) -> bool {
    &&& uses_below(st.uses, st.address as int)
    &&& tags_apart(st.uses)
    &&& st.errors.len() == 0 ==> st.tokens.len() == st.address
}

/// The entry that `use_index` finds is the one for the name looked up.
pub proof fn lemma_use_index(uses: Seq<Uses>, name: Seq<char>)
    ensures
        0 <= use_index(uses, name) <= uses.len(),
        use_index(uses, name) < uses.len() ==> uses[use_index(uses, name)].name == name,
        forall|j: int| 0 <= j < use_index(uses, name) ==> uses[j].name != name,
    decreases uses.len(),
{
    if uses.len() > 0 && uses[0].name != name {
        lemma_use_index(uses.drop_first(), name);
        assert forall|j: int| 0 <= j < use_index(uses, name) implies uses[j].name != name by {
            if j > 0 {
                assert(uses[j] == uses.drop_first()[j - 1]);
            }
        }
    }
}

/// Recording a use at an address above all recorded ones keeps the uses of
/// different tags apart.
pub proof fn lemma_record_use(uses: Seq<Uses>, name: Seq<char>, pos: CodePosition)
    requires
        uses_below(uses, pos.address as int),
        tags_apart(uses),
    ensures
        uses_below(record_use(uses, name, pos), pos.address + 1),
        tags_apart(record_use(uses, name, pos)),
{
    let i = use_index(uses, name);
    let after = record_use(uses, name, pos);
    lemma_use_index(uses, name);
    assert forall|g: int, k: int|
        0 <= g < after.len() && 0 <= k < after[g].positions.len() implies (
    #[trigger] after[g].positions[k]).address < pos.address + 1 && (after[g].positions[k] == pos
        || (g < uses.len() && k < uses[g].positions.len() && after[g].positions[k]
        == uses[g].positions[k])) by {
        if i < uses.len() {
            if g == i && k < uses[i].positions.len() {
                assert(after[g].positions[k] == uses[g].positions[k]);
            } else if g != i {
                assert(after[g] == uses[g]);
                assert(after[g].positions[k] == uses[g].positions[k]);
            }
        } else if g < uses.len() {
            assert(after[g] == uses[g]);
            assert(after[g].positions[k] == uses[g].positions[k]);
        }
    }
    assert forall|g: int, k: int, h: int, l: int|
        0 <= g < after.len() && 0 <= k < after[g].positions.len() && 0 <= h < after.len() && 0 <= l
            < after[h].positions.len() && g != h implies (#[trigger] after[g].positions[k]).address
        != (#[trigger] after[h].positions[l]).address by {
        let a = after[g].positions[k];
        let b = after[h].positions[l];
        if a == pos && b == pos {
            if i < uses.len() {
                if g != i {
                    assert(after[g] == uses[g]);
                    assert(uses[g].positions[k].address < pos.address);
                } else {
                    assert(after[h] == uses[h]);
                    assert(uses[h].positions[l].address < pos.address);
                }
            } else {
                if g < uses.len() {
                    assert(after[g] == uses[g]);
                    assert(uses[g].positions[k].address < pos.address);
                } else {
                    assert(after[h] == uses[h]);
                    assert(uses[h].positions[l].address < pos.address);
                }
            }
        } else if a == pos {
            assert(uses[h].positions[l].address < pos.address);
        } else if b == pos {
            assert(uses[g].positions[k].address < pos.address);
        } else {
            assert(uses[g].positions[k].address != uses[h].positions[l].address);
        }
    }
}

/// Reading operands keeps the uses apart, never loses an error, and where
/// it finds no error it yields a payload for every operand.
pub proof fn lemma_read_operands(st: Assembly, operands: Seq<Seq<char>>, file: Seq<char>, n: nat)
    requires
        uses_below(st.uses, st.address + 1),
        tags_apart(st.uses),
        st.address + n <= usize::MAX,
    ensures
        ({
            let read = read_operands(st, operands, file, n);
            &&& uses_below(read.uses, st.address + n + 1)
            &&& tags_apart(read.uses)
            &&& read.errors.len() >= st.errors.len()
            &&& read.payloads.len() <= n
            &&& read.errors.len() == st.errors.len() ==> read.payloads.len() == n
        }),
    decreases n,
{
    if n > 0 {
        lemma_read_operands(st, operands, file, (n - 1) as nat);
        let before = read_operands(st, operands, file, (n - 1) as nat);
        let token = operand_at(operands, n - 1);
        match argument(token) {
            None => {},
            Some(a) => {
                if a.is_tag {
                    let pos = CodePosition {
                        line: st.line,
                        column: (n + 1) as usize,
                        address: (st.address + n) as usize,
                    };
                    lemma_record_use(before.uses, a.payload, pos);
                }
            },
        }
    }
}

/// Emitting an instruction keeps the state consistent.
pub proof fn lemma_emit_instruction(
    st: Assembly,
    instr: Instructions,
    operands: Seq<Seq<char>>,
    file: Seq<char>,
)
    requires
        consistent(st),
        st.address + 4 <= usize::MAX,
    ensures
        consistent(emit_instruction(st, instr, operands, file)),
        emit_instruction(st, instr, operands, file).address <= st.address + 4,
        emit_instruction(st, instr, operands, file).line == st.line,
{
    let arity = instr.arity();
    let counted = if operands.len() != arity && arity != 0 {
        st.report(
            ErrorKind::WrongArgumentsCount(arity, operands.len() as usize),
            file,
            st.here(),
        )
    } else {
        st
    };
    lemma_read_operands(counted, operands, file, arity as nat);
}

/// One more line keeps the state consistent, counts one line and emits at
/// most four tokens.
pub proof fn lemma_assemble_line(st: Assembly, line: Seq<Seq<char>>, file: Seq<char>)
    requires
        consistent(st),
        st.line < usize::MAX,
        st.address + 4 <= usize::MAX,
    ensures
        consistent(assemble_line(st, line, file)),
        assemble_line(st, line, file).line == st.line + 1,
        st.address <= assemble_line(st, line, file).address <= st.address + 4,
{
    let counted = Assembly { line: (st.line + 1) as usize, ..st };
    let head = line_head(line);
    if head.len() == 0 || head[0] == '\r' {
    } else {
        let tag = head_tag(head);
        if tag is Some && tag->0 == reserved_tag() {
        } else if tag is Some && find_definition(counted.definitions, tag->0) is Some {
        } else {
            let declared = if tag is Some {
                Assembly {
                    definitions: counted.definitions.push(
                        Definition { name: tag->0, pos: counted.here() },
                    ),
                    ..counted
                }
            } else {
                counted
            };
            match Instructions::of_name(head_name(head)) {
                None => {},
                Some(instr) => {
                    lemma_emit_instruction(declared, instr, line_operands(line), file);
                },
            }
        }
    }
}

/// The state after any number of lines is consistent.
pub proof fn lemma_assemble_lines(lines: Seq<Seq<Seq<char>>>, file: Seq<char>, n: nat)
    requires
        n <= lines.len(),
        4 * lines.len() <= usize::MAX,
    ensures
        consistent(assemble_lines(lines, file, n)),
        assemble_lines(lines, file, n).line == n,
        assemble_lines(lines, file, n).address <= 4 * n,
    decreases n,
{
    if n > 0 {
        lemma_assemble_lines(lines, file, (n - 1) as nat);
        lemma_assemble_line(assemble_lines(lines, file, (n - 1) as nat), lines[n - 1], file);
    }
}

/// Patching the places of one tag keeps the length of the stream, writes the
/// text at every address named and leaves every other token as it was.
pub proof fn lemma_patch_at(
    tokens: Seq<Seq<char>>,
    positions: Seq<CodePosition>,
    text: Seq<char>,
    j: int,
)
    ensures
        patch_at(tokens, positions, text).len() == tokens.len(),
        0 <= j < tokens.len() ==> patch_at(tokens, positions, text)[j] == (if exists|k: int|
            0 <= k < positions.len() && (#[trigger] positions[k]).address == j {
            text
        } else {
            tokens[j]
        }),
    decreases positions.len(),
{
    if positions.len() > 0 {
        let front = positions.drop_last();
        lemma_patch_at(tokens, front, text, j);
        if 0 <= j < tokens.len() {
            if positions.last().address == j {
                assert(positions[positions.len() - 1].address == j);
            } else if exists|k: int| 0 <= k < positions.len() && (#[trigger] positions[k]).address == j {
                let k = choose|k: int|
                    0 <= k < positions.len() && (#[trigger] positions[k]).address == j;
                assert(front[k].address == j);
            } else {
                assert forall|k: int| 0 <= k < front.len() implies (#[trigger] front[k]).address
                    != j by {
                    assert(front[k] == positions[k]);
                }
            }
        }
    }
}

/// Patching keeps the length of the stream.
pub proof fn lemma_patched_len(tokens: Seq<Seq<char>>, uses: Seq<Uses>, definitions: Seq<Definition>)
    ensures
        patched(tokens, uses, definitions).len() == tokens.len(),
    decreases uses.len(),
{
    if uses.len() > 0 {
        lemma_patched_len(tokens, uses.drop_last(), definitions);
        match find_definition(definitions, uses.last().name) {
            None => {},
            Some(pos) => {
                lemma_patch_at(
                    patched(tokens, uses.drop_last(), definitions),
                    uses.last().positions,
                    decimal(pos.address as nat),
                    0,
                );
            },
        }
    }
}

/// After patching, the token at a use of a declared tag is the decimal
/// numeral of the address that the tag was declared at.
pub proof fn lemma_patched_use(
    tokens: Seq<Seq<char>>,
    uses: Seq<Uses>,
    definitions: Seq<Definition>,
    g: int,
    k: int,
)
    requires
        tags_apart(uses),
        0 <= g < uses.len(),
        0 <= k < uses[g].positions.len(),
        uses[g].positions[k].address < tokens.len(),
        find_definition(definitions, uses[g].name) is Some,
    ensures
        patched(tokens, uses, definitions)[uses[g].positions[k].address as int] == decimal(
            find_definition(definitions, uses[g].name)->0.address as nat,
        ),
    decreases uses.len(),
{
    let front = uses.drop_last();
    let last = uses.len() - 1;
    let at = uses[g].positions[k].address as int;
    let before = patched(tokens, front, definitions);
    lemma_patched_len(tokens, front, definitions);
    if g == last {
        let pos = find_definition(definitions, uses.last().name)->0;
        lemma_patch_at(before, uses.last().positions, decimal(pos.address as nat), at);
        assert(uses.last().positions[k].address == at);
    } else {
        assert(front[g] == uses[g]);
        assert forall|g2: int, k2: int, h2: int, l2: int|
            0 <= g2 < front.len() && 0 <= k2 < front[g2].positions.len() && 0 <= h2 < front.len()
                && 0 <= l2 < front[h2].positions.len() && g2 != h2 implies (
        #[trigger] front[g2].positions[k2]).address != (
        #[trigger] front[h2].positions[l2]).address by {
            assert(front[g2] == uses[g2]);
            assert(front[h2] == uses[h2]);
            assert(uses[g2].positions[k2].address != uses[h2].positions[l2].address);
        }
        lemma_patched_use(tokens, front, definitions, g, k);
        match find_definition(definitions, uses.last().name) {
            None => {},
            Some(pos) => {
                lemma_patch_at(before, uses.last().positions, decimal(pos.address as nat), at);
                assert forall|l: int| 0 <= l < uses.last().positions.len() implies (
                #[trigger] uses.last().positions[l]).address != at by {
                    assert(uses[last].positions[l].address != uses[g].positions[k].address);
                }
            },
        }
    }
}

/// Patching leaves every token as it was emitted that is not the operand of
/// a use of a declared tag.
pub proof fn lemma_patched_elsewhere(
    tokens: Seq<Seq<char>>,
    uses: Seq<Uses>,
    definitions: Seq<Definition>,
    j: int,
)
    requires
        0 <= j < tokens.len(),
        forall|g: int, k: int|
            0 <= g < uses.len() && 0 <= k < uses[g].positions.len() && find_definition(
                definitions,
                uses[g].name,
            ) is Some ==> (#[trigger] uses[g].positions[k]).address != j,
    ensures
        patched(tokens, uses, definitions)[j] == tokens[j],
    decreases uses.len(),
{
    if uses.len() > 0 {
        let front = uses.drop_last();
        let last = uses.len() - 1;
        assert forall|g: int, k: int|
            0 <= g < front.len() && 0 <= k < front[g].positions.len() && find_definition(
                definitions,
                front[g].name,
            ) is Some implies (#[trigger] front[g].positions[k]).address != j by {
            assert(front[g] == uses[g]);
            assert(uses[g].positions[k].address != j);
        }
        lemma_patched_elsewhere(tokens, front, definitions, j);
        lemma_patched_len(tokens, front, definitions);
        match find_definition(definitions, uses.last().name) {
            None => {},
            Some(pos) => {
                lemma_patch_at(
                    patched(tokens, front, definitions),
                    uses.last().positions,
                    decimal(pos.address as nat),
                    j,
                );
                assert forall|l: int| 0 <= l < uses.last().positions.len() implies (
                #[trigger] uses.last().positions[l]).address != j by {
                    assert(uses[last].positions[l].address != j);
                }
            },
        }
    }
}

/// Where no use of an undeclared tag is reported, every tag that is used is
/// declared.
pub proof fn lemma_all_declared(
    uses: Seq<Uses>,
    definitions: Seq<Definition>,
    file: Seq<char>,
    g: int,
)
    requires
        undefined_uses(uses, definitions, file).len() == 0,
        0 <= g < uses.len(),
        uses[g].positions.len() > 0,
    ensures
        find_definition(definitions, uses[g].name) is Some,
    decreases uses.len(),
{
    let front = uses.drop_last();
    if g == uses.len() - 1 {
        if find_definition(definitions, uses.last().name) is None {
            assert(undefined_at(uses.last().name, uses.last().positions, file).len() > 0);
        }
    } else {
        assert(front[g] == uses[g]);
        lemma_all_declared(front, definitions, file, g);
    }
}

/// The round trip of tag addresses. In the assembly of any source, the token
/// at every recorded use of a declared tag that lies within the stream is the
/// decimal numeral of the address at which the tag was declared. In an
/// assembly without errors every recorded use lies within the stream and
/// names a declared tag.
pub proof fn lemma_uses_hold_tag_addresses(lines: Seq<Seq<Seq<char>>>, file: Seq<char>, g: int, k: int)
    requires
        4 * lines.len() <= usize::MAX,
        0 <= g < assemble(lines, file).uses.len(),
        0 <= k < assemble(lines, file).uses[g].positions.len(),
    ensures
        ({
            let a = assemble(lines, file);
            let at = a.uses[g].positions[k].address;
            let declared = find_definition(a.definitions, a.uses[g].name);
            &&& at < a.tokens.len() && declared is Some ==> a.tokens[at as int] == decimal(
                declared->0.address as nat,
            )
            &&& a.errors.len() == 0 ==> at < a.tokens.len() && declared is Some
        }),
{
    let st = assemble_lines(lines, file, lines.len());
    lemma_assemble_lines(lines, file, lines.len());
    let a = resolve(st, file);
    lemma_patched_len(st.tokens, st.uses, a.definitions);
    let at = a.uses[g].positions[k].address;
    if at < a.tokens.len() && find_definition(a.definitions, a.uses[g].name) is Some {
        lemma_patched_use(st.tokens, st.uses, a.definitions, g, k);
    }
    if a.errors.len() == 0 {
        assert(st.errors.len() == 0);
        assert(undefined_uses(st.uses, a.definitions, file).len() == 0);
        lemma_all_declared(st.uses, a.definitions, file, g);
    }
}

/// An assembly that found an error yields its errors and no token; one that
/// found none yields its tokens.
pub proof fn lemma_errors_suppress_output(lines: Seq<Seq<Seq<char>>>, file: Seq<char>)
    ensures
        assemble(lines, file).errors.len() > 0 <==> outcome(assemble(lines, file)) is Err,
        assemble(lines, file).errors.len() == 0 <==> outcome(assemble(lines, file)) is Ok,
        outcome(assemble(lines, file)) matches Err(errors) ==> errors == assemble(
            lines,
            file,
        ).errors,
        outcome(assemble(lines, file)) matches Ok(tokens) ==> tokens == assemble(
            lines,
            file,
        ).tokens,
{
}


/// Reading operands never loses an error.
pub proof fn lemma_operands_keep_errors(
    st: Assembly,
    operands: Seq<Seq<char>>,
    file: Seq<char>,
    n: nat,
)
    ensures
        read_operands(st, operands, file, n).errors.len() >= st.errors.len(),
    decreases n,
{
    if n > 0 {
        lemma_operands_keep_errors(st, operands, file, (n - 1) as nat);
    }
}

/// One more line never loses an error, and it keeps every declaration made
/// so far; what it declares, it declares on its own line at the address that
/// the line starts at.
pub proof fn lemma_line_keeps_errors(st: Assembly, line: Seq<Seq<char>>, file: Seq<char>)
    requires
        st.line < usize::MAX,
    ensures
        assemble_line(st, line, file).errors.len() >= st.errors.len(),
        ({
            let after = assemble_line(st, line, file);
            ||| after.definitions == st.definitions
            ||| after.definitions.len() == st.definitions.len() + 1 && after.definitions.drop_last()
                == st.definitions && after.definitions.last().pos == (CodePosition {
                line: (st.line + 1) as usize,
                column: 0,
                address: st.address,
            })
        }),
{
    let counted = Assembly { line: (st.line + 1) as usize, ..st };
    let head = line_head(line);
    if head.len() == 0 || head[0] == '\r' {
    } else {
        let tag = head_tag(head);
        if tag is Some && tag->0 == reserved_tag() {
        } else if tag is Some && find_definition(counted.definitions, tag->0) is Some {
        } else {
            let declared = if tag is Some {
                Assembly {
                    definitions: counted.definitions.push(
                        Definition { name: tag->0, pos: counted.here() },
                    ),
                    ..counted
                }
            } else {
                counted
            };
            assert(tag is Some ==> declared.definitions.drop_last() =~= st.definitions);
            match Instructions::of_name(head_name(head)) {
                None => {},
                Some(instr) => {
                    let operands = line_operands(line);
                    let arity = instr.arity();
                    let checked = if operands.len() != arity && arity != 0 {
                        declared.report(
                            ErrorKind::WrongArgumentsCount(arity, operands.len() as usize),
                            file,
                            declared.here(),
                        )
                    } else {
                        declared
                    };
                    lemma_operands_keep_errors(checked, operands, file, arity as nat);
                },
            }
        }
    }
}

/// More lines never lose an error.
pub proof fn lemma_lines_keep_errors(lines: Seq<Seq<Seq<char>>>, file: Seq<char>, n: nat, m: nat)
    requires
        n <= m <= lines.len(),
        4 * lines.len() <= usize::MAX,
    ensures
        assemble_lines(lines, file, n).errors.len() <= assemble_lines(lines, file, m).errors.len(),
    decreases m - n,
{
    if n < m {
        lemma_lines_keep_errors(lines, file, n, (m - 1) as nat);
        lemma_assemble_lines(lines, file, (m - 1) as nat);
        lemma_line_keeps_errors(assemble_lines(lines, file, (m - 1) as nat), lines[m - 1], file);
    }
}

/// Every declaration made in the first `n` lines was made on one of those
/// lines, at the address that its line started at.
pub proof fn lemma_declarations_start_lines(
    lines: Seq<Seq<Seq<char>>>,
    file: Seq<char>,
    n: nat,
    d: int,
)
    requires
        n <= lines.len(),
        4 * lines.len() <= usize::MAX,
        0 <= d < assemble_lines(lines, file, n).definitions.len(),
    ensures
        ({
            let pos = assemble_lines(lines, file, n).definitions[d].pos;
            &&& 1 <= pos.line <= n
            &&& pos.column == 0
            &&& pos.address == assemble_lines(lines, file, (pos.line - 1) as nat).address
        }),
    decreases n,
{
    if n > 0 {
        let before = assemble_lines(lines, file, (n - 1) as nat);
        let after = assemble_lines(lines, file, n);
        lemma_assemble_lines(lines, file, (n - 1) as nat);
        lemma_line_keeps_errors(before, lines[n - 1], file);
        if d < before.definitions.len() {
            assert(after.definitions[d] == before.definitions[d]) by {
                if after.definitions != before.definitions {
                    assert(after.definitions.drop_last()[d] == after.definitions[d]);
                }
            }
            lemma_declarations_start_lines(lines, file, (n - 1) as nat, d);
        }
    }
}

/// The address of a declaration is a token index. In an assembly without
/// errors, the tag declared on a line has the index of the first token that
/// the line emits, which is the number of tokens that the lines before it
/// have emitted; and the reserved tag, declared last, has the index one past
/// the last token.
pub proof fn lemma_declarations_hold_token_indices(
    lines: Seq<Seq<Seq<char>>>,
    file: Seq<char>,
    d: int,
)
    requires
        4 * lines.len() <= usize::MAX,
        assemble(lines, file).errors.len() == 0,
        0 <= d < assemble(lines, file).definitions.len(),
    ensures
        ({
            let a = assemble(lines, file);
            let pos = a.definitions[d].pos;
            &&& a.tokens.len() == a.address
            &&& d == a.definitions.len() - 1 ==> a.definitions[d].name == reserved_tag()
                && pos.address == a.tokens.len()
            &&& d < a.definitions.len() - 1 ==> 1 <= pos.line <= lines.len() && pos.address
                == assemble_lines(lines, file, (pos.line - 1) as nat).tokens.len()
        }),
{
    let st = assemble_lines(lines, file, lines.len());
    let a = resolve(st, file);
    lemma_assemble_lines(lines, file, lines.len());
    lemma_patched_len(st.tokens, st.uses, a.definitions);
    assert(st.errors.len() == 0);
    if d < a.definitions.len() - 1 {
        assert(a.definitions[d] == st.definitions[d]);
        lemma_declarations_start_lines(lines, file, lines.len(), d);
        let line = st.definitions[d].pos.line;
        lemma_lines_keep_errors(lines, file, (line - 1) as nat, lines.len());
        lemma_assemble_lines(lines, file, (line - 1) as nat);
    }
}

} // verus!
