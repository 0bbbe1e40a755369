//! Reading one operand and one instruction head of the source, and writing
//! the instruction word that carries the operands' modes.

use crate::instructions::ParameterModes;
use crate::text::{
    chars_of, decimal, is_digit, is_digit_char, push_decimal, slice_chars, split, split_chars,
    string_of,
};
use vstd::prelude::*;

verus! {

/// The mode of an operand that carries no mode sign.
pub const DEFAULT_MODE: ParameterModes = ParameterModes::Relative;

/// What one operand of the source says.
pub ghost struct Argument {
    /// How the machine is to resolve the operand.
    pub mode: ParameterModes,
    /// The operand without its mode sign.
    pub payload: Seq<char>,
    /// Whether the payload names a tag rather than a number.
    pub is_tag: bool,
}

/// A character that a number is written with.
pub open spec fn is_numeral_char(c: char) -> bool {
    is_digit(c) || c == '-'
}

/// The mode that the first character of a non-empty operand selects: `$`
/// immediate, `#` position, anything else relative.
pub open spec fn argument_mode(token: Seq<char>) -> ParameterModes {
    if token[0] == '$' {
        ParameterModes::Immediate
    } else if token[0] == '#' {
        ParameterModes::Position
    } else {
        ParameterModes::Relative
    }
}

/// Whether any character of `token` after the first is not one that a number
/// is written with.
pub open spec fn has_name_char(token: Seq<char>) -> bool {
    exists|i: int| 1 <= i < token.len() && !is_numeral_char(#[trigger] token[i])
}

/// What the operand `token` says; nothing if it is empty. A relative operand
/// keeps its first character and names a tag if that character is not one of
/// a number. Whatever the mode, a later character that is not one of a number
/// makes the operand a tag.
pub open spec fn argument(token: Seq<char>) -> Option<Argument> {
    if token.len() == 0 {
        None
    } else {
        let mode = argument_mode(token);
        Some(
            Argument {
                mode,
                payload: if mode == ParameterModes::Relative {
                    token
                } else {
                    token.skip(1)
                },
                is_tag: (mode == ParameterModes::Relative && !is_numeral_char(token[0]))
                    || has_name_char(token),
            },
        )
    }
}

/// The mnemonic of an instruction head: what follows the first colon, up to
/// the next one, or the whole head if it has no colon.
pub open spec fn head_name(head: Seq<char>) -> Seq<char> {
    let pieces = split(head, ':');
    if pieces.len() > 1 {
        pieces[1]
    } else {
        pieces[0]
    }
}

/// The tag that an instruction head declares: what stands before its first
/// colon, if it has one.
pub open spec fn head_tag(head: Seq<char>) -> Option<Seq<char>> {
    let pieces = split(head, ':');
    if pieces.len() > 1 {
        Some(pieces[0])
    } else {
        None
    }
}

/// The digit that writes a mode in an instruction word, and whether the digit
/// must be written even where it is a leading zero.
pub open spec fn mode_number(mode: ParameterModes) -> (char, bool) {
    match mode {
        ParameterModes::Position => ('0', false),
        ParameterModes::Immediate => ('1', true),
        ParameterModes::Relative => ('2', true),
        ParameterModes::RelativeImmediate => ('2', true),
    }
}

/// The mode digits of an instruction word, highest operand first. A zero is
/// left out as long as no digit stands before it.
pub open spec fn mode_prefix(modes: Seq<ParameterModes>) -> Seq<char>
    decreases modes.len(),
{
    if modes.len() == 0 {
        Seq::<char>::empty()
    } else {
        let higher = mode_prefix(modes.drop_first());
        if higher.len() > 0 || mode_number(modes[0]).1 {
            higher.push(mode_number(modes[0]).0)
        } else {
            higher
        }
    }
}

/// The token of an instruction word: a line break, the mode digits, and the
/// opcode, which takes two places as soon as a mode digit is written.
pub open spec fn opcode_word(modes: Seq<ParameterModes>, opc: usize) -> Seq<char> {
    let prefix = mode_prefix(modes);
    let pad = if opc < 10 && prefix.len() > 0 {
        seq!['0']
    } else {
        Seq::<char>::empty()
    };
    seq!['\n'] + prefix + pad + decimal(opc as nat)
}

/// The digit of a mode and whether it is always written.
pub fn get_mode_number_from_mode(mode: ParameterModes) -> (r: (char, bool))
    requires
        mode != ParameterModes::RelativeImmediate,
    ensures
        r == mode_number(mode),
{
    match mode {
        ParameterModes::Position => ('0', false),
        ParameterModes::Immediate => ('1', true),
        _ => ('2', true),
    }
}

/// Reads one operand given as characters.
pub fn read_argument(token: &Vec<char>) -> (r: Option<(ParameterModes, Vec<char>, bool)>)
    ensures
        match argument(token@) {
            Some(a) => r matches Some(p) && p.0 == a.mode && p.1@ == a.payload && p.2 == a.is_tag,
            None => r is None,
        },
{
    if token.len() == 0 {
        return None;
    }
    let first = token[0];
    let mode = if first == '$' {
        ParameterModes::Immediate
    } else if first == '#' {
        ParameterModes::Position
    } else {
        DEFAULT_MODE
    };
    let mut is_tag = mode == DEFAULT_MODE && !is_digit_char(first) && first != '-';
    let mut i: usize = 1;
    let mut named = false;
    while i < token.len()
        invariant
            1 <= i <= token.len(),
            named == (exists|j: int| 1 <= j < i && !is_numeral_char(#[trigger] token@[j])),
        decreases token.len() - i,
    {
        let c = token[i];
        if !is_digit_char(c) && c != '-' {
            named = true;
        }
        i += 1;
    }
    if named {
        is_tag = true;
    }
    let payload = if mode == DEFAULT_MODE {
        slice_chars(token, 0, token.len())
    } else {
        slice_chars(token, 1, token.len())
    };
    assert(token@.subrange(0, token@.len() as int) =~= token@);
    Some((mode, payload, is_tag))
}

/// Reads one operand of the source: its mode, its payload and whether the
/// payload names a tag. An empty operand is an error.
pub fn parse_argument(arg: &String) -> (r: Result<(ParameterModes, String, bool), String>)
    ensures
        match argument(arg@) {
            Some(a) => r matches Ok(p) && p.0 == a.mode && p.1@ == a.payload && p.2 == a.is_tag,
            None => r matches Err(reason) && reason@ == "Empty argument"@,
        },
{
    let token = chars_of(arg.as_str());
    match read_argument(&token) {
        Some((mode, payload, is_tag)) => Ok((mode, string_of(&payload), is_tag)),
        None => Err(string_of(&chars_of("Empty argument"))),
    }
}

/// Splits an instruction head given as characters into mnemonic and tag.
pub fn read_head(head: &Vec<char>) -> (r: (Vec<char>, Option<Vec<char>>))
    ensures
        r.0@ == head_name(head@),
        match head_tag(head@) {
            Some(tag) => r.1 matches Some(t) && t@ == tag,
            None => r.1 is None,
        },
{
    let pieces = split_chars(head, ':');
    if pieces.len() > 1 {
        let tag = slice_chars(&pieces[0], 0, pieces[0].len());
        let name = slice_chars(&pieces[1], 0, pieces[1].len());
        assert(tag@ =~= pieces@[0]@);
        assert(name@ =~= pieces@[1]@);
        (name, Some(tag))
    } else {
        let name = slice_chars(&pieces[0], 0, pieces[0].len());
        assert(name@ =~= pieces@[0]@);
        (name, None)
    }
}

/// Splits an instruction head into its mnemonic and the tag it declares, if
/// it declares one.
pub fn parse_instruction(instr: &String) -> (r: (String, Option<String>))
    ensures
        r.0@ == head_name(instr@),
        match head_tag(instr@) {
            Some(tag) => r.1 matches Some(t) && t@ == tag,
            None => r.1 is None,
        },
{
    let head = chars_of(instr.as_str());
    let (name, tag) = read_head(&head);
    match tag {
        Some(t) => (string_of(&name), Some(string_of(&t))),
        None => (string_of(&name), None),
    }
}

/// Writes the instruction word for the operand modes `modes`, given in
/// operand order, and the opcode `opc`.
pub fn encode_opcode(modes: &Vec<ParameterModes>, opc: usize) -> (word: Vec<char>)
    requires
        forall|i: int| 0 <= i < modes@.len() ==> modes@[i] != ParameterModes::RelativeImmediate,
    ensures
        word@ == opcode_word(modes@, opc),
{
    let mut word: Vec<char> = Vec::new();
    word.push('\n');
    let mut k: usize = modes.len();
    let mut found_1 = false;
    assert(modes@.skip(k as int) =~= Seq::<ParameterModes>::empty());
    while k > 0
        invariant
            k <= modes.len(),
            forall|i: int| 0 <= i < modes@.len() ==> modes@[i] != ParameterModes::RelativeImmediate,
            word@ == seq!['\n'] + mode_prefix(modes@.skip(k as int)),
            found_1 == (mode_prefix(modes@.skip(k as int)).len() > 0),
        decreases k,
    {
        k -= 1;
        assert(modes@.skip(k as int).drop_first() =~= modes@.skip(k + 1));
        let (ch, found) = get_mode_number_from_mode(modes[k]);
        if found {
            found_1 = found;
        }
        if found_1 || ch != '0' {
            word.push(ch);
        }
        assert(word@ =~= seq!['\n'] + mode_prefix(modes@.skip(k as int)));
    }
    assert(modes@.skip(0) =~= modes@);
    if opc < 10 && found_1 {
        word.push('0');
    }
    push_decimal(&mut word, opc);
    assert(word@ =~= opcode_word(modes@, opc));
    word
}

} // verus!
