//! Reading a program image: a text of signed decimal numbers separated by
//! commas, which may be broken into lines.

use crate::text::{
    chars_of, digit_value, is_digit, is_digit_char, lemma_take_next, rows, split, split_chars,
    without, without_char,
};
use vstd::prelude::*;

verus! {

/// Why a text is no program image.
#[derive(Copy, Clone, PartialEq, Eq, Debug, Structural)]
pub enum ImageError {
    /// The cell with this index, counted from zero, is no number that fits
    /// in a cell.
    MalformedCell(usize),
}

/// The number that a sequence of digits writes.
pub open spec fn digits_value(digits: Seq<char>) -> nat
    decreases digits.len(),
{
    if digits.len() == 0 {
        0
    } else {
        digits_value(digits.drop_last()) * 10 + digit_value(digits.last())
    }
}

/// Whether `s` holds digits only.
pub open spec fn all_digits(s: Seq<char>) -> bool {
    forall|i: int| 0 <= i < s.len() ==> is_digit(#[trigger] s[i])
}

/// The signed number that `s` writes: an optional sign, `+` or `-`, then one
/// digit or more, with a value that fits in a cell. Nothing else is a number.
pub open spec fn parse_i64(s: Seq<char>) -> Option<i64> {
    let signed = s.len() > 0 && (s[0] == '-' || s[0] == '+');
    let digits = if signed {
        s.skip(1)
    } else {
        s
    };
    let value: int = if s.len() > 0 && s[0] == '-' {
        -digits_value(digits)
    } else {
        digits_value(digits) as int
    };
    if digits.len() > 0 && all_digits(digits) && i64::MIN <= value <= i64::MAX {
        Some(value as i64)
    } else {
        None
    }
}

/// `s` with every line feed turned into a comma, but for a line feed that
/// follows a comma, which is dropped.
pub open spec fn join_lines(s: Seq<char>) -> Seq<char>
    decreases s.len(),
{
    if s.len() == 0 {
        s
    } else {
        let before = join_lines(s.drop_last());
        if s.last() != '\n' {
            before.push(s.last())
        } else if s.len() >= 2 && s[s.len() - 2] == ',' {
            before
        } else {
            before.push(',')
        }
    }
}

/// The cells of a program text: blanks are dropped, line breaks count as
/// commas, and the text is cut at every comma.
pub open spec fn image_cells_text(text: Seq<char>) -> Seq<Seq<char>> {
    split(join_lines(without(text, ' ')), ',')
}

/// Whether every cell is a number.
pub open spec fn all_numbers(cells: Seq<Seq<char>>) -> bool {
    forall|i: int| 0 <= i < cells.len() ==> (#[trigger] parse_i64(cells[i])) is Some
}

/// The numbers that the cells write.
pub open spec fn cell_numbers(cells: Seq<Seq<char>>) -> Seq<i64> {
    Seq::new(cells.len(), |i: int| parse_i64(cells[i])->0)
}

/// Whether cell `i` is the first that is no number.
pub open spec fn first_malformed(cells: Seq<Seq<char>>, i: int) -> bool {
    &&& 0 <= i < cells.len()
    &&& parse_i64(cells[i]) is None
    &&& forall|j: int| 0 <= j < i ==> (#[trigger] parse_i64(cells[j])) is Some
}

/// Reads a signed number given as characters.
pub fn read_number(s: &Vec<char>) -> (r: Option<i64>)
    ensures
        r == parse_i64(s@),
{
    if s.len() == 0 {
        return None;
    }
    let negative = s[0] == '-';
    let start: usize = if s[0] == '-' || s[0] == '+' {
        1
    } else {
        0
    };
    let ghost digits = if start == 1 {
        s@.skip(1)
    } else {
        s@
    };
    assert(s@.skip(0) =~= s@);
    if start == s.len() {
        return None;
    }
    let limit: i128 = 9223372036854775808;
    let mut acc: i128 = 0;
    let mut big = false;
    let mut i: usize = start;
    assert(digits.take(0) =~= Seq::<char>::empty());
    while i < s.len()
        invariant
            start <= i <= s.len(),
            s@.len() > 0,
            start == (if s@[0] == '-' || s@[0] == '+' {
                1int
            } else {
                0int
            }),
            s@.skip(0) == s@,
            digits == s@.skip(start as int),
            limit == 9223372036854775808,
            all_digits(digits.take(i - start)),
            0 <= acc <= limit,
            !big ==> acc == digits_value(digits.take(i - start)),
            big ==> digits_value(digits.take(i - start)) > limit,
        decreases s.len() - i,
    {
        let c = s[i];
        proof {
            lemma_take_next(digits, i - start);
        }
        if !is_digit_char(c) {
            assert(digits[i - start] == c);
            assert(!all_digits(digits));
            return None;
        }
        let d: i128 = (c as u8 - 48) as i128;
        assert(d == digit_value(c));
        if !big {
            acc = acc * 10 + d;
            if acc > limit {
                big = true;
                acc = limit;
            }
        }
        i += 1;
    }
    assert(digits.take(i - start) =~= digits);
    if big {
        None
    } else if negative {
        Some((-acc) as i64)
    } else if acc == limit {
        None
    } else {
        Some(acc as i64)
    }
}

/// Reads a signed number, as a program argument gives it.
pub fn read_integer(s: &str) -> (r: Option<i64>)
    ensures
        r == parse_i64(s@),
{
    let v = chars_of(s);
    read_number(&v)
}

/// Turns line feeds into commas, dropping a line feed that follows a comma.
fn join_line_breaks(s: &Vec<char>) -> (out: Vec<char>)
    ensures
        out@ == join_lines(s@),
{
    let mut out: Vec<char> = Vec::new();
    let mut i: usize = 0;
    assert(s@.take(0) =~= Seq::<char>::empty());
    while i < s.len()
        invariant
            i <= s.len(),
            out@ == join_lines(s@.take(i as int)),
        decreases s.len() - i,
    {
        proof {
            lemma_take_next(s@, i as int);
        }
        let c = s[i];
        if c != '\n' {
            out.push(c);
        } else if i >= 1 && s[i - 1] == ',' {
        } else {
            out.push(',');
        }
        i += 1;
    }
    assert(s@.take(i as int) =~= s@);
    out
}

/// Reads a program image from its text.
pub fn read_program(text: &str) -> (r: Result<Vec<i64>, ImageError>)
    ensures
        match r {
            Ok(image) => all_numbers(image_cells_text(text@)) && image@ == cell_numbers(
                image_cells_text(text@),
            ),
            Err(ImageError::MalformedCell(i)) => first_malformed(image_cells_text(text@), i as int),
        },
{
    let all = chars_of(text);
    let dense = without_char(&all, ' ');
    let joined = join_line_breaks(&dense);
    let cells = split_chars(&joined, ',');
    let mut image: Vec<i64> = Vec::new();
    let mut i: usize = 0;
    while i < cells.len()
        invariant
            i <= cells.len(),
            rows(cells@) == image_cells_text(text@),
            image@.len() == i,
            forall|j: int|
                0 <= j < i ==> (#[trigger] parse_i64(rows(cells@)[j])) == Some(image@[j]),
        decreases cells.len() - i,
    {
        assert(rows(cells@)[i as int] == cells@[i as int]@);
        match read_number(&cells[i]) {
            Some(value) => {
                image.push(value);
            },
            None => {
                return Err(ImageError::MalformedCell(i));
            },
        }
        i += 1;
    }
    assert(image@ =~= cell_numbers(image_cells_text(text@)));
    Ok(image)
}

} // verus!
