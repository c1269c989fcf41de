//! Semantic tokens: positions in characters turned into the relative,
//! UTF-16 based encoding that editors expect.
use vstd::prelude::*;
use crate::text::{char_offset_to_utf16, utf16_units};

verus! {

/// A token at a line and character column, `length` characters long.
#[derive(Clone, Copy, Debug, PartialEq, Eq, Structural)]
pub struct SemanticToken {
    pub line: u32,
    pub col: u32,
    pub length: u32,
    pub token_type: u32,
}

/// A token relative to the one before it, in UTF-16 code units.
#[derive(Clone, Copy, Debug, PartialEq, Eq, Structural)]
pub struct EncodedToken {
    pub delta_line: u32,
    pub delta_start: u32,
    pub length: u32,
    pub token_type: u32,
    pub token_modifiers_bitset: u32,
}

/// `a - b` wrapped to 32 bits.
pub open spec fn wrap_sub(a: int, b: int) -> int {
    (a - b) % 0x1_0000_0000
}

fn wrapping_sub(a: u32, b: u32) -> (r: u32)
    ensures
        r == wrap_sub(a as int, b as int),
{
    if a >= b {
        proof {
            vstd::arithmetic::div_mod::lemma_small_mod((a - b) as nat, 0x1_0000_0000);
        }
        a - b
    } else {
        proof {
            vstd::arithmetic::div_mod::lemma_mod_add_multiples_vanish(
                a as int - b as int,
                0x1_0000_0000,
            );
            vstd::arithmetic::div_mod::lemma_small_mod(
                (a as int - b as int + 0x1_0000_0000) as nat,
                0x1_0000_0000,
            );
        }
        (a as u64 + 0x1_0000_0000 - b as u64) as u32
    }
}

/// The text of line `l`, empty past the last line.
pub open spec fn line_text(lines: Seq<String>, l: int) -> Seq<char> {
    if 0 <= l < lines.len() {
        lines[l]@
    } else {
        Seq::empty()
    }
}

/// UTF-16 column of character `c` of line `l`, wrapped to 32 bits.
pub open spec fn col16(lines: Seq<String>, l: int, c: int) -> int {
    utf16_units(line_text(lines, l), c) as int % 0x1_0000_0000
}

/// The encoding of token `i` of `tokens`.
pub open spec fn encoded_at(tokens: Seq<SemanticToken>, lines: Seq<String>, i: int) -> EncodedToken {
    let t = tokens[i];
    let prev_line: int = if i == 0 {
        0
    } else {
        tokens[i - 1].line as int
    };
    let prev_col: int = if i == 0 {
        0
    } else {
        col16(lines, tokens[i - 1].line as int, tokens[i - 1].col as int)
    };
    let col = col16(lines, t.line as int, t.col as int);
    let end = col16(lines, t.line as int, t.col + t.length);
    let delta_line = wrap_sub(t.line as int, prev_line);
    EncodedToken {
        delta_line: delta_line as u32,
        delta_start: (if delta_line == 0 {
            wrap_sub(col, prev_col)
        } else {
            col
        }) as u32,
        length: wrap_sub(end, col) as u32,
        token_type: t.token_type,
        token_modifiers_bitset: 0,
    }
}

fn line_column16(lines: &Vec<String>, line: u32, col: u64) -> (r: u32)
    ensures
        r == col16(lines@, line as int, col as int),
{
    let empty = String::new();
    let text: &String = if (line as usize) < lines.len() {
        &lines[line as usize]
    } else {
        &empty
    };
    assert(text@ == line_text(lines@, line as int));
    let n = text.as_str().unicode_len();
    let c: usize = if col < n as u64 {
        col as usize
    } else {
        n
    };
    proof {
        if col as int > n {
            assert(utf16_units(text@, col as int) == utf16_units(text@, n as int)) by {
                if n > 0 {
                } else {
                }
            }
        }
    }
    char_offset_to_utf16(text.as_str(), c)
}

/// Encodes tokens as deltas from the token before: the line difference,
/// the start column difference on the same line (else the column itself),
/// and the length, all in UTF-16 code units and wrapped to 32 bits.
pub fn encode_tokens_as_deltas(tokens: &Vec<SemanticToken>, lines: &Vec<String>) -> (r: Vec<
    EncodedToken,
>)
    ensures
        r@.len() == tokens@.len(),
        forall|i: int| 0 <= i < tokens@.len() ==> #[trigger] r@[i] == encoded_at(tokens@, lines@, i),
{
    let mut out: Vec<EncodedToken> = Vec::new();
    let mut prev_line: u32 = 0;
    let mut prev_col: u32 = 0;
    let mut i: usize = 0;
    while i < tokens.len()
        invariant
            i <= tokens@.len(),
            out@.len() == i,
            forall|j: int| 0 <= j < i ==> #[trigger] out@[j] == encoded_at(tokens@, lines@, j),
            i == 0 ==> prev_line == 0 && prev_col == 0,
            i > 0 ==> prev_line == tokens@[i - 1].line && prev_col == col16(
                lines@,
                tokens@[i - 1].line as int,
                tokens@[i - 1].col as int,
            ),
        decreases tokens.len() - i,
    {
        let t = tokens[i];
        let col = line_column16(lines, t.line, t.col as u64);
        let end = line_column16(lines, t.line, t.col as u64 + t.length as u64);
        let delta_line = wrapping_sub(t.line, prev_line);
        let delta_start = if delta_line == 0 {
            wrapping_sub(col, prev_col)
        } else {
            col
        };
        let e = EncodedToken {
            delta_line,
            delta_start,
            length: wrapping_sub(end, col),
            token_type: t.token_type,
            token_modifiers_bitset: 0,
        };
        proof {
            vstd::arithmetic::div_mod::lemma_small_mod(col as nat, 0x1_0000_0000);
        }
        out.push(e);
        prev_line = t.line;
        prev_col = col;
        i = i + 1;
    }
    out
}

} // verus!
