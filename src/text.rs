//! Character, UTF-16 and byte offsets in text, positions given as line and
//! column, and text edits.
use vstd::prelude::*;
use crate::model::{Position, Span};

verus! {

/// Number of UTF-16 code units that encode `c`.
pub open spec fn utf16_width(c: char) -> nat {
    if (c as u32) < 0x10000 {
        1
    } else {
        2
    }
}

/// Number of UTF-8 bytes that encode `c`.
pub open spec fn utf8_width(c: char) -> nat {
    if (c as u32) < 0x80 {
        1
    } else if (c as u32) < 0x800 {
        2
    } else if (c as u32) < 0x10000 {
        3
    } else {
        4
    }
}

/// UTF-16 code units taken by the first `n` characters of `s`.
pub open spec fn utf16_units(s: Seq<char>, n: int) -> nat
    decreases n,
{
    if n <= 0 || s.len() == 0 {
        0
    } else if n > s.len() {
        utf16_units(s, s.len() as int)
    } else {
        utf16_units(s, n - 1) + utf16_width(s[n - 1])
    }
}

/// UTF-8 bytes taken by the first `n` characters of `s`.
pub open spec fn utf8_units(s: Seq<char>, n: int) -> nat
    decreases n,
{
    if n <= 0 || s.len() == 0 {
        0
    } else if n > s.len() {
        utf8_units(s, s.len() as int)
    } else {
        utf8_units(s, n - 1) + utf8_width(s[n - 1])
    }
}

fn char_utf16_width(c: char) -> (r: usize)
    ensures
        r == utf16_width(c),
{
    if (c as u32) < 0x10000 {
        1
    } else {
        2
    }
}

fn char_utf8_width(c: char) -> (r: usize)
    ensures
        r == utf8_width(c),
{
    if (c as u32) < 0x80 {
        1
    } else if (c as u32) < 0x800 {
        2
    } else if (c as u32) < 0x10000 {
        3
    } else {
        4
    }
}

/// The UTF-16 column of the character at `char_offset` in `line`, counted
/// modulo 2^32 (offsets past the end count the whole line).
pub fn char_offset_to_utf16(line: &str, char_offset: usize) -> (r: u32)
    ensures
        r as int == utf16_units(line@, char_offset as int) % 0x1_0000_0000,
{
    let len = line.unicode_len();
    let stop = if char_offset < len {
        char_offset
    } else {
        len
    };
    let mut acc: u32 = 0;
    let mut i: usize = 0;
    while i < stop
        invariant
            stop <= len,
            len == line@.len(),
            i <= stop,
            acc as int == utf16_units(line@, i as int) % 0x1_0000_0000,
        decreases stop - i,
    {
        let w = char_utf16_width(line.get_char(i));
        proof {
            vstd::arithmetic::div_mod::lemma_add_mod_noop(
                utf16_units(line@, i as int) as int,
                w as int,
                0x1_0000_0000,
            );
            vstd::arithmetic::div_mod::lemma_mod_twice(w as int, 0x1_0000_0000);
            vstd::arithmetic::div_mod::lemma_small_mod(w as nat, 0x1_0000_0000);
        }
        acc = ((acc as u64 + w as u64) % 0x1_0000_0000) as u32;
        i = i + 1;
    }
    proof {
        if char_offset as int > line@.len() && line@.len() > 0 {
            assert(utf16_units(line@, char_offset as int) == utf16_units(line@, line@.len() as int));
        }
    }
    acc
}

/// The byte offset of the character at `char_offset` in `line` (offsets
/// past the end count the whole line).
pub fn char_offset_to_byte(line: &str, char_offset: usize) -> (r: usize)
    requires
        utf8_units(line@, line@.len() as int) <= usize::MAX,
    ensures
        r == utf8_units(line@, char_offset as int),
{
    let len = line.unicode_len();
    let stop = if char_offset < len {
        char_offset
    } else {
        len
    };
    let mut acc: usize = 0;
    let mut i: usize = 0;
    while i < stop
        invariant
            stop <= len,
            len == line@.len(),
            i <= stop,
            acc == utf8_units(line@, i as int),
            utf8_units(line@, line@.len() as int) <= usize::MAX,
        decreases stop - i,
    {
        let w = char_utf8_width(line.get_char(i));
        proof {
            lemma_utf8_units_monotone(line@, i as int + 1, line@.len() as int);
        }
        acc = acc + w;
        i = i + 1;
    }
    acc
}

proof fn lemma_utf8_units_monotone(s: Seq<char>, a: int, b: int)
    requires
        0 <= a <= b <= s.len(),
    ensures
        utf8_units(s, a) <= utf8_units(s, b),
    decreases b - a,
{
    if a < b {
        lemma_utf8_units_monotone(s, a, b - 1);
    }
}

/// The first line break at or after index `i`.
pub open spec fn next_newline(s: Seq<char>, i: int) -> Option<int>
    decreases s.len() - i,
{
    if i < 0 || i >= s.len() {
        None
    } else if s[i] == '\n' {
        Some(i)
    } else {
        next_newline(s, i + 1)
    }
}

/// The index where line `n` (counted from 0) starts, if the text has it.
pub open spec fn line_start(s: Seq<char>, n: nat) -> Option<int>
    decreases n,
{
    if n == 0 {
        Some(0)
    } else {
        match line_start(s, (n - 1) as nat) {
            Some(a) => match next_newline(s, a) {
                Some(j) => Some(j + 1),
                None => None,
            },
            None => None,
        }
    }
}

/// The character index of a line and column: the column is clipped to the
/// line's length, and the line just past the last one stands for the end
/// of the text; lines beyond it do not exist.
pub open spec fn char_index_of(s: Seq<char>, line: nat, column: nat) -> Option<int> {
    match line_start(s, line) {
        Some(st) => {
            let end = match next_newline(s, st) {
                Some(j) => j,
                None => s.len() as int,
            };
            Some(if column <= end - st {
                st + column
            } else {
                end
            })
        },
        None => if line > 0 && line_start(s, (line - 1) as nat) is Some {
            Some(s.len() as int)
        } else {
            None
        },
    }
}

/// Why a position or an edit does not fit the text.
#[derive(Clone, Copy, Debug, PartialEq, Eq, Structural)]
pub enum TextError {
    /// The line lies beyond the end of the text.
    LineOutOfBounds,
    /// The range starts after it ends.
    InvalidRange,
}

proof fn lemma_next_newline_bounds(s: Seq<char>, i: int)
    ensures
        next_newline(s, i) matches Some(j) ==> i <= j < s.len() && s[j] == '\n',
    decreases s.len() - i,
{
    if 0 <= i < s.len() && s[i] != '\n' {
        lemma_next_newline_bounds(s, i + 1);
    }
}

proof fn lemma_line_start_gone(s: Seq<char>, n: nat, m: nat)
    requires
        line_start(s, n) is None,
        n <= m,
    ensures
        line_start(s, m) is None,
    decreases m - n,
{
    if n < m {
        lemma_line_start_gone(s, n, (m - 1) as nat);
    }
}

proof fn lemma_line_start_bounds(s: Seq<char>, n: nat)
    ensures
        line_start(s, n) matches Some(a) ==> 0 <= a <= s.len(),
    decreases n,
{
    if n > 0 {
        lemma_line_start_bounds(s, (n - 1) as nat);
        if let Some(a) = line_start(s, (n - 1) as nat) {
            lemma_next_newline_bounds(s, a);
        }
    }
}

fn next_newline_exec(s: &str, n: usize, i: usize) -> (r: Option<usize>)
    requires
        n == s@.len(),
        i <= n,
    ensures
        match r {
            Some(j) => next_newline(s@, i as int) == Some(j as int),
            None => next_newline(s@, i as int) is None,
        },
{
    let mut k: usize = i;
    while k < n
        invariant
            n == s@.len(),
            i <= k <= n,
            next_newline(s@, i as int) == next_newline(s@, k as int),
        decreases n - k,
    {
        if s.get_char(k) == '\n' {
            return Some(k);
        }
        k = k + 1;
    }
    None
}

/// The character index that a line and column denote in `text`.
pub fn char_index(text: &str, position: Position) -> (r: Option<usize>)
    ensures
        match r {
            Some(c) => char_index_of(text@, position.line as nat, position.column as nat) == Some(
                c as int,
            ),
            None => char_index_of(text@, position.line as nat, position.column as nat) is None,
        },
{
    let n = text.unicode_len();
    let line = position.line as usize;
    let mut st: usize = 0;
    let mut l: usize = 0;
    while l < line
        invariant
            n == text@.len(),
            l <= line,
            line == position.line,
            st <= n,
            line_start(text@, l as nat) == Some(st as int),
        decreases line - l,
    {
        match next_newline_exec(text, n, st) {
            Some(j) => {
                proof {
                    lemma_next_newline_bounds(text@, st as int);
                }
                st = j + 1;
                l = l + 1;
            },
            None => {
                proof {
                    lemma_line_start_gone(text@, (l + 1) as nat, line as nat);
                    if l + 1 < line {
                        lemma_line_start_gone(text@, (l + 1) as nat, (line - 1) as nat);
                    }
                }
                if l + 1 == line {
                    return Some(n);
                } else {
                    return None;
                }
            },
        }
    }
    let end = match next_newline_exec(text, n, st) {
        Some(j) => j,
        None => n,
    };
    proof {
        lemma_next_newline_bounds(text@, st as int);
    }
    let column = position.column as usize;
    if column <= end - st {
        Some(st + column)
    } else {
        Some(end)
    }
}

/// The byte offset of a line and column of `text`, with the column counted
/// in characters and clipped to its line.
pub fn position_to_byte_offset(text: &str, pos: Position) -> (r: Result<usize, TextError>)
    requires
        utf8_units(text@, text@.len() as int) <= usize::MAX,
    ensures
        match r {
            Ok(b) => char_index_of(text@, pos.line as nat, pos.column as nat) matches Some(c)
                && b == utf8_units(text@, c),
            Err(e) => e == TextError::LineOutOfBounds && char_index_of(
                text@,
                pos.line as nat,
                pos.column as nat,
            ) is None,
        },
{
    match char_index(text, pos) {
        Some(c) => Ok(char_offset_to_byte(text, c)),
        None => Err(TextError::LineOutOfBounds),
    }
}

/// `text` with the characters from `start` up to `end` replaced by
/// `new_text`.
pub fn apply_text_edit(text: &str, range: &Span, new_text: &str) -> (r: Result<String, TextError>)
    ensures
        match (
            char_index_of(text@, range.start.line as nat, range.start.column as nat),
            char_index_of(text@, range.end.line as nat, range.end.column as nat),
        ) {
            (Some(a), Some(b)) => if a <= b {
                r matches Ok(t) && t@ == text@.subrange(0, a) + new_text@ + text@.subrange(
                    b,
                    text@.len() as int,
                )
            } else {
                r == Err::<String, TextError>(TextError::InvalidRange)
            },
            _ => r == Err::<String, TextError>(TextError::LineOutOfBounds),
        },
{
    let a = match char_index(text, range.start) {
        Some(a) => a,
        None => {
            return Err(TextError::LineOutOfBounds);
        },
    };
    let b = match char_index(text, range.end) {
        Some(b) => b,
        None => {
            return Err(TextError::LineOutOfBounds);
        },
    };
    if a > b {
        return Err(TextError::InvalidRange);
    }
    let n = text.unicode_len();
    proof {
        lemma_char_index_bounds(text@, range.end.line as nat, range.end.column as nat);
    }
    let mut out = String::from_str(text.substring_char(0, a));
    out.append(new_text);
    out.append(text.substring_char(b, n));
    Ok(out)
}

proof fn lemma_char_index_bounds(s: Seq<char>, line: nat, column: nat)
    ensures
        char_index_of(s, line, column) matches Some(c) ==> 0 <= c <= s.len(),
{
    lemma_line_start_bounds(s, line);
    if let Some(st) = line_start(s, line) {
        lemma_next_newline_bounds(s, st);
    }
}

/// The text of a document after one change: a change without a range, or
/// any change to an empty document, replaces the whole text; otherwise the
/// range is replaced.
pub fn apply_text_change(current: &str, range: Option<Span>, new_text: &str) -> (r: Result<
    String,
    TextError,
>)
    ensures
        match range {
            Some(sp) => if current@.len() == 0 {
                r matches Ok(t) && t@ == new_text@
            } else {
                match (
                    char_index_of(current@, sp.start.line as nat, sp.start.column as nat),
                    char_index_of(current@, sp.end.line as nat, sp.end.column as nat),
                ) {
                    (Some(a), Some(b)) => if a <= b {
                        r matches Ok(t) && t@ == current@.subrange(0, a) + new_text@
                            + current@.subrange(b, current@.len() as int)
                    } else {
                        r == Err::<String, TextError>(TextError::InvalidRange)
                    },
                    _ => r == Err::<String, TextError>(TextError::LineOutOfBounds),
                }
            },
            None => r matches Ok(t) && t@ == new_text@,
        },
{
    match range {
        Some(sp) => {
            if current.unicode_len() == 0 {
                Ok(String::from_str(new_text))
            } else {
                apply_text_edit(current, &sp, new_text)
            }
        },
        None => Ok(String::from_str(new_text)),
    }
}

} // verus!
