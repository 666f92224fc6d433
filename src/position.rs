//! Line and column numbers of byte offsets, for diagnostics.
use vstd::prelude::*;
use crate::lexer::{byte_pos, chars_of};

verus! {

/// The index of the first character from `i` on whose byte offset is at least `offset`,
/// or the length.
pub open spec fn char_index_from(s: Seq<char>, i: int, offset: int) -> int
    decreases s.len() - i,
{
    if 0 <= i < s.len() && byte_pos(s, i) < offset {
        char_index_from(s, i + 1, offset)
    } else {
        i
    }
}

/// The 1-based line of character index `i`.
pub open spec fn line_of(s: Seq<char>, i: int) -> int
    decreases i,
{
    if i <= 0 || i > s.len() {
        1
    } else if s[i - 1] == '\n' {
        line_of(s, i - 1) + 1
    } else {
        line_of(s, i - 1)
    }
}

/// The 1-based column of character index `i`, counted in characters.
pub open spec fn column_of(s: Seq<char>, i: int) -> int
    decreases i,
{
    if i <= 0 || i > s.len() {
        1
    } else if s[i - 1] == '\n' {
        1
    } else {
        column_of(s, i - 1) + 1
    }
}

proof fn lemma_line_column_bounds(s: Seq<char>, i: int)
    requires
        0 <= i <= s.len(),
    ensures
        1 <= line_of(s, i) <= i + 1,
        1 <= column_of(s, i) <= i + 1,
    decreases i,
{
    if i > 0 {
        lemma_line_column_bounds(s, i - 1);
    }
}

/// The 1-based line and column of the character at byte offset `offset` of `content`.
pub fn span_offset_to_line_and_column(offset: usize, content: &str) -> (r: (usize, usize))
    requires
        4 * content@.len() <= usize::MAX,
    ensures
        r.0 == line_of(content@, char_index_from(content@, 0, offset as int)),
        r.1 == column_of(content@, char_index_from(content@, 0, offset as int)),
{
    let s = chars_of(content);
    let mut i: usize = 0;
    let mut byte: usize = 0;
    let mut line: usize = 1;
    let mut column: usize = 1;
    while i < s.len() && byte < offset
        invariant
            s@ == content@,
            4 * s.len() <= usize::MAX,
            i <= s.len(),
            byte == byte_pos(s@, i as int),
            char_index_from(s@, i as int, offset as int) == char_index_from(s@, 0, offset as int),
            line == line_of(s@, i as int),
            column == column_of(s@, i as int),
        decreases s.len() - i,
    {
        proof {
            crate::lexer::lemma_byte_pos_bound(s@, i as int);
            lemma_line_column_bounds(s@, i as int);
        }
        if s[i] == '\n' {
            line = line + 1;
            column = 1;
        } else {
            column = column + 1;
        }
        byte = byte + crate::lexer::utf8_width_of(s[i]);
        i = i + 1;
    }
    (line, column)
}

} // verus!
