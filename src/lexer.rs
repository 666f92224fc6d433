//! Turns source text into a sequence of spanned tokens.
use vstd::prelude::*;
use vstd::std_specs::iter::IteratorSpec;

verus! {

/// A half-open range of byte offsets into the lexed text.
#[derive(Clone, Copy, Debug, PartialEq, Eq)]
pub struct Span {
    pub start: usize,
    pub end: usize,
}

/// One lexical token.
#[derive(Clone, Debug, PartialEq)]
pub enum Token {
    /// One of the delimiters `( ) , : { } < >`.
    Ctrl(char),
    /// The arrow `->`.
    Op(String),
    /// An ASCII identifier.
    Ident(String),
    /// The text of a comment: for `//` or `///` the rest of its line, trimmed
    /// of white space; for `/** */` or `/*! */` the text between the delimiters.
    Comment(String),
    /// Any other character.
    Other(char),
}

/// The value of a token, with its text as a sequence of characters.
pub enum TokView {
    Ctrl(char),
    Op(Seq<char>),
    Ident(Seq<char>),
    Comment(Seq<char>),
    Other(char),
}

impl View for Token {
    type V = TokView;

    open spec fn view(&self) -> TokView {
        match self {
            Token::Ctrl(c) => TokView::Ctrl(*c),
            Token::Op(x) => TokView::Op(x@),
            Token::Ident(x) => TokView::Ident(x@),
            Token::Comment(x) => TokView::Comment(x@),
            Token::Other(c) => TokView::Other(*c),
        }
    }
}

/// The token values of a spanned token sequence.
pub open spec fn views(ts: Seq<(Token, Span)>) -> Seq<TokView> {
    ts.map_values(|p: (Token, Span)| p.0@)
}

/// What the lexer recognises at a position, with the comment text as a range.
pub enum Lexeme {
    Ctrl(char),
    Arrow,
    Ident,
    Comment(int, int),
    Other(char),
}

/// Unicode white space, as `char::is_whitespace` defines it.
pub open spec fn is_ws(c: char) -> bool {
    let u = c as u32;
    u == 0x20 || (0x09 <= u && u <= 0x0d) || u == 0x85 || u == 0xa0 || u == 0x1680 || (0x2000
        <= u && u <= 0x200a) || u == 0x2028 || u == 0x2029 || u == 0x202f || u == 0x205f || u
        == 0x3000
}

pub open spec fn is_ctrl(c: char) -> bool {
    c == '(' || c == ')' || c == ',' || c == ':' || c == '{' || c == '}' || c == '<' || c == '>'
}

pub open spec fn is_ident_start(c: char) -> bool {
    ('a' as u32 <= c as u32 <= 'z' as u32) || ('A' as u32 <= c as u32 <= 'Z' as u32) || c == '_'
}

pub open spec fn is_ident_continue(c: char) -> bool {
    is_ident_start(c) || ('0' as u32 <= c as u32 <= '9' as u32)
}

/// `s` holds `c` at index `i`.
pub open spec fn char_at(s: Seq<char>, i: int, c: char) -> bool {
    0 <= i < s.len() && s[i] == c
}

/// The first index from `i` on that is not white space.
pub open spec fn skip_ws(s: Seq<char>, i: int) -> int
    decreases s.len() - i,
{
    if 0 <= i < s.len() && is_ws(s[i]) {
        skip_ws(s, i + 1)
    } else {
        i
    }
}

/// The first index from `i` on that holds a line feed, or the length.
pub open spec fn line_end(s: Seq<char>, i: int) -> int
    decreases s.len() - i,
{
    if 0 <= i < s.len() && s[i] != '\n' {
        line_end(s, i + 1)
    } else {
        i
    }
}

/// The first index in `i..b` that is not white space, or `b`.
pub open spec fn trim_start(s: Seq<char>, i: int, b: int) -> int
    decreases b - i,
{
    if i < b && is_ws(s[i]) {
        trim_start(s, i + 1, b)
    } else {
        i
    }
}

/// The end of `a..b` once trailing white space is dropped.
pub open spec fn trim_end(s: Seq<char>, a: int, b: int) -> int
    decreases b - a,
{
    if a < b && is_ws(s[b - 1]) {
        trim_end(s, a, b - 1)
    } else {
        b
    }
}

/// The first index from `i` on where `*/` starts, or the length where there is none.
pub open spec fn block_close(s: Seq<char>, i: int) -> int
    decreases s.len() - i,
{
    if 0 <= i < s.len() && !(char_at(s, i, '*') && char_at(s, i + 1, '/')) {
        block_close(s, i + 1)
    } else {
        i
    }
}

/// The first index from `i` on that does not continue an identifier.
pub open spec fn ident_end(s: Seq<char>, i: int) -> int
    decreases s.len() - i,
{
    if 0 <= i < s.len() && is_ident_continue(s[i]) {
        ident_end(s, i + 1)
    } else {
        i
    }
}

/// A `/**` or `/*!` block comment opens at `i` and is closed later on.
pub open spec fn block_comment_at(s: Seq<char>, i: int) -> bool {
    char_at(s, i, '/') && char_at(s, i + 1, '*') && (char_at(s, i + 2, '*') || char_at(
        s,
        i + 2,
        '!',
    )) && block_close(s, i + 3) < s.len()
}

/// Where the text of a line comment at `i` starts: after `///`, else after `//`.
pub open spec fn line_comment_start(s: Seq<char>, i: int) -> int {
    if char_at(s, i + 2, '/') {
        i + 3
    } else {
        i + 2
    }
}

/// The token that starts at `i` (a character that is not white space) and where it ends.
/// Alternatives are tried in order: block comment, line comment, arrow,
/// delimiter, identifier, any single character.
pub open spec fn lex_at(s: Seq<char>, i: int) -> (Lexeme, int) {
    if block_comment_at(s, i) {
        let k = block_close(s, i + 3);
        (Lexeme::Comment(i + 3, k), k + 2)
    } else if char_at(s, i, '/') && char_at(s, i + 1, '/') {
        let start = line_comment_start(s, i);
        let b = line_end(s, start);
        let a = trim_start(s, start, b);
        (Lexeme::Comment(a, trim_end(s, a, b)), b)
    } else if char_at(s, i, '-') && char_at(s, i + 1, '>') {
        (Lexeme::Arrow, i + 2)
    } else if is_ctrl(s[i]) {
        (Lexeme::Ctrl(s[i]), i + 1)
    } else if is_ident_start(s[i]) {
        (Lexeme::Ident, ident_end(s, i + 1))
    } else {
        (Lexeme::Other(s[i]), i + 1)
    }
}

/// The tokens of `s` from index `i` on, each as its lexeme, start and end.
pub open spec fn lex_from(s: Seq<char>, i: int) -> Seq<(Lexeme, int, int)>
    decreases s.len() - i via lex_from_decreases
{
    let j = skip_ws(s, i);
    if i < 0 || j >= s.len() {
        Seq::empty()
    } else {
        seq![(lex_at(s, j).0, j, lex_at(s, j).1)] + lex_from(s, lex_at(s, j).1)
    }
}

/// The number of bytes that UTF-8 takes for `c`.
pub open spec fn utf8_width(c: char) -> int {
    let u = c as u32;
    if u < 0x80 {
        1
    } else if u < 0x800 {
        2
    } else if u < 0x10000 {
        3
    } else {
        4
    }
}

/// The byte offset of character index `i` in `s`.
pub open spec fn byte_pos(s: Seq<char>, i: int) -> int
    decreases i,
{
    if i <= 0 || s.len() == 0 {
        0
    } else if i > s.len() {
        byte_pos(s, s.len() as int)
    } else {
        byte_pos(s, i - 1) + utf8_width(s[i - 1])
    }
}

/// The token value for lexeme `lx` spanning characters `a..e` of `s`.
pub open spec fn lexeme_view(s: Seq<char>, lx: Lexeme, a: int, e: int) -> TokView {
    match lx {
        Lexeme::Ctrl(c) => TokView::Ctrl(c),
        Lexeme::Arrow => TokView::Op("->"@),
        Lexeme::Ident => TokView::Ident(s.subrange(a, e)),
        Lexeme::Comment(x, y) => TokView::Comment(s.subrange(x, y)),
        Lexeme::Other(c) => TokView::Other(c),
    }
}

/// The token values of the text `s`, in order.
pub open spec fn tokens_of(s: Seq<char>) -> Seq<TokView> {
    lex_from(s, 0).map_values(|x: (Lexeme, int, int)| lexeme_view(s, x.0, x.1, x.2))
}

/// `ts` is the spanned token sequence of the text `s`.
pub open spec fn lexes_to(s: Seq<char>, ts: Seq<(Token, Span)>) -> bool {
    let l = lex_from(s, 0);
    &&& views(ts) == tokens_of(s)
    &&& ts.len() == l.len()
    &&& forall|k: int|
        0 <= k < ts.len() ==> {
            &&& (#[trigger] ts[k]).1.start == byte_pos(s, l[k].1)
            &&& ts[k].1.end == byte_pos(s, l[k].2)
        }
}

proof fn lemma_skip_ws_bounds(s: Seq<char>, i: int)
    ensures
        i <= skip_ws(s, i),
        0 <= i <= s.len() ==> skip_ws(s, i) <= s.len(),
        0 <= i && skip_ws(s, i) < s.len() ==> !is_ws(s[skip_ws(s, i)]),
    decreases s.len() - i,
{
    if 0 <= i < s.len() && is_ws(s[i]) {
        lemma_skip_ws_bounds(s, i + 1);
    }
}

proof fn lemma_line_end_bounds(s: Seq<char>, i: int)
    requires
        0 <= i <= s.len(),
    ensures
        i <= line_end(s, i) <= s.len(),
    decreases s.len() - i,
{
    if i < s.len() && s[i] != '\n' {
        lemma_line_end_bounds(s, i + 1);
    }
}

proof fn lemma_block_close_bounds(s: Seq<char>, i: int)
    requires
        0 <= i <= s.len(),
    ensures
        i <= block_close(s, i) <= s.len(),
        block_close(s, i) < s.len() ==> char_at(s, block_close(s, i) + 1, '/'),
    decreases s.len() - i,
{
    if i < s.len() && !(char_at(s, i, '*') && char_at(s, i + 1, '/')) {
        lemma_block_close_bounds(s, i + 1);
    }
}

proof fn lemma_ident_end_bounds(s: Seq<char>, i: int)
    requires
        0 <= i <= s.len(),
    ensures
        i <= ident_end(s, i) <= s.len(),
    decreases s.len() - i,
{
    if i < s.len() && is_ident_continue(s[i]) {
        lemma_ident_end_bounds(s, i + 1);
    }
}

/// Every token ends after it starts and within the text.
pub proof fn lemma_lex_at_bounds(s: Seq<char>, i: int)
    requires
        0 <= i < s.len(),
    ensures
        i < lex_at(s, i).1 <= s.len(),
{
    if block_comment_at(s, i) {
        lemma_block_close_bounds(s, i + 3);
    } else if char_at(s, i, '/') && char_at(s, i + 1, '/') {
        lemma_line_end_bounds(s, line_comment_start(s, i));
    } else if is_ident_start(s[i]) {
        lemma_ident_end_bounds(s, i + 1);
    }
}

#[via_fn]
proof fn lex_from_decreases(s: Seq<char>, i: int) {
    lemma_skip_ws_bounds(s, i);
    let j = skip_ws(s, i);
    if 0 <= i && j < s.len() {
        lemma_lex_at_bounds(s, j);
    }
}

proof fn lemma_skip_ws_prefix(s: Seq<char>, i: int)
    requires
        0 <= i,
    ensures
        forall|j: int| i <= j < skip_ws(s, i) ==> j < s.len() && is_ws(s[j]),
    decreases s.len() - i,
{
    if 0 <= i < s.len() && is_ws(s[i]) {
        lemma_skip_ws_prefix(s, i + 1);
        lemma_skip_ws_bounds(s, i + 1);
        assert forall|j: int| i <= j < skip_ws(s, i) implies j < s.len() && is_ws(s[j]) by {
            if j > i {
                assert(i + 1 <= j < skip_ws(s, i + 1));
            }
        }
    } else {
        assert(skip_ws(s, i) == i);
    }
}

/// The tokens from `i` on lie in order within `i..`, each starts on a character
/// that is not white space, and they cover every such character from `i` on.
proof fn lemma_lex_from_layout(s: Seq<char>, i: int)
    requires
        0 <= i <= s.len(),
    ensures
        forall|k: int|
            0 <= k < lex_from(s, i).len() ==> i <= (#[trigger] lex_from(s, i)[k]).1 < lex_from(
                s,
                i,
            )[k].2 <= s.len(),
        forall|k: int|
            0 <= k < lex_from(s, i).len() - 1 ==> (#[trigger] lex_from(s, i)[k]).2 <= lex_from(
                s,
                i,
            )[k + 1].1,
        forall|j: int|
            i <= j < s.len() && !is_ws(s[j]) ==> exists|k: int|
                0 <= k < lex_from(s, i).len() && (#[trigger] lex_from(s, i)[k]).1 <= j < lex_from(
                    s,
                    i,
                )[k].2,
    decreases s.len() - i,
{
    lemma_skip_ws_bounds(s, i);
    lemma_skip_ws_prefix(s, i);
    let j0 = skip_ws(s, i);
    if j0 < s.len() {
        lemma_lex_at_bounds(s, j0);
        let e = lex_at(s, j0).1;
        lemma_lex_from_layout(s, e);
        let l = lex_from(s, i);
        let rest = lex_from(s, e);
        assert(l == seq![(lex_at(s, j0).0, j0, e)] + rest);
        assert forall|k: int| 0 <= k < l.len() - 1 implies (#[trigger] l[k]).2 <= l[k + 1].1 by {
            if k > 0 {
                assert(l[k] == rest[k - 1]);
                assert(l[k + 1] == rest[k]);
            } else {
                assert(l[1] == rest[0]);
            }
        }
        assert forall|k: int| 0 <= k < l.len() implies i <= (#[trigger] l[k]).1 < l[k].2
            <= s.len() by {
            if k > 0 {
                assert(l[k] == rest[k - 1]);
            }
        }
        assert forall|j: int| i <= j < s.len() && !is_ws(s[j]) implies exists|k: int|
            0 <= k < l.len() && (#[trigger] l[k]).1 <= j < l[k].2 by {
            if j < j0 {
            } else if j < e {
                assert(l[0].1 <= j < l[0].2);
            } else {
                let k2 = choose|k2: int| 0 <= k2 < rest.len() && (#[trigger] rest[k2]).1 <= j < rest[k2].2;
                assert(l[k2 + 1] == rest[k2]);
            }
        }
    }
}

/// `byte_pos` does not decrease, and grows over every character.
proof fn lemma_byte_pos_mono(s: Seq<char>, a: int, b: int)
    requires
        0 <= a <= b <= s.len(),
    ensures
        byte_pos(s, a) <= byte_pos(s, b),
        a < b ==> byte_pos(s, a) < byte_pos(s, b),
    decreases b - a,
{
    if a < b {
        lemma_byte_pos_mono(s, a, b - 1);
    }
}

/// Lexing accounts for every character of the text: each token's span is
/// non-empty and ends within the text (whose byte length is `byte_pos(s, s.len())`),
/// the spans come in order without overlapping, and every
/// character that is not white space lies within the span of some token.
pub proof fn lemma_tokens_cover(s: Seq<char>, ts: Seq<(Token, Span)>)
    requires
        lexes_to(s, ts),
    ensures
        forall|k: int| 0 <= k < ts.len() ==> (#[trigger] ts[k]).1.start < ts[k].1.end,
        forall|k: int| 0 <= k < ts.len() ==> (#[trigger] ts[k]).1.end <= byte_pos(s, s.len() as int),
        forall|k: int| 0 <= k < ts.len() - 1 ==> (#[trigger] ts[k]).1.end <= ts[k + 1].1.start,
        forall|j: int|
            0 <= j < s.len() && !is_ws(s[j]) ==> exists|k: int|
                0 <= k < ts.len() && (#[trigger] ts[k]).1.start <= byte_pos(s, j) < ts[k].1.end,
{
    let l = lex_from(s, 0);
    lemma_lex_from_layout(s, 0);
    assert forall|k: int| 0 <= k < ts.len() implies (#[trigger] ts[k]).1.start < ts[k].1.end by {
        assert(0 <= l[k].1 < l[k].2 <= s.len());
        lemma_byte_pos_mono(s, l[k].1, l[k].2);
    }
    assert forall|k: int| 0 <= k < ts.len() implies (#[trigger] ts[k]).1.end <= byte_pos(
        s,
        s.len() as int,
    ) by {
        assert(0 <= l[k].1 < l[k].2 <= s.len());
        lemma_byte_pos_mono(s, l[k].2, s.len() as int);
    }
    assert forall|k: int| 0 <= k < ts.len() - 1 implies (#[trigger] ts[k]).1.end <= ts[k
        + 1].1.start by {
        assert(l[k].2 <= l[k + 1].1);
        assert(0 <= l[k + 1].1 < l[k + 1].2 <= s.len());
        assert(0 <= l[k].1 < l[k].2 <= s.len());
        lemma_byte_pos_mono(s, l[k].2, l[k + 1].1);
    }
    assert forall|j: int| 0 <= j < s.len() && !is_ws(s[j]) implies exists|k: int|
        0 <= k < ts.len() && (#[trigger] ts[k]).1.start <= byte_pos(s, j) < ts[k].1.end by {
        let k = choose|k: int| 0 <= k < l.len() && (#[trigger] l[k]).1 <= j < l[k].2;
        assert(0 <= l[k].1 < l[k].2 <= s.len());
        lemma_byte_pos_mono(s, l[k].1, j);
        lemma_byte_pos_mono(s, j, l[k].2);
        assert(ts[k].1.start <= byte_pos(s, j) < ts[k].1.end);
    }
}

/// `byte_pos` grows by at most four per character.
pub(crate) proof fn lemma_byte_pos_bound(s: Seq<char>, i: int)
    requires
        0 <= i <= s.len(),
    ensures
        0 <= byte_pos(s, i) <= 4 * i,
    decreases i,
{
    if i > 0 {
        lemma_byte_pos_bound(s, i - 1);
    }
}

fn is_ws_char(c: char) -> (r: bool)
    ensures
        r == is_ws(c),
{
    let u = c as u32;
    u == 0x20 || (0x09 <= u && u <= 0x0d) || u == 0x85 || u == 0xa0 || u == 0x1680 || (0x2000
        <= u && u <= 0x200a) || u == 0x2028 || u == 0x2029 || u == 0x202f || u == 0x205f || u
        == 0x3000
}

fn is_ctrl_char(c: char) -> (r: bool)
    ensures
        r == is_ctrl(c),
{
    c == '(' || c == ')' || c == ',' || c == ':' || c == '{' || c == '}' || c == '<' || c == '>'
}

fn is_ident_start_char(c: char) -> (r: bool)
    ensures
        r == is_ident_start(c),
{
    ('a' as u32 <= c as u32 && c as u32 <= 'z' as u32) || ('A' as u32 <= c as u32 && c as u32
        <= 'Z' as u32) || c == '_'
}

fn is_ident_continue_char(c: char) -> (r: bool)
    ensures
        r == is_ident_continue(c),
{
    is_ident_start_char(c) || ('0' as u32 <= c as u32 && c as u32 <= '9' as u32)
}

fn has_char(s: &Vec<char>, i: usize, c: char) -> (r: bool)
    ensures
        r == char_at(s@, i as int, c),
{
    i < s.len() && s[i] == c
}

fn skip_whitespace(s: &Vec<char>, i: usize) -> (r: usize)
    requires
        i <= s.len(),
    ensures
        r == skip_ws(s@, i as int),
        i <= r <= s.len(),
{
    let mut j: usize = i;
    while j < s.len() && is_ws_char(s[j])
        invariant
            i <= j <= s.len(),
            skip_ws(s@, j as int) == skip_ws(s@, i as int),
        decreases s.len() - j,
    {
        j = j + 1;
    }
    j
}

fn find_line_end(s: &Vec<char>, i: usize) -> (r: usize)
    requires
        i <= s.len(),
    ensures
        r == line_end(s@, i as int),
        i <= r <= s.len(),
{
    let mut j: usize = i;
    while j < s.len() && s[j] != '\n'
        invariant
            i <= j <= s.len(),
            line_end(s@, j as int) == line_end(s@, i as int),
        decreases s.len() - j,
    {
        j = j + 1;
    }
    j
}

fn trim_start_of(s: &Vec<char>, i: usize, b: usize) -> (r: usize)
    requires
        i <= b <= s.len(),
    ensures
        r == trim_start(s@, i as int, b as int),
        i <= r <= b,
{
    let mut j: usize = i;
    while j < b && is_ws_char(s[j])
        invariant
            i <= j <= b <= s.len(),
            trim_start(s@, j as int, b as int) == trim_start(s@, i as int, b as int),
        decreases b - j,
    {
        j = j + 1;
    }
    j
}

fn trim_end_of(s: &Vec<char>, a: usize, b: usize) -> (r: usize)
    requires
        a <= b <= s.len(),
    ensures
        r == trim_end(s@, a as int, b as int),
        a <= r <= b,
{
    let mut j: usize = b;
    while a < j && is_ws_char(s[j - 1])
        invariant
            a <= j <= b <= s.len(),
            trim_end(s@, a as int, j as int) == trim_end(s@, a as int, b as int),
        decreases j - a,
    {
        j = j - 1;
    }
    j
}

fn find_block_close(s: &Vec<char>, i: usize) -> (r: usize)
    requires
        i <= s.len(),
    ensures
        r == block_close(s@, i as int),
        i <= r <= s.len(),
        r < s.len() ==> r + 1 < s.len(),
{
    let mut j: usize = i;
    while j < s.len() && !(has_char(s, j, '*') && has_char(s, j + 1, '/'))
        invariant
            i <= j <= s.len(),
            block_close(s@, j as int) == block_close(s@, i as int),
        decreases s.len() - j,
    {
        j = j + 1;
    }
    j
}

fn find_ident_end(s: &Vec<char>, i: usize) -> (r: usize)
    requires
        i <= s.len(),
    ensures
        r == ident_end(s@, i as int),
        i <= r <= s.len(),
{
    let mut j: usize = i;
    while j < s.len() && is_ident_continue_char(s[j])
        invariant
            i <= j <= s.len(),
            ident_end(s@, j as int) == ident_end(s@, i as int),
        decreases s.len() - j,
    {
        j = j + 1;
    }
    j
}

/// Relies on `String::push`: appends one character to the end of the string.
#[verifier::external_body]
pub(crate) fn push_char(s: &mut String, c: char)
    ensures
        final(s)@ == old(s)@.push(c),
{
    s.push(c)
}

/// The characters `a..b` of `s` as a string.
fn string_of(s: &Vec<char>, a: usize, b: usize) -> (r: String)
    requires
        a <= b <= s.len(),
    ensures
        r@ == s@.subrange(a as int, b as int),
{
    let mut r = String::new();
    let mut k: usize = a;
    while k < b
        invariant
            a <= k <= b <= s.len(),
            r@ == s@.subrange(a as int, k as int),
        decreases b - k,
    {
        push_char(&mut r, s[k]);
        assert(r@ =~= s@.subrange(a as int, k + 1));
        k = k + 1;
    }
    r
}

/// Lexes the token that starts at `i`, which holds a character that is not white space.
fn lex_one(s: &Vec<char>, i: usize) -> (r: (Token, usize))
    requires
        i < s.len(),
    ensures
        r.1 == lex_at(s@, i as int).1,
        i < r.1 <= s.len(),
        r.0@ == lexeme_view(s@, lex_at(s@, i as int).0, i as int, r.1 as int),
{
    if has_char(s, i, '/') && has_char(s, i + 1, '*') && (has_char(s, i + 2, '*') || has_char(
        s,
        i + 2,
        '!',
    )) {
        let k = find_block_close(s, i + 3);
        if k < s.len() {
            let t = Token::Comment(string_of(s, i + 3, k));
            return (t, k + 2);
        }
    }
    if has_char(s, i, '/') && has_char(s, i + 1, '/') {
        let start = if has_char(s, i + 2, '/') {
            i + 3
        } else {
            i + 2
        };
        let b = find_line_end(s, start);
        let a = trim_start_of(s, start, b);
        let c = trim_end_of(s, a, b);
        let t = Token::Comment(string_of(s, a, c));
        (t, b)
    } else if has_char(s, i, '-') && has_char(s, i + 1, '>') {
        (Token::Op("->".to_owned()), i + 2)
    } else if is_ctrl_char(s[i]) {
        (Token::Ctrl(s[i]), i + 1)
    } else if is_ident_start_char(s[i]) {
        let e = find_ident_end(s, i + 1);
        (Token::Ident(string_of(s, i, e)), e)
    } else {
        (Token::Other(s[i]), i + 1)
    }
}

pub(crate) fn utf8_width_of(c: char) -> (r: usize)
    ensures
        r == utf8_width(c),
{
    let u = c as u32;
    if u < 0x80 {
        1
    } else if u < 0x800 {
        2
    } else if u < 0x10000 {
        3
    } else {
        4
    }
}

/// The characters of `text`, in order.
pub(crate) fn chars_of(text: &str) -> (r: Vec<char>)
    ensures
        r@ == text@,
{
    broadcast use vstd::string::group_string_axioms;

    let mut it = text.chars();
    let mut r: Vec<char> = Vec::new();
    loop
        invariant
            r@ + it.remaining() == text@,
            it.decrease() is Some,
        ensures
            r@ == text@,
        decreases it.decrease()->0,
    {
        match it.next() {
            Some(c) => {
                r.push(c);
            },
            None => {
                assert(r@ =~= text@);
                break ;
            },
        }
    }
    r
}

/// The byte offset of each character index of `s`, and of its end.
fn byte_offsets(s: &Vec<char>) -> (r: Vec<usize>)
    requires
        4 * s.len() <= usize::MAX,
    ensures
        r.len() == s.len() + 1,
        forall|k: int| 0 <= k <= s.len() ==> r[k] == byte_pos(s@, k),
{
    let mut r: Vec<usize> = Vec::new();
    r.push(0);
    let mut k: usize = 0;
    while k < s.len()
        invariant
            4 * s.len() <= usize::MAX,
            k <= s.len(),
            r.len() == k + 1,
            forall|j: int| 0 <= j <= k ==> r[j] == byte_pos(s@, j),
        decreases s.len() - k,
    {
        proof {
            lemma_byte_pos_bound(s@, k as int);
        }
        let w = utf8_width_of(s[k]);
        let next = r[k] + w;
        r.push(next);
        k = k + 1;
    }
    r
}

/// Lexes `text` into spanned tokens. Every character that is not white space
/// belongs to exactly one token; the lexer never fails.
pub fn token_parser(text: &str) -> (r: Vec<(Token, Span)>)
    requires
        4 * text@.len() <= usize::MAX,
    ensures
        lexes_to(text@, r@),
{
    let s = chars_of(text);
    let offs = byte_offsets(&s);
    let mut r: Vec<(Token, Span)> = Vec::new();
    let ghost done: Seq<(Lexeme, int, int)> = Seq::empty();
    let mut i: usize = 0;
    while i < s.len()
        invariant
            s@ == text@,
            i <= s.len(),
            offs.len() == s.len() + 1,
            forall|k: int| 0 <= k <= s.len() ==> offs[k] == byte_pos(s@, k),
            done + lex_from(s@, i as int) == lex_from(s@, 0),
            r.len() == done.len(),
            forall|k: int|
                0 <= k < r.len() ==> {
                    &&& (#[trigger] r@[k]).0@ == lexeme_view(s@, done[k].0, done[k].1, done[k].2)
                    &&& r@[k].1.start == byte_pos(s@, done[k].1)
                    &&& r@[k].1.end == byte_pos(s@, done[k].2)
                },
        decreases s.len() - i,
    {
        let j = skip_whitespace(&s, i);
        if j >= s.len() {
            assert(done + lex_from(s@, i as int) =~= done + lex_from(s@, s.len() as int));
            i = s.len();
            continue;
        }
        let (t, e) = lex_one(&s, j);
        let ghost item = (lex_at(s@, j as int).0, j as int, e as int);
        proof {
            assert(lex_from(s@, i as int) == seq![item] + lex_from(s@, e as int));
            assert(done + lex_from(s@, i as int) =~= done.push(item) + lex_from(s@, e as int));
            done = done.push(item);
        }
        let span = Span { start: offs[j], end: offs[e] };
        r.push((t, span));
        i = e;
    }
    assert(done =~= lex_from(s@, 0));
    assert(views(r@) =~= tokens_of(s@));
    r
}

} // verus!
