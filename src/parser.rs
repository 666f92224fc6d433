//! Groups a token sequence into declarations and passed-through tokens.
use vstd::prelude::*;
use crate::grammar::{
    arg_at, arg_name, arg_name_pos, arg_starts, args_end, attr_at, attrs_end, bare_type,
    comments_end, const_at, decl_at, docs_between, enum_at, field_at, field_name_pos,
    field_starts, fields_end, fn_args_close, fn_at, fn_keyword_pos, fn_open_pos, generic_args,
    ident_text, is_arrow_tok, is_ctrl_tok, is_ident_tok, is_other_tok, is_word, keyword_decl,
    keyword_pos,
    named_arg_at, opt_ctrl2, opt_word, parse_from, ref_type, scan_ctrl, scan_other,
    self_arg_at, simple_type, struct_at, struct_open_pos, trait_at, trait_keyword_pos,
    tuple_type, type_at, DeclKind,
};
use crate::lexer::{views, Span, TokView, Token};

verus! {

/// Parsed information about a field of a struct.
#[derive(Clone, Debug, PartialEq)]
pub struct StructField {
    pub name: String,
    pub docs: String,
}

/// Parsed information about a struct.
#[derive(Clone, Debug, PartialEq)]
pub struct StructInfo {
    pub name: String,
    pub fields: Vec<StructField>,
    pub docs: String,
}

/// Parsed information about an enum.
#[derive(Clone, Debug, PartialEq)]
pub struct EnumInfo {
    pub name: String,
    pub docs: String,
}

/// Parsed information about a trait.
#[derive(Clone, Debug, PartialEq)]
pub struct TraitInfo {
    pub name: String,
    pub docs: String,
}

/// Parsed information about a const value.
#[derive(Clone, Debug, PartialEq)]
pub struct ConstInfo {
    pub name: String,
    pub docs: String,
}

/// Parsed information about a function. `args` holds `self` for a receiver.
#[derive(Clone, Debug, PartialEq)]
pub struct FunctionInfo {
    pub name: String,
    pub args: Vec<String>,
    pub void_return_type: bool,
    pub docs: String,
}

/// A declaration, or a token that starts none.
#[derive(Clone, Debug, PartialEq)]
pub enum ComplexToken {
    Struct(StructInfo),
    Function(FunctionInfo),
    Enum(EnumInfo),
    Trait(TraitInfo),
    Const(ConstInfo),
    Other(Token),
}

/// An executable position agrees with a spec position.
pub open spec fn lifts(r: Option<usize>, s: Option<int>) -> bool {
    match r {
        Some(v) => s == Some(v as int),
        None => s is None,
    }
}

pub open spec fn end_of<T>(r: Option<(T, usize)>) -> Option<usize> {
    match r {
        Some(x) => Some(x.1),
        None => None,
    }
}

/// The docs recorded for a declaration that starts at `i`.
pub open spec fn docs_at(ts: Seq<TokView>, i: int) -> Seq<char> {
    docs_between(ts, i, comments_end(ts, i))
}

/// A complex token with its texts as sequences of characters.
pub enum DeclView {
    Struct { name: Seq<char>, fields: Seq<(Seq<char>, Seq<char>)>, docs: Seq<char> },
    Function { name: Seq<char>, args: Seq<Seq<char>>, void_return: bool, docs: Seq<char> },
    Enum { name: Seq<char>, docs: Seq<char> },
    Trait { name: Seq<char>, docs: Seq<char> },
    Const { name: Seq<char>, docs: Seq<char> },
    Other(TokView),
}

impl View for StructField {
    type V = (Seq<char>, Seq<char>);

    open spec fn view(&self) -> (Seq<char>, Seq<char>) {
        (self.name@, self.docs@)
    }
}

impl View for ComplexToken {
    type V = DeclView;

    open spec fn view(&self) -> DeclView {
        match self {
            ComplexToken::Struct(s) => DeclView::Struct {
                name: s.name@,
                fields: s.fields@.map_values(|f: StructField| f@),
                docs: s.docs@,
            },
            ComplexToken::Function(f) => DeclView::Function {
                name: f.name@,
                args: f.args@.map_values(|a: String| a@),
                void_return: f.void_return_type,
                docs: f.docs@,
            },
            ComplexToken::Enum(e) => DeclView::Enum { name: e.name@, docs: e.docs@ },
            ComplexToken::Trait(t) => DeclView::Trait { name: t.name@, docs: t.docs@ },
            ComplexToken::Const(c) => DeclView::Const { name: c.name@, docs: c.docs@ },
            ComplexToken::Other(t) => DeclView::Other(t@),
        }
    }
}

/// The name and docs of the field that starts at `i`.
pub open spec fn field_view(ts: Seq<TokView>, i: int) -> (Seq<char>, Seq<char>) {
    (ident_text(ts, field_name_pos(ts, i)), docs_at(ts, i))
}

/// The complex token of kind `kind` that starts at token `i`.
pub open spec fn decl_view(ts: Seq<TokView>, kind: DeclKind, i: int) -> DeclView {
    match kind {
        DeclKind::Function => DeclView::Function {
            name: ident_text(ts, fn_keyword_pos(ts, i) + 1),
            args: arg_starts(ts, fn_open_pos(ts, i) + 1).map_values(|a: int| arg_name(ts, a)),
            void_return: !is_arrow_tok(ts, fn_args_close(ts, i)),
            docs: docs_at(ts, i),
        },
        DeclKind::Struct => DeclView::Struct {
            name: ident_text(ts, keyword_pos(ts, i) + 1),
            fields: field_starts(ts, struct_open_pos(ts, i) + 1).map_values(
                |f: int| field_view(ts, f),
            ),
            docs: docs_at(ts, i),
        },
        DeclKind::Enum => DeclView::Enum {
            name: ident_text(ts, keyword_pos(ts, i) + 1),
            docs: docs_at(ts, i),
        },
        DeclKind::Const => DeclView::Const {
            name: ident_text(ts, keyword_pos(ts, i) + 1),
            docs: docs_at(ts, i),
        },
        DeclKind::Trait => DeclView::Trait {
            name: ident_text(ts, trait_keyword_pos(ts, i) + 1),
            docs: docs_at(ts, i),
        },
        DeclKind::Pass => DeclView::Other(ts[i]),
    }
}

/// The complex tokens of the token values `ts`, in order.
pub open spec fn decls_of(ts: Seq<TokView>) -> Seq<DeclView> {
    parse_from(ts, 0).map_values(|x: (DeclKind, int, int)| decl_view(ts, x.0, x.1))
}

/// The complex tokens of a spanned token sequence.
pub open spec fn decl_views(cs: Seq<(ComplexToken, Span)>) -> Seq<DeclView> {
    cs.map_values(|c: (ComplexToken, Span)| c.0@)
}

/// `cs` is the spanned complex token sequence of the tokens `ts`: each spans
/// from the start of its first token to the end of its last.
pub open spec fn parses_to(ts: Seq<(Token, Span)>, cs: Seq<(ComplexToken, Span)>) -> bool {
    let p = parse_from(views(ts), 0);
    &&& decl_views(cs) == decls_of(views(ts))
    &&& cs.len() == p.len()
    &&& forall|k: int|
        0 <= k < cs.len() ==> {
            &&& (#[trigger] cs[k]).1.start == ts[p[k].1].1.start
            &&& cs[k].1.end == ts[p[k].2 - 1].1.end
        }
}

pub(crate) fn text_is(x: &String, w: &str) -> (r: bool)
    ensures
        r == (x@ == w@),
{
    let o = w.to_owned();
    x.eq(&o)
}

fn ctrl_at(ts: &Vec<(Token, Span)>, i: usize, c: char) -> (r: bool)
    ensures
        r == is_ctrl_tok(views(ts@), i as int, c),
{
    if i < ts.len() {
        match &ts[i].0 {
            Token::Ctrl(x) => *x == c,
            _ => false,
        }
    } else {
        false
    }
}

fn other_at(ts: &Vec<(Token, Span)>, i: usize, c: char) -> (r: bool)
    ensures
        r == is_other_tok(views(ts@), i as int, c),
{
    if i < ts.len() {
        match &ts[i].0 {
            Token::Other(x) => *x == c,
            _ => false,
        }
    } else {
        false
    }
}

fn ident_at(ts: &Vec<(Token, Span)>, i: usize) -> (r: bool)
    ensures
        r == is_ident_tok(views(ts@), i as int),
{
    if i < ts.len() {
        match &ts[i].0 {
            Token::Ident(_) => true,
            _ => false,
        }
    } else {
        false
    }
}

fn arrow_at(ts: &Vec<(Token, Span)>, i: usize) -> (r: bool)
    ensures
        r == is_arrow_tok(views(ts@), i as int),
{
    if i < ts.len() {
        match &ts[i].0 {
            Token::Op(x) => text_is(x, "->"),
            _ => false,
        }
    } else {
        false
    }
}

fn word_at(ts: &Vec<(Token, Span)>, i: usize, w: &str) -> (r: bool)
    ensures
        r == is_word(views(ts@), i as int, w@),
{
    if i < ts.len() {
        match &ts[i].0 {
            Token::Ident(x) => text_is(x, w),
            _ => false,
        }
    } else {
        false
    }
}

fn skip_word(ts: &Vec<(Token, Span)>, i: usize, w: &str) -> (r: usize)
    requires
        i <= ts.len(),
    ensures
        r == opt_word(views(ts@), i as int, w@),
        i <= r <= ts.len(),
{
    if word_at(ts, i, w) {
        i + 1
    } else {
        i
    }
}

fn skip_ctrl2(ts: &Vec<(Token, Span)>, i: usize, c1: char, c2: char) -> (r: usize)
    requires
        i <= ts.len(),
    ensures
        r == opt_ctrl2(views(ts@), i as int, c1, c2),
        i <= r <= ts.len(),
{
    if ctrl_at(ts, i, c1) || ctrl_at(ts, i, c2) {
        i + 1
    } else {
        i
    }
}

/// The text of the identifier at `i`.
fn ident_name(ts: &Vec<(Token, Span)>, i: usize) -> (r: String)
    requires
        is_ident_tok(views(ts@), i as int),
    ensures
        r@ == ident_text(views(ts@), i as int),
{
    match &ts[i].0 {
        Token::Ident(x) => x.clone(),
        _ => String::new(),
    }
}

fn copy_token(t: &Token) -> (r: Token)
    ensures
        r == *t,
{
    match t {
        Token::Ctrl(c) => Token::Ctrl(*c),
        Token::Op(x) => Token::Op(x.clone()),
        Token::Ident(x) => Token::Ident(x.clone()),
        Token::Comment(x) => Token::Comment(x.clone()),
        Token::Other(c) => Token::Other(*c),
    }
}

fn find_ctrl(ts: &Vec<(Token, Span)>, i: usize, c: char) -> (r: usize)
    requires
        i <= ts.len(),
    ensures
        r == scan_ctrl(views(ts@), i as int, c),
        i <= r <= ts.len(),
{
    let mut j: usize = i;
    while j < ts.len() && !ctrl_at(ts, j, c)
        invariant
            i <= j <= ts.len(),
            scan_ctrl(views(ts@), j as int, c) == scan_ctrl(views(ts@), i as int, c),
        decreases ts.len() - j,
    {
        j = j + 1;
    }
    j
}

fn find_other(ts: &Vec<(Token, Span)>, i: usize, c: char) -> (r: usize)
    requires
        i <= ts.len(),
    ensures
        r == scan_other(views(ts@), i as int, c),
        i <= r <= ts.len(),
{
    let mut j: usize = i;
    while j < ts.len() && !other_at(ts, j, c)
        invariant
            i <= j <= ts.len(),
            scan_other(views(ts@), j as int, c) == scan_other(views(ts@), i as int, c),
        decreases ts.len() - j,
    {
        j = j + 1;
    }
    j
}

/// Steps over the comments from `i` and concatenates their texts.
fn doc_comments(ts: &Vec<(Token, Span)>, i: usize) -> (r: (usize, String))
    requires
        i <= ts.len(),
    ensures
        r.0 == comments_end(views(ts@), i as int),
        i <= r.0 <= ts.len(),
        r.1@ == docs_between(views(ts@), i as int, r.0 as int),
{
    let mut j: usize = i;
    let mut docs = String::new();
    while j < ts.len() && is_comment(&ts[j].0)
        invariant
            i <= j <= ts.len(),
            comments_end(views(ts@), j as int) == comments_end(views(ts@), i as int),
            docs@ == docs_between(views(ts@), i as int, j as int),
        decreases ts.len() - j,
    {
        match &ts[j].0 {
            Token::Comment(x) => docs.append(x.as_str()),
            _ => {},
        }
        j = j + 1;
    }
    (j, docs)
}

fn is_comment(t: &Token) -> (r: bool)
    ensures
        r == (t is Comment),
{
    match t {
        Token::Comment(_) => true,
        _ => false,
    }
}

fn parse_attr(ts: &Vec<(Token, Span)>, i: usize) -> (r: Option<usize>)
    requires
        i <= ts.len(),
    ensures
        lifts(r, attr_at(views(ts@), i as int)),
        r matches Some(v) ==> i < v <= ts.len(),
{
    if other_at(ts, i, '#') && other_at(ts, i + 1, '[') {
        let k = find_other(ts, i + 2, ']');
        if k < ts.len() {
            return Some(k + 1);
        }
    }
    None
}

fn skip_attrs(ts: &Vec<(Token, Span)>, i: usize) -> (r: usize)
    requires
        i <= ts.len(),
    ensures
        r == attrs_end(views(ts@), i as int),
        i <= r <= ts.len(),
    decreases ts.len() - i,
{
    match parse_attr(ts, i) {
        Some(e) => skip_attrs(ts, e),
        None => i,
    }
}

fn parse_bare_type(ts: &Vec<(Token, Span)>, i: usize) -> (r: Option<usize>)
    requires
        i <= ts.len(),
    ensures
        lifts(r, bare_type(views(ts@), i as int)),
        r matches Some(v) ==> i < v <= ts.len(),
{
    if ident_at(ts, i) {
        Some(i + 1)
    } else if other_at(ts, i, '[') && ident_at(ts, i + 1) && other_at(ts, i + 2, ']') {
        Some(i + 3)
    } else {
        None
    }
}

fn parse_ref_type(ts: &Vec<(Token, Span)>, i: usize) -> (r: Option<usize>)
    requires
        i <= ts.len(),
    ensures
        lifts(r, ref_type(views(ts@), i as int)),
        r matches Some(v) ==> i < v <= ts.len(),
{
    if other_at(ts, i, '&') {
        let j = if other_at(ts, i + 1, '\'') && ident_at(ts, i + 2) {
            i + 3
        } else {
            i + 1
        };
        parse_bare_type(ts, skip_word(ts, j, "mut"))
    } else {
        None
    }
}

fn parse_simple_type(ts: &Vec<(Token, Span)>, i: usize) -> (r: Option<usize>)
    requires
        i <= ts.len(),
    ensures
        lifts(r, simple_type(views(ts@), i as int)),
        r matches Some(v) ==> i < v <= ts.len(),
{
    if word_at(ts, i, "dyn") {
        if let Some(e) = parse_bare_type(ts, i + 1) {
            return Some(e);
        }
    }
    if other_at(ts, i, '&') && word_at(ts, i + 1, "impl") {
        if let Some(e) = parse_bare_type(ts, i + 2) {
            return Some(e);
        }
    }
    if word_at(ts, i, "mut") {
        if let Some(e) = parse_bare_type(ts, i + 1) {
            return Some(e);
        }
    }
    if let Some(e) = parse_ref_type(ts, i) {
        return Some(e);
    }
    parse_bare_type(ts, i)
}

fn parse_tuple_type(ts: &Vec<(Token, Span)>, i: usize) -> (r: Option<usize>)
    requires
        i <= ts.len(),
    ensures
        lifts(r, tuple_type(views(ts@), i as int)),
        r matches Some(v) ==> i < v <= ts.len(),
    decreases ts.len() - i,
{
    let head = match parse_simple_type(ts, i) {
        Some(p) => Some(p),
        None => if ctrl_at(ts, i, '(') {
            parse_simple_type(ts, i + 1)
        } else {
            None
        },
    };
    match head {
        Some(p) => if ctrl_at(ts, p, ')') {
            Some(p + 1)
        } else if ctrl_at(ts, p, ',') {
            parse_tuple_type(ts, p + 1)
        } else {
            None
        },
        None => None,
    }
}

fn parse_generic_args(ts: &Vec<(Token, Span)>, i: usize) -> (r: Option<usize>)
    requires
        i <= ts.len(),
    ensures
        lifts(r, generic_args(views(ts@), i as int)),
        r matches Some(v) ==> i < v <= ts.len(),
    decreases ts.len() - i,
{
    let j = if ctrl_at(ts, i, '<') {
        i + 1
    } else {
        i
    };
    let head = match parse_tuple_type(ts, j) {
        Some(k) => Some(k),
        None => parse_simple_type(ts, j),
    };
    match head {
        Some(k) => {
            let mut k2 = k;
            if ctrl_at(ts, k, '<') {
                if let Some(m) = parse_generic_args(ts, k + 1) {
                    k2 = m;
                }
            }
            if ctrl_at(ts, k2, '>') {
                Some(k2 + 1)
            } else if ctrl_at(ts, k2, ',') {
                parse_generic_args(ts, k2 + 1)
            } else {
                None
            }
        },
        None => None,
    }
}

fn parse_type(ts: &Vec<(Token, Span)>, i: usize) -> (r: Option<usize>)
    requires
        i <= ts.len(),
    ensures
        lifts(r, type_at(views(ts@), i as int)),
        r matches Some(v) ==> i < v <= ts.len(),
{
    if let Some(p) = parse_simple_type(ts, i) {
        if ctrl_at(ts, p, '<') {
            if let Some(e) = parse_generic_args(ts, p) {
                return Some(e);
            }
        }
    }
    if let Some(e) = parse_tuple_type(ts, i) {
        return Some(e);
    }
    parse_simple_type(ts, i)
}

fn parse_field(ts: &Vec<(Token, Span)>, i: usize) -> (r: Option<(StructField, usize)>)
    requires
        i <= ts.len(),
    ensures
        lifts(end_of(r), field_at(views(ts@), i as int)),
        r matches Some(x) ==> i < x.1 <= ts.len() && x.0@ == field_view(views(ts@), i as int),
{
    let (c, docs) = doc_comments(ts, i);
    let p = skip_word(ts, skip_attrs(ts, c), "pub");
    if ident_at(ts, p) && ctrl_at(ts, p + 1, ':') {
        match parse_type(ts, p + 2) {
            Some(e) => {
                let field = StructField { name: ident_name(ts, p), docs };
                Some((field, skip_ctrl2(ts, e, ',', '}')))
            },
            None => None,
        }
    } else {
        None
    }
}

fn parse_fields(ts: &Vec<(Token, Span)>, i: usize) -> (r: (Vec<StructField>, usize))
    requires
        i <= ts.len(),
    ensures
        r.1 == fields_end(views(ts@), i as int),
        i <= r.1 <= ts.len(),
        r.0.len() == field_starts(views(ts@), i as int).len(),
        forall|k: int|
            0 <= k < r.0.len() ==> (#[trigger] r.0[k])@ == field_view(
                views(ts@),
                field_starts(views(ts@), i as int)[k],
            ),
{
    let mut fields: Vec<StructField> = Vec::new();
    let ghost starts: Seq<int> = Seq::empty();
    let mut j: usize = i;
    loop
        invariant
            i <= j <= ts.len(),
            fields_end(views(ts@), j as int) == fields_end(views(ts@), i as int),
            starts + field_starts(views(ts@), j as int) == field_starts(views(ts@), i as int),
            fields.len() == starts.len(),
            forall|k: int|
                0 <= k < fields.len() ==> (#[trigger] fields[k])@ == field_view(views(ts@), starts[k]),
        ensures
            j == fields_end(views(ts@), i as int),
            i <= j <= ts.len(),
            fields.len() == field_starts(views(ts@), i as int).len(),
            forall|k: int|
                0 <= k < fields.len() ==> (#[trigger] fields[k])@ == field_view(
                    views(ts@),
                    field_starts(views(ts@), i as int)[k],
                ),
        decreases ts.len() - j,
    {
        match parse_field(ts, j) {
            Some((f, e)) => {
                proof {
                    assert(field_starts(views(ts@), j as int) == seq![j as int] + field_starts(
                        views(ts@),
                        e as int,
                    ));
                    assert(starts + field_starts(views(ts@), j as int) =~= starts.push(j as int)
                        + field_starts(views(ts@), e as int));
                    starts = starts.push(j as int);
                }
                fields.push(f);
                j = e;
            },
            None => {
                assert(starts =~= field_starts(views(ts@), i as int));
                break ;
            },
        }
    }
    (fields, j)
}

fn parse_struct(ts: &Vec<(Token, Span)>, i: usize) -> (r: Option<(StructInfo, usize)>)
    requires
        i <= ts.len(),
    ensures
        lifts(end_of(r), struct_at(views(ts@), i as int)),
        r matches Some(x) ==> i < x.1 <= ts.len() && ComplexToken::Struct(x.0)@ == decl_view(views(ts@), DeclKind::Struct, i as int),
{
    let (c, docs) = doc_comments(ts, i);
    let p = skip_word(ts, skip_attrs(ts, c), "pub");
    if word_at(ts, p, "struct") && ident_at(ts, p + 1) {
        let k = find_ctrl(ts, p + 2, '{');
        if k < ts.len() {
            let (fields, e) = parse_fields(ts, k + 1);
            let info = StructInfo { name: ident_name(ts, p + 1), fields, docs };
            assert(info.fields@.map_values(|f: StructField| f@) =~= field_starts(
                views(ts@),
                k + 1,
            ).map_values(|f: int| field_view(views(ts@), f)));
            return Some((info, skip_ctrl2(ts, e, '}', '}')));
        }
    }
    None
}

/// A declaration made of docs, an optional attribute list, `pub`, the keyword `kw` and a name.
fn parse_keyword_decl(ts: &Vec<(Token, Span)>, i: usize, attrs: bool, kw: &str) -> (r: Option<
    (String, String, usize),
>)
    requires
        i <= ts.len(),
    ensures
        ({
            let p = if attrs {
                keyword_pos(views(ts@), i as int)
            } else {
                trait_keyword_pos(views(ts@), i as int)
            };
            &&& lifts(
                match r {
                    Some(x) => Some(x.2),
                    None => None,
                },
                keyword_decl(views(ts@), p, kw@),
            )
            &&& r matches Some(x) ==> {
                &&& i < x.2 <= ts.len()
                &&& x.0@ == ident_text(views(ts@), p + 1)
                &&& x.1@ == docs_at(views(ts@), i as int)
            }
        }),
{
    let (c, docs) = doc_comments(ts, i);
    let a = if attrs {
        skip_attrs(ts, c)
    } else {
        c
    };
    let p = skip_word(ts, a, "pub");
    if word_at(ts, p, kw) && ident_at(ts, p + 1) {
        Some((ident_name(ts, p + 1), docs, p + 2))
    } else {
        None
    }
}

fn parse_self_arg(ts: &Vec<(Token, Span)>, i: usize) -> (r: Option<usize>)
    requires
        i <= ts.len(),
    ensures
        lifts(r, self_arg_at(views(ts@), i as int)),
        r matches Some(v) ==> i < v <= ts.len(),
{
    let head = if word_at(ts, i, "self") {
        Some(i + 1)
    } else if other_at(ts, i, '&') && word_at(ts, i + 1, "self") {
        Some(i + 2)
    } else if other_at(ts, i, '&') && word_at(ts, i + 1, "mut") && word_at(ts, i + 2, "self") {
        Some(i + 3)
    } else {
        None
    };
    match head {
        Some(p) => if ctrl_at(ts, p, ',') || ctrl_at(ts, p, ')') {
            Some(p + 1)
        } else {
            None
        },
        None => None,
    }
}

fn parse_arg(ts: &Vec<(Token, Span)>, i: usize) -> (r: Option<(String, usize)>)
    requires
        i <= ts.len(),
    ensures
        lifts(end_of(r), arg_at(views(ts@), i as int)),
        r matches Some(x) ==> i < x.1 <= ts.len() && x.0@ == arg_name(views(ts@), i as int),
{
    if let Some(e) = parse_self_arg(ts, i) {
        return Some(("self".to_owned(), e));
    }
    let n = if word_at(ts, i, "mut") && ident_at(ts, i + 1) {
        i + 1
    } else {
        i
    };
    if ident_at(ts, n) && ctrl_at(ts, n + 1, ':') {
        match parse_type(ts, n + 2) {
            Some(e) => Some((ident_name(ts, n), skip_ctrl2(ts, e, ',', ')'))),
            None => None,
        }
    } else {
        None
    }
}

fn parse_args(ts: &Vec<(Token, Span)>, i: usize) -> (r: (Vec<String>, usize))
    requires
        i <= ts.len(),
    ensures
        r.1 == args_end(views(ts@), i as int),
        i <= r.1 <= ts.len(),
        r.0.len() == arg_starts(views(ts@), i as int).len(),
        forall|k: int|
            0 <= k < r.0.len() ==> (#[trigger] r.0[k])@ == arg_name(
                views(ts@),
                arg_starts(views(ts@), i as int)[k],
            ),
{
    let mut args: Vec<String> = Vec::new();
    let ghost starts: Seq<int> = Seq::empty();
    let mut j: usize = i;
    loop
        invariant
            i <= j <= ts.len(),
            args_end(views(ts@), j as int) == args_end(views(ts@), i as int),
            starts + arg_starts(views(ts@), j as int) == arg_starts(views(ts@), i as int),
            args.len() == starts.len(),
            forall|k: int| 0 <= k < args.len() ==> (#[trigger] args[k])@ == arg_name(views(ts@), starts[k]),
        ensures
            j == args_end(views(ts@), i as int),
            i <= j <= ts.len(),
            args.len() == arg_starts(views(ts@), i as int).len(),
            forall|k: int|
                0 <= k < args.len() ==> (#[trigger] args[k])@ == arg_name(
                    views(ts@),
                    arg_starts(views(ts@), i as int)[k],
                ),
        decreases ts.len() - j,
    {
        match parse_arg(ts, j) {
            Some((name, e)) => {
                proof {
                    assert(arg_starts(views(ts@), j as int) == seq![j as int] + arg_starts(
                        views(ts@),
                        e as int,
                    ));
                    assert(starts + arg_starts(views(ts@), j as int) =~= starts.push(j as int)
                        + arg_starts(views(ts@), e as int));
                    starts = starts.push(j as int);
                }
                args.push(name);
                j = e;
            },
            None => {
                assert(starts =~= arg_starts(views(ts@), i as int));
                break ;
            },
        }
    }
    (args, j)
}

fn parse_function(ts: &Vec<(Token, Span)>, i: usize) -> (r: Option<(FunctionInfo, usize)>)
    requires
        i <= ts.len(),
    ensures
        lifts(end_of(r), fn_at(views(ts@), i as int)),
        r matches Some(x) ==> i < x.1 <= ts.len() && ComplexToken::Function(x.0)@ == decl_view(views(ts@), DeclKind::Function, i as int),
{
    let (c, docs) = doc_comments(ts, i);
    let x = if word_at(ts, c, "extern") && other_at(ts, c + 1, '"') && ident_at(ts, c + 2)
        && other_at(ts, c + 3, '"') {
        c + 4
    } else {
        c
    };
    let p = skip_word(ts, skip_attrs(ts, x), "pub");
    let p = skip_word(ts, p, "const");
    let p = skip_word(ts, p, "unsafe");
    if word_at(ts, p, "fn") && ident_at(ts, p + 1) {
        let k = find_ctrl(ts, p + 2, '(');
        if k < ts.len() {
            let (args, e) = parse_args(ts, k + 1);
            let e = skip_ctrl2(ts, e, ')', ')');
            let arrow = arrow_at(ts, e);
            let info = FunctionInfo {
                name: ident_name(ts, p + 1),
                args,
                void_return_type: !arrow,
                docs,
            };
            assert(info.args@.map_values(|a: String| a@) =~= arg_starts(views(ts@), k + 1).map_values(
                |a: int| arg_name(views(ts@), a),
            ));
            return Some((
                info,
                if arrow {
                    e + 1
                } else {
                    e
                },
            ));
        }
    }
    None
}

/// The declaration that starts at `i`, if any, with where it ends.
fn parse_decl(ts: &Vec<(Token, Span)>, i: usize) -> (r: Option<(ComplexToken, usize)>)
    requires
        i < ts.len(),
    ensures
        lifts(end_of(r), decl_at(views(ts@), i as int).1),
        r matches Some(x) ==> i < x.1 <= ts.len() && x.0@ == decl_view(
            views(ts@),
            decl_at(views(ts@), i as int).0,
            i as int,
        ),
{
    if let Some((f, e)) = parse_function(ts, i) {
        return Some((ComplexToken::Function(f), e));
    }
    if let Some((s, e)) = parse_struct(ts, i) {
        return Some((ComplexToken::Struct(s), e));
    }
    if let Some((name, docs, e)) = parse_keyword_decl(ts, i, true, "enum") {
        return Some((ComplexToken::Enum(EnumInfo { name, docs }), e));
    }
    if let Some((name, docs, e)) = parse_keyword_decl(ts, i, true, "const") {
        return Some((ComplexToken::Const(ConstInfo { name, docs }), e));
    }
    if let Some((name, docs, e)) = parse_keyword_decl(ts, i, false, "trait") {
        return Some((ComplexToken::Trait(TraitInfo { name, docs }), e));
    }
    None
}

/// Groups `ts` into complex tokens: each declaration becomes one, and each token
/// that starts none passes through as `Other`. Every token is consumed exactly
/// once, in order; the parser never fails.
pub fn complex_token_parser(ts: &Vec<(Token, Span)>) -> (r: Vec<(ComplexToken, Span)>)
    ensures
        parses_to(ts@, r@),
{
    let mut r: Vec<(ComplexToken, Span)> = Vec::new();
    let ghost done: Seq<(DeclKind, int, int)> = Seq::empty();
    let mut i: usize = 0;
    while i < ts.len()
        invariant
            i <= ts.len(),
            done + parse_from(views(ts@), i as int) == parse_from(views(ts@), 0),
            r.len() == done.len(),
            forall|k: int|
                0 <= k < r.len() ==> {
                    &&& (#[trigger] r@[k]).0@ == decl_view(views(ts@), done[k].0, done[k].1)
                    &&& 0 <= done[k].1 < done[k].2 <= ts.len()
                    &&& r@[k].1.start == ts@[done[k].1].1.start
                    &&& r@[k].1.end == ts@[done[k].2 - 1].1.end
                },
        decreases ts.len() - i,
    {
        let (ct, e) = match parse_decl(ts, i) {
            Some(x) => x,
            None => (ComplexToken::Other(copy_token(&ts[i].0)), i + 1),
        };
        let ghost item = (decl_at(views(ts@), i as int).0, i as int, e as int);
        proof {
            assert(parse_from(views(ts@), i as int) == seq![item] + parse_from(views(ts@), e as int));
            assert(done + parse_from(views(ts@), i as int) =~= done.push(item) + parse_from(
                views(ts@),
                e as int,
            ));
            done = done.push(item);
        }
        let span = Span { start: ts[i].1.start, end: ts[e - 1].1.end };
        r.push((ct, span));
        i = e;
    }
    assert(done =~= parse_from(views(ts@), 0));
    assert(decl_views(r@) =~= decls_of(views(ts@)));
    r
}

} // verus!
