//! The declaration grammar over a token sequence, as spec functions.
//!
//! Every recognizer takes the position where it starts and yields the position
//! after what it consumed, or `None` where it does not match. Alternatives are
//! ordered: the first that matches is taken, and nothing backtracks into it.
use vstd::prelude::*;
use crate::lexer::TokView;

verus! {

pub open spec fn is_ctrl_tok(ts: Seq<TokView>, i: int, c: char) -> bool {
    0 <= i < ts.len() && ts[i] == TokView::Ctrl(c)
}

pub open spec fn is_other_tok(ts: Seq<TokView>, i: int, c: char) -> bool {
    0 <= i < ts.len() && ts[i] == TokView::Other(c)
}

pub open spec fn is_ident_tok(ts: Seq<TokView>, i: int) -> bool {
    0 <= i < ts.len() && ts[i] is Ident
}

pub open spec fn is_comment_tok(ts: Seq<TokView>, i: int) -> bool {
    0 <= i < ts.len() && ts[i] is Comment
}

pub open spec fn is_arrow_tok(ts: Seq<TokView>, i: int) -> bool {
    0 <= i < ts.len() && ts[i] == TokView::Op("->"@)
}

/// The identifier `w` stands at `i`.
pub open spec fn is_word(ts: Seq<TokView>, i: int, w: Seq<char>) -> bool {
    0 <= i < ts.len() && ts[i] == TokView::Ident(w)
}

/// The text of the identifier at `i`.
pub open spec fn ident_text(ts: Seq<TokView>, i: int) -> Seq<char> {
    ts[i]->Ident_0
}

/// Steps over the identifier `w` where it stands at `i`.
pub open spec fn opt_word(ts: Seq<TokView>, i: int, w: Seq<char>) -> int {
    if is_word(ts, i, w) {
        i + 1
    } else {
        i
    }
}

/// Steps over a closing `c1` or `c2` where one stands at `i`.
pub open spec fn opt_ctrl2(ts: Seq<TokView>, i: int, c1: char, c2: char) -> int {
    if is_ctrl_tok(ts, i, c1) || is_ctrl_tok(ts, i, c2) {
        i + 1
    } else {
        i
    }
}

pub open spec fn or_else(a: Option<int>, b: Option<int>) -> Option<int> {
    if a is Some {
        a
    } else {
        b
    }
}

/// The first index from `i` on that holds the delimiter `c`, or the length.
pub open spec fn scan_ctrl(ts: Seq<TokView>, i: int, c: char) -> int
    decreases ts.len() - i,
{
    if 0 <= i < ts.len() && !is_ctrl_tok(ts, i, c) {
        scan_ctrl(ts, i + 1, c)
    } else {
        i
    }
}

/// The first index from `i` on that holds the character token `c`, or the length.
pub open spec fn scan_other(ts: Seq<TokView>, i: int, c: char) -> int
    decreases ts.len() - i,
{
    if 0 <= i < ts.len() && !is_other_tok(ts, i, c) {
        scan_other(ts, i + 1, c)
    } else {
        i
    }
}

/// The first index from `i` on that is not a comment.
pub open spec fn comments_end(ts: Seq<TokView>, i: int) -> int
    decreases ts.len() - i,
{
    if 0 <= i < ts.len() && is_comment_tok(ts, i) {
        comments_end(ts, i + 1)
    } else {
        i
    }
}

/// The texts of the comments at `a..b`, concatenated in order.
pub open spec fn docs_between(ts: Seq<TokView>, a: int, b: int) -> Seq<char>
    decreases b - a,
{
    if b <= a {
        Seq::empty()
    } else {
        docs_between(ts, a, b - 1) + ts[b - 1]->Comment_0
    }
}

/// An attribute `# [ ... ]`, closed by the first `]`.
pub open spec fn attr_at(ts: Seq<TokView>, i: int) -> Option<int> {
    if is_other_tok(ts, i, '#') && is_other_tok(ts, i + 1, '[') && scan_other(ts, i + 2, ']')
        < ts.len() {
        Some(scan_other(ts, i + 2, ']') + 1)
    } else {
        None
    }
}

/// Steps over any number of attributes.
pub open spec fn attrs_end(ts: Seq<TokView>, i: int) -> int
    decreases ts.len() - i,
{
    if 0 <= i && attr_at(ts, i) is Some && i < attr_at(ts, i)->0 <= ts.len() {
        attrs_end(ts, attr_at(ts, i)->0)
    } else {
        i
    }
}

/// A bare type: an identifier, or `[` identifier `]`.
pub open spec fn bare_type(ts: Seq<TokView>, i: int) -> Option<int> {
    if is_ident_tok(ts, i) {
        Some(i + 1)
    } else if is_other_tok(ts, i, '[') && is_ident_tok(ts, i + 1) && is_other_tok(ts, i + 2, ']') {
        Some(i + 3)
    } else {
        None
    }
}

/// `& ['lifetime] [mut]` and a bare type.
pub open spec fn ref_type(ts: Seq<TokView>, i: int) -> Option<int> {
    if is_other_tok(ts, i, '&') {
        let j = if is_other_tok(ts, i + 1, '\'') && is_ident_tok(ts, i + 2) {
            i + 3
        } else {
            i + 1
        };
        bare_type(ts, opt_word(ts, j, "mut"@))
    } else {
        None
    }
}

/// `dyn T`, `&impl T`, `mut T`, a reference, or a bare type, tried in that order.
pub open spec fn simple_type(ts: Seq<TokView>, i: int) -> Option<int> {
    let dyn_t = if is_word(ts, i, "dyn"@) {
        bare_type(ts, i + 1)
    } else {
        None
    };
    let impl_t = if is_other_tok(ts, i, '&') && is_word(ts, i + 1, "impl"@) {
        bare_type(ts, i + 2)
    } else {
        None
    };
    let mut_t = if is_word(ts, i, "mut"@) {
        bare_type(ts, i + 1)
    } else {
        None
    };
    or_else(or_else(or_else(or_else(dyn_t, impl_t), mut_t), ref_type(ts, i)), bare_type(ts, i))
}

/// A simple type, or `(` and a simple type, then `)` or `,` and the rest of the tuple.
pub open spec fn tuple_type(ts: Seq<TokView>, i: int) -> Option<int>
    decreases ts.len() - i,
{
    let head = or_else(
        simple_type(ts, i),
        if is_ctrl_tok(ts, i, '(') {
            simple_type(ts, i + 1)
        } else {
            None
        },
    );
    match head {
        Some(p) => if is_ctrl_tok(ts, p, ')') {
            Some(p + 1)
        } else if is_ctrl_tok(ts, p, ',') && i < p {
            tuple_type(ts, p + 1)
        } else {
            None
        },
        None => None,
    }
}

/// The arguments of a generic type after its name: an optional `<`, a tuple
/// or simple type, an optional nested `<...>`, then `>` or `,` and more arguments.
pub open spec fn generic_args(ts: Seq<TokView>, i: int) -> Option<int>
    decreases ts.len() - i,
{
    let j = if is_ctrl_tok(ts, i, '<') {
        i + 1
    } else {
        i
    };
    match or_else(tuple_type(ts, j), simple_type(ts, j)) {
        Some(k) => if 0 <= i < k {
            let k2 = if is_ctrl_tok(ts, k, '<') && generic_args(ts, k + 1) is Some
                && generic_args(ts, k + 1)->0 > k {
                generic_args(ts, k + 1)->0
            } else {
                k
            };
            if is_ctrl_tok(ts, k2, '>') {
                Some(k2 + 1)
            } else if is_ctrl_tok(ts, k2, ',') {
                generic_args(ts, k2 + 1)
            } else {
                None
            }
        } else {
            None
        },
        None => None,
    }
}

/// One type: generic (a simple type immediately followed by `<`), then
/// tuple, then simple.
pub open spec fn type_at(ts: Seq<TokView>, i: int) -> Option<int> {
    let generic = match simple_type(ts, i) {
        Some(p) => if is_ctrl_tok(ts, p, '<') {
            generic_args(ts, p)
        } else {
            None
        },
        None => None,
    };
    or_else(or_else(generic, tuple_type(ts, i)), simple_type(ts, i))
}

/// Where the name of a field that starts at `i` stands.
pub open spec fn field_name_pos(ts: Seq<TokView>, i: int) -> int {
    opt_word(ts, attrs_end(ts, comments_end(ts, i)), "pub"@)
}

/// A struct field: docs, attributes, `pub`, name, `:`, a type, then `,` or `}`.
pub open spec fn field_at(ts: Seq<TokView>, i: int) -> Option<int> {
    let p = field_name_pos(ts, i);
    if is_ident_tok(ts, p) && is_ctrl_tok(ts, p + 1, ':') {
        match type_at(ts, p + 2) {
            Some(e) => Some(opt_ctrl2(ts, e, ',', '}')),
            None => None,
        }
    } else {
        None
    }
}

/// Where each field of a run of fields from `i` starts.
pub open spec fn field_starts(ts: Seq<TokView>, i: int) -> Seq<int>
    decreases ts.len() - i,
{
    if 0 <= i && field_at(ts, i) is Some && i < field_at(ts, i)->0 <= ts.len() {
        seq![i] + field_starts(ts, field_at(ts, i)->0)
    } else {
        Seq::empty()
    }
}

/// Where a run of fields from `i` ends.
pub open spec fn fields_end(ts: Seq<TokView>, i: int) -> int
    decreases ts.len() - i,
{
    if 0 <= i && field_at(ts, i) is Some && i < field_at(ts, i)->0 <= ts.len() {
        fields_end(ts, field_at(ts, i)->0)
    } else {
        i
    }
}

/// Where the keyword of a struct, enum or const that starts at `i` stands.
pub open spec fn keyword_pos(ts: Seq<TokView>, i: int) -> int {
    opt_word(ts, attrs_end(ts, comments_end(ts, i)), "pub"@)
}

/// Where the keyword of a trait that starts at `i` stands (a trait takes no attributes).
pub open spec fn trait_keyword_pos(ts: Seq<TokView>, i: int) -> int {
    opt_word(ts, comments_end(ts, i), "pub"@)
}

/// Where the `{` that opens the body of a struct at `i` stands.
pub open spec fn struct_open_pos(ts: Seq<TokView>, i: int) -> int {
    scan_ctrl(ts, keyword_pos(ts, i) + 2, '{')
}

/// A struct: docs, attributes, `pub`, `struct`, name, anything up to `{`, fields, `}`.
pub open spec fn struct_at(ts: Seq<TokView>, i: int) -> Option<int> {
    let p = keyword_pos(ts, i);
    let k = struct_open_pos(ts, i);
    if is_word(ts, p, "struct"@) && is_ident_tok(ts, p + 1) && k
        < ts.len() {
        Some(opt_ctrl2(ts, fields_end(ts, k + 1), '}', '}'))
    } else {
        None
    }
}

/// A declaration made of docs, a keyword at `p` and a name.
pub open spec fn keyword_decl(ts: Seq<TokView>, p: int, kw: Seq<char>) -> Option<int> {
    if is_word(ts, p, kw) && is_ident_tok(ts, p + 1) {
        Some(p + 2)
    } else {
        None
    }
}

pub open spec fn enum_at(ts: Seq<TokView>, i: int) -> Option<int> {
    keyword_decl(ts, keyword_pos(ts, i), "enum"@)
}

pub open spec fn const_at(ts: Seq<TokView>, i: int) -> Option<int> {
    keyword_decl(ts, keyword_pos(ts, i), "const"@)
}

pub open spec fn trait_at(ts: Seq<TokView>, i: int) -> Option<int> {
    keyword_decl(ts, trait_keyword_pos(ts, i), "trait"@)
}

/// A receiver: `self`, `&self` or `&mut self`, then `,` or `)`.
pub open spec fn self_arg_at(ts: Seq<TokView>, i: int) -> Option<int> {
    let s = "self"@;
    let head = if is_word(ts, i, s) {
        Some(i + 1)
    } else if is_other_tok(ts, i, '&') && is_word(ts, i + 1, s) {
        Some(i + 2)
    } else if is_other_tok(ts, i, '&') && is_word(ts, i + 1, "mut"@) && is_word(
        ts,
        i + 2,
        s,
    ) {
        Some(i + 3)
    } else {
        None
    };
    match head {
        Some(p) => if is_ctrl_tok(ts, p, ',') || is_ctrl_tok(ts, p, ')') {
            Some(p + 1)
        } else {
            None
        },
        None => None,
    }
}

/// Where the name of a named argument at `i` stands: after `mut` where `mut` and a name follow.
pub open spec fn arg_name_pos(ts: Seq<TokView>, i: int) -> int {
    if is_word(ts, i, "mut"@) && is_ident_tok(ts, i + 1) {
        i + 1
    } else {
        i
    }
}

/// A named argument: `[mut] name : type`, then `,` or `)`.
pub open spec fn named_arg_at(ts: Seq<TokView>, i: int) -> Option<int> {
    let n = arg_name_pos(ts, i);
    if is_ident_tok(ts, n) && is_ctrl_tok(ts, n + 1, ':') {
        match type_at(ts, n + 2) {
            Some(e) => Some(opt_ctrl2(ts, e, ',', ')')),
            None => None,
        }
    } else {
        None
    }
}

pub open spec fn arg_at(ts: Seq<TokView>, i: int) -> Option<int> {
    or_else(self_arg_at(ts, i), named_arg_at(ts, i))
}

/// The name an argument at `i` is recorded under: `self` for a receiver.
pub open spec fn arg_name(ts: Seq<TokView>, i: int) -> Seq<char> {
    if self_arg_at(ts, i) is Some {
        "self"@
    } else {
        ident_text(ts, arg_name_pos(ts, i))
    }
}

/// Where each argument of a run of arguments from `i` starts.
pub open spec fn arg_starts(ts: Seq<TokView>, i: int) -> Seq<int>
    decreases ts.len() - i,
{
    if 0 <= i && arg_at(ts, i) is Some && i < arg_at(ts, i)->0 <= ts.len() {
        seq![i] + arg_starts(ts, arg_at(ts, i)->0)
    } else {
        Seq::empty()
    }
}

/// Where a run of arguments from `i` ends.
pub open spec fn args_end(ts: Seq<TokView>, i: int) -> int
    decreases ts.len() - i,
{
    if 0 <= i && arg_at(ts, i) is Some && i < arg_at(ts, i)->0 <= ts.len() {
        args_end(ts, arg_at(ts, i)->0)
    } else {
        i
    }
}

/// Where the `fn` keyword of a function at `i` stands: after docs, `extern "ABI"`,
/// attributes, `pub`, `const` and `unsafe`.
pub open spec fn fn_keyword_pos(ts: Seq<TokView>, i: int) -> int {
    let c = comments_end(ts, i);
    let x = if is_word(ts, c, "extern"@) && is_other_tok(ts, c + 1, '"')
        && is_ident_tok(ts, c + 2) && is_other_tok(ts, c + 3, '"') {
        c + 4
    } else {
        c
    };
    let after_pub = opt_word(ts, attrs_end(ts, x), "pub"@);
    let after_const = opt_word(ts, after_pub, "const"@);
    opt_word(ts, after_const, "unsafe"@)
}

/// Where the `(` that opens the arguments of a function at `i` stands.
pub open spec fn fn_open_pos(ts: Seq<TokView>, i: int) -> int {
    scan_ctrl(ts, fn_keyword_pos(ts, i) + 2, '(')
}

/// Where the arguments of a function at `i` and their optional `)` end.
pub open spec fn fn_args_close(ts: Seq<TokView>, i: int) -> int {
    opt_ctrl2(ts, args_end(ts, fn_open_pos(ts, i) + 1), ')', ')')
}

/// A function: `fn`, name, anything up to `(`, arguments, `)`, and an optional `->`.
pub open spec fn fn_at(ts: Seq<TokView>, i: int) -> Option<int> {
    let p = fn_keyword_pos(ts, i);
    if is_word(ts, p, "fn"@) && is_ident_tok(ts, p + 1) && fn_open_pos(ts, i)
        < ts.len() {
        let e = fn_args_close(ts, i);
        Some(
            if is_arrow_tok(ts, e) {
                e + 1
            } else {
                e
            },
        )
    } else {
        None
    }
}

/// The kinds of complex token.
pub enum DeclKind {
    Function,
    Struct,
    Enum,
    Const,
    Trait,
    Pass,
}

/// The declaration that starts at `i`, tried as function, struct, enum, const, trait.
pub open spec fn decl_at(ts: Seq<TokView>, i: int) -> (DeclKind, Option<int>) {
    if fn_at(ts, i) is Some {
        (DeclKind::Function, fn_at(ts, i))
    } else if struct_at(ts, i) is Some {
        (DeclKind::Struct, struct_at(ts, i))
    } else if enum_at(ts, i) is Some {
        (DeclKind::Enum, enum_at(ts, i))
    } else if const_at(ts, i) is Some {
        (DeclKind::Const, const_at(ts, i))
    } else if trait_at(ts, i) is Some {
        (DeclKind::Trait, trait_at(ts, i))
    } else {
        (DeclKind::Pass, None)
    }
}

/// The complex tokens from `i` on, each as its kind, first token and end.
/// A token that starts no declaration passes through alone.
pub open spec fn parse_from(ts: Seq<TokView>, i: int) -> Seq<(DeclKind, int, int)>
    decreases ts.len() - i,
{
    if i < 0 || i >= ts.len() {
        Seq::empty()
    } else {
        let (k, r) = decl_at(ts, i);
        let e = match r {
            Some(e) => if i < e <= ts.len() {
                e
            } else {
                i + 1
            },
            None => i + 1,
        };
        seq![(k, i, e)] + parse_from(ts, e)
    }
}

} // verus!
