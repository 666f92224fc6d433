//! Checks the documentation of each declaration in a complex token sequence.
use vstd::prelude::*;
use vstd::utf8::is_ascii_chars;
use crate::lexer::{chars_of, is_ws, lex_from, push_char, skip_ws, tokens_of, token_parser, Span};
use crate::parser::{
    text_is,
    complex_token_parser, decl_views, decls_of, ComplexToken, ConstInfo, DeclView, EnumInfo,
    FunctionInfo, StructField, StructInfo, TraitInfo,
};

verus! {

/// `c` is the lower-case ASCII letter `lower`, in either case.
pub open spec fn same_letter(c: char, lower: char) -> bool {
    c == lower || (('A' as u32) <= (c as u32) <= ('Z' as u32) && (c as u32) + 32 == (lower as u32))
}

/// The word `return`, in any mix of cases, starts at index `i` of `d`.
pub open spec fn return_at(d: Seq<char>, i: int) -> bool {
    &&& 0 <= i
    &&& i + 6 <= d.len()
    &&& same_letter(d[i], 'r')
    &&& same_letter(d[i + 1], 'e')
    &&& same_letter(d[i + 2], 't')
    &&& same_letter(d[i + 3], 'u')
    &&& same_letter(d[i + 4], 'r')
    &&& same_letter(d[i + 5], 'n')
}

/// `d` holds the word `return` in any mix of cases, as part of any word.
pub open spec fn mentions_return(d: Seq<char>) -> bool {
    exists|i: int| return_at(d, i)
}

/// The marker `` * ` `` that opens an argument's documentation starts at `p`.
pub open spec fn marker_at(d: Seq<char>, p: int) -> bool {
    0 <= p && p + 3 <= d.len() && d[p] == '*' && d[p + 1] == ' ' && d[p + 2] == '`'
}

/// The name read from index `j` on after `acc`: back-ticks before the first
/// character are skipped, the next back-tick (or the end) stops it.
pub open spec fn read_name(d: Seq<char>, j: int, acc: Seq<char>) -> Seq<char>
    decreases d.len() - j,
{
    if j < 0 || j >= d.len() {
        acc
    } else if d[j] == '`' {
        if acc.len() == 0 {
            read_name(d, j + 1, acc)
        } else {
            acc
        }
    } else {
        read_name(d, j + 1, acc.push(d[j]))
    }
}

/// The names documented by markers at or after `p`, in order.
pub open spec fn doc_args_from(d: Seq<char>, p: int) -> Seq<Seq<char>>
    decreases d.len() - p,
{
    if p < 0 || p >= d.len() {
        Seq::empty()
    } else if marker_at(d, p) {
        seq![read_name(d, p + 3, Seq::empty())] + doc_args_from(d, p + 3)
    } else {
        doc_args_from(d, p + 1)
    }
}

/// The argument names that the documentation `d` describes.
pub open spec fn documented_args(d: Seq<char>) -> Seq<Seq<char>> {
    doc_args_from(d, 0)
}

/// The first declared argument from index `k` on, other than `self`, that is not documented.
pub open spec fn first_undocumented(
    args: Seq<Seq<char>>,
    documented: Seq<Seq<char>>,
    k: int,
) -> Option<Seq<char>>
    decreases args.len() - k,
{
    if k < 0 || k >= args.len() {
        None
    } else if args[k] != "self"@ && !documented.contains(args[k]) {
        Some(args[k])
    } else {
        first_undocumented(args, documented, k + 1)
    }
}

/// The first documented name from index `k` on that is no declared argument.
pub open spec fn first_unknown(
    documented: Seq<Seq<char>>,
    args: Seq<Seq<char>>,
    k: int,
) -> Option<Seq<char>>
    decreases documented.len() - k,
{
    if k < 0 || k >= documented.len() {
        None
    } else if !args.contains(documented[k]) {
        Some(documented[k])
    } else {
        first_unknown(documented, args, k + 1)
    }
}

/// The name of the first field from index `k` on without documentation.
pub open spec fn first_undocumented_field(fields: Seq<(Seq<char>, Seq<char>)>, k: int) -> Option<
    Seq<char>,
>
    decreases fields.len() - k,
{
    if k < 0 || k >= fields.len() {
        None
    } else if fields[k].1.len() == 0 {
        Some(fields[k].0)
    } else {
        first_undocumented_field(fields, k + 1)
    }
}

/// How a character is written into a message: a line break as `\n` or `\r`.
pub open spec fn escape_char(c: char) -> Seq<char> {
    if c == '\n' {
        seq!['\\', 'n']
    } else if c == '\r' {
        seq!['\\', 'r']
    } else {
        seq![c]
    }
}

/// `x` as written into a message, with its line breaks escaped.
pub open spec fn escape_breaks(x: Seq<char>) -> Seq<char>
    decreases x.len(),
{
    if x.len() == 0 {
        Seq::empty()
    } else {
        escape_breaks(x.drop_last()) + escape_char(x.last())
    }
}

/// `m` holds no line break.
pub open spec fn one_line(m: Seq<char>) -> bool {
    forall|i: int| 0 <= i < m.len() ==> #[trigger] m[i] != '\n' && m[i] != '\r'
}

proof fn lemma_one_line_concat(a: Seq<char>, b: Seq<char>)
    requires
        one_line(a),
        one_line(b),
    ensures
        one_line(a + b),
{
    assert forall|i: int| 0 <= i < (a + b).len() implies #[trigger] (a + b)[i] != '\n' && (a
        + b)[i] != '\r' by {
        if i >= a.len() {
            assert((a + b)[i] == b[i - a.len()]);
        }
    }
}

/// Escaping leaves no line break.
pub proof fn lemma_escape_one_line(x: Seq<char>)
    ensures
        one_line(escape_breaks(x)),
    decreases x.len(),
{
    if x.len() > 0 {
        lemma_escape_one_line(x.drop_last());
        lemma_one_line_concat(escape_breaks(x.drop_last()), escape_char(x.last()));
    }
}

/// The error for a function with these parts, if any.
pub open spec fn function_error(
    name: Seq<char>,
    args: Seq<Seq<char>>,
    void_return: bool,
    docs: Seq<char>,
) -> Option<Seq<char>> {
    let documented = documented_args(docs);
    if docs.len() == 0 {
        Some("expected to find documentation for the function \""@ + escape_breaks(name) + "\""@)
    } else if !is_ascii_chars(docs) {
        Some("expected the documentation for the function \""@ + escape_breaks(name)
            + "\" to only use ASCII characters"@)
    } else if !void_return && !mentions_return(docs) {
        Some(
            "expected to find the \"return\" keyword (case-insensitive) in the documentation that describes the return value for the function \""@
                + escape_breaks(name) + "\""@,
        )
    } else if void_return && mentions_return(docs) {
        Some("found documentation of the VOID return value for the function \""@ + escape_breaks(name) + "\""@)
    } else if first_undocumented(args, documented, 0) is Some {
        Some("expected to find documentation for the argument \""@ + escape_breaks(first_undocumented(
            args,
            documented,
            0,
        )->0) + "\" of the function \""@ + escape_breaks(name) + "\""@)
    } else if first_unknown(documented, args, 0) is Some {
        Some("found documentation for a non-existing argument \""@ + escape_breaks(first_unknown(
            documented,
            args,
            0,
        )->0) + "\" of the function \""@ + escape_breaks(name) + "\""@)
    } else {
        None
    }
}

/// The error for a declaration of kind `kind` whose docs are `docs`, if they are empty.
pub open spec fn empty_docs_error(kind: Seq<char>, name: Seq<char>, docs: Seq<char>) -> Option<
    Seq<char>,
> {
    if docs.len() == 0 {
        Some("expected to find documentation for the "@ + escape_breaks(kind) + " \""@ + escape_breaks(name)
            + "\""@)
    } else {
        None
    }
}

/// The error for a struct, if any: its own docs first, then each field's.
pub open spec fn struct_error(
    name: Seq<char>,
    fields: Seq<(Seq<char>, Seq<char>)>,
    docs: Seq<char>,
) -> Option<Seq<char>> {
    if docs.len() == 0 {
        empty_docs_error("struct"@, name, docs)
    } else {
        field_error(fields)
    }
}

/// The error for the first field without documentation, if any.
pub open spec fn field_error(fields: Seq<(Seq<char>, Seq<char>)>) -> Option<Seq<char>> {
    match first_undocumented_field(fields, 0) {
        Some(f) => Some("expected to find documentation for the struct field \""@ + escape_breaks(f)
            + "\""@),
        None => None,
    }
}

/// The error for one complex token, if any.
pub open spec fn decl_error(d: DeclView) -> Option<Seq<char>> {
    match d {
        DeclView::Struct { name, fields, docs } => struct_error(name, fields, docs),
        DeclView::Function { name, args, void_return, docs } => function_error(
            name,
            args,
            void_return,
            docs,
        ),
        DeclView::Enum { name, docs } => empty_docs_error("enum"@, name, docs),
        DeclView::Trait { name, docs } => empty_docs_error("trait"@, name, docs),
        DeclView::Const { name, docs } => empty_docs_error("const"@, name, docs),
        DeclView::Other(_) => None,
    }
}

/// The first error among the complex tokens from index `k` on.
pub open spec fn first_error(ds: Seq<DeclView>, k: int) -> Option<Seq<char>>
    decreases ds.len() - k,
{
    if k < 0 || k >= ds.len() {
        None
    } else if decl_error(ds[k]) is Some {
        decl_error(ds[k])
    } else {
        first_error(ds, k + 1)
    }
}

/// The outcome of checking the text `s`: `None` where it passes, else the message.
pub open spec fn check_text(s: Seq<char>) -> Option<Seq<char>> {
    first_error(decls_of(tokens_of(s)), 0)
}

/// `r` reports the outcome `e`.
pub open spec fn reports(r: Result<(), String>, e: Option<Seq<char>>) -> bool {
    match r {
        Ok(_) => e is None,
        Err(m) => e == Some(m@),
    }
}

pub open spec fn string_views(v: Seq<String>) -> Seq<Seq<char>> {
    v.map_values(|s: String| s@)
}

/// What a declaration's documentation must satisfy: it is present for every
/// kind; every field of a struct is documented; a function's documentation is
/// ASCII, mentions `return` exactly when the function returns a value,
/// documents every argument but `self`, and documents no undeclared name.
pub open spec fn well_documented(d: DeclView) -> bool {
    match d {
        DeclView::Struct { name, fields, docs } => docs.len() > 0 && forall|k: int|
            0 <= k < fields.len() ==> (#[trigger] fields[k]).1.len() > 0,
        DeclView::Function { name, args, void_return, docs } => {
            &&& docs.len() > 0
            &&& is_ascii_chars(docs)
            &&& mentions_return(docs) == !void_return
            &&& forall|a: Seq<char>|
                #![trigger args.contains(a)]
                args.contains(a) && a != "self"@ ==> documented_args(docs).contains(a)
            &&& forall|n: Seq<char>|
                #![trigger documented_args(docs).contains(n)]
                documented_args(docs).contains(n) ==> args.contains(n)
        },
        DeclView::Enum { name, docs } => docs.len() > 0,
        DeclView::Trait { name, docs } => docs.len() > 0,
        DeclView::Const { name, docs } => docs.len() > 0,
        DeclView::Other(_) => true,
    }
}

proof fn lemma_first_undocumented_field(fields: Seq<(Seq<char>, Seq<char>)>, k: int)
    requires
        0 <= k,
    ensures
        first_undocumented_field(fields, k) is None <==> forall|j: int|
            k <= j < fields.len() ==> (#[trigger] fields[j]).1.len() > 0,
    decreases fields.len() - k,
{
    if k < fields.len() {
        lemma_first_undocumented_field(fields, k + 1);
    }
}

proof fn lemma_first_undocumented(args: Seq<Seq<char>>, documented: Seq<Seq<char>>, k: int)
    requires
        0 <= k,
    ensures
        first_undocumented(args, documented, k) is None <==> forall|j: int|
            k <= j < args.len() && (#[trigger] args[j]) != "self"@ ==> documented.contains(
                args[j],
            ),
    decreases args.len() - k,
{
    if k < args.len() {
        lemma_first_undocumented(args, documented, k + 1);
    }
}

proof fn lemma_first_unknown(documented: Seq<Seq<char>>, args: Seq<Seq<char>>, k: int)
    requires
        0 <= k,
    ensures
        first_unknown(documented, args, k) is None <==> forall|j: int|
            k <= j < documented.len() ==> args.contains(#[trigger] documented[j]),
    decreases documented.len() - k,
{
    if k < documented.len() {
        lemma_first_unknown(documented, args, k + 1);
    }
}

/// One complex token raises no error exactly when it is well documented.
proof fn lemma_decl_error(d: DeclView)
    ensures
        decl_error(d) is None <==> well_documented(d),
{
    match d {
        DeclView::Struct { name, fields, docs } => {
            lemma_first_undocumented_field(fields, 0);
        },
        DeclView::Function { name, args, void_return, docs } => {
            let documented = documented_args(docs);
            lemma_first_undocumented(args, documented, 0);
            lemma_first_unknown(documented, args, 0);
            if first_undocumented(args, documented, 0) is None {
                assert forall|a: Seq<char>|
                    #![trigger args.contains(a)]
                    args.contains(a) && a != "self"@ implies documented.contains(a) by {
                    let j = choose|j: int| 0 <= j < args.len() && args[j] == a;
                }
            }
            if first_unknown(documented, args, 0) is None {
                assert forall|n: Seq<char>|
                    #![trigger documented.contains(n)]
                    documented.contains(n) implies args.contains(n) by {
                    let j = choose|j: int| 0 <= j < documented.len() && documented[j] == n;
                }
            }
            if well_documented(d) {
                assert forall|j: int| 0 <= j < args.len() && (#[trigger] args[j]) != "self"@ implies documented.contains(
                    args[j],
                ) by {
                    assert(args.contains(args[j]));
                }
                assert forall|j: int| 0 <= j < documented.len() implies args.contains(
                    #[trigger] documented[j],
                ) by {
                    assert(documented.contains(documented[j]));
                }
            }
        },
        _ => {},
    }
}

proof fn lemma_first_error_skips(ds: Seq<DeclView>, k: int, m: int)
    requires
        0 <= k <= m,
        forall|j: int| k <= j < ds.len() && j != m ==> (#[trigger] ds[j]) is Other,
    ensures
        first_error(ds, k) == if m < ds.len() {
            first_error(ds, m)
        } else {
            None
        },
    decreases ds.len() - k,
{
    if k < ds.len() && k < m {
        lemma_first_error_skips(ds, k + 1, m);
    } else if k < ds.len() && k == m && m + 1 < ds.len() {
        lemma_first_error_skips(ds, m + 1, ds.len() as int);
    }
}

/// A sequence that holds one declaration among tokens that start none is
/// accepted exactly when that declaration is well documented. For a text `s`
/// the sequence is `decls_of(tokens_of(s))`, and its first error is `check_text(s)`.
pub proof fn lemma_single_declaration(ds: Seq<DeclView>, m: int)
    requires
        0 <= m < ds.len(),
        forall|k: int| 0 <= k < ds.len() && k != m ==> (#[trigger] ds[k]) is Other,
    ensures
        first_error(ds, 0) is None <==> well_documented(ds[m]),
{
    lemma_first_error_skips(ds, 0, m);
    lemma_decl_error(ds[m]);
    if m + 1 < ds.len() {
        lemma_first_error_skips(ds, m + 1, ds.len() as int);
    }
}

/// Checking is deterministic: two checks of the same text report the same outcome.
pub proof fn lemma_check_deterministic(s: Seq<char>, r1: Result<(), String>, r2: Result<(), String>)
    requires
        reports(r1, check_text(s)),
        reports(r2, check_text(s)),
    ensures
        r1 is Ok <==> r2 is Ok,
        r1 is Err && r2 is Err ==> r1->Err_0@ == r2->Err_0@,
{
}

/// Text in which no declaration is found passes the check.
pub proof fn lemma_no_declarations(s: Seq<char>)
    requires
        forall|k: int|
            0 <= k < decls_of(tokens_of(s)).len() ==> (#[trigger] decls_of(tokens_of(s))[k]) is Other,
    ensures
        check_text(s) is None,
{
    lemma_first_error_skips(decls_of(tokens_of(s)), 0, decls_of(tokens_of(s)).len() as int);
}

/// Empty text, and text made of white space alone, passes the check.
pub proof fn lemma_blank_text(s: Seq<char>)
    requires
        forall|j: int| 0 <= j < s.len() ==> is_ws(#[trigger] s[j]),
    ensures
        tokens_of(s).len() == 0,
        check_text(s) is None,
{
    lemma_skip_all_ws(s, 0);
    assert(lex_from(s, 0) =~= Seq::empty());
    assert(decls_of(tokens_of(s)) =~= Seq::empty());
}

proof fn lemma_skip_all_ws(s: Seq<char>, i: int)
    requires
        0 <= i <= s.len(),
        forall|j: int| 0 <= j < s.len() ==> is_ws(#[trigger] s[j]),
    ensures
        skip_ws(s, i) == s.len(),
    decreases s.len() - i,
{
    if i < s.len() {
        lemma_skip_all_ws(s, i + 1);
    }
}

/// The fixed parts of every message hold no line break.
proof fn lemma_message_parts_one_line()
    ensures
        one_line("expected to find documentation for the function \""@),
        one_line("\""@),
        one_line("expected the documentation for the function \""@),
        one_line("\" to only use ASCII characters"@),
        one_line("expected to find the \"return\" keyword (case-insensitive) in the documentation that describes the return value for the function \""@),
        one_line("found documentation of the VOID return value for the function \""@),
        one_line("expected to find documentation for the argument \""@),
        one_line("\" of the function \""@),
        one_line("found documentation for a non-existing argument \""@),
        one_line("expected to find documentation for the "@),
        one_line(" \""@),
        one_line("expected to find documentation for the struct field \""@),
{
    reveal_strlit("expected to find documentation for the function \"");
    reveal_strlit("\"");
    reveal_strlit("expected the documentation for the function \"");
    reveal_strlit("\" to only use ASCII characters");
    reveal_strlit("expected to find the \"return\" keyword (case-insensitive) in the documentation that describes the return value for the function \"");
    reveal_strlit("found documentation of the VOID return value for the function \"");
    reveal_strlit("expected to find documentation for the argument \"");
    reveal_strlit("\" of the function \"");
    reveal_strlit("found documentation for a non-existing argument \"");
    reveal_strlit("expected to find documentation for the ");
    reveal_strlit(" \"");
    reveal_strlit("expected to find documentation for the struct field \"");
}

/// Appends `x` to `m` with its line breaks escaped.
fn push_escaped(m: &mut String, x: &str)
    ensures
        final(m)@ == old(m)@ + escape_breaks(x@),
{
    let cs = chars_of(x);
    let mut k: usize = 0;
    while k < cs.len()
        invariant
            k <= cs.len(),
            cs@ == x@,
            m@ == old(m)@ + escape_breaks(x@.take(k as int)),
        decreases cs.len() - k,
    {
        let c = cs[k];
        proof {
            assert(x@.take(k + 1).drop_last() =~= x@.take(k as int));
            assert(x@.take(k + 1).last() == c);
        }
        if c == '\n' {
            m.append("\\n");
            proof { reveal_strlit("\\n"); }
        } else if c == '\r' {
            m.append("\\r");
            proof { reveal_strlit("\\r"); }
        } else {
            push_char(m, c);
        }
        assert(m@ =~= old(m)@ + escape_breaks(x@.take(k + 1)));
        k = k + 1;
    }
    assert(x@.take(k as int) =~= x@);
}

/// The message `a`, `x`, `b` with the line breaks of `x` escaped.
fn msg3(a: &str, x: &str, b: &str) -> (r: String)
    ensures
        r@ == a@ + escape_breaks(x@) + b@,
        one_line(a@) && one_line(b@) ==> one_line(r@),
{
    let mut m = a.to_owned();
    push_escaped(&mut m, x);
    m.append(b);
    proof {
        lemma_escape_one_line(x@);
        if one_line(a@) && one_line(b@) {
            lemma_one_line_concat(a@, escape_breaks(x@));
            lemma_one_line_concat(a@ + escape_breaks(x@), b@);
        }
    }
    m
}

/// The message `a`, `x`, `b`, `y`, `c` with the line breaks of `x` and `y` escaped.
fn msg5(a: &str, x: &str, b: &str, y: &str, c: &str) -> (r: String)
    ensures
        r@ == a@ + escape_breaks(x@) + b@ + escape_breaks(y@) + c@,
        one_line(a@) && one_line(b@) && one_line(c@) ==> one_line(r@),
{
    let mut m = a.to_owned();
    push_escaped(&mut m, x);
    m.append(b);
    push_escaped(&mut m, y);
    m.append(c);
    proof {
        lemma_escape_one_line(x@);
        lemma_escape_one_line(y@);
        if one_line(a@) && one_line(b@) && one_line(c@) {
            lemma_one_line_concat(a@, escape_breaks(x@));
            lemma_one_line_concat(a@ + escape_breaks(x@), b@);
            lemma_one_line_concat(a@ + escape_breaks(x@) + b@, escape_breaks(y@));
            lemma_one_line_concat(a@ + escape_breaks(x@) + b@ + escape_breaks(y@), c@);
        }
    }
    m
}

fn same_letter_exec(c: char, lower: char) -> (r: bool)
    ensures
        r == same_letter(c, lower),
{
    c == lower || ('A' as u32 <= c as u32 && c as u32 <= 'Z' as u32 && c as u32 + 32 == lower as u32)
}

/// Whether `d` holds the word `return` in any mix of cases.
fn has_return_word(d: &Vec<char>) -> (r: bool)
    ensures
        r == mentions_return(d@),
{
    let mut i: usize = 0;
    while i < d.len() && d.len() - i >= 6
        invariant
            i <= d.len(),
            forall|j: int| 0 <= j < i ==> !return_at(d@, j),
        decreases d.len() - i,
    {
        if same_letter_exec(d[i], 'r') && same_letter_exec(d[i + 1], 'e') && same_letter_exec(
            d[i + 2],
            't',
        ) && same_letter_exec(d[i + 3], 'u') && same_letter_exec(d[i + 4], 'r')
            && same_letter_exec(d[i + 5], 'n') {
            assert(return_at(d@, i as int));
            return true;
        }
        i = i + 1;
    }
    assert forall|j: int| !return_at(d@, j) by {
        if 0 <= j < i {
        }
    }
    false
}

/// The name that starts at `j`, read as `read_name` describes.
fn read_arg_name(d: &Vec<char>, j: usize) -> (r: String)
    requires
        j <= d.len(),
    ensures
        r@ == read_name(d@, j as int, Seq::empty()),
{
    let mut acc = String::new();
    let mut k: usize = j;
    let mut done = false;
    while k < d.len() && !done
        invariant
            j <= k <= d.len(),
            !done ==> read_name(d@, k as int, acc@) == read_name(d@, j as int, Seq::empty()),
            done ==> acc@ == read_name(d@, j as int, Seq::empty()),
        decreases d.len() - k,
    {
        if d[k] == '`' {
            if !acc.as_str().is_empty() {
                done = true;
            }
        } else {
            push_char(&mut acc, d[k]);
        }
        k = k + 1;
    }
    acc
}

/// The argument names that the documentation `d` describes, in order.
fn documented_arg_names(d: &Vec<char>) -> (r: Vec<String>)
    ensures
        string_views(r@) == documented_args(d@),
{
    let mut r: Vec<String> = Vec::new();
    let mut p: usize = 0;
    while p < d.len()
        invariant
            p <= d.len(),
            string_views(r@) + doc_args_from(d@, p as int) == documented_args(d@),
        decreases d.len() - p,
    {
        if d.len() - p >= 3 && d[p] == '*' && d[p + 1] == ' ' && d[p + 2] == '`' {
            let name = read_arg_name(d, p + 3);
            assert(string_views(r@.push(name)) =~= string_views(r@).push(name@));
            assert(string_views(r@) + doc_args_from(d@, p as int) =~= string_views(r@).push(name@)
                + doc_args_from(d@, p + 3));
            r.push(name);
            p = p + 3;
        } else {
            p = p + 1;
        }
    }
    assert(string_views(r@) =~= documented_args(d@));
    r
}

/// Whether `v` holds a string equal to `x`.
fn contains_string(v: &Vec<String>, x: &String) -> (r: bool)
    ensures
        r == string_views(v@).contains(x@),
{
    let mut i: usize = 0;
    while i < v.len()
        invariant
            i <= v.len(),
            forall|j: int| 0 <= j < i ==> v@[j]@ != x@,
        decreases v.len() - i,
    {
        if text_is(x, v[i].as_str()) {
            assert(string_views(v@)[i as int] == x@);
            return true;
        }
        i = i + 1;
    }
    false
}

/// The index of the first declared argument, other than `self`, that is not documented.
fn find_undocumented(args: &Vec<String>, documented: &Vec<String>) -> (r: Option<usize>)
    ensures
        match r {
            Some(k) => k < args.len() && first_undocumented(
                string_views(args@),
                string_views(documented@),
                0,
            ) == Some(args@[k as int]@),
            None => first_undocumented(string_views(args@), string_views(documented@), 0) is None,
        },
{
    let mut k: usize = 0;
    while k < args.len()
        invariant
            k <= args.len(),
            first_undocumented(string_views(args@), string_views(documented@), k as int)
                == first_undocumented(string_views(args@), string_views(documented@), 0),
        decreases args.len() - k,
    {
        if !text_is(&args[k], "self") && !contains_string(documented, &args[k]) {
            return Some(k);
        }
        k = k + 1;
    }
    None
}

/// The index of the first documented name that is no declared argument.
fn find_unknown(documented: &Vec<String>, args: &Vec<String>) -> (r: Option<usize>)
    ensures
        match r {
            Some(k) => k < documented.len() && first_unknown(
                string_views(documented@),
                string_views(args@),
                0,
            ) == Some(documented@[k as int]@),
            None => first_unknown(string_views(documented@), string_views(args@), 0) is None,
        },
{
    let mut k: usize = 0;
    while k < documented.len()
        invariant
            k <= documented.len(),
            first_unknown(string_views(documented@), string_views(args@), k as int)
                == first_unknown(string_views(documented@), string_views(args@), 0),
        decreases documented.len() - k,
    {
        if !contains_string(args, &documented[k]) {
            return Some(k);
        }
        k = k + 1;
    }
    None
}

/// Checks that a declaration of kind `kind` has documentation.
fn check_named_docs(kind: &str, name: &String, docs: &String) -> (r: Result<(), String>)
    ensures
        reports(r, empty_docs_error(kind@, name@, docs@)),
        r matches Err(m) ==> one_line(m@),
{
    proof {
        lemma_message_parts_one_line();
    }
    if docs.as_str().is_empty() {
        Err(msg5("expected to find documentation for the ", kind, " \"", name.as_str(), "\""))
    } else {
        Ok(())
    }
}

/// Checks the documentation of declarations.
pub struct DocChecker {}

impl DocChecker {
    pub fn new() -> Self {
        DocChecker {  }
    }

    /// Lexes and parses `content`, then checks every declaration in it; the
    /// first failure, in source order, is returned.
    pub fn check_documentation(&self, content: &str) -> (r: Result<(), String>)
        requires
            4 * content@.len() <= usize::MAX,
        ensures
            reports(r, check_text(content@)),
            r matches Err(m) ==> one_line(m@),
    {
        let tokens = token_parser(content);
        let complex = complex_token_parser(&tokens);
        self.check_complex_tokens(&complex)
    }

    /// Checks each complex token in order and stops at the first failure.
    pub fn check_complex_tokens(&self, complex_tokens: &Vec<(ComplexToken, Span)>) -> (r: Result<
        (),
        String,
    >)
        ensures
            reports(r, first_error(decl_views(complex_tokens@), 0)),
            r matches Err(m) ==> one_line(m@),
    {
        let ghost ds = decl_views(complex_tokens@);
        let mut k: usize = 0;
        while k < complex_tokens.len()
            invariant
                k <= complex_tokens.len(),
                ds == decl_views(complex_tokens@),
                first_error(ds, k as int) == first_error(ds, 0),
            decreases complex_tokens.len() - k,
        {
            assert(ds[k as int] == complex_tokens@[k as int].0@);
            let res = match &complex_tokens[k].0 {
                ComplexToken::Struct(info) => match Self::check_struct_docs(info) {
                    Ok(()) => Self::check_struct_field_docs(info),
                    Err(m) => Err(m),
                },
                ComplexToken::Function(info) => Self::check_function_docs(info),
                ComplexToken::Enum(info) => Self::check_enum_docs(info),
                ComplexToken::Trait(info) => Self::check_trait_docs(info),
                ComplexToken::Const(info) => Self::check_const_docs(info),
                ComplexToken::Other(_) => Ok(()),
            };
            if res.is_err() {
                return res;
            }
            k = k + 1;
        }
        Ok(())
    }

    /// Checks that a function's documentation is present, ASCII, mentions
    /// `return` exactly when the function returns a value, and documents
    /// exactly its arguments other than `self`.
    pub fn check_function_docs(func_info: &FunctionInfo) -> (r: Result<(), String>)
        ensures
            reports(
                r,
                function_error(
                    func_info.name@,
                    string_views(func_info.args@),
                    func_info.void_return_type,
                    func_info.docs@,
                ),
            ),
            r matches Err(m) ==> one_line(m@),
    {
        proof {
            lemma_message_parts_one_line();
        }
        let name = func_info.name.as_str();
        if func_info.docs.as_str().is_empty() {
            return Err(msg3("expected to find documentation for the function \"", name, "\""));
        }
        if !func_info.docs.as_str().is_ascii() {
            return Err(
                msg3(
                    "expected the documentation for the function \"",
                    name,
                    "\" to only use ASCII characters",
                ),
            );
        }
        let d = chars_of(func_info.docs.as_str());
        let has_return = has_return_word(&d);
        if !func_info.void_return_type && !has_return {
            return Err(
                msg3(
                    "expected to find the \"return\" keyword (case-insensitive) in the documentation that describes the return value for the function \"",
                    name,
                    "\"",
                ),
            );
        }
        if func_info.void_return_type && has_return {
            return Err(
                msg3("found documentation of the VOID return value for the function \"", name, "\""),
            );
        }
        let documented = documented_arg_names(&d);
        if let Some(k) = find_undocumented(&func_info.args, &documented) {
            return Err(
                msg5(
                    "expected to find documentation for the argument \"",
                    func_info.args[k].as_str(),
                    "\" of the function \"",
                    name,
                    "\"",
                ),
            );
        }
        if let Some(k) = find_unknown(&documented, &func_info.args) {
            return Err(
                msg5(
                    "found documentation for a non-existing argument \"",
                    documented[k].as_str(),
                    "\" of the function \"",
                    name,
                    "\"",
                ),
            );
        }
        Ok(())
    }

    /// Checks that a struct has documentation.
    pub fn check_struct_docs(struct_info: &StructInfo) -> (r: Result<(), String>)
        ensures
            reports(r, empty_docs_error("struct"@, struct_info.name@, struct_info.docs@)),
            r matches Err(m) ==> one_line(m@),
    {
        check_named_docs("struct", &struct_info.name, &struct_info.docs)
    }

    /// Checks that an enum has documentation.
    pub fn check_enum_docs(enum_info: &EnumInfo) -> (r: Result<(), String>)
        ensures
            reports(r, empty_docs_error("enum"@, enum_info.name@, enum_info.docs@)),
            r matches Err(m) ==> one_line(m@),
    {
        check_named_docs("enum", &enum_info.name, &enum_info.docs)
    }

    /// Checks that a trait has documentation.
    pub fn check_trait_docs(trait_info: &TraitInfo) -> (r: Result<(), String>)
        ensures
            reports(r, empty_docs_error("trait"@, trait_info.name@, trait_info.docs@)),
            r matches Err(m) ==> one_line(m@),
    {
        check_named_docs("trait", &trait_info.name, &trait_info.docs)
    }

    /// Checks that a const has documentation.
    pub fn check_const_docs(const_info: &ConstInfo) -> (r: Result<(), String>)
        ensures
            reports(r, empty_docs_error("const"@, const_info.name@, const_info.docs@)),
            r matches Err(m) ==> one_line(m@),
    {
        check_named_docs("const", &const_info.name, &const_info.docs)
    }

    /// Checks that every field of a struct has documentation.
    pub fn check_struct_field_docs(struct_info: &StructInfo) -> (r: Result<(), String>)
        ensures
            reports(r, field_error(struct_info.fields@.map_values(|f: StructField| f@))),
            r matches Err(m) ==> one_line(m@),
    {
        let ghost fs = struct_info.fields@.map_values(|f: StructField| f@);
        let mut k: usize = 0;
        while k < struct_info.fields.len()
            invariant
                k <= struct_info.fields.len(),
                fs == struct_info.fields@.map_values(|f: StructField| f@),
                first_undocumented_field(fs, k as int) == first_undocumented_field(fs, 0),
            decreases struct_info.fields.len() - k,
        {
            let field = &struct_info.fields[k];
            if field.docs.as_str().is_empty() {
                proof {
                    lemma_message_parts_one_line();
                }
                return Err(
                    msg3(
                        "expected to find documentation for the struct field \"",
                        field.name.as_str(),
                        "\"",
                    ),
                );
            }
            k = k + 1;
        }
        Ok(())
    }
}

} // verus!
