use rust_doc_checker::{
    complex_token_parser, span_offset_to_line_and_column, token_parser, ComplexToken, Span,
    Token,
};

fn sp(start: usize, end: usize) -> Span {
    Span { start, end }
}

#[test]
fn lexes_every_token_kind_with_spans() {
    let tokens = token_parser("fn a(b) -> c // note\n@");
    let expected = vec![
        (Token::Ident("fn".to_string()), sp(0, 2)),
        (Token::Ident("a".to_string()), sp(3, 4)),
        (Token::Ctrl('('), sp(4, 5)),
        (Token::Ident("b".to_string()), sp(5, 6)),
        (Token::Ctrl(')'), sp(6, 7)),
        (Token::Op("->".to_string()), sp(8, 10)),
        (Token::Ident("c".to_string()), sp(11, 12)),
        (Token::Comment("note".to_string()), sp(13, 20)),
        (Token::Other('@'), sp(21, 22)),
    ];
    assert_eq!(tokens, expected);
}

#[test]
fn spans_are_byte_offsets_in_order() {
    let text = "é x /** block */ y";
    let tokens = token_parser(text);
    assert_eq!(
        tokens,
        vec![
            (Token::Other('é'), sp(0, 2)),
            (Token::Ident("x".to_string()), sp(3, 4)),
            (Token::Comment(" block ".to_string()), sp(5, 17)),
            (Token::Ident("y".to_string()), sp(18, 19)),
        ]
    );
    for pair in tokens.windows(2) {
        assert!(pair[0].1.start < pair[0].1.end);
        assert!(pair[0].1.end <= pair[1].1.start);
    }
}

#[test]
fn triple_slash_comment_text_is_its_inner_text() {
    let tokens = token_parser("/// Some docs.\n");
    assert_eq!(tokens, vec![(Token::Comment("Some docs.".to_string()), sp(0, 14))]);
    let tokens = token_parser("/// hi\nx");
    assert_eq!(tokens[0].0, Token::Comment("hi".to_string()));
    assert_eq!(tokens[1].0, Token::Ident("x".to_string()));
    assert_eq!(tokens.len(), 2);
}

#[test]
fn unclosed_block_comment_falls_back_to_characters() {
    let tokens = token_parser("/** x");
    assert_eq!(tokens[0].0, Token::Other('/'));
    assert_eq!(tokens[1].0, Token::Other('*'));
    assert_eq!(tokens.len(), 4);
}

#[test]
fn blank_text_has_no_tokens() {
    assert!(token_parser("").is_empty());
    assert!(token_parser(" \n\t ").is_empty());
}

#[test]
fn function_arguments_skip_nested_types() {
    let text = "/// d\npub unsafe fn f<'a>(&self, mut a: Vec<Option<u8>>, b: &'a mut T, c: (u8, u16), d: HashMap<K, Vec<V>>) -> X {}";
    let tokens = token_parser(text);
    let complex = complex_token_parser(&tokens);
    match &complex[0].0 {
        ComplexToken::Function(info) => {
            assert_eq!(info.name, "f");
            assert_eq!(info.args, vec!["self", "a", "b", "c", "d"]);
            assert!(!info.void_return_type);
            assert_eq!(info.docs, "d");
        }
        other => panic!("expected a function, found {:?}", other),
    }
    assert_eq!(complex[0].1.start, 0);
}

#[test]
fn struct_fields_with_attributes_and_visibility() {
    let text = "/// S\n#[derive(Debug)]\npub struct S<T> {\n    /// a\n    #[allow(x)]\n    pub a: Option<T>,\n    b: [u8],\n}";
    let tokens = token_parser(text);
    let complex = complex_token_parser(&tokens);
    assert_eq!(complex.len(), 1);
    match &complex[0].0 {
        ComplexToken::Struct(info) => {
            assert_eq!(info.name, "S");
            assert_eq!(info.docs, "S");
            assert_eq!(info.fields.len(), 2);
            assert_eq!(info.fields[0].name, "a");
            assert_eq!(info.fields[0].docs, "a");
            assert_eq!(info.fields[1].name, "b");
            assert_eq!(info.fields[1].docs, "");
        }
        other => panic!("expected a struct, found {:?}", other),
    }
    assert_eq!(complex[0].1, sp(0, text.len()));
}

#[test]
fn unrecognised_tokens_pass_through() {
    let tokens = token_parser("let x; enum E");
    let complex = complex_token_parser(&tokens);
    assert_eq!(complex.len(), 4);
    assert_eq!(complex[0].0, ComplexToken::Other(Token::Ident("let".to_string())));
    assert_eq!(complex[2].0, ComplexToken::Other(Token::Other(';')));
    match &complex[3].0 {
        ComplexToken::Enum(info) => {
            assert_eq!(info.name, "E");
            assert_eq!(info.docs, "");
        }
        other => panic!("expected an enum, found {:?}", other),
    }
    assert_eq!(complex[3].1, sp(7, 13));
}

#[test]
fn line_and_column_of_offsets() {
    let text = "ab\ncé\nx";
    assert_eq!(span_offset_to_line_and_column(0, text), (1, 1));
    assert_eq!(span_offset_to_line_and_column(1, text), (1, 2));
    assert_eq!(span_offset_to_line_and_column(3, text), (2, 1));
    assert_eq!(span_offset_to_line_and_column(7, text), (3, 1));
}

#[test]
fn line_comment_text_stays_on_its_line_and_is_trimmed() {
    let tokens = token_parser("//   note  \r\n//\nfn");
    assert_eq!(
        tokens,
        vec![
            (Token::Comment("note".to_string()), sp(0, 12)),
            (Token::Comment("".to_string()), sp(13, 15)),
            (Token::Ident("fn".to_string()), sp(16, 18)),
        ]
    );
}

#[test]
fn generic_type_needs_an_opening_angle() {
    let tokens = token_parser("fn f(a: impl T>, b: u8) {}");
    let complex = complex_token_parser(&tokens);
    match &complex[0].0 {
        ComplexToken::Function(info) => {
            assert_eq!(info.args, vec!["a"]);
            assert!(info.void_return_type);
        }
        other => panic!("expected a function, found {:?}", other),
    }
}
