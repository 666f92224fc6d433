use rust_doc_checker::DocChecker;

const FUNC_FAIL: &str = "pub const fn just<'a, T, I, E>(seq: T) -> Just<T, I, E>
where
    I: Input<'a>,
    E: ParserExtra<'a, I>,
    I::Token: PartialEq,
    T: OrderedSeq<'a, I::Token> + Clone,
{
    // ...
}
";

const FUNC_SUCCESS: &str = "/// Some docs.
///
/// # Arguments
/// * `seq`: Some docs.
///
/// # Return
/// Some docs.
pub const fn just<'a, T, I, E>(seq: T) -> Just<T, I, E>
where
    I: Input<'a>,
    E: ParserExtra<'a, I>,
    I::Token: PartialEq,
    T: OrderedSeq<'a, I::Token> + Clone,
{
    // ...
}
";

const ADD_FN: &str = "/// Adds two numbers.
///
/// # Arguments
/// * `a`: first operand.
/// * `b`: second operand.
///
/// # Return
/// The sum.
fn add(a: i32, b: i32) -> i32 { a + b }
";

fn check(text: &str) -> Result<(), String> {
    DocChecker::new().check_documentation(text)
}

#[test]
fn func_docs() {
    assert!(check(FUNC_FAIL).is_err());
    assert_eq!(check(FUNC_SUCCESS), Ok(()));
}

#[test]
fn struct_docs() {
    assert!(check("struct Point { x: i32 }").is_err());
    assert_eq!(
        check("/// A point.\npub struct Point<'a> {\n    /// X.\n    pub x: &'a i32,\n}\n"),
        Ok(())
    );
}

#[test]
fn struct_without_docs_fails_on_the_struct() {
    assert_eq!(
        check("struct Point { x: i32, y: i32 }"),
        Err("expected to find documentation for the struct \"Point\"".to_string())
    );
}

#[test]
fn undocumented_field_fails() {
    let text = "/// A 2D point.\nstruct Point {\n    /// X coordinate.\n    x: i32,\n    y: i32,\n}\n";
    assert_eq!(
        check(text),
        Err("expected to find documentation for the struct field \"y\"".to_string())
    );
}

#[test]
fn documented_function_passes() {
    assert_eq!(check(ADD_FN), Ok(()));
}

#[test]
fn void_function_with_return_docs_fails() {
    let text = ADD_FN.replace(" -> i32", "");
    assert_eq!(
        check(&text),
        Err("found documentation of the VOID return value for the function \"add\"".to_string())
    );
}

#[test]
fn documented_argument_that_does_not_exist_fails() {
    let text = ADD_FN.replace("/// * `b`: second operand.\n", "/// * `b`: second operand.\n/// * `c`: third.\n");
    assert_eq!(
        check(&text),
        Err("found documentation for a non-existing argument \"c\" of the function \"add\"".to_string())
    );
}

#[test]
fn missing_argument_docs_fails() {
    let text = ADD_FN.replace("/// * `b`: second operand.\n", "");
    assert_eq!(
        check(&text),
        Err("expected to find documentation for the argument \"b\" of the function \"add\"".to_string())
    );
}

#[test]
fn missing_return_docs_fails() {
    let text = "/// Adds.\n/// * `a`: x.\nfn add(a: i32) -> i32 { a }\n";
    assert_eq!(
        check(text),
        Err("expected to find the \"return\" keyword (case-insensitive) in the documentation that describes the return value for the function \"add\"".to_string())
    );
}

#[test]
fn return_keyword_matches_in_any_case_and_inside_words() {
    assert_eq!(check("/// RETURNING things.\nfn f() -> u8 { 1 }\n"), Ok(()));
    assert!(check("/// Returning nothing.\nfn f() { }\n").is_err());
}

#[test]
fn undocumented_function_fails() {
    assert_eq!(
        check("fn run() {}"),
        Err("expected to find documentation for the function \"run\"".to_string())
    );
}

#[test]
fn non_ascii_function_docs_fail() {
    assert_eq!(
        check("/// Café.\nfn run() {}"),
        Err("expected the documentation for the function \"run\" to only use ASCII characters".to_string())
    );
}

#[test]
fn receiver_needs_no_docs() {
    let text = "/// Moves.\n/// * `dx`: step.\npub fn shift(&mut self, dx: i32) {}\n";
    assert_eq!(check(text), Ok(()));
}

#[test]
fn enum_trait_const_need_docs() {
    assert_eq!(
        check("pub enum Color { Red }"),
        Err("expected to find documentation for the enum \"Color\"".to_string())
    );
    assert_eq!(
        check("pub trait Shape {}"),
        Err("expected to find documentation for the trait \"Shape\"".to_string())
    );
    assert_eq!(
        check("const LIMIT: u32 = 3;"),
        Err("expected to find documentation for the const \"LIMIT\"".to_string())
    );
    assert_eq!(check("/** Colors. */\n#[derive(Debug)]\npub enum Color { Red }"), Ok(()));
    assert_eq!(check("/// Shapes.\npub trait Shape {}"), Ok(()));
    assert_eq!(check("/*! Limit. */ const LIMIT: u32 = 3;"), Ok(()));
}

#[test]
fn first_failure_in_source_order_is_reported() {
    let text = "/// Ok.\nenum A {}\nenum B {}\ntrait C {}\n";
    assert_eq!(
        check(text),
        Err("expected to find documentation for the enum \"B\"".to_string())
    );
}

#[test]
fn empty_and_blank_text_pass() {
    assert_eq!(check(""), Ok(()));
    assert_eq!(check("   \n\t  "), Ok(()));
}

#[test]
fn text_without_declarations_passes() {
    assert_eq!(check("let x = 1 + 2; // a note\n{ ( ) } -> <>"), Ok(()));
}

#[test]
fn checking_twice_gives_the_same_result() {
    let checker = DocChecker::new();
    for text in [FUNC_FAIL, FUNC_SUCCESS, ADD_FN, "struct P { x: i32 }"] {
        assert_eq!(checker.check_documentation(text), checker.check_documentation(text));
    }
}

#[test]
fn empty_comment_line_is_no_documentation() {
    assert_eq!(
        check("//\nfn run() {}"),
        Err("expected to find documentation for the function \"run\"".to_string())
    );
}

#[test]
fn messages_stay_on_one_line() {
    let result = check("/** * `a\nb` */ fn f() {}");
    assert_eq!(
        result,
        Err("found documentation for a non-existing argument \"a\\nb\" of the function \"f\"".to_string())
    );
    assert!(!result.unwrap_err().contains('\n'));
}
