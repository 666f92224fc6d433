//! Checks that every declaration in a source file carries complete documentation.
//!
//! Text is lexed into spanned tokens, the tokens are grouped into declarations
//! (structs, functions, enums, traits, consts), and each declaration's doc
//! comments are checked against its shape.
pub mod doc_checker;
pub mod grammar;
pub mod lexer;
pub mod parser;
pub mod position;

pub use doc_checker::DocChecker;
pub use lexer::{token_parser, Span, Token};
pub use parser::{
    complex_token_parser, ComplexToken, ConstInfo, EnumInfo, FunctionInfo, StructField,
    StructInfo, TraitInfo,
};
pub use position::span_offset_to_line_and_column;
