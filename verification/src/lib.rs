//! A transpiler for NymyaLang: it turns the source text of a script into C++
//! text with a small runtime support library, ready for a C++ compiler.
//!
//! The work is done in three steps, each a function of its input alone:
//!
//! - [`tokenize`] turns source bytes into tokens. Every input has a token
//!   sequence, and it ends in the end-of-input marker.
//! - [`parse`] turns tokens into the statements of a program, or stops at the
//!   first token that fits no rule. Dotted references are told apart by the
//!   names alone, by [`classify_reference`].
//! - [`generate`] renders the statements as C++ inside the fixed text of every
//!   generated program. Every syntax tree has a rendering.
//!
//! [`generate_target`] runs the three in a row.
//!
//! Text is held as bytes throughout. What each function returns is stated over
//! the functions of `lexer`, `grammar` and `codegen` that describe the tokens
//! of a text, the tree of a token sequence and the text of a tree; `progress`
//! and `laws` hold what follows from them.

pub mod ascii;
pub mod ast;
pub mod bytes;
pub mod classify;
pub mod codegen;
pub mod error;
pub mod grammar;
pub mod laws;
pub mod lexer;
pub mod number;
pub mod parser;
pub mod pipeline;
pub mod progress;
pub mod runtime;
pub mod token;
pub mod usage;

pub use crate::ast::{BinaryOperator, Expression, Statement};
pub use crate::classify::{classify_reference, ReferenceKind};
pub use crate::codegen::{
    generate, generate_cpp_for_expression, generate_cpp_from_statements, generate_with_prelude,
    PreludeMode,
};
pub use crate::error::{ParseError, ParseErrorKind};
pub use crate::lexer::{tokenize, tokenize_bytes};
pub use crate::parser::{parse, parse_expression};
pub use crate::pipeline::generate_target;
pub use crate::token::{Decimal, Delimiter, Keyword, Operator, Token};
