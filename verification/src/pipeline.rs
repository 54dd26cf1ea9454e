//! The whole pipeline: source text in, C++ text or a parse failure out.

use vstd::prelude::*;
use vstd::string::StringSliceAdditionalSpecFns;
use crate::codegen::{generate, generated_text, PreludeMode};
use crate::error::ParseError;
use crate::grammar::parse_tokens;
use crate::lexer::{lex, tokenize};
use crate::parser::parse;

verus! {

/// The generated program for a source text, or the failure that parsing it ends in.
pub open spec fn target_text(
    source: Seq<u8>,
    source_name: Seq<u8>,
    tool_version: Seq<u8>,
) -> Result<Seq<u8>, ParseError> {
    match parse_tokens(lex(source)) {
        Ok(tree) => Ok(generated_text(tree, source_name, tool_version, PreludeMode::Full)),
        Err(e) => Err(e),
    }
}

/// Whether what the pipeline returned is the outcome that the source text has.
pub open spec fn target_agrees(
    r: Result<Vec<u8>, ParseError>,
    expected: Result<Seq<u8>, ParseError>,
) -> bool {
    match r {
        Ok(text) => expected == Ok::<Seq<u8>, ParseError>(text@),
        Err(e) => expected == Err::<Seq<u8>, ParseError>(e),
    }
}

/// Compiles a source text to C++: tokenizes it, parses the tokens, and generates
/// the program for the tree. Where parsing fails, the failure is returned and
/// no text is generated.
pub fn generate_target(source_file: &str, source_code: &str, tool_version: &str) -> (r: Result<
    Vec<u8>,
    ParseError,
>)
    ensures
        target_agrees(
            r,
            target_text(
                source_code.spec_bytes(),
                source_file.spec_bytes(),
                tool_version.spec_bytes(),
            ),
        ),
{
    let tokens = tokenize(source_code);
    match parse(&tokens) {
        Ok(tree) => Ok(generate(&tree, source_file, tool_version)),
        Err(e) => Err(e),
    }
}

} // verus!
