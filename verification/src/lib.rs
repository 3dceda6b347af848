use vstd::prelude::*;

pub mod ast;
pub mod codegen;
pub mod combinators;
pub mod grammar;
pub mod hoist;
pub mod lexical;
pub mod numeral;
pub mod transforms;
pub mod values;

verus! {

/// The failure taxonomy of the compilation pipeline.
#[derive(Debug, PartialEq)]
pub enum InterpreterError {
    /// Error parsing source
    ParseError(String),
    /// Unexpected token
    UnexpectedToken,
    /// Mismatched types
    MismatchedTypes,
    /// Type error
    TypeError,
    /// Unexpected EOF
    UnexpectedEOF,
    /// Expected value
    ExpectedValue,
    /// Unimplemented
    Unimplemented,
}

/// Compiles source text to a WebAssembly text module: parse the grammar,
/// hoist every function definition's body, then emit the module text with a
/// fresh symbol generator. Fails only when the symbol space for loop labels
/// would not suffice, which no tree that fits in memory can bring about.
pub fn compile(source: &str) -> (r: Result<String, InterpreterError>)
    ensures
        ({
            let lowered = crate::hoist::hoist_program_v(crate::grammar::spec_parse(source@));
            &&& crate::ast::while_count(lowered) < u64::MAX ==> (r matches Ok(t) && t@
                == crate::codegen::emit(lowered, 0).0)
            &&& crate::ast::while_count(lowered) >= u64::MAX ==> (r matches Err(e) && e
                == InterpreterError::Unimplemented)
        }),
{
    let ast = crate::grammar::parse(source);
    proof {
        crate::grammar::lemma_spec_parse_wf(source@);
    }
    let lowered = crate::hoist::hoist_program(ast);
    proof {
        crate::hoist::lemma_hoist_program_wf(crate::grammar::spec_parse(source@));
    }
    crate::codegen::codegen(&lowered)
}

} // verus!
