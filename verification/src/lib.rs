//! A two-pass assembler for a small CPU with sixteen-bit registers.
//!
//! Source text is split into raw tokens, classified into semantic tokens,
//! parsed into statements, and encoded into a flat byte stream. Labels are
//! bound to byte offsets in a first pass over the statements and substituted
//! in a second one.
pub mod text;
pub mod register;
pub mod value;
pub mod token;
pub mod utils;
pub mod instruction;
pub mod lexer;
pub mod expr;
pub mod passes;
pub mod parser;

pub use register::{Register, Width};
pub use value::Value;
pub use token::{tokenize, Token, TokenView, Tokens};
pub use utils::{Error, ErrorView};
pub use expr::{Expr, ExprView};
pub use instruction::{BinaryOp, Instruction, ShiftOp, UnaryOp};
pub use lexer::{lex, RawToken, RawTokenView};
pub use parser::{parse, parse_to_exprs};

use vstd::prelude::*;
use vstd::string::StringSliceAdditionalSpecFns;
use crate::parser::{spec_parse, spec_parse_to_exprs};
use crate::passes::{encode_all, encode_instructions, lemma_output_length, spec_symbols, total_len};

verus! {

/// The bytes that a source text assembles to.
pub open spec fn spec_compile(s: Seq<u8>) -> Result<Seq<u8>, ErrorView> {
    match spec_parse(s) {
        Ok((instructions, _)) => Ok(encode_all(instructions)),
        Err(e) => Err(e),
    }
}

/// The result `r` of assembling stands for the mathematical result
/// `expected`.
pub open spec fn assembled(r: Result<Vec<u8>, Error>, expected: Result<Seq<u8>, ErrorView>) -> bool {
    match expected {
        Ok(bytes) => r is Ok && r->Ok_0@ == bytes,
        Err(e) => r is Err && r->Err_0@ == e,
    }
}

/// Assembles a program: gives the encoded instructions as one run of bytes,
/// or the first error. The output is as long as the statements of the
/// program are together.
pub fn compile(code: &str) -> (r: Result<Vec<u8>, Error>)
    ensures
        assembled(r, spec_compile(code.spec_bytes())),
        r is Ok ==> spec_parse_to_exprs(code.spec_bytes()) is Ok && r->Ok_0@.len() == total_len(
            spec_parse_to_exprs(code.spec_bytes())->Ok_0,
        ),
{
    match parse(code) {
        Ok((instructions, _)) => {
            proof {
                let exprs = spec_parse_to_exprs(code.spec_bytes())->Ok_0;
                lemma_output_length(exprs, spec_symbols(exprs));
            }
            Ok(encode_instructions(&instructions))
        },
        Err(e) => Err(e),
    }
}

/// Assembling is a function of the source text: two results for the same
/// text hold the same bytes, or the same error.
pub proof fn lemma_compile_deterministic(
    code: Seq<u8>,
    first: Result<Vec<u8>, Error>,
    second: Result<Vec<u8>, Error>,
)
    requires
        assembled(first, spec_compile(code)),
        assembled(second, spec_compile(code)),
    ensures
        first is Ok <==> second is Ok,
        first is Ok ==> first->Ok_0@ == second->Ok_0@,
        first is Err ==> first->Err_0@ == second->Err_0@,
{
}

} // verus!
