//! From a unit of declarations to the source text of its access layer.
use vstd::prelude::*;
use crate::parse::{ParseError, parse_spec, parse_queries};
use crate::resolve::{ResolveError, graph_spec};
use crate::generate::{expand_all, generate};

verus! {

/// Why a unit produced no output.
#[derive(Clone, Copy, Debug, PartialEq, Eq, Structural)]
pub enum CompileError {
    Parse(ParseError),
    Resolve(ResolveError),
}

/// The output for a unit: nothing unless it parses and its test
/// dependencies resolve.
pub open spec fn compile_spec(text: Seq<char>) -> Result<Seq<char>, CompileError> {
    match parse_spec(text) {
        Err(e) => Err(CompileError::Parse(e)),
        Ok(qs) => match graph_spec(qs) {
            Err(e) => Err(CompileError::Resolve(e)),
            Ok(_) => Ok(expand_all(qs)),
        },
    }
}

/// Compiles a unit of query declarations to Rust source text.
pub fn compile(text: &str) -> (r: Result<Vec<char>, CompileError>)
    ensures
        match r {
            Ok(out) => compile_spec(text@) == Ok::<_, CompileError>(out@),
            Err(e) => compile_spec(text@) == Err::<Seq<char>, _>(e),
        },
{
    let queries = match parse_queries(text) {
        Ok(qs) => qs,
        Err(e) => {
            return Err(CompileError::Parse(e));
        },
    };
    match generate(&queries) {
        Ok(out) => Ok(out),
        Err(e) => Err(CompileError::Resolve(e)),
    }
}

} // verus!
