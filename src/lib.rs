use vstd::prelude::*;

pub mod ast;
pub mod evaluator;
pub mod grammar;
pub mod interpreter;
pub mod lexer;
pub mod parser;
pub mod printer;

verus! {

} // verus!
