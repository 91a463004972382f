//! SchiroLang front end: lexer, parser, name resolution and type checks,
//! together with the mapping of source types onto machine types and the
//! lowering of functions to the steps that build their machine code.

pub mod text;
pub mod ast;
pub mod token;
pub mod lexer;
pub mod parser;
pub mod tree_copy;
pub mod scope;
pub mod error;
pub mod resolve;
pub mod check;
pub mod semantic;
pub mod pipeline;
pub mod machine;
pub mod lower;

use vstd::prelude::*;

verus! {

} // verus!
