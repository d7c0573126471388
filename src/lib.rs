//! Code generation for a small C-like language: lowers a typed syntax tree
//! into basic blocks of typed backend instructions, with the lowering stated
//! as spec functions and the generated code proved against them.

use vstd::prelude::*;

pub mod types;
pub mod node;
pub mod ir;
pub mod cfg;
pub mod codegen;
pub mod laws;

verus! {

} // verus!
