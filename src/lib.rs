//! Brace expansion: turning a parsed brace-expression tree into the ordered
//! list of words it denotes.

pub mod product;
pub mod expand;
pub mod laws;
pub mod model;
pub mod text;
pub mod tree;
