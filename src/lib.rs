//! Compile-time assertions about types, with the pieces they are built from
//! stated and proved: the type-level booleans, the parser of assertion
//! attributes, and a value-level evaluator of logical trait expressions.
pub mod bool_ops;
pub mod parse;
pub mod text;
pub mod trait_expr;
pub mod type_level_bool;
