//! Constraint-based type inference for a small functional language.
//!
//! The library walks an expression tree and emits equality constraints between
//! type terms, then solves them by unification into a substitution that gives
//! the inferred type of each sub-expression and of each named variable.
pub mod types;
pub mod inference;
pub mod generate;
pub mod unify;
pub mod infer;
pub mod principal;
pub mod typing;
