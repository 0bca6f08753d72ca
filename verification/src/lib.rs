//! Hindley-Milner style type inference for a small functional expression
//! language: integer literals, variables, single-argument lambdas, function
//! application and conditionals. Given an expression and an initial typing
//! environment, it computes the most general type of the expression together
//! with the substitution that resolves the type variables discovered along
//! the way.
//!
//! The crate is organised bottom-up: `types` holds the expression and type
//! trees together with their ghost models, `subst` the substitution (a
//! finite map from type-variable names to types) with application and
//! composition, `unify` the unifier with its occurs check, and `infer` the
//! recursive derivation that threads substitutions through sub-expressions.

pub mod types;
pub mod subst;
pub mod unify;
pub mod infer;
