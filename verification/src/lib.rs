//! The middle and the back end of a compiler from a small functional language
//! with pattern matching to arithmetic circuits: flat lists of definitions of
//! variables and of equality constraints between scalar terms, each with at
//! most one operator.
//!
//! The stages, in the order in which a compilation runs them:
//!
//! - [`numbering`] gives every named variable the identifier of the binding
//!   that its name resolves to;
//! - [`inline`] evaluates every function application and every match at
//!   compile time, with [`renaming`] to keep copies of a function body apart,
//!   [`matching`] to bind patterns to values that may still be symbolic, and
//!   [`intrinsics`] for the built-ins `fresh` and `iter`;
//! - [`lists`] turns lists into tuples once their shapes are fixed;
//! - [`flatten`] moves nested bindings and structural equalities into flat
//!   definitions and constraints;
//! - [`three_address`] leaves one operator in each right-hand side;
//! - [`optimize`] and [`dead_code`] propagate copies and drop what is trivial
//!   or unused.
//!
//! [`circuit`] runs the stages from flattening on as one step.
//!
//! Every function has a contract over a mathematical model of its arguments:
//! the views of [`ast`], in which vectors are sequences and hash maps are
//! maps. The model of each stage is a specification function of the same
//! module, and the laws that hold of the models are proved beside them
//! ([`numbering_laws`], [`hygiene`], [`normal_form`], [`flatten_laws`],
//! [`three_address_laws`], [`reduction_semantics`], [`semantics`], [`fuel`]).
//!
//! No function of the library panics or runs forever. What would abort a
//! compilation is returned as a [`error::CompileError`]. A function that
//! follows calls or substitutions, which need not end, takes a `fuel`: the
//! depth to which it follows them before it returns
//! [`error::CompileError::RecursionLimit`].

pub mod ast;
pub mod circuit;
pub mod collect;
pub mod dead_code;
pub mod env;
pub mod error;
pub mod flatten;
pub mod flatten_laws;
pub mod fuel;
pub mod hygiene;
pub mod inline;
pub mod intrinsics;
pub mod lists;
pub mod matching;
pub mod names;
pub mod normal_form;
pub mod numbering;
pub mod numbering_laws;
pub mod optimize;
pub mod reduction_semantics;
pub mod renaming;
pub mod semantics;
pub mod three_address;
pub mod three_address_laws;
pub mod vargen;
