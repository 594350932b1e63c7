//! A small, dynamically checked, JavaScript-flavoured scripting language:
//! a tree-walking interpreter over a layered variable environment, producing
//! tagged runtime values.
//!
//! The crate is organised leaves-first: [`errors`] defines the failure
//! kinds, [`model`] the mathematical models that every contract speaks
//! over, [`value`] the tagged runtime datum, [`binding`] the scoped
//! variable environment, [`ast`] the syntax tree, [`parse`] the
//! recursive-descent parser, [`semantics`] the evaluation relation that
//! the interpreter in [`state`] is proved to satisfy, [`laws`] the general
//! laws proved of that relation, and [`utils`] the string-literal
//! unquoting routine.

pub mod ast;
pub mod binding;
pub mod errors;
pub mod laws;
pub mod model;
pub mod parse;
pub mod semantics;
pub mod state;
pub mod utils;
pub mod value;

pub use ast::BinOp;
pub use ast::Expr;
pub use ast::Lvalue;
pub use ast::Stmt;
pub use binding::Binding;
pub use binding::BindingMap;
pub use errors::JabroniError;
pub use errors::JabroniResult;
pub use state::DefaultHost;
pub use state::Host;
pub use state::Jabroni;
pub use utils::unquote;
pub use value::Callback;
pub use value::Subroutine;
pub use value::Value;
