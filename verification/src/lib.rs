//! A small propositional-logic engine: expression trees over named boolean
//! variables, parsed from text, evaluated against variable assignments and
//! algebraically simplified; plus a truth-assignment enumerator and a
//! three-valued (don't-care) row algebra.

pub mod ast_node;
pub mod binding;
pub mod minterm;
pub mod operators;
pub mod parsing;
pub mod text;

pub use ast_node::ASTNode;
pub use binding::Bindings;
pub use minterm::Minterm;
pub use minterm::TruthValue;
pub use operators::Assoc;
pub use operators::InfixOperator;
pub use operators::UnaryOperator;
pub use parsing::Parsed;
