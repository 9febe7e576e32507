//! The model of a C project: files, functions, statements and expressions.

pub mod equality;
pub mod expression;
pub mod function;
pub mod location;
pub mod project;
pub mod statement;
pub mod types;
