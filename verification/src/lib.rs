//! Linting of GObject/C code: a model of C sources, queries over it, and the
//! rules that report what should change.

pub mod config;
pub mod class_structs;
pub mod context;
pub mod declarations;
pub mod export_macros;
pub mod ignore;
pub mod diagnostics;
pub mod laws;
pub mod model;
pub mod parse;
pub mod rules;
pub mod scanner;
pub mod syntax;
pub mod text;
