//! Stage-0 front end of the Vertex compiler: source map, diagnostics,
//! lexer scanner and recursive-descent parser.

pub mod ast;
pub mod error;
pub mod explain;
pub mod lexer;
pub mod span;
pub mod parser;
