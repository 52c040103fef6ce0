//! sattlec: the front end of the sattle SAT DSL compiler.

pub mod ast;
pub mod text;
pub mod typeck_spec;
pub mod typeck;
pub mod lexer;
pub mod parser_spec;
pub mod parser;
pub mod ir;
pub mod codegen;
pub mod driver;
pub mod span;
pub mod laws;
pub mod report;

pub use ast::{format_ast, SourceModule};
pub use codegen::{emit_llvm_ir, CodegenError};
pub use driver::DriverError;
pub use lexer::{lex, SpannedToken, Token};
pub use parser::{parse, ParseError};
pub use span::{format_tokens, LineIndex};
pub use typeck::{typeck, Ty, TypeError};
