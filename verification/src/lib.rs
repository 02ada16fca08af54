//! Core of a recursive-descent parser: token cursor, expectation tracking,
//! diagnostics, separated-sequence parsing and identifier/path parsing.

pub mod ast;
pub mod diagnostics;
pub mod expected;
pub mod ident;
pub mod laws;
pub mod parser;
pub mod report;
pub mod seq;
pub mod session;
pub mod source_map;
pub mod span;
pub mod state;
pub mod symbol;
pub mod text;
pub mod token;

pub use diagnostics::{PErr, PResult};
pub use parser::Parser;
pub use session::ParseSess;
