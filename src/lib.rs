//! A parser for import path expressions such as `:use usr::{bin::{less,tail}, local::bin::*}`,
//! verified against a grammar written as spec functions, and the reading of shell
//! command lines around it.
pub mod command;
pub mod grammar;
pub mod import_parser;
pub mod laws;
pub mod tree;

pub use command::{classify_words, parse_command, CommandError, Execution};
pub use import_parser::{atom, import, multiple, path, segment, ws, Source};
pub use tree::{ErrorKind, ParseError, Path, Segment};
