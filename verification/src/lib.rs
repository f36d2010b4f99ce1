pub mod text;
pub mod log;
pub mod error;
pub mod token;
pub mod expression;
pub mod statement;
pub mod grammar;
pub mod progress;
pub mod parser;
pub mod value;
pub mod runtime;
pub mod environment;
pub mod program;
pub mod resolver;
pub mod semantics;
pub mod interpreter;
pub mod laws;
