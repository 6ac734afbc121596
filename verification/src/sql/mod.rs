pub mod error;
pub mod token;
pub mod token_stream;
pub mod tokenizer;
pub mod expr;
pub mod parser;
pub mod planner;
