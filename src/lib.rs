//! The core of a small interactive command interpreter: a quoting-aware
//! tokenizer, an output-redirection extractor, and the dispatch decisions
//! that turn a parsed line into an action for the surrounding program.
pub mod builtins;
pub mod dispatch;
pub mod redirect;
pub mod text;
pub mod tokenizer;
