//! A tree-walking interpreter front end for a small expression-oriented
//! scripting language.
//!
//! Source text goes through three stages:
//!
//! * [`lexer`] turns characters into [`token::Token`]s,
//! * [`parser`] turns tokens into a [`parser::Program`] of
//!   [`statement::Statement`]s by precedence climbing,
//! * [`evaluator`] walks the program against a chain of lexical scopes held in
//!   an [`object::Environment`] and gives an [`object::Object`].
//!
//! Every stage is specified by a mathematical model over sequences and maps
//! (the `*View` types and the `spec_*` functions next to each stage) and the
//! executable code is proved to compute exactly what the model says. What
//! follows from the models is proved in [`spelling`] for the lexer, in
//! [`grammar`] for the parser and in [`scoping`] for the evaluator.
//!
//! Numbers of the language are IEEE-754 doubles. The library never does
//! floating-point arithmetic itself: a literal keeps its spelling until it is
//! evaluated, a value holds the bit pattern of its double (see [`number`]),
//! and the evaluator is handed the arithmetic as three functions (see
//! [`evaluator::Evaluator`]).
pub mod token;
pub mod lexer;
pub mod spelling;
pub mod statement;
pub mod parser;
pub mod grammar;
pub mod number;
pub mod object;
pub mod evaluator;
pub mod scoping;
