//! A line-oriented arithmetic calculator: the text side of it.
//!
//! A line such as `5 + 3` is split into tokens, its operands are held against
//! the grammar of decimal numbers, its operator is recognised, and a session
//! keeps the log of what was computed. The arithmetic on the operands'
//! values is the caller's: this crate decides what is to be computed and
//! which error a line earns.

pub mod text;
pub mod operator;
pub mod number;
pub mod expression;
pub mod history;
pub mod session;
