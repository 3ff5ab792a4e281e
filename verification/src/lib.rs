//! Token sequences for quasi-quoting Rust code.
//!
//! A [`Tokens`] value is the growing list of token trees that a quotation
//! produces. The runtime support in [`__rt`] appends to it: source text is
//! lexed and every resulting token is stamped with the span of the
//! quotation, and single token nodes are appended with a given span.

pub mod tokens;
pub mod outside;
pub mod __rt;

pub use tokens::{Token, Tokens};
