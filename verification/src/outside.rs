//! The types of `proc_macro2` that the library carries through its
//! contracts. Verus sees none of their insides.

use vstd::prelude::*;

verus! {

/// A region of source code, as `proc_macro2` records it.
#[verifier::external_type_specification]
#[verifier::external_body]
pub struct ExSpan(proc_macro2::Span);

/// What a token tree is: a group, an identifier, an operator or a literal.
#[verifier::external_type_specification]
#[verifier::external_body]
pub struct ExTokenNode(proc_macro2::TokenNode);

/// The error `proc_macro2` reports for text that is no valid token stream.
#[verifier::external_type_specification]
#[verifier::external_body]
pub struct ExLexError(proc_macro2::LexError);

} // verus!
