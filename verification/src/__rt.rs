//! Runtime support for quotations: lexing source text into the token list
//! under a given span, and appending single token nodes.

use vstd::prelude::*;
use proc_macro2::{LexError, Span, TokenNode};
use crate::tokens::{Token, Tokens};

pub use proc_macro2::{Delimiter, Spacing, Term, TokenStream, TokenTree};

verus! {

/// The kinds of the top-level token trees that `proc_macro2` lexes from the
/// text `s`, in the order its token stream yields them, or `None` where `s`
/// is no valid token stream.
pub uninterp spec fn lexed(s: Seq<char>) -> Option<Seq<TokenNode>>;

/// How many top-level token trees `s` lexes to, or `None` where `s` is no
/// valid token stream.
pub open spec fn lexed_len(s: Seq<char>) -> Option<nat> {
    match lexed(s) {
        Some(kinds) => Some(kinds.len()),
        None => None,
    }
}

/// The kinds of `ts`, in order.
pub open spec fn kinds_of(ts: Seq<Token>) -> Seq<TokenNode> {
    ts.map_values(|t: Token| t.kind)
}

/// One token per kind in `kinds`, in order, all spanned with `span`.
pub open spec fn spanned(kinds: Seq<TokenNode>, span: Span) -> Seq<Token> {
    kinds.map_values(|k: TokenNode| Token { span: span, kind: k })
}

/// `ts` with every token's span replaced by `span`; kinds and order stay.
pub open spec fn respanned(ts: Seq<Token>, span: Span) -> Seq<Token> {
    ts.map_values(|t: Token| Token { span: span, kind: t.kind })
}

/// Appending `a` and then `b` under one span gives the same token list as
/// appending `a + b` at once: quoting piece by piece is quoting the whole.
pub proof fn lemma_respanned_concat(prior: Seq<Token>, a: Seq<Token>, b: Seq<Token>, span: Span)
    ensures
        (prior + respanned(a, span)) + respanned(b, span) == prior + respanned(a + b, span),
{
    assert(respanned(a + b, span) =~= respanned(a, span) + respanned(b, span));
    assert((prior + respanned(a, span)) + respanned(b, span) =~= prior + (respanned(a, span)
        + respanned(b, span)));
}

/// Re-spanning replaces every earlier span: stamping with `first` and then
/// with `second` is stamping with `second` alone.
pub proof fn lemma_respanned_last_span_wins(ts: Seq<Token>, first: Span, second: Span)
    ensures
        respanned(respanned(ts, first), second) == respanned(ts, second),
{
    assert(respanned(respanned(ts, first), second) =~= respanned(ts, second));
}

/// Re-spanning keeps the number of tokens, their kinds and their order, and
/// gives every token the one span.
pub proof fn lemma_respanned_shape(ts: Seq<Token>, span: Span)
    ensures
        respanned(ts, span).len() == ts.len(),
        forall|i: int|
            0 <= i < ts.len() ==> (#[trigger] respanned(ts, span)[i]).kind == ts[i].kind
                && respanned(ts, span)[i].span == span,
{
}

/// Re-spanning a token list gives, in order, one token per kind of the
/// list, all with the new span.
pub proof fn lemma_respanned_is_spanned_kinds(ts: Seq<Token>, span: Span)
    ensures
        respanned(ts, span) == spanned(kinds_of(ts), span),
{
    assert(respanned(ts, span) =~= spanned(kinds_of(ts), span));
}

/// What `parse` and `try_parse` leave, read token by token: the tokens that
/// were there stay in front, and then comes, for each tree lexed from `s`
/// in lexing order, one token of that tree's kind with span `span`.
pub proof fn lemma_parsed_tokens_follow_lexing(
    before: Seq<Token>,
    after: Seq<Token>,
    s: Seq<char>,
    span: Span,
)
    requires
        lexed(s) is Some,
        after == before + spanned(lexed(s)->0, span),
    ensures
        after.len() == before.len() + lexed(s)->0.len(),
        forall|i: int| 0 <= i < before.len() ==> #[trigger] after[i] == before[i],
        forall|i: int|
            0 <= i < lexed(s)->0.len() ==> (#[trigger] after[before.len() + i]).kind == lexed(
                s,
            )->0[i] && after[before.len() + i].span == span,
{
    let k = lexed(s)->0;
    assert forall|i: int| 0 <= i < k.len() implies (#[trigger] after[before.len() + i]).kind
        == k[i] && after[before.len() + i].span == span by {
        assert(after[before.len() + i] == spanned(k, span)[i]);
    }
}

/// Two quotations of the same text append the same kinds in the same order,
/// whatever lists they append to and whatever spans they use; only the
/// spans differ.
pub proof fn lemma_same_text_same_kinds(
    before1: Seq<Token>,
    after1: Seq<Token>,
    span1: Span,
    before2: Seq<Token>,
    after2: Seq<Token>,
    span2: Span,
    s: Seq<char>,
)
    requires
        lexed(s) is Some,
        after1 == before1 + spanned(lexed(s)->0, span1),
        after2 == before2 + spanned(lexed(s)->0, span2),
    ensures
        kinds_of(after1.skip(before1.len() as int)) == kinds_of(after2.skip(before2.len() as int)),
        kinds_of(after1.skip(before1.len() as int)) == lexed(s)->0,
{
    let k = lexed(s)->0;
    assert(after1.skip(before1.len() as int) =~= spanned(k, span1));
    assert(after2.skip(before2.len() as int) =~= spanned(k, span2));
    assert(kinds_of(spanned(k, span1)) =~= k);
    assert(kinds_of(spanned(k, span2)) =~= k);
}

/// Why text could not be appended as tokens.
#[derive(Clone, Copy, Debug, PartialEq, Eq, Structural)]
pub enum QuoteError {
    /// The text is no valid token stream.
    InvalidTokenStream,
}

/// Lexes `s` with `proc_macro2`'s `FromStr` impl for `TokenStream`
/// (`s.parse::<TokenStream>()`) and lists the top-level token trees, each
/// as its span and kind, in the order `TokenStream::into_iter` yields them.
/// That `from_str` reports malformed text as `LexError`; no input is known
/// on which it panics.
///
/// Trusted: whether lexing succeeds and the kinds of the trees it yields,
/// in order, depend on `s` alone, and are named by `lexed`. Identifiers in
/// those kinds are indices into `proc_macro2`'s per-thread interner, which
/// hands out the same index whenever the same text is interned again, so
/// lexing the same text twice in one thread gives equal kinds. The spans the
/// lexer gives are left unsaid; the library overwrites them.
#[verifier::external_body]
fn lex(s: &str) -> (r: Result<Vec<Token>, LexError>)
    ensures
        match r {
            Ok(v) => lexed(s@) == Some(kinds_of(v@)),
            Err(_) => lexed(s@) is None,
        },
{
    s.parse::<TokenStream>().map(
        |ts| ts.into_iter().map(|t| Token { span: t.span, kind: t.kind }).collect(),
    )
}

/// Appends `lexed` to `tokens`, in order, each token re-spanned to `span`.
pub fn append_respanned(tokens: &mut Tokens, span: Span, lexed: Vec<Token>)
    ensures
        final(tokens)@ == old(tokens)@ + respanned(lexed@, span),
{
    let ghost orig = lexed@;
    let mut lexed = lexed;
    let n = lexed.len();
    let mut i: usize = 0;
    while i < n
        invariant
            n == lexed@.len(),
            i <= n,
            forall|j: int| 0 <= j < i ==> lexed@[j] == (Token { span: span, kind: orig[j].kind }),
            forall|j: int| i <= j < n ==> lexed@[j] == orig[j],
        decreases n - i,
    {
        lexed[i].span = span;
        i = i + 1;
    }
    assert(lexed@ =~= respanned(orig, span));
    tokens.append_all(lexed);
}

/// Lexes `s` and appends the resulting token trees to `tokens`, in order,
/// every one of them spanned with `span`; what `tokens` held before stays in
/// front, unchanged. `s` must be a valid token stream.
pub fn parse(tokens: &mut Tokens, span: Span, s: &str)
    requires
        lexed_len(s@) is Some,
    ensures
        final(tokens)@ == old(tokens)@ + spanned(lexed(s@)->0, span),
        final(tokens)@.len() == old(tokens)@.len() + lexed_len(s@)->0,
        final(tokens)@.subrange(0, old(tokens)@.len() as int) == old(tokens)@,
        forall|i: int|
            old(tokens)@.len() <= i < final(tokens)@.len() ==> (#[trigger] final(tokens)@[i]).span
                == span,
{
    match lex(s) {
        Ok(lexed) => {
            proof {
                lemma_respanned_is_spanned_kinds(lexed@, span);
            }
            append_respanned(tokens, span, lexed);
            assert(final(tokens)@.subrange(0, old(tokens)@.len() as int) =~= old(tokens)@);
        },
        Err(_) => {
            assert(false);
        },
    }
}

/// Like [`parse`], but for any text: where `s` is no valid token stream it
/// leaves `tokens` unchanged and reports `InvalidTokenStream`.
pub fn try_parse(tokens: &mut Tokens, span: Span, s: &str) -> (r: Result<(), QuoteError>)
    ensures
        r is Ok <==> lexed_len(s@) is Some,
        r is Err ==> final(tokens)@ == old(tokens)@,
        r is Ok ==> {
            &&& final(tokens)@ == old(tokens)@ + spanned(lexed(s@)->0, span)
            &&& final(tokens)@.len() == old(tokens)@.len() + lexed_len(s@)->0
            &&& final(tokens)@.subrange(0, old(tokens)@.len() as int) == old(tokens)@
            &&& forall|i: int|
                old(tokens)@.len() <= i < final(tokens)@.len() ==> (#[trigger] final(tokens)@[i]).span
                    == span
        },
{
    match lex(s) {
        Ok(_) => {
            parse(tokens, span, s);
            Ok(())
        },
        Err(_) => Err(QuoteError::InvalidTokenStream),
    }
}

/// Appends one token tree of kind `kind`, spanned with `span`.
pub fn append_kind(tokens: &mut Tokens, span: Span, kind: TokenNode)
    ensures
        final(tokens)@ == old(tokens)@.push((Token { span: span, kind: kind })),
{
    tokens.append(Token { span: span, kind: kind });
}

} // verus!
