use proc_macro2::{Delimiter, Spacing, Span, Term, TokenNode};
use quote::__rt::{append_kind, append_respanned, parse, try_parse, QuoteError};
use quote::{Token, Tokens};

fn term_text(t: &Token) -> Option<String> {
    match t.kind {
        TokenNode::Term(ref term) => Some(term.as_str().to_string()),
        _ => None,
    }
}

fn op_char(t: &Token) -> Option<(char, Spacing)> {
    match t.kind {
        TokenNode::Op(c, s) => Some((c, s)),
        _ => None,
    }
}

#[test]
fn new_tokens_are_empty() {
    let tokens = Tokens::new();
    assert_eq!(tokens.len(), 0);
    assert!(tokens.is_empty());
}

#[test]
fn parse_appends_each_lexed_token_in_order() {
    let mut tokens = Tokens::new();
    parse(&mut tokens, Span::def_site(), "a + b");
    assert_eq!(tokens.len(), 3);
    assert_eq!(term_text(tokens.get(0)), Some("a".to_string()));
    assert_eq!(op_char(tokens.get(1)), Some(('+', Spacing::Alone)));
    assert_eq!(term_text(tokens.get(2)), Some("b".to_string()));
}

#[test]
fn parse_keeps_earlier_tokens_in_front() {
    let mut tokens = Tokens::new();
    append_kind(&mut tokens, Span::call_site(), TokenNode::Term(Term::intern("first")));
    parse(&mut tokens, Span::call_site(), "second third");
    assert_eq!(tokens.len(), 3);
    assert_eq!(term_text(tokens.get(0)), Some("first".to_string()));
    assert_eq!(term_text(tokens.get(1)), Some("second".to_string()));
    assert_eq!(term_text(tokens.get(2)), Some("third".to_string()));
}

#[test]
fn parse_of_empty_text_appends_nothing() {
    let mut tokens = Tokens::new();
    append_kind(&mut tokens, Span::call_site(), TokenNode::Op(';', Spacing::Alone));
    parse(&mut tokens, Span::call_site(), "   ");
    assert_eq!(tokens.len(), 1);
}

#[test]
fn parse_of_a_group_appends_one_tree() {
    let mut tokens = Tokens::new();
    parse(&mut tokens, Span::def_site(), "( x , y )");
    assert_eq!(tokens.len(), 1);
    match tokens.get(0).kind {
        TokenNode::Group(delim, ref inner) => {
            assert_eq!(delim, Delimiter::Parenthesis);
            assert_eq!(inner.clone().into_iter().count(), 3);
        }
        _ => panic!("expected a group"),
    }
}

#[test]
fn parse_keeps_joint_operators() {
    let mut tokens = Tokens::new();
    parse(&mut tokens, Span::def_site(), "=>");
    assert_eq!(tokens.len(), 2);
    assert_eq!(op_char(tokens.get(0)), Some(('=', Spacing::Joint)));
    assert_eq!(op_char(tokens.get(1)), Some(('>', Spacing::Alone)));
}

#[test]
fn try_parse_accepts_valid_text() {
    let mut tokens = Tokens::new();
    let r = try_parse(&mut tokens, Span::def_site(), "struct S ;");
    assert_eq!(r, Ok(()));
    assert_eq!(tokens.len(), 3);
    assert_eq!(term_text(tokens.get(0)), Some("struct".to_string()));
    assert_eq!(term_text(tokens.get(1)), Some("S".to_string()));
    assert_eq!(op_char(tokens.get(2)), Some((';', Spacing::Alone)));
}

#[test]
fn try_parse_rejects_unbalanced_delimiters() {
    let mut tokens = Tokens::new();
    append_kind(&mut tokens, Span::call_site(), TokenNode::Term(Term::intern("kept")));
    let r = try_parse(&mut tokens, Span::def_site(), "( a");
    assert_eq!(r, Err(QuoteError::InvalidTokenStream));
    assert_eq!(tokens.len(), 1);
    assert_eq!(term_text(tokens.get(0)), Some("kept".to_string()));
}

#[test]
fn try_parse_rejects_unterminated_string() {
    let mut tokens = Tokens::new();
    let r = try_parse(&mut tokens, Span::def_site(), "\"open");
    assert_eq!(r, Err(QuoteError::InvalidTokenStream));
    assert!(tokens.is_empty());
}

#[test]
fn append_kind_appends_exactly_one_token() {
    let mut tokens = Tokens::new();
    append_kind(&mut tokens, Span::def_site(), TokenNode::Op('#', Spacing::Alone));
    append_kind(&mut tokens, Span::def_site(), TokenNode::Term(Term::intern("x")));
    assert_eq!(tokens.len(), 2);
    assert_eq!(op_char(tokens.get(0)), Some(('#', Spacing::Alone)));
    assert_eq!(term_text(tokens.get(1)), Some("x".to_string()));
}

#[test]
fn append_respanned_concatenates_in_order() {
    let mut tokens = Tokens::new();
    let lexed = vec![
        Token { span: Span::call_site(), kind: TokenNode::Term(Term::intern("p")) },
        Token { span: Span::call_site(), kind: TokenNode::Op(',', Spacing::Alone) },
    ];
    append_respanned(&mut tokens, Span::def_site(), lexed);
    append_respanned(&mut tokens, Span::def_site(), Vec::new());
    assert_eq!(tokens.len(), 2);
    assert_eq!(term_text(tokens.get(0)), Some("p".to_string()));
    assert_eq!(op_char(tokens.get(1)), Some((',', Spacing::Alone)));
}

#[test]
fn piecewise_parse_equals_whole_parse() {
    let mut whole = Tokens::new();
    parse(&mut whole, Span::def_site(), "fn f ( ) { }");
    let mut pieces = Tokens::new();
    parse(&mut pieces, Span::def_site(), "fn f");
    parse(&mut pieces, Span::def_site(), "( )");
    parse(&mut pieces, Span::def_site(), "{ }");
    assert_eq!(whole.len(), pieces.len());
    for i in 0..whole.len() {
        assert_eq!(term_text(whole.get(i)), term_text(pieces.get(i)));
        assert_eq!(op_char(whole.get(i)), op_char(pieces.get(i)));
    }
}

#[test]
fn append_all_and_append_extend_the_list() {
    let mut tokens = Tokens::new();
    tokens.append(Token { span: Span::call_site(), kind: TokenNode::Term(Term::intern("a")) });
    tokens.append_all(vec![
        Token { span: Span::call_site(), kind: TokenNode::Term(Term::intern("b")) },
        Token { span: Span::call_site(), kind: TokenNode::Term(Term::intern("c")) },
    ]);
    assert_eq!(tokens.len(), 3);
    assert_eq!(term_text(tokens.get(2)), Some("c".to_string()));
}
