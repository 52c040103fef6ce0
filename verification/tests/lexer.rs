use sattlec::lexer::{lex, Token};

fn kinds(source: &str) -> Vec<Token<'_>> {
    lex(source)
        .unwrap_or_else(|off| panic!("lex error at byte {off}"))
        .into_iter()
        .map(|t| t.kind)
        .collect()
}

#[test]
fn empty_source() {
    assert!(kinds("").is_empty());
}

#[test]
fn skips_whitespace_and_comments() {
    assert_eq!(kinds("  // line\n /* block */ 1"), vec![Token::Int("1")]);
}

#[test]
fn lexes_fn_main_return() {
    let src = "fn main() -> i32 { return 1 + 1; }";
    assert_eq!(
        kinds(src),
        vec![
            Token::Fn,
            Token::Ident("main"),
            Token::LParen,
            Token::RParen,
            Token::Arrow,
            Token::Ident("i32"),
            Token::LBrace,
            Token::Return,
            Token::Int("1"),
            Token::Plus,
            Token::Int("1"),
            Token::Semi,
            Token::RBrace,
        ]
    );
}

#[test]
fn lexes_sat_keywords_and_ops() {
    let src = "literal Lit : u32 { fn not(self) -> Lit { self >> 1 } }";
    assert_eq!(
        kinds(src),
        vec![
            Token::Literal,
            Token::Ident("Lit"),
            Token::Colon,
            Token::Ident("u32"),
            Token::LBrace,
            Token::Fn,
            Token::Ident("not"),
            Token::LParen,
            Token::SelfValue,
            Token::RParen,
            Token::Arrow,
            Token::Ident("Lit"),
            Token::LBrace,
            Token::SelfValue,
            Token::Shr,
            Token::Int("1"),
            Token::RBrace,
            Token::RBrace,
        ]
    );
}

#[test]
fn lexes_attribute_punct() {
    assert_eq!(
        kinds("#[hot]"),
        vec![Token::Hash, Token::LBracket, Token::Ident("hot"), Token::RBracket]
    );
}

#[test]
fn rejects_unknown_byte() {
    assert_eq!(lex("fn $"), Err(3));
}
