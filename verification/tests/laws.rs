use sattlec::ast::Item;
use sattlec::codegen::{check_codegen, emit_llvm_ir};
use sattlec::lexer::{lex, Token};
use sattlec::parser::parse;
use sattlec::typeck::typeck;

#[test]
fn every_lexed_position_can_be_located() {
    let src = "fn ü() -> i32 { return 1; }";
    match lex(src) {
        Ok(tokens) => {
            for t in &tokens {
                assert!(src.is_char_boundary(t.span.start));
            }
        }
        Err(offset) => {
            assert_eq!(offset, 3);
            assert!(src.is_char_boundary(offset));
        }
    }
    let src = "// ü\nfn main";
    let tokens = lex(src).unwrap();
    assert_eq!(tokens[0].span.start, 6);
    assert!(src.is_char_boundary(tokens[0].span.start));
}

#[test]
fn parsed_struct_has_fields() {
    let src = "struct S { a: i32 } struct T { b: bool, c: *S }";
    let tokens = lex(src).unwrap();
    let module = parse(&tokens, src.len()).unwrap();
    for item in &module.items {
        if let Item::Struct(s) = item {
            assert!(!s.fields.is_empty());
        }
    }
}

#[test]
fn typeck_refuses_repeated_names() {
    let check = |src: &str| {
        let tokens = lex(src).unwrap();
        typeck(&parse(&tokens, src.len()).unwrap())
    };
    assert_eq!(
        check("fn f() -> i32 { return 1; } const f: i32 = 2;").unwrap_err().message,
        "duplicate definition of `f`"
    );
    assert_eq!(
        check("enum E { A } struct E { x: i32 }").unwrap_err().message,
        "duplicate definition of `E`"
    );
    assert!(check("struct f { x: i32 } fn f() -> i32 { return 0; }").is_ok());
}

#[test]
fn codegen_accepts_only_main() {
    let accepted = |src: &str| {
        let tokens = lex(src).unwrap();
        let module = parse(&tokens, src.len()).unwrap();
        let checked = check_codegen(&module).is_ok();
        assert_eq!(checked, emit_llvm_ir(&module, "t.satl").is_ok());
        checked
    };
    assert!(accepted("fn main() -> i32 { return 0; }"));
    assert!(!accepted(""));
    assert!(!accepted("fn main() -> i32 { return 0; } fn g() -> i32 { return 0; }"));
    assert!(!accepted("fn main() -> i32 { while true { return 1; } }"));
}

#[test]
fn parse_error_positions_can_be_located() {
    let src = "fn main() -> i32 { // é\n return 1 }";
    let tokens = lex(src).unwrap();
    let err = parse(&tokens, src.len()).unwrap_err();
    assert_eq!(err.offset, src.len() - 1);
    assert!(src.is_char_boundary(err.offset));
    let index = sattlec::span::LineIndex::new(src);
    assert_eq!(index.line_col(src, err.offset), (2, 11));
}

#[test]
fn typeck_refuses_malformed_declarations() {
    let check = |src: &str| {
        let tokens = lex(src).unwrap();
        typeck(&parse(&tokens, src.len()).unwrap())
    };
    assert_eq!(
        check("struct S { x: i32, x: bool }").unwrap_err().message,
        "duplicate field `x` on `S`"
    );
    assert_eq!(check("enum E { }").unwrap_err().message, "enum `E` must have at least one variant");
    assert_eq!(check("enum E { A, B, A }").unwrap_err().message, "duplicate variant `A` on `E`");
    assert!(check("struct S { x: i32, y: bool } enum E { A, B }").is_ok());
}

#[test]
fn token_text_lexes_back_to_the_token() {
    let samples = vec![
        Token::Fn,
        Token::Continue,
        Token::SelfType,
        Token::ReprEnum,
        Token::DotDotDot,
        Token::DotDot,
        Token::Arrow,
        Token::LBrace,
        Token::Slash,
        Token::Question,
    ];
    for t in samples {
        let text = t.display_text();
        let tokens = lex(&text).unwrap();
        assert_eq!(tokens.len(), 1, "{text}");
        assert_eq!(tokens[0].kind, t);
        assert_eq!(tokens[0].span.start, 0);
        assert_eq!(tokens[0].span.end, text.len());
    }
}

fn typeck_error(src: &str) -> String {
    let tokens = lex(src).unwrap();
    let module = parse(&tokens, src.len()).unwrap();
    typeck(&module).unwrap_err().message
}

#[test]
fn struct_cycle_through_two_structs_is_refused() {
    let msg = typeck_error("struct A { b: B } struct B { a: A } fn main() -> i32 { return 0; }");
    assert!(msg.contains("recursive type"), "{msg}");
}

#[test]
fn const_cycle_through_three_consts_is_refused() {
    let msg = typeck_error("const A: i32 = B + 1; const B: i32 = C; const C: i32 = A; fn main() -> i32 { return 0; }");
    assert!(msg.contains("recursive const"), "{msg}");
}

fn typeck_ok(src: &str) -> bool {
    let tokens = lex(src).unwrap();
    let module = parse(&tokens, src.len()).unwrap();
    typeck(&module).is_ok()
}

#[test]
fn if_returns_only_when_both_branches_return() {
    assert!(typeck_ok("fn main() -> i32 { if true { return 1; } else { return 2; } }"));
    let msg = typeck_error("fn main() -> i32 { if true { return 1; } }");
    assert!(msg.contains("missing `return`"), "{msg}");
    let msg = typeck_error("fn main() -> i32 { if true { return 1; } else { } }");
    assert!(msg.contains("missing `return`"), "{msg}");
}

#[test]
fn loop_falls_through_even_when_body_returns() {
    let msg = typeck_error("fn main() -> i32 { while true { return 1; } }");
    assert!(msg.contains("missing `return`"), "{msg}");
}

#[test]
fn match_returns_when_every_arm_returns() {
    assert!(typeck_ok(
        "enum Color { Red, Green } fn main() -> i32 { match Color::Red { Color::Red => { return 1; } Color::Green => { return 2; } } }"
    ));
    let msg = typeck_error(
        "enum Color { Red, Green } fn main() -> i32 { match Color::Red { Color::Red => { return 1; } Color::Green => { } } }",
    );
    assert!(msg.contains("missing `return`"), "{msg}");
}

#[test]
fn break_and_continue_only_inside_loops() {
    let msg = typeck_error("fn main() -> i32 { break; return 0; }");
    assert!(msg.contains("`break` outside of a loop"), "{msg}");
    let msg = typeck_error("fn main() -> i32 { continue; return 0; }");
    assert!(msg.contains("`continue` outside of a loop"), "{msg}");
    assert!(typeck_ok("fn main() -> i32 { while true { break; } return 0; }"));
}
