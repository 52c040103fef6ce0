use sattlec::ast::{format_ast, Expr, Item, SourceModule, Stmt, Type};
use sattlec::codegen::{check_codegen, emit_llvm_ir, CodegenError};
use sattlec::driver::DriverError;
use sattlec::lexer::{lex, Token};
use sattlec::parser::{parse, ParseError};
use sattlec::report::{dump_mode, error_line, DumpMode};
use sattlec::span::LineIndex;
use sattlec::typeck::typeck;

fn parse_source(src: &str) -> Result<SourceModule, ParseError> {
    let tokens = lex(src).unwrap();
    parse(&tokens, src.len())
}

fn codegen_error(src: &str) -> String {
    let module = parse_source(src).unwrap();
    emit_llvm_ir(&module, "t.satl").unwrap_err().message
}

#[test]
fn lex_spans_are_in_source_order() {
    let src = "fn main() -> i32 {\n  return 10 + x; // done\n}";
    let tokens = lex(src).unwrap();
    let mut last_end = 0;
    for t in &tokens {
        assert!(last_end <= t.span.start);
        assert!(t.span.start < t.span.end);
        assert!(t.span.end <= src.len());
        last_end = t.span.end;
    }
    assert_eq!(tokens[0].span, 0..2);
    assert_eq!(tokens[8].kind, Token::Int("10"));
    assert_eq!(tokens[8].span, 28..30);
}

#[test]
fn lex_error_on_non_ascii_is_at_char_boundary() {
    let src = "/* é */ let é = 1;";
    let offset = lex(src).unwrap_err();
    assert_eq!(offset, 13);
    assert!(src.is_char_boundary(offset));
    let index = LineIndex::new(src);
    assert_eq!(index.line_col(src, offset), (1, 13));
}

#[test]
fn lex_prefers_longest_operator_and_keywords() {
    let tokens: Vec<Token> = lex("a...b ..= x-> letx let").unwrap().into_iter().map(|t| t.kind).collect();
    assert_eq!(
        tokens,
        vec![
            Token::Ident("a"),
            Token::DotDotDot,
            Token::Ident("b"),
            Token::DotDot,
            Token::Eq,
            Token::Ident("x"),
            Token::Arrow,
            Token::Ident("letx"),
            Token::Let,
        ]
    );
}

#[test]
fn unterminated_block_comment_lexes_as_operators() {
    let tokens: Vec<Token> = lex("1 /* open").unwrap().into_iter().map(|t| t.kind).collect();
    assert_eq!(tokens, vec![Token::Int("1"), Token::Slash, Token::Star, Token::Ident("open")]);
}

#[test]
fn line_col_clamps_past_end() {
    let src = "ab\ncd";
    let index = LineIndex::new(src);
    assert_eq!(index.line_col(src, 3), (2, 1));
    assert_eq!(index.line_col(src, 99), (2, 3));
}

#[test]
fn parse_error_reports_offset_of_token() {
    let err = parse_source("fn main() -> i32 { return 1 }").unwrap_err();
    assert_eq!(err, ParseError { message: "expected `;`, found }".to_string(), offset: 28 });
}

#[test]
fn parse_error_at_end_of_file_uses_source_length() {
    let src = "fn main() -> i32 { return 1;";
    let err = parse_source(src).unwrap_err();
    assert_eq!(err.message, "expected `}`, found end of file");
    assert_eq!(err.offset, src.len());
}

#[test]
fn parse_rejects_out_of_range_literal() {
    let err = parse_source("fn main() -> i32 { return 99999999999999999999; }").unwrap_err();
    assert_eq!(err.message, "integer literal `99999999999999999999` is out of range");
    assert_eq!(err.offset, 26);
}

#[test]
fn parse_accepts_largest_literal() {
    let module = parse_source("const N: i32 = 9223372036854775807;").unwrap();
    let Item::Const(c) = &module.items[0] else {
        panic!("expected const");
    };
    assert_eq!(c.value, Expr::Int(i64::MAX));
    assert_eq!(c.ty, Type::Name("i32".into()));
}

#[test]
fn parse_rejects_unknown_item() {
    let err = parse_source("let x = 1;").unwrap_err();
    assert_eq!(err.message, "expected item, found let");
    assert_eq!(err.offset, 0);
}

#[test]
fn parse_enum_match_and_else_if() {
    let src = "enum C { A, B, } fn main() -> i32 { let c: C = C::A; match c { C::A => { return 1; }, C::B => { return 2; } } if false { return 3; } else if true { return 4; } return 5; }";
    let module = parse_source(src).unwrap();
    let Item::Enum(e) = &module.items[0] else {
        panic!("expected enum");
    };
    assert_eq!(e.variants, vec!["A".to_string(), "B".to_string()]);
    let Item::Fn(f) = &module.items[1] else {
        panic!("expected fn");
    };
    assert!(matches!(&f.body.stmts[0], Stmt::Let { ty: Some(Type::Name(n)), mutable: true, .. } if n == "C"));
    let Stmt::Match { arms, .. } = &f.body.stmts[1] else {
        panic!("expected match");
    };
    assert_eq!(arms.len(), 2);
    assert_eq!(arms[1].variant, "B");
    let Stmt::If { else_block: Some(b), .. } = &f.body.stmts[2] else {
        panic!("expected if");
    };
    assert!(matches!(&b.stmts[0], Stmt::If { .. }));
}

#[test]
fn format_ast_prints_every_construct() {
    let src = "struct P { x: i32, n: *P } enum C { A } const K: bool = true; fn f(p: *P, k: i32) -> i32 { const y = p.x; while !false { break; } for i in 0..k { continue; } match C::A { C::A => { } } *p = P { x: 1, n: &q }; print(f(p, 2)); return -y; }";
    let module = parse_source(src).unwrap();
    let expected = "\
Module
  Struct P
    Field x
      Name(i32)
    Field n
      Ptr
        Name(P)
  Enum C
    Variant A
  Const K
    Type
      Name(bool)
    Bool(true)
  Fn f
    Param p
      Ptr
        Name(P)
    Param k
      Name(i32)
    ReturnType
      Name(i32)
    Body
      Block
        Const y
          Field(x)
            Var(p)
        While
          Cond
            Unary(!)
              Bool(false)
          Body
            Block
              Break
        For i
          Start
            Int(0)
          End
            Var(k)
          Body
            Block
              Continue
        Match
          Variant(C::A)
          Arm C::A
            Block
        Assign
          Unary(*)
            Var(p)
          StructLit(P)
            Field x
              Int(1)
            Field n
              Unary(&)
                Var(q)
        Print
          Call(f)
            Var(p)
            Int(2)
        Return
          Unary(-)
            Var(y)
";
    assert_eq!(format_ast(&module), expected);
}

#[test]
fn format_ast_of_empty_module() {
    assert_eq!(format_ast(&parse_source("").unwrap()), "Module\n");
}

#[test]
fn codegen_error_for_each_unsupported_form() {
    assert_eq!(codegen_error("struct S { x: i32 } fn main() -> i32 { return 0; }"), "codegen: unsupported struct `S`");
    assert_eq!(codegen_error("enum E { A } fn main() -> i32 { return 0; }"), "codegen: unsupported enum `E`");
    assert_eq!(codegen_error("const K: i32 = 1; fn main() -> i32 { return 0; }"), "codegen: unsupported const `K`");
    assert_eq!(codegen_error("fn main() -> i32 { return 2 * 3; }"), "codegen: unsupported operator `*`");
    assert_eq!(codegen_error("fn main() -> i32 { return -1; }"), "codegen: unsupported operator `-`");
    assert_eq!(codegen_error("fn main() -> i32 { return f(); }"), "codegen: unsupported call of `f`");
    assert_eq!(codegen_error("fn main() -> i32 { for i in 0..1 { } return 0; }"), "codegen: unsupported statement `for`");
    assert_eq!(codegen_error("fn main() -> i32 { let p = 1; *p = 2; return 0; }"), "codegen: unsupported assignment target");
}

#[test]
fn codegen_reports_missing_return_and_undeclared_variable() {
    assert_eq!(codegen_error("fn main() -> i32 { print(1); }"), "missing `return`");
    assert_eq!(codegen_error("fn main() -> i32 { if true { return 1; } }"), "missing `return`");
    assert_eq!(codegen_error("fn main() -> i32 { return x; }"), "undeclared variable `x`");
}

#[test]
fn codegen_skips_statements_after_return() {
    let module = parse_source("fn main() -> i32 { return 0; print(y); }").unwrap();
    assert!(check_codegen(&module).is_ok());
    assert!(emit_llvm_ir(&module, "t.satl").is_ok());
}

#[test]
fn codegen_scopes_end_with_their_block() {
    let src = "fn main() -> i32 { if true { let a = 1; } return a; }";
    assert_eq!(codegen_error(src), "undeclared variable `a`");
}

#[test]
fn codegen_builds_control_flow() {
    let src = "fn main() -> i32 { let i = 0; while i < 3 { i = i + 1; print(i); } if i == 3 { return 1; } else { return 0; } }";
    let module = parse_source(src).unwrap();
    typeck(&module).unwrap();
    let ir = emit_llvm_ir(&module, "loop.satl").unwrap();
    assert!(ir.contains("while.cond"), "{ir}");
    assert!(ir.contains("if.then"), "{ir}");
    assert!(ir.contains("alloca i32"), "{ir}");
    assert!(ir.contains("icmp slt"), "{ir}");
}

#[test]
fn codegen_first_error_follows_item_order() {
    assert_eq!(
        codegen_error("fn helper() -> i32 { return 1; } fn main() -> i32 { return x; }"),
        "codegen: unsupported function `helper`"
    );
    assert_eq!(
        codegen_error("fn main() -> i32 { return x; } fn helper() -> i32 { return 1; }"),
        "undeclared variable `x`"
    );
}

#[test]
fn driver_error_wraps_codegen_error() {
    let err = DriverError::from(CodegenError { message: "`main` function not found".to_string() });
    assert_eq!(err.message, "`main` function not found");
}

#[test]
fn dump_mode_prefers_tokens_then_ast() {
    assert_eq!(dump_mode(true, true), DumpMode::Tokens);
    assert_eq!(dump_mode(false, true), DumpMode::Ast);
    assert_eq!(dump_mode(false, false), DumpMode::EmitLlvm);
}

#[test]
fn error_line_with_and_without_position() {
    let src = "fn main() -> i32 {\n  return 1\n}";
    assert_eq!(
        error_line(src, "a.satl", Some(30), "expected `;`, found }"),
        "error: expected `;`, found } at a.satl:3:1"
    );
    assert_eq!(error_line(src, "a.satl", None, "missing `return`"), "error: missing `return` (a.satl)");
    assert_eq!(error_line(src, "a.satl", Some(99), "x"), "error: x at a.satl:3:2");
}
