use sattlec::ast::{format_ast, BinOp, Expr, Function, Item, SourceModule, Stmt, Type, UnOp};
use sattlec::lexer::lex;
use sattlec::parser::parse;

fn parse_src(src: &str) -> SourceModule {
    let tokens = lex(src).unwrap_or_else(|off| panic!("lex error at {off}"));
    parse(&tokens, src.len()).unwrap_or_else(|e| panic!("{} at {}", e.message, e.offset))
}

fn first_fn(module: &SourceModule) -> &Function {
    module
        .items
        .iter()
        .find_map(|item| match item {
            Item::Fn(func) => Some(func),
            _ => None,
        })
        .expect("function")
}

fn into_first_fn(module: SourceModule) -> Function {
    module
        .items
        .into_iter()
        .find_map(|item| match item {
            Item::Fn(func) => Some(func),
            _ => None,
        })
        .expect("function")
}

#[test]
fn parses_add_example() {
    let module = parse_src("fn main() -> i32 {\n    return 1 + 1;\n}\n");
    assert_eq!(module.items.len(), 1);
    let func = first_fn(&module);
    assert_eq!(func.name, "main");
    assert_eq!(func.return_ty, Type::Name("i32".into()));
    assert_eq!(func.body.stmts.len(), 1);
    let Stmt::Return(expr) = &func.body.stmts[0] else {
        panic!("expected return");
    };
    assert_eq!(
        expr,
        &Expr::Binary {
            op: BinOp::Add,
            lhs: Box::new(Expr::Int(1)),
            rhs: Box::new(Expr::Int(1)),
        }
    );
}

#[test]
fn addition_is_left_associative() {
    let module = parse_src("fn main() -> i32 { return 1 + 2 + 3; }");
    let func = first_fn(&module);
    let Stmt::Return(expr) = &func.body.stmts[0] else {
        panic!("expected return");
    };
    assert_eq!(
        expr,
        &Expr::Binary {
            op: BinOp::Add,
            lhs: Box::new(Expr::Binary {
                op: BinOp::Add,
                lhs: Box::new(Expr::Int(1)),
                rhs: Box::new(Expr::Int(2)),
            }),
            rhs: Box::new(Expr::Int(3)),
        }
    );
}

#[test]
fn format_ast_is_stable() {
    let src = "fn main() -> i32 { return 1 + 1; }";
    let module = parse_src(src);
    assert_eq!(
        format_ast(&module),
        "\
Module
  Fn main
    ReturnType
      Name(i32)
    Body
      Block
        Return
          Binary(+)
            Int(1)
            Int(1)
"
    );
}

#[test]
fn rejects_missing_semicolon() {
    let src = "fn main() -> i32 { return 1 }";
    let tokens = lex(src).unwrap();
    let err = parse(&tokens, src.len()).unwrap_err();
    assert!(err.message.contains("`;`"), "{}", err.message);
}

#[test]
fn empty_module() {
    let module = parse_src("");
    assert!(module.items.is_empty());
}

#[test]
fn parses_print() {
    let module = parse_src("fn main() -> i32 { print(1 + 1); return 0; }");
    let func = first_fn(&module);
    assert!(matches!(&func.body.stmts[0], Stmt::Print(_)));
    assert!(matches!(&func.body.stmts[1], Stmt::Return(_)));
}

#[test]
fn parses_let_if_while() {
    let module = parse_src(
        "fn main() -> i32 {\n    let i = 0;\n    while i < 3 { i = i + 1; }\n    if i == 3 { return 1; } else { return 0; }\n}",
    );
    let func = first_fn(&module);
    assert!(matches!(&func.body.stmts[0], Stmt::Let { name, .. } if name == "i"));
    assert!(matches!(&func.body.stmts[1], Stmt::While { .. }));
    assert!(matches!(&func.body.stmts[2], Stmt::If { .. }));
}

#[test]
fn parses_for_break_continue() {
    let module = parse_src(
        "fn main() -> i32 { for i in 0..3 { if i == 1 { continue; } break; } return 0; }",
    );
    let func = first_fn(&module);
    assert!(matches!(&func.body.stmts[0], Stmt::For { name, .. } if name == "i"));
    let Stmt::For { body, .. } = &func.body.stmts[0] else {
        panic!("expected for");
    };
    assert!(matches!(&body.stmts[1], Stmt::Break));
}

#[test]
fn parses_params_and_call() {
    let module = parse_src(
        "fn add(a: i32, b: i32) -> i32 { return a + b; } fn main() -> i32 { return add(1, 2); }",
    );
    assert_eq!(module.items.len(), 2);
    let add = first_fn(&module);
    assert_eq!(add.params.len(), 2);
    assert_eq!(add.params[0].name, "a");
    assert_eq!(
        return_expr("fn main() -> i32 { return add(1, 2); }"),
        Expr::Call {
            name: "add".into(),
            args: vec![Expr::Int(1), Expr::Int(2)],
        }
    );
}

fn return_expr(src: &str) -> Expr {
    let func = into_first_fn(parse_src(src));
    match func.body.stmts.into_iter().next() {
        Some(Stmt::Return(expr)) => expr,
        _ => panic!("expected return"),
    }
}

#[test]
fn mul_binds_tighter_than_add() {
    assert_eq!(
        return_expr("fn main() -> i32 { return 1 + 2 * 3; }"),
        Expr::Binary {
            op: BinOp::Add,
            lhs: Box::new(Expr::Int(1)),
            rhs: Box::new(Expr::Binary {
                op: BinOp::Mul,
                lhs: Box::new(Expr::Int(2)),
                rhs: Box::new(Expr::Int(3)),
            }),
        }
    );
}

#[test]
fn unary_minus_binds_tighter_than_mul() {
    assert_eq!(
        return_expr("fn main() -> i32 { return -2 * 3; }"),
        Expr::Binary {
            op: BinOp::Mul,
            lhs: Box::new(Expr::Unary {
                op: UnOp::Neg,
                expr: Box::new(Expr::Int(2)),
            }),
            rhs: Box::new(Expr::Int(3)),
        }
    );
}

#[test]
fn mul_div_are_left_associative() {
    assert_eq!(
        return_expr("fn main() -> i32 { return 8 / 2 * 2; }"),
        Expr::Binary {
            op: BinOp::Mul,
            lhs: Box::new(Expr::Binary {
                op: BinOp::Div,
                lhs: Box::new(Expr::Int(8)),
                rhs: Box::new(Expr::Int(2)),
            }),
            rhs: Box::new(Expr::Int(2)),
        }
    );
}

#[test]
fn sub_is_left_associative() {
    assert_eq!(
        return_expr("fn main() -> i32 { return 10 - 3 - 2; }"),
        Expr::Binary {
            op: BinOp::Sub,
            lhs: Box::new(Expr::Binary {
                op: BinOp::Sub,
                lhs: Box::new(Expr::Int(10)),
                rhs: Box::new(Expr::Int(3)),
            }),
            rhs: Box::new(Expr::Int(2)),
        }
    );
}

fn if_cond(src: &str) -> Expr {
    let func = into_first_fn(parse_src(src));
    match func.body.stmts.into_iter().next() {
        Some(Stmt::If { cond, .. }) => cond,
        _ => panic!("expected if"),
    }
}

#[test]
fn and_binds_tighter_than_or() {
    assert_eq!(
        if_cond("fn main() -> i32 { if true || false && false { return 1; } return 0; }"),
        Expr::Binary {
            op: BinOp::Or,
            lhs: Box::new(Expr::Bool(true)),
            rhs: Box::new(Expr::Binary {
                op: BinOp::And,
                lhs: Box::new(Expr::Bool(false)),
                rhs: Box::new(Expr::Bool(false)),
            }),
        }
    );
}

#[test]
fn not_binds_tighter_than_and() {
    assert_eq!(
        if_cond("fn main() -> i32 { if !true && false { return 1; } return 0; }"),
        Expr::Binary {
            op: BinOp::And,
            lhs: Box::new(Expr::Unary {
                op: UnOp::Not,
                expr: Box::new(Expr::Bool(true)),
            }),
            rhs: Box::new(Expr::Bool(false)),
        }
    );
}

#[test]
fn parses_struct_ptr_and_fields() {
    let module = parse_src(
        "struct Point { x: i32, y: i32 } fn bump(p: *Point) -> i32 { p.x = p.x + 1; return p.x; } fn main() -> i32 { let p = Point { x: 1, y: 2 }; return bump(&p); }",
    );
    assert!(matches!(&module.items[0], Item::Struct(def) if def.name == "Point"));
    let bump = first_fn(&module);
    assert_eq!(bump.params[0].ty, Type::Ptr(Box::new(Type::Name("Point".into()))));
    assert!(matches!(
        &bump.body.stmts[0],
        Stmt::Assign {
            target: Expr::Field { field, .. },
            ..
        } if field == "x"
    ));
    assert_eq!(
        return_expr("fn main() -> i32 { return Point { x: 1, y: 2 }.x; }"),
        Expr::Field {
            base: Box::new(Expr::StructLit {
                name: "Point".into(),
                fields: vec![("x".into(), Expr::Int(1)), ("y".into(), Expr::Int(2)),],
            }),
            field: "x".into(),
        }
    );
    assert_eq!(
        return_expr("fn main() -> i32 { return *p; }"),
        Expr::Unary {
            op: UnOp::Deref,
            expr: Box::new(Expr::Var("p".into())),
        }
    );
    assert_eq!(
        return_expr("fn main() -> i32 { return &p; }"),
        Expr::Unary {
            op: UnOp::AddrOf,
            expr: Box::new(Expr::Var("p".into())),
        }
    );
}

#[test]
fn if_does_not_parse_struct_lit() {
    let module = parse_src("fn main() -> i32 { if p { return 1; } return 0; }");
    let func = first_fn(&module);
    let Stmt::If { cond, .. } = &func.body.stmts[0] else {
        panic!("expected if");
    };
    assert_eq!(cond, &Expr::Var("p".into()));
}

#[test]
fn if_parses_struct_lit_when_fields_follow() {
    let module =
        parse_src("fn main() -> i32 { if Point { x: 1 }.x == 1 { return 1; } return 0; }");
    let func = first_fn(&module);
    let Stmt::If { cond, .. } = &func.body.stmts[0] else {
        panic!("expected if");
    };
    assert!(matches!(
        cond,
        Expr::Binary {
            op: BinOp::Eq,
            lhs,
            ..
        } if matches!(&**lhs, Expr::Field { field, base } if field == "x" && matches!(&**base, Expr::StructLit { name, .. } if name == "Point"))
    ));
}

#[test]
fn rejects_empty_struct() {
    let src = "struct Point {} fn main() -> i32 { return 0; }";
    let tokens = lex(src).unwrap();
    let err = parse(&tokens, src.len()).unwrap_err();
    assert!(err.message.contains("at least one field"), "{}", err.message);
}
