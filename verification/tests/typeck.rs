use sattlec::lexer::lex;
use sattlec::parser::parse;
use sattlec::typeck::{typeck, TypeError};

fn check(src: &str) -> Result<(), TypeError> {
    let tokens = lex(src).unwrap();
    let module = parse(&tokens, src.len()).unwrap();
    typeck(&module)
}

#[test]
fn accepts_main_returning_i32() {
    assert!(check("fn main() -> i32 { return 1 + 1; }").is_ok());
}

#[test]
fn accepts_non_main_function() {
    assert!(check("fn add() -> i32 { return 1 + 1; }").is_ok());
}

#[test]
fn accepts_empty_module() {
    assert!(check("").is_ok());
}

#[test]
fn rejects_duplicate_function() {
    let err = check("fn add() -> i32 { return 1; } fn add() -> i32 { return 2; }").unwrap_err();
    assert!(err.message.contains("duplicate"), "{}", err.message);
}

#[test]
fn rejects_unknown_type() {
    let err = check("fn main() -> usize { return 1; }").unwrap_err();
    assert!(err.message.contains("unknown type"), "{}", err.message);
}

#[test]
fn rejects_i32_overflow_literal() {
    let err = check("fn main() -> i32 { return 9999999999; }").unwrap_err();
    assert!(err.message.contains("i32"), "{}", err.message);
}

#[test]
fn accepts_print() {
    assert!(check("fn main() -> i32 { print(1 + 1); return 0; }").is_ok());
}

#[test]
fn accepts_let_if_while() {
    assert!(check(
        "fn main() -> i32 { let i = 0; while i < 3 { i = i + 1; } if i == 3 { return 1; } else { return 0; } }"
    )
    .is_ok());
}

#[test]
fn rejects_if_on_i32() {
    let err = check("fn main() -> i32 { if 1 { return 0; } return 1; }").unwrap_err();
    assert!(err.message.contains("bool"), "{}", err.message);
}

#[test]
fn rejects_undeclared_variable() {
    let err = check("fn main() -> i32 { return x; }").unwrap_err();
    assert!(err.message.contains("undeclared"), "{}", err.message);
}

#[test]
fn if_else_both_return() {
    assert!(check("fn main() -> i32 { if true { return 1; } else { return 0; } }").is_ok());
}

#[test]
fn ignores_dead_code_after_return() {
    assert!(check("fn main() -> i32 { return 0; print(true); if 1 { return x; } }").is_ok());
}

#[test]
fn accepts_integer_arithmetic() {
    assert!(check("fn main() -> i32 { return -1 + 2 * 3 - 8 / 2 % 3; }").is_ok());
}

#[test]
fn rejects_bool_arithmetic() {
    let err = check("fn main() -> i32 { return true * 1; }").unwrap_err();
    assert!(err.message.contains("i32"), "{}", err.message);
}

#[test]
fn rejects_unary_minus_on_bool() {
    let err = check("fn main() -> i32 { return -true; }").unwrap_err();
    assert!(err.message.contains("i32"), "{}", err.message);
}

#[test]
fn accepts_logic() {
    assert!(
        check("fn main() -> i32 { if true && false || !false { return 1; } return 0; }")
            .is_ok()
    );
}

#[test]
fn rejects_and_on_i32() {
    let err = check("fn main() -> i32 { if 1 && true { return 0; } return 1; }").unwrap_err();
    assert!(err.message.contains("bool"), "{}", err.message);
}

#[test]
fn rejects_not_on_i32() {
    let err = check("fn main() -> i32 { if !1 { return 0; } return 1; }").unwrap_err();
    assert!(err.message.contains("bool"), "{}", err.message);
}

#[test]
fn accepts_for_break_continue() {
    assert!(check(
        "fn main() -> i32 { for i in 0..3 { if i == 1 { continue; } if i == 2 { break; } } return 0; }"
    )
    .is_ok());
}

#[test]
fn rejects_break_outside_loop() {
    let err = check("fn main() -> i32 { break; return 0; }").unwrap_err();
    assert!(err.message.contains("break"), "{}", err.message);
}

#[test]
fn rejects_for_bool_range() {
    let err = check("fn main() -> i32 { for i in true..1 { } return 0; }").unwrap_err();
    assert!(err.message.contains("i32"), "{}", err.message);
}

#[test]
fn accepts_call() {
    assert!(check(
        "fn add(a: i32, b: i32) -> i32 { return a + b; } fn main() -> i32 { return add(1, 2); }"
    )
    .is_ok());
}

#[test]
fn accepts_recursive_call() {
    assert!(check(
        "fn sum(n: i32) -> i32 { if n <= 0 { return 0; } return n + sum(n - 1); } fn main() -> i32 { return sum(3); }"
    )
    .is_ok());
}

#[test]
fn rejects_unknown_function() {
    let err = check("fn main() -> i32 { return foo(1); }").unwrap_err();
    assert!(err.message.contains("unknown function"), "{}", err.message);
}

#[test]
fn rejects_call_arity() {
    let err = check(
        "fn add(a: i32, b: i32) -> i32 { return a + b; } fn main() -> i32 { return add(1); }",
    )
    .unwrap_err();
    assert!(err.message.contains("argument"), "{}", err.message);
}

#[test]
fn rejects_call_arg_type() {
    let err = check(
        "fn add(a: i32, b: i32) -> i32 { return a + b; } fn main() -> i32 { return add(true, 1); }",
    )
    .unwrap_err();
    assert!(err.message.contains("expected"), "{}", err.message);
}

#[test]
fn rejects_duplicate_param() {
    let err = check("fn add(a: i32, a: i32) -> i32 { return a; }").unwrap_err();
    assert!(err.message.contains("duplicate"), "{}", err.message);
}

#[test]
fn accepts_struct_and_pointer() {
    assert!(check(
        "struct Point { x: i32, y: i32 } fn bump(p: *Point) -> i32 { p.x = p.x + 1; return p.x; } fn main() -> i32 { let p = Point { x: 1, y: 2 }; return bump(&p); }"
    )
    .is_ok());
}

#[test]
fn accepts_deref_i32_ptr() {
    assert!(check(
        "struct Point { x: i32 } fn main() -> i32 { let p = Point { x: 1 }; let q: *i32 = &p.x; *q = 4; return *q; }"
    )
    .is_ok());
}

#[test]
fn accepts_recursive_struct_via_pointer() {
    assert!(check(
        "struct Node { next: *Node, val: i32 } fn val(n: *Node) -> i32 { return n.val; } fn main() -> i32 { return 0; }"
    )
    .is_ok());
}

#[test]
fn rejects_unknown_field() {
    let err = check(
        "struct Point { x: i32 } fn main() -> i32 { let p = Point { x: 1 }; return p.y; }",
    )
    .unwrap_err();
    assert!(err.message.contains("no field"), "{}", err.message);
}

#[test]
fn rejects_missing_struct_field() {
    let err = check(
        "struct Point { x: i32, y: i32 } fn main() -> i32 { let p = Point { x: 1 }; return p.x; }",
    )
    .unwrap_err();
    assert!(err.message.contains("missing field"), "{}", err.message);
}

#[test]
fn rejects_recursive_struct_by_value() {
    let err = check("struct A { a: A } fn main() -> i32 { return 0; }").unwrap_err();
    assert!(err.message.contains("recursive"), "{}", err.message);
}

#[test]
fn rejects_address_of_rvalue() {
    let err = check("fn main() -> i32 { let p: *i32 = &1; return 0; }").unwrap_err();
    assert!(err.message.contains("address"), "{}", err.message);
}

#[test]
fn rejects_assign_to_temporary_field() {
    let err =
        check("struct Point { x: i32 } fn main() -> i32 { Point { x: 1 }.x = 2; return 0; }")
            .unwrap_err();
    assert!(err.message.contains("assign"), "{}", err.message);
}

#[test]
fn accepts_enum_and_match() {
    assert!(check(
        "enum Color { Red, Green } fn main() -> i32 { match Color::Red { Color::Red => { return 1; } Color::Green => { return 2; } } }"
    )
    .is_ok());
}

#[test]
fn accepts_match_on_enum_ptr() {
    assert!(check(
        "enum Color { Red, Green } fn main() -> i32 { let c = Color::Red; let p: *Color = &c; match p { Color::Red => { return 1; } Color::Green => { return 0; } } }"
    )
    .is_ok());
}

#[test]
fn accepts_enum_compare() {
    assert!(check(
        "enum Color { Red, Green } fn main() -> i32 { if Color::Red == Color::Green { return 1; } return 0; }"
    )
    .is_ok());
}

#[test]
fn rejects_non_exhaustive_match() {
    let err = check(
        "enum Color { Red, Green } fn main() -> i32 { match Color::Red { Color::Red => { return 1; } } }",
    )
    .unwrap_err();
    assert!(err.message.contains("non-exhaustive"), "{}", err.message);
    assert!(err.message.contains("Green"), "{}", err.message);
}

#[test]
fn rejects_unknown_variant() {
    let err = check("enum Color { Red } fn main() -> i32 { return Color::Blue; }").unwrap_err();
    assert!(err.message.contains("no variant"), "{}", err.message);
}

#[test]
fn rejects_duplicate_match_arm() {
    let err = check(
        "enum Color { Red, Green } fn main() -> i32 { match Color::Red { Color::Red => { return 1; } Color::Red => { return 2; } Color::Green => { return 3; } } }",
    )
    .unwrap_err();
    assert!(err.message.contains("duplicate"), "{}", err.message);
}

#[test]
fn rejects_match_missing_return() {
    let err = check(
        "enum Color { Red, Green } fn main() -> i32 { match Color::Red { Color::Red => { return 1; } Color::Green => { } } }",
    )
    .unwrap_err();
    assert!(err.message.contains("missing `return`"), "{}", err.message);
}

#[test]
fn rejects_struct_enum_name_clash() {
    let err =
        check("struct Color { x: i32 } enum Color { Red } fn main() -> i32 { return 0; }")
            .unwrap_err();
    assert!(err.message.contains("duplicate"), "{}", err.message);
}

#[test]
fn accepts_item_and_local_const() {
    assert!(check("const N: i32 = 1 + 2; fn main() -> i32 { const m = N; return m; }").is_ok());
}

#[test]
fn accepts_const_forward_ref() {
    assert!(
        check("const A: i32 = B; const B: i32 = 1; fn main() -> i32 { return A; }").is_ok()
    );
}

#[test]
fn accepts_const_enum() {
    assert!(check(
        "enum Color { Red, Green } const START: Color = Color::Red; fn main() -> i32 { match START { Color::Red => { return 1; } Color::Green => { return 0; } } }"
    )
    .is_ok());
}

#[test]
fn rejects_assign_to_local_const() {
    let err = check("fn main() -> i32 { const n = 1; n = 2; return n; }").unwrap_err();
    assert!(err.message.contains("const"), "{}", err.message);
}

#[test]
fn rejects_assign_to_item_const() {
    let err = check("const N: i32 = 1; fn main() -> i32 { N = 2; return N; }").unwrap_err();
    assert!(err.message.contains("const"), "{}", err.message);
}

#[test]
fn rejects_call_in_const() {
    let err =
        check("fn f() -> i32 { return 1; } const N: i32 = f(); fn main() -> i32 { return N; }")
            .unwrap_err();
    assert!(err.message.contains("call"), "{}", err.message);
}

#[test]
fn rejects_recursive_const() {
    let err = check("const A: i32 = B; const B: i32 = A; fn main() -> i32 { return A; }")
        .unwrap_err();
    assert!(err.message.contains("recursive"), "{}", err.message);
}

#[test]
fn rejects_const_fn_name_clash() {
    let err =
        check("const N: i32 = 1; fn N() -> i32 { return 0; } fn main() -> i32 { return 0; }")
            .unwrap_err();
    assert!(err.message.contains("duplicate"), "{}", err.message);
}
