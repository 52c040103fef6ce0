use sattlec::ast::SourceModule;
use sattlec::codegen::{emit_llvm_ir, PRINT_I32};
use sattlec::lexer::lex;
use sattlec::parser::parse;
use sattlec::typeck::typeck;

fn module_of(src: &str) -> SourceModule {
    let tokens = lex(src).unwrap();
    let module = parse(&tokens, src.len()).unwrap();
    typeck(&module).unwrap();
    module
}

#[test]
fn emit_llvm_contains_main() {
    let module = module_of("fn main() -> i32 { return 1 + 1; }");
    let ir = emit_llvm_ir(&module, "add.satl").unwrap();
    assert!(ir.contains("define"), "{ir}");
    assert!(ir.contains("i32"), "{ir}");
    assert!(ir.contains("main"), "{ir}");
    assert!(ir.contains("source_filename = \"add.satl\""), "{ir}");
}

#[test]
fn emit_llvm_declares_print() {
    let module = module_of("fn main() -> i32 { print(1 + 1); return 0; }");
    let ir = emit_llvm_ir(&module, "add.satl").unwrap();
    assert!(ir.contains(PRINT_I32), "{ir}");
}

#[test]
fn rejects_missing_main() {
    let module = module_of("");
    let err = emit_llvm_ir(&module, "empty.satl").unwrap_err();
    assert!(err.message.contains("main"), "{}", err.message);
}

#[test]
fn rejects_non_main_function() {
    let module = module_of("fn add() -> i32 { return 1; }");
    let err = emit_llvm_ir(&module, "add.satl").unwrap_err();
    assert!(err.message.contains("add"), "{}", err.message);
}

#[test]
fn if_branches_to_then_block_first() {
    let module = module_of("fn main() -> i32 { let x = 1; if x < 2 { print(1); } else { print(2); } return 0; }");
    let ir = emit_llvm_ir(&module, "if.satl").unwrap();
    assert!(ir.contains("label %if.then, label %if.else"), "{ir}");
    assert!(ir.contains("if.merge"), "{ir}");
    assert!(ir.contains("icmp slt"), "{ir}");
}

#[test]
fn if_where_both_branches_return_has_no_merge_block() {
    let module = module_of("fn main() -> i32 { if true { return 1; } else { return 2; } }");
    let ir = emit_llvm_ir(&module, "ret.satl").unwrap();
    assert!(!ir.contains("if.merge"), "{ir}");
    assert!(ir.contains("ret i32 1"), "{ir}");
    assert!(ir.contains("ret i32 2"), "{ir}");
}

#[test]
fn print_calls_the_runtime() {
    let module = module_of("fn main() -> i32 { let x = 5; print(x); return 0; }");
    let ir = emit_llvm_ir(&module, "p.satl").unwrap();
    assert!(ir.contains("call void @sattle_print_i32(i32"), "{ir}");
    assert!(ir.contains("alloca i32"), "{ir}");
    assert!(ir.contains("store i32 5"), "{ir}");
}

#[test]
fn while_loop_blocks_in_order() {
    let module = module_of("fn main() -> i32 { let i = 0; while i < 3 { i = i + 1; } return i; }");
    let ir = emit_llvm_ir(&module, "w.satl").unwrap();
    assert!(ir.contains("label %while.body, label %while.after"), "{ir}");
    assert!(ir.contains("br label %while.cond"), "{ir}");
}
