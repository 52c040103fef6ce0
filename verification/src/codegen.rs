//! LLVM code generation via inkwell.
//!
//! Generation runs in two steps. `check_codegen` decides, over the tree alone,
//! whether the module is within what the generator supports and which error
//! it is answered with otherwise (`codegen_check`). Only a module that passes
//! is handed to LLVM. The builder then makes exactly the requests of LLVM that
//! `lower_module` prescribes (see `ir`): which blocks it appends, where it
//! positions, and which instructions it builds with which operands. The
//! scopes, value types and block termination it tracks are the ones that
//! `codegen_check` computes.

use vstd::prelude::*;
use crate::ast::{
    binop_str, binop_text, stmts_view, unop_str, unop_text, BinOp, Block, Expr, Function, Item, SourceModule,
    SpecBlock, SpecExpr, SpecFunction, SpecItem, SpecModule, SpecStmt, Stmt, UnOp,
    lemma_stmts_view, stmt_view, items_view, function_view,
};
use crate::text::{push_str, str_eq, string_of};
use crate::ir::{
    block_has_instruction, builder_error_text, count, ir_log, ir_text, llvm_verifies, positioned, IntPred,
    IrModule, IrOp, Table,
};
pub use crate::ir::ValTy;
use inkwell::context::Context;
use inkwell::module::Module as LlvmModule;
use inkwell::builder::BuilderError;

verus! {

broadcast use crate::ir::group_ir_log;

/// A code-generation error.
#[derive(Debug, Clone, PartialEq, Eq)]
pub struct CodegenError {
    pub message: String,
}

/// One scope of the generator: variable names with the type of their slot,
/// the latest declaration of a name last.
pub type CgScope = Seq<(Seq<char>, ValTy)>;

/// The scopes of the generator, the innermost last.
pub type CgEnv = Seq<CgScope>;

pub open spec fn scope_get(s: CgScope, name: Seq<char>) -> Option<ValTy>
    decreases s.len(),
{
    if s.len() == 0 {
        None
    } else if s.last().0 == name {
        Some(s.last().1)
    } else {
        scope_get(s.drop_last(), name)
    }
}

/// The type of the variable `name` as seen from the innermost scope.
pub open spec fn cg_get(env: CgEnv, name: Seq<char>) -> Option<ValTy>
    decreases env.len(),
{
    if env.len() == 0 {
        None
    } else {
        match scope_get(env.last(), name) {
            Some(t) => Some(t),
            None => cg_get(env.drop_last(), name),
        }
    }
}

/// Declares `name` in the innermost scope.
pub open spec fn cg_declare(env: CgEnv, name: Seq<char>, t: ValTy) -> CgEnv {
    if env.len() == 0 {
        env
    } else {
        env.update(env.len() - 1, env.last().push((name, t)))
    }
}

pub open spec fn is_compare(op: BinOp) -> bool {
    ||| op == BinOp::Eq
    ||| op == BinOp::Ne
    ||| op == BinOp::Lt
    ||| op == BinOp::Le
    ||| op == BinOp::Gt
    ||| op == BinOp::Ge
}

/// `codegen: unsupported WHAT `NAME``
pub open spec fn msg_unsupported(what: Seq<char>, name: Seq<char>) -> Seq<char> {
    "codegen: unsupported "@ + what + " `"@ + name + "`"@
}

pub open spec fn msg_undeclared_var(name: Seq<char>) -> Seq<char> {
    "undeclared variable `"@ + name + "`"@
}

/// The type of the value generated for `e`, or why it cannot be generated.
/// Integer literals are `i32`, a sum has the type of its left operand and a
/// comparison is `i1`.
pub open spec fn cg_expr(env: CgEnv, e: SpecExpr) -> Result<ValTy, Seq<char>>
    decreases e,
{
    match e {
        SpecExpr::Int(_) => Ok(ValTy::I32),
        SpecExpr::Bool(_) => Ok(ValTy::Bool),
        SpecExpr::Var(name) => match cg_get(env, name) {
            Some(t) => Ok(t),
            None => Err(msg_undeclared_var(name)),
        },
        SpecExpr::Binary { op, lhs, rhs } => match cg_expr(env, *lhs) {
            Err(m) => Err(m),
            Ok(lt) => match cg_expr(env, *rhs) {
                Err(m) => Err(m),
                Ok(_) => if op == BinOp::Add {
                    Ok(lt)
                } else if is_compare(op) {
                    Ok(ValTy::Bool)
                } else {
                    Err(msg_unsupported("operator"@, binop_text(op)))
                },
            },
        },
        SpecExpr::Unary { op, .. } => Err(msg_unsupported("operator"@, unop_text(op))),
        SpecExpr::Call { name, .. } => Err(msg_unsupported("call of"@, name)),
        SpecExpr::StructLit { name, .. } => Err(msg_unsupported("struct literal"@, name)),
        SpecExpr::Variant { enum_name, variant } => Err(
            msg_unsupported("enum value"@, enum_name + "::"@ + variant),
        ),
        SpecExpr::Field { field, .. } => Err(msg_unsupported("field access"@, "."@ + field)),
    }
}

/// The scopes after generating `s`, and whether it ends the current block
/// with a terminator; or why it cannot be generated.
pub open spec fn cg_stmt(env: CgEnv, s: SpecStmt) -> Result<(CgEnv, bool), Seq<char>>
    decreases s,
{
    match s {
        SpecStmt::Return(e) => match cg_expr(env, e) {
            Err(m) => Err(m),
            Ok(_) => Ok((env, true)),
        },
        SpecStmt::Print(e) => match cg_expr(env, e) {
            Err(m) => Err(m),
            Ok(_) => Ok((env, false)),
        },
        SpecStmt::Let { name, value, .. } => match cg_expr(env, value) {
            Err(m) => Err(m),
            Ok(t) => Ok((cg_declare(env, name, t), false)),
        },
        SpecStmt::Assign { target, value } => match target {
            SpecExpr::Var(name) => match cg_expr(env, value) {
                Err(m) => Err(m),
                Ok(_) => if cg_get(env, name) is Some {
                    Ok((env, false))
                } else {
                    Err(msg_undeclared_var(name))
                },
            },
            _ => Err("codegen: unsupported assignment target"@),
        },
        SpecStmt::If { cond, then_block, else_block } => match cg_expr(env, cond) {
            Err(m) => Err(m),
            Ok(_) => match cg_block(env, then_block) {
                Err(m) => Err(m),
                Ok(then_term) => match else_block {
                    None => Ok((env, false)),
                    Some(b) => match cg_block(env, b) {
                        Err(m) => Err(m),
                        Ok(else_term) => Ok((env, then_term && else_term)),
                    },
                },
            },
        },
        SpecStmt::While { cond, body } => match cg_expr(env, cond) {
            Err(m) => Err(m),
            Ok(_) => match cg_block(env, body) {
                Err(m) => Err(m),
                Ok(_) => Ok((env, false)),
            },
        },
        SpecStmt::For { .. } => Err(msg_unsupported("statement"@, "for"@)),
        SpecStmt::Break => Err(msg_unsupported("statement"@, "break"@)),
        SpecStmt::Continue => Err(msg_unsupported("statement"@, "continue"@)),
        SpecStmt::Match { .. } => Err(msg_unsupported("statement"@, "match"@)),
    }
}

/// Statements in order; those after a terminator are not generated.
pub open spec fn cg_stmts(env: CgEnv, ss: Seq<SpecStmt>) -> Result<(CgEnv, bool), Seq<char>>
    decreases ss,
{
    if ss.len() == 0 {
        Ok((env, false))
    } else {
        match cg_stmt(env, ss[0]) {
            Err(m) => Err(m),
            Ok((next, term)) => if term {
                Ok((next, true))
            } else {
                cg_stmts(next, ss.drop_first())
            },
        }
    }
}

/// A block in a scope of its own: whether it ends with a terminator.
pub open spec fn cg_block(env: CgEnv, b: SpecBlock) -> Result<bool, Seq<char>>
    decreases b,
{
    match cg_stmts(env.push(Seq::empty()), b.stmts) {
        Err(m) => Err(m),
        Ok((_, term)) => Ok(term),
    }
}

/// `main` must end every path with `return`.
pub open spec fn cg_main(f: SpecFunction) -> Result<(), Seq<char>> {
    match cg_block(Seq::empty(), f.body) {
        Err(m) => Err(m),
        Ok(term) => if term {
            Ok(())
        } else {
            Err("missing `return`"@)
        },
    }
}

pub open spec fn item_error(i: SpecItem) -> Seq<char> {
    match i {
        SpecItem::Fn(f) => msg_unsupported("function"@, f.name),
        SpecItem::Struct(s) => msg_unsupported("struct"@, s.name),
        SpecItem::Enum(e) => msg_unsupported("enum"@, e.name),
        SpecItem::Const(c) => msg_unsupported("const"@, c.name),
    }
}

pub open spec fn is_main(i: SpecItem) -> bool {
    i matches SpecItem::Fn(f) && f.name == "main"@
}

/// Items in order: each `main` is generated, any other item is refused.
pub open spec fn cg_items(items: Seq<SpecItem>, saw_main: bool) -> Result<(), Seq<char>>
    decreases items.len(),
{
    if items.len() == 0 {
        if saw_main {
            Ok(())
        } else {
            Err("`main` function not found"@)
        }
    } else if is_main(items[0]) {
        match cg_main(items[0]->Fn_0) {
            Err(m) => Err(m),
            Ok(_) => cg_items(items.drop_first(), true),
        }
    } else {
        Err(item_error(items[0]))
    }
}

/// Whether the generator supports `m`, and otherwise the error it answers.
pub open spec fn codegen_check(m: SpecModule) -> Result<(), Seq<char>> {
    cg_items(m.items, false)
}

// ---------------------------------------------------------------------------
// Deciding support, executable.
// ---------------------------------------------------------------------------
pub open spec fn scope_view(s: Seq<(String, ValTy)>) -> CgScope {
    s.map_values(|p: (String, ValTy)| (p.0@, p.1))
}

pub open spec fn env_view(env: Seq<Vec<(String, ValTy)>>) -> CgEnv {
    env.map_values(|s: Vec<(String, ValTy)>| scope_view(s@))
}

fn scope_lookup(s: &Vec<(String, ValTy)>, name: &str) -> (r: Option<ValTy>)
    ensures
        r == scope_get(scope_view(s@), name@),
{
    let mut i = s.len();
    proof {
        assert(s@.subrange(0, s@.len() as int) =~= s@);
    }
    while i > 0
        invariant
            i <= s@.len(),
            scope_get(scope_view(s@), name@) == scope_get(scope_view(s@.subrange(0, i as int)), name@),
        decreases i,
    {
        let ghost pre = scope_view(s@.subrange(0, i as int));
        proof {
            assert(pre.drop_last() =~= scope_view(s@.subrange(0, i - 1)));
            assert(pre.last() == (s@[i - 1].0@, s@[i - 1].1));
        }
        if str_eq(s[i - 1].0.as_str(), name) {
            return Some(s[i - 1].1);
        }
        i = i - 1;
    }
    None
}

fn env_lookup(env: &Vec<Vec<(String, ValTy)>>, name: &str) -> (r: Option<ValTy>)
    ensures
        r == cg_get(env_view(env@), name@),
{
    let mut i = env.len();
    proof {
        assert(env@.subrange(0, env@.len() as int) =~= env@);
    }
    while i > 0
        invariant
            i <= env@.len(),
            cg_get(env_view(env@), name@) == cg_get(env_view(env@.subrange(0, i as int)), name@),
        decreases i,
    {
        let ghost pre = env_view(env@.subrange(0, i as int));
        proof {
            assert(pre.drop_last() =~= env_view(env@.subrange(0, i - 1)));
            assert(pre.last() == scope_view(env@[i - 1]@));
        }
        if let Some(t) = scope_lookup(&env[i - 1], name) {
            return Some(t);
        }
        i = i - 1;
    }
    None
}

fn undeclared_var(name: &str) -> (e: CodegenError)
    ensures
        e.message@ == msg_undeclared_var(name@),
{
    let mut m = string_of("undeclared variable `");
    push_str(&mut m, name);
    push_str(&mut m, "`");
    CodegenError { message: m }
}

fn unsupported(what: &str, name: &str) -> (e: CodegenError)
    ensures
        e.message@ == msg_unsupported(what@, name@),
{
    let mut m = string_of("codegen: unsupported ");
    push_str(&mut m, what);
    push_str(&mut m, " `");
    push_str(&mut m, name);
    push_str(&mut m, "`");
    CodegenError { message: m }
}

fn op_is_compare(op: BinOp) -> (r: bool)
    ensures
        r == is_compare(op),
{
    match op {
        BinOp::Eq | BinOp::Ne | BinOp::Lt | BinOp::Le | BinOp::Gt | BinOp::Ge => true,
        _ => false,
    }
}

fn check_expr(env: &Vec<Vec<(String, ValTy)>>, expr: &Expr) -> (r: Result<ValTy, CodegenError>)
    ensures
        match r {
            Ok(t) => cg_expr(env_view(env@), expr@) == Ok::<ValTy, Seq<char>>(t),
            Err(e) => cg_expr(env_view(env@), expr@) == Err::<ValTy, Seq<char>>(e.message@),
        },
    decreases expr,
{
    match expr {
        Expr::Int(_) => Ok(ValTy::I32),
        Expr::Bool(_) => Ok(ValTy::Bool),
        Expr::Var(name) => match env_lookup(env, name.as_str()) {
            Some(t) => Ok(t),
            None => Err(undeclared_var(name.as_str())),
        },
        Expr::Binary { op, lhs, rhs } => {
            let lt = check_expr(env, lhs)?;
            check_expr(env, rhs)?;
            if matches!(op, BinOp::Add) {
                Ok(lt)
            } else if op_is_compare(*op) {
                Ok(ValTy::Bool)
            } else {
                Err(unsupported("operator", binop_str(*op)))
            }
        },
        Expr::Unary { op, .. } => Err(unsupported("operator", unop_str(*op))),
        Expr::Call { name, .. } => Err(unsupported("call of", name.as_str())),
        Expr::StructLit { name, .. } => Err(unsupported("struct literal", name.as_str())),
        Expr::Variant { enum_name, variant } => {
            let mut v = string_of(enum_name.as_str());
            push_str(&mut v, "::");
            push_str(&mut v, variant.as_str());
            Err(unsupported("enum value", v.as_str()))
        },
        Expr::Field { field, .. } => {
            let mut f = string_of(".");
            push_str(&mut f, field.as_str());
            Err(unsupported("field access", f.as_str()))
        },
    }
}

/// Declares `name` in the innermost scope.
fn declare_in(env: &mut Vec<Vec<(String, ValTy)>>, name: &String, t: ValTy)
    requires
        old(env)@.len() > 0,
    ensures
        env_view(final(env)@) == cg_declare(env_view(old(env)@), name@, t),
        final(env)@.len() == old(env)@.len(),
        final(env)@.subrange(0, old(env)@.len() - 1) == old(env)@.subrange(0, old(env)@.len() - 1),
{
    let ghost before = env@;
    let mut top = env.pop().unwrap();
    let ghost top0 = top@;
    top.push((name.clone(), t));
    env.push(top);
    proof {
        assert(scope_view(top@) =~= scope_view(top0).push((name@, t)));
        assert(env_view(env@) =~= cg_declare(env_view(before), name@, t));
        assert(env@.subrange(0, before.len() - 1) =~= before.subrange(0, before.len() - 1));
    }
}

#[verifier::rlimit(30)]
fn check_stmt(env: &mut Vec<Vec<(String, ValTy)>>, stmt: &Stmt) -> (r: Result<bool, CodegenError>)
    requires
        old(env)@.len() > 0,
    ensures
        final(env)@.len() == old(env)@.len(),
        final(env)@.subrange(0, old(env)@.len() - 1) == old(env)@.subrange(0, old(env)@.len() - 1),
        match r {
            Ok(t) => cg_stmt(env_view(old(env)@), stmt@) == Ok::<(CgEnv, bool), Seq<char>>(
                (env_view(final(env)@), t),
            ),
            Err(e) => cg_stmt(env_view(old(env)@), stmt@) == Err::<(CgEnv, bool), Seq<char>>(
                e.message@,
            ),
        },
    decreases stmt,
{
    let ghost start = env@;
    proof {
        assert(env@.subrange(0, env@.len() - 1) =~= start.subrange(0, start.len() - 1));
    }
    match stmt {
        Stmt::Return(expr) => {
            check_expr(env, expr)?;
            Ok(true)
        },
        Stmt::Print(expr) => {
            check_expr(env, expr)?;
            Ok(false)
        },
        Stmt::Let { name, value, .. } => {
            let t = check_expr(env, value)?;
            declare_in(env, name, t);
            Ok(false)
        },
        Stmt::Assign { target, value } => match target {
            Expr::Var(name) => {
                check_expr(env, value)?;
                if env_lookup(env, name.as_str()).is_some() {
                    Ok(false)
                } else {
                    Err(undeclared_var(name.as_str()))
                }
            },
            _ => Err(CodegenError { message: string_of("codegen: unsupported assignment target") }),
        },
        Stmt::If { cond, then_block, else_block } => {
            check_expr(env, cond)?;
            let then_term = check_block(env, then_block)?;
            match else_block {
                None => Ok(false),
                Some(b) => {
                    let else_term = check_block(env, b)?;
                    Ok(then_term && else_term)
                },
            }
        },
        Stmt::While { cond, body } => {
            check_expr(env, cond)?;
            check_block(env, body)?;
            Ok(false)
        },
        Stmt::For { .. } => Err(unsupported("statement", "for")),
        Stmt::Break => Err(unsupported("statement", "break")),
        Stmt::Continue => Err(unsupported("statement", "continue")),
        Stmt::Match { .. } => Err(unsupported("statement", "match")),
    }
}

#[verifier::rlimit(30)]
fn check_block(env: &mut Vec<Vec<(String, ValTy)>>, block: &Block) -> (r: Result<bool, CodegenError>)
    ensures
        final(env)@ == old(env)@,
        match r {
            Ok(t) => cg_block(env_view(old(env)@), block@) == Ok::<bool, Seq<char>>(t),
            Err(e) => cg_block(env_view(old(env)@), block@) == Err::<bool, Seq<char>>(e.message@),
        },
    decreases block,
{
    let ghost start = env@;
    let ghost sv = stmts_view(block.stmts@);
    proof {
        lemma_stmts_view(block.stmts@);
    }
    let fresh: Vec<(String, ValTy)> = Vec::new();
    proof {
        assert(scope_view(fresh@) =~= Seq::<(Seq<char>, ValTy)>::empty());
    }
    env.push(fresh);
    proof {
        assert(env_view(env@) =~= env_view(start).push(Seq::empty()));
        assert(sv.subrange(0, sv.len() as int) =~= sv);
        assert(env@.subrange(0, start.len() as int) =~= start);
    }
    let mut term = false;
    let mut i: usize = 0;
    while i < block.stmts.len() && !term
        invariant
            i <= block.stmts@.len(),
            sv == stmts_view(block.stmts@),
            sv.len() == block.stmts@.len(),
            forall|j: int| 0 <= j < block.stmts@.len() ==> sv[j] == stmt_view(#[trigger] block.stmts@[j]),
            start == old(env)@,
            env@.len() == start.len() + 1,
            env@.subrange(0, start.len() as int) == start,
            cg_stmts(env_view(start).push(Seq::empty()), sv) == (if term {
                Ok((env_view(env@), true))
            } else {
                cg_stmts(env_view(env@), sv.subrange(i as int, sv.len() as int))
            }),
        decreases block.stmts@.len() - i,
    {
        proof {
            assert(decreases_to!(*block => block.stmts));
            assert(decreases_to!(block.stmts => block.stmts@));
            assert(decreases_to!(block.stmts@ => block.stmts@[i as int]));
            assert(sv.subrange(i as int, sv.len() as int).drop_first() =~= sv.subrange(
                i + 1,
                sv.len() as int,
            ));
        }
        let ghost before = env@;
        match check_stmt(env, &block.stmts[i]) {
            Ok(t) => {
                term = t;
            },
            Err(e) => {
                env.pop();
                proof {
                    assert(env@ =~= start);
                }
                return Err(e);
            },
        }
        proof {
            assert(env@.subrange(0, start.len() as int) =~= before.subrange(0, start.len() as int));
        }
        i = i + 1;
    }
    env.pop();
    proof {
        assert(env@ =~= start);
        assert(sv.subrange(sv.len() as int, sv.len() as int) =~= Seq::<SpecStmt>::empty());
    }
    Ok(term)
}

fn check_main(func: &Function) -> (r: Result<(), CodegenError>)
    ensures
        match r {
            Ok(_) => cg_main(crate::ast::function_view(*func)) == Ok::<(), Seq<char>>(()),
            Err(e) => cg_main(crate::ast::function_view(*func)) == Err::<(), Seq<char>>(e.message@),
        },
{
    let mut env: Vec<Vec<(String, ValTy)>> = Vec::new();
    proof {
        assert(env_view(env@) =~= Seq::<CgScope>::empty());
    }
    let term = check_block(&mut env, &func.body)?;
    if term {
        Ok(())
    } else {
        Err(CodegenError { message: string_of("missing `return`") })
    }
}

/// Whether the generator supports `module`; otherwise the error it is answered with.
#[verifier::rlimit(30)]
pub fn check_codegen(module: &SourceModule) -> (r: Result<(), CodegenError>)
    ensures
        match r {
            Ok(_) => codegen_check(module@) == Ok::<(), Seq<char>>(()),
            Err(e) => codegen_check(module@) == Err::<(), Seq<char>>(e.message@),
        },
{
    let ghost iv = items_view(module.items@);
    let mut saw_main = false;
    let mut i: usize = 0;
    proof {
        assert(iv.subrange(0, iv.len() as int) =~= iv);
    }
    while i < module.items.len()
        invariant
            i <= module.items@.len(),
            iv == items_view(module.items@),
            cg_items(iv, false) == cg_items(iv.subrange(i as int, iv.len() as int), saw_main),
        decreases module.items@.len() - i,
    {
        proof {
            assert(iv.subrange(i as int, iv.len() as int).drop_first() =~= iv.subrange(
                i + 1,
                iv.len() as int,
            ));
        }
        match &module.items[i] {
            Item::Fn(func) => {
                if str_eq(func.name.as_str(), "main") {
                    check_main(func)?;
                    saw_main = true;
                } else {
                    return Err(unsupported("function", func.name.as_str()));
                }
            },
            Item::Struct(def) => {
                return Err(unsupported("struct", def.name.as_str()));
            },
            Item::Enum(def) => {
                return Err(unsupported("enum", def.name.as_str()));
            },
            Item::Const(def) => {
                return Err(unsupported("const", def.name.as_str()));
            },
        }
        i = i + 1;
    }
    proof {
        assert(iv.subrange(iv.len() as int, iv.len() as int) =~= Seq::<SpecItem>::empty());
    }
    if saw_main {
        Ok(())
    } else {
        Err(CodegenError { message: string_of("`main` function not found") })
    }
}

// ---------------------------------------------------------------------------
// inkwell's types in signatures.
// ---------------------------------------------------------------------------
/// inkwell's `Context`: owns the LLVM state of one compilation.
#[verifier::external_type_specification]
#[verifier::external_body]
pub struct ExContext(inkwell::context::Context);

/// inkwell's `Module`: an LLVM module.
#[verifier::external_type_specification]
#[verifier::external_body]
pub struct ExLlvmModule<'ctx>(inkwell::module::Module<'ctx>);

/// inkwell's `BuilderError`: why the builder refused an instruction.
#[verifier::external_type_specification]
#[verifier::external_body]
pub struct ExBuilderError(inkwell::builder::BuilderError);

// ---------------------------------------------------------------------------
// What generation asks of LLVM.
// ---------------------------------------------------------------------------
/// The runtime function that prints an `i32`.
pub const PRINT_I32: &'static str = "sattle_print_i32";

/// One scope of the builder: each variable with its stack slot and the type
/// the slot holds, the latest declaration of a name last.
pub type LScope = Seq<(Seq<char>, (nat, ValTy))>;

/// The scopes of the builder, the innermost last.
pub type LEnv = Seq<LScope>;

pub open spec fn lscope_get(s: LScope, name: Seq<char>) -> Option<(nat, ValTy)>
    decreases s.len(),
{
    if s.len() == 0 {
        None
    } else if s.last().0 == name {
        Some(s.last().1)
    } else {
        lscope_get(s.drop_last(), name)
    }
}

/// The slot and type of the variable `name` as seen from the innermost scope.
pub open spec fn lenv_get(env: LEnv, name: Seq<char>) -> Option<(nat, ValTy)>
    decreases env.len(),
{
    if env.len() == 0 {
        None
    } else {
        match lscope_get(env.last(), name) {
            Some(p) => Some(p),
            None => lenv_get(env.drop_last(), name),
        }
    }
}

pub open spec fn lenv_declare(env: LEnv, name: Seq<char>, slot: nat, t: ValTy) -> LEnv {
    if env.len() == 0 {
        env
    } else {
        env.update(env.len() - 1, env.last().push((name, (slot, t))))
    }
}

/// The scopes with the slots left out.
pub open spec fn lscope_types(s: LScope) -> CgScope {
    s.map_values(|p: (Seq<char>, (nat, ValTy))| (p.0, p.1.1))
}

pub open spec fn lenv_types(env: LEnv) -> CgEnv {
    env.map_values(|s: LScope| lscope_types(s))
}

proof fn lemma_lscope_get(s: LScope, name: Seq<char>)
    ensures
        scope_get(lscope_types(s), name) == match lscope_get(s, name) {
            Some(p) => Some(p.1),
            None => None::<ValTy>,
        },
    decreases s.len(),
{
    if s.len() > 0 {
        assert(lscope_types(s).drop_last() =~= lscope_types(s.drop_last()));
        lemma_lscope_get(s.drop_last(), name);
    }
}

proof fn lemma_lenv_get(env: LEnv, name: Seq<char>)
    ensures
        cg_get(lenv_types(env), name) == match lenv_get(env, name) {
            Some(p) => Some(p.1),
            None => None::<ValTy>,
        },
    decreases env.len(),
{
    if env.len() > 0 {
        assert(lenv_types(env).drop_last() =~= lenv_types(env.drop_last()));
        lemma_lscope_get(env.last(), name);
        lemma_lenv_get(env.drop_last(), name);
    }
}

proof fn lemma_lenv_declare(env: LEnv, name: Seq<char>, slot: nat, t: ValTy)
    requires
        env.len() > 0,
    ensures
        lenv_types(lenv_declare(env, name, slot, t)) == cg_declare(lenv_types(env), name, t),
{
    assert(lscope_types(env.last().push((name, (slot, t)))) =~= lscope_types(env.last()).push((name, t)));
    assert(lenv_types(lenv_declare(env, name, slot, t)) =~= cg_declare(lenv_types(env), name, t));
}

/// The handles that generating one function refers to.
pub struct GenCtx {
    pub print_fn: nat,
    pub main_fn: nat,
    pub entry: nat,
}

/// The generator between two statements: what has been asked of LLVM, the
/// variables in scope, the block the builder appends to, and whether that
/// block ends with a terminator.
pub struct Gen {
    pub log: Seq<IrOp>,
    pub env: LEnv,
    pub current: nat,
    pub terminated: bool,
}

/// The signed predicate of a comparison operator.
pub open spec fn comparison_for(op: BinOp) -> IntPred {
    match op {
        BinOp::Ne => IntPred::Ne,
        BinOp::Lt => IntPred::Slt,
        BinOp::Le => IntPred::Sle,
        BinOp::Gt => IntPred::Sgt,
        BinOp::Ge => IntPred::Sge,
        _ => IntPred::Eq,
    }
}

/// The requests that compute `e` after `log`, and the value that holds it:
/// a constant for a literal, a load of the variable's slot, an `add` or a
/// signed compare of the operands, left first.
pub open spec fn lower_expr(log: Seq<IrOp>, env: LEnv, e: SpecExpr) -> (Seq<IrOp>, nat)
    decreases e,
{
    match e {
        SpecExpr::Int(n) => {
            let l1 = log.push(IrOp::IntType { ty: ValTy::I32 });
            (
                l1.push(IrOp::ConstInt { ty: count(log, Table::IntTypes), value: (n as i64) as u64, sign_extend: true }),
                count(log, Table::Values),
            )
        },
        SpecExpr::Bool(b) => {
            let l1 = log.push(IrOp::IntType { ty: ValTy::Bool });
            (
                l1.push(
                    IrOp::ConstInt {
                        ty: count(log, Table::IntTypes),
                        value: if b {
                            1u64
                        } else {
                            0u64
                        },
                        sign_extend: false,
                    },
                ),
                count(log, Table::Values),
            )
        },
        SpecExpr::Var(name) => match lenv_get(env, name) {
            Some(p) => (log.push(IrOp::Load { slot: p.0, name }), count(log, Table::Values)),
            None => (log, 0),
        },
        SpecExpr::Binary { op, lhs, rhs } => {
            let a = lower_expr(log, env, *lhs);
            let b = lower_expr(a.0, env, *rhs);
            if op == BinOp::Add {
                (b.0.push(IrOp::Add { lhs: a.1, rhs: b.1, name: "add"@ }), count(b.0, Table::Values))
            } else {
                (
                    b.0.push(IrOp::Compare { pred: comparison_for(op), lhs: a.1, rhs: b.1, name: "cmp"@ }),
                    count(b.0, Table::Values),
                )
            }
        },
        _ => (log, 0),
    }
}

/// A stack slot of type `ty` at the start of the entry block, the builder
/// going back to `current` after it; and the slot.
pub open spec fn lower_alloca(c: GenCtx, log: Seq<IrOp>, current: nat, ty: ValTy, name: Seq<char>) -> (Seq<IrOp>, nat) {
    let found = block_has_instruction(log, c.entry);
    let l1 = log.push(IrOp::FirstInstruction { block: c.entry, found });
    let l2 = if found {
        l1.push(IrOp::PositionBefore { inst: count(log, Table::Insts) })
    } else {
        l1.push(IrOp::PositionAtEnd { block: c.entry })
    };
    let l3 = l2.push(IrOp::IntType { ty });
    let l4 = l3.push(IrOp::Alloca { ty: count(l2, Table::IntTypes), name });
    (l4.push(IrOp::PositionAtEnd { block: current }), count(l3, Table::Slots))
}

pub open spec fn with_log(g: Gen, log: Seq<IrOp>) -> Gen {
    Gen { log, env: g.env, current: g.current, terminated: g.terminated }
}

/// The generator after `s`: what it asks of LLVM for each statement.
pub open spec fn lower_stmt(c: GenCtx, g: Gen, s: SpecStmt) -> Gen
    decreases s,
{
    match s {
        SpecStmt::Return(e) => {
            let v = lower_expr(g.log, g.env, e);
            Gen { log: v.0.push(IrOp::Ret { value: v.1 }), env: g.env, current: g.current, terminated: true }
        },
        SpecStmt::Print(e) => {
            let v = lower_expr(g.log, g.env, e);
            with_log(g, v.0.push(IrOp::Call { function: c.print_fn, arg: v.1 }))
        },
        SpecStmt::Let { name, value, .. } => {
            let v = lower_expr(g.log, g.env, value);
            let ty = match cg_expr(lenv_types(g.env), value) {
                Ok(t) => t,
                Err(_) => ValTy::I32,
            };
            let a = lower_alloca(c, v.0, g.current, ty, name);
            Gen {
                log: a.0.push(IrOp::Store { slot: a.1, value: v.1 }),
                env: lenv_declare(g.env, name, a.1, ty),
                current: g.current,
                terminated: g.terminated,
            }
        },
        SpecStmt::Assign { target, value } => match target {
            SpecExpr::Var(name) => {
                let v = lower_expr(g.log, g.env, value);
                match lenv_get(g.env, name) {
                    Some(p) => with_log(g, v.0.push(IrOp::Store { slot: p.0, value: v.1 })),
                    None => g,
                }
            },
            _ => g,
        },
        SpecStmt::If { cond, then_block, else_block } => {
            let v = lower_expr(g.log, g.env, cond);
            let then_bb = count(v.0, Table::Blocks);
            let l1 = v.0.push(IrOp::AppendBlock { function: c.main_fn, name: "if.then"@ });
            let else_bb = count(l1, Table::Blocks);
            let l2 = l1.push(IrOp::AppendBlock { function: c.main_fn, name: "if.else"@ });
            let l3 = l2.push(IrOp::CondBr { cond: v.1, then_dest: then_bb, else_dest: else_bb });
            let g1 = lower_block(
                c,
                Gen { log: l3.push(IrOp::PositionAtEnd { block: then_bb }), env: g.env, current: then_bb, terminated: false },
                then_block,
            );
            let at_else = Gen {
                log: g1.log.push(IrOp::PositionAtEnd { block: else_bb }),
                env: g.env,
                current: else_bb,
                terminated: false,
            };
            let g2 = match else_block {
                Some(b) => lower_block(c, at_else, b),
                None => at_else,
            };
            lower_join(c, g1.terminated, g1.current, g2)
        },
        SpecStmt::While { cond, body } => {
            let cond_bb = count(g.log, Table::Blocks);
            let l1 = g.log.push(IrOp::AppendBlock { function: c.main_fn, name: "while.cond"@ });
            let body_bb = count(l1, Table::Blocks);
            let l2 = l1.push(IrOp::AppendBlock { function: c.main_fn, name: "while.body"@ });
            let after_bb = count(l2, Table::Blocks);
            let l3 = l2.push(IrOp::AppendBlock { function: c.main_fn, name: "while.after"@ });
            let l4 = l3.push(IrOp::Br { dest: cond_bb }).push(IrOp::PositionAtEnd { block: cond_bb });
            let v = lower_expr(l4, g.env, cond);
            let l5 = v.0.push(IrOp::CondBr { cond: v.1, then_dest: body_bb, else_dest: after_bb });
            let g1 = lower_block(
                c,
                Gen { log: l5.push(IrOp::PositionAtEnd { block: body_bb }), env: g.env, current: body_bb, terminated: false },
                body,
            );
            let l6 = if g1.terminated {
                g1.log
            } else {
                g1.log.push(IrOp::Br { dest: cond_bb })
            };
            Gen { log: l6.push(IrOp::PositionAtEnd { block: after_bb }), env: g.env, current: after_bb, terminated: false }
        },
        _ => g,
    }
}

/// Where control goes after an `if` whose branches ended in `then_end` and in
/// `g2.current`: nowhere if both return, else a new merge block that each
/// open branch jumps to.
pub open spec fn lower_join(c: GenCtx, then_term: bool, then_end: nat, g2: Gen) -> Gen {
    if then_term && g2.terminated {
        g2
    } else {
        let merge = count(g2.log, Table::Blocks);
        let m1 = g2.log.push(IrOp::AppendBlock { function: c.main_fn, name: "if.merge"@ });
        let m2 = if then_term {
            m1
        } else {
            m1.push(IrOp::PositionAtEnd { block: then_end }).push(IrOp::Br { dest: merge })
        };
        let m3 = if g2.terminated {
            m2
        } else {
            m2.push(IrOp::PositionAtEnd { block: g2.current }).push(IrOp::Br { dest: merge })
        };
        Gen { log: m3.push(IrOp::PositionAtEnd { block: merge }), env: g2.env, current: merge, terminated: false }
    }
}

/// Statements in order, up to the first that ends the block.
pub open spec fn lower_stmts(c: GenCtx, g: Gen, ss: Seq<SpecStmt>) -> Gen
    decreases ss,
{
    if ss.len() == 0 {
        g
    } else {
        let g1 = lower_stmt(c, g, ss[0]);
        if g1.terminated {
            g1
        } else {
            lower_stmts(c, g1, ss.drop_first())
        }
    }
}

/// A block in a scope of its own.
pub open spec fn lower_block(c: GenCtx, g: Gen, b: SpecBlock) -> Gen
    decreases b,
{
    let g1 = lower_stmts(c, Gen { log: g.log, env: g.env.push(Seq::empty()), current: g.current, terminated: g.terminated }, b.stmts);
    Gen { log: g1.log, env: g.env, current: g1.current, terminated: g1.terminated }
}

/// The declaration of the runtime's `void sattle_print_i32(i32)`.
pub open spec fn lower_runtime(log: Seq<IrOp>) -> Seq<IrOp> {
    let l1 = log.push(IrOp::VoidType);
    let l2 = l1.push(IrOp::IntType { ty: ValTy::I32 });
    let l3 = l2.push(IrOp::VoidFnType { ret: count(log, Table::VoidTypes), param: count(l1, Table::IntTypes) });
    l3.push(IrOp::AddFunction { name: PRINT_I32@, ty: count(l2, Table::FnTypes) })
}

/// `i32 main()`, its entry block, and its body.
pub open spec fn lower_main(log: Seq<IrOp>, print_fn: nat, f: SpecFunction) -> Seq<IrOp> {
    let l1 = log.push(IrOp::IntType { ty: ValTy::I32 });
    let l2 = l1.push(IrOp::IntFnType { ret: count(log, Table::IntTypes) });
    let l3 = l2.push(IrOp::AddFunction { name: "main"@, ty: count(l1, Table::FnTypes) });
    let main_fn = count(l2, Table::Functions);
    let entry = count(l3, Table::Blocks);
    let l4 = l3.push(IrOp::AppendBlock { function: main_fn, name: "entry"@ });
    let l5 = l4.push(IrOp::PositionAtEnd { block: entry });
    let c = GenCtx { print_fn, main_fn, entry };
    lower_block(c, Gen { log: l5, env: Seq::empty(), current: entry, terminated: false }, f.body).log
}

pub open spec fn lower_items(log: Seq<IrOp>, print_fn: nat, items: Seq<SpecItem>) -> Seq<IrOp>
    decreases items.len(),
{
    if items.len() > 0 && is_main(items[0]) {
        lower_items(lower_main(log, print_fn, items[0]->Fn_0), print_fn, items.drop_first())
    } else {
        log
    }
}

/// Everything that building the module for `m`, named `name`, asks of LLVM.
pub open spec fn lower_module(m: SpecModule, name: Seq<char>) -> Seq<IrOp> {
    let l0 = seq![IrOp::Module { name }].push(IrOp::SourceFileName { name });
    lower_items(lower_runtime(l0), count(l0, Table::Functions), m.items)
}

/// A failure that LLVM's verifier reported.
pub open spec fn verify_failure(m: Seq<char>) -> bool {
    exists|rest: Seq<char>| m == "LLVM module verification failed: "@ + rest
}

/// Whether `m` is a failure that the builder reported.
pub open spec fn reported_by_llvm(m: Seq<char>) -> bool {
    exists|rest: Seq<char>| m == "failed to "@ + rest
}

/// Handles are only ever added, and a position once given stays.
pub open spec fn grew(a: Seq<IrOp>, b: Seq<IrOp>) -> bool {
    &&& positioned(a) ==> positioned(b)
    &&& count(a, Table::IntTypes) <= count(b, Table::IntTypes)
    &&& count(a, Table::VoidTypes) <= count(b, Table::VoidTypes)
    &&& count(a, Table::FnTypes) <= count(b, Table::FnTypes)
    &&& count(a, Table::Functions) <= count(b, Table::Functions)
    &&& count(a, Table::Blocks) <= count(b, Table::Blocks)
    &&& count(a, Table::Insts) <= count(b, Table::Insts)
    &&& count(a, Table::Values) <= count(b, Table::Values)
    &&& count(a, Table::Slots) <= count(b, Table::Slots)
}

// ---------------------------------------------------------------------------
// Building.
// ---------------------------------------------------------------------------
/// `failed to WHAT: DETAIL`
fn llvm_failure(what: &str, detail: &str) -> (e: CodegenError)
    ensures
        reported_by_llvm(e.message@),
{
    let mut m = string_of("failed to ");
    push_str(&mut m, what);
    push_str(&mut m, ": ");
    push_str(&mut m, detail);
    proof {
        let rest = what@ + ": "@ + detail@;
        assert(m@ =~= "failed to "@ + rest);
    }
    CodegenError { message: m }
}

fn builder_failure(what: &str, e: &BuilderError) -> (r: CodegenError)
    ensures
        reported_by_llvm(r.message@),
{
    let detail = builder_error_text(e);
    llvm_failure(what, detail.as_str())
}

/// `WHAT `NAME``
fn named(what: &str, name: &str) -> (r: String)
    ensures
        r@ == what@ + " `"@ + name@ + "`"@,
{
    let mut s = string_of(what);
    push_str(&mut s, " `");
    push_str(&mut s, name);
    push_str(&mut s, "`");
    s
}

fn comparison_of(op: BinOp) -> (r: IntPred)
    requires
        is_compare(op),
    ensures
        r == comparison_for(op),
{
    match op {
        BinOp::Ne => IntPred::Ne,
        BinOp::Lt => IntPred::Slt,
        BinOp::Le => IntPred::Sle,
        BinOp::Gt => IntPred::Sgt,
        BinOp::Ge => IntPred::Sge,
        _ => IntPred::Eq,
    }
}

/// The compare instruction for `pred`.
fn build_compare(ir: &mut IrModule, pred: IntPred, lhs: usize, rhs: usize, name: &str) -> (r: Result<usize, BuilderError>)
    requires
        lhs < count(ir_log(*old(ir)), Table::Values),
        rhs < count(ir_log(*old(ir)), Table::Values),
    ensures
        crate::ir::built_index(
            ir_log(*old(ir)),
            ir_log(*final(ir)),
            r,
            IrOp::Compare { pred, lhs: lhs as nat, rhs: rhs as nat, name: name@ },
            Table::Values,
        ),
{
    match pred {
        IntPred::Eq => ir.build_compare_eq(lhs, rhs, name),
        IntPred::Ne => ir.build_compare_ne(lhs, rhs, name),
        IntPred::Slt => ir.build_compare_slt(lhs, rhs, name),
        IntPred::Sle => ir.build_compare_sle(lhs, rhs, name),
        IntPred::Sgt => ir.build_compare_sgt(lhs, rhs, name),
        IntPred::Sge => ir.build_compare_sge(lhs, rhs, name),
    }
}

#[derive(Clone, Copy)]
struct Var {
    slot: usize,
    ty: ValTy,
}

spec fn slots_view(s: Seq<(String, Var)>) -> LScope {
    s.map_values(|p: (String, Var)| (p.0@, (p.1.slot as nat, p.1.ty)))
}

spec fn slots_env_view(scopes: Seq<Vec<(String, Var)>>) -> LEnv {
    scopes.map_values(|s: Vec<(String, Var)>| slots_view(s@))
}

spec fn slots_below(env: LEnv, n: nat) -> bool {
    forall|i: int, j: int| 0 <= i < env.len() && 0 <= j < env[i].len() ==> #[trigger] env[i][j].1.0 < n
}

fn slot_lookup(scope: &Vec<(String, Var)>, name: &str) -> (r: Option<(usize, ValTy)>)
    ensures
        match r {
            Some(v) => lscope_get(slots_view(scope@), name@) == Some((v.0 as nat, v.1)),
            None => lscope_get(slots_view(scope@), name@) is None,
        },
{
    let mut j = scope.len();
    proof {
        assert(scope@.subrange(0, scope@.len() as int) =~= scope@);
    }
    while j > 0
        invariant
            j <= scope@.len(),
            lscope_get(slots_view(scope@), name@) == lscope_get(slots_view(scope@.subrange(0, j as int)), name@),
        decreases j,
    {
        let ghost pre = slots_view(scope@.subrange(0, j as int));
        proof {
            assert(pre.drop_last() =~= slots_view(scope@.subrange(0, j - 1)));
            assert(pre.last() == (scope@[j - 1].0@, (scope@[j - 1].1.slot as nat, scope@[j - 1].1.ty)));
        }
        if str_eq(scope[j - 1].0.as_str(), name) {
            return Some((scope[j - 1].1.slot, scope[j - 1].1.ty));
        }
        j = j - 1;
    }
    None
}

struct Codegen<'ctx> {
    ir: IrModule<'ctx>,
    print_fn: usize,
    main_fn: usize,
    entry: usize,
    /// The block that the builder appends to.
    current: usize,
    scopes: Vec<Vec<(String, Var)>>,
    /// Whether `current` ends with a terminator.
    terminated: bool,
}

impl<'ctx> Codegen<'ctx> {
    spec fn lenv(&self) -> LEnv {
        slots_env_view(self.scopes@)
    }

    spec fn env(&self) -> CgEnv {
        lenv_types(self.lenv())
    }

    spec fn log(&self) -> Seq<IrOp> {
        ir_log(self.ir)
    }

    spec fn ctx(&self) -> GenCtx {
        GenCtx { print_fn: self.print_fn as nat, main_fn: self.main_fn as nat, entry: self.entry as nat }
    }

    spec fn state(&self) -> Gen {
        Gen { log: self.log(), env: self.lenv(), current: self.current as nat, terminated: self.terminated }
    }

    /// Every handle the generator holds is one that LLVM gave out, and the
    /// builder has a position.
    spec fn wf(&self) -> bool {
        &&& positioned(self.log())
        &&& self.print_fn < count(self.log(), Table::Functions)
        &&& self.main_fn < count(self.log(), Table::Functions)
        &&& self.entry < count(self.log(), Table::Blocks)
        &&& self.current < count(self.log(), Table::Blocks)
        &&& slots_below(self.lenv(), count(self.log(), Table::Slots))
    }

    spec fn same_ctx(&self, other: &Self) -> bool {
        &&& self.print_fn == other.print_fn
        &&& self.main_fn == other.main_fn
        &&& self.entry == other.entry
    }

    fn position(&mut self, block: usize)
        requires
            old(self).wf(),
            block < count(old(self).log(), Table::Blocks),
        ensures
            final(self).wf(),
            final(self).same_ctx(old(self)),
            final(self).scopes@ == old(self).scopes@,
            final(self).log() == old(self).log().push(IrOp::PositionAtEnd { block: block as nat }),
            final(self).current == block,
            !final(self).terminated,
    {
        self.ir.position_at_end(block);
        self.current = block;
        self.terminated = false;
    }

    fn lookup(&self, name: &str) -> (r: Option<(usize, ValTy)>)
        ensures
            match r {
                Some(v) => lenv_get(self.lenv(), name@) == Some((v.0 as nat, v.1)),
                None => lenv_get(self.lenv(), name@) is None,
            },
    {
        let mut i = self.scopes.len();
        proof {
            assert(self.scopes@.subrange(0, self.scopes@.len() as int) =~= self.scopes@);
        }
        while i > 0
            invariant
                i <= self.scopes@.len(),
                lenv_get(self.lenv(), name@) == lenv_get(slots_env_view(self.scopes@.subrange(0, i as int)), name@),
            decreases i,
        {
            let ghost pre = slots_env_view(self.scopes@.subrange(0, i as int));
            proof {
                assert(pre.drop_last() =~= slots_env_view(self.scopes@.subrange(0, i - 1)));
                assert(pre.last() == slots_view(self.scopes@[i - 1]@));
            }
            if let Some(slot) = slot_lookup(&self.scopes[i - 1], name) {
                return Some(slot);
            }
            i = i - 1;
        }
        None
    }

    fn declare(&mut self, name: &String, var: Var)
        requires
            old(self).scopes@.len() > 0,
        ensures
            final(self).lenv() == lenv_declare(old(self).lenv(), name@, var.slot as nat, var.ty),
            final(self).scopes@.len() == old(self).scopes@.len(),
            final(self).scopes@.subrange(0, old(self).scopes@.len() - 1) == old(self).scopes@.subrange(
                0,
                old(self).scopes@.len() - 1,
            ),
            final(self).terminated == old(self).terminated,
            final(self).ir == old(self).ir,
            final(self).current == old(self).current,
            final(self).same_ctx(old(self)),
    {
        let ghost before = self.scopes@;
        let mut top = self.scopes.pop().unwrap();
        let ghost top0 = top@;
        top.push((name.clone(), var));
        self.scopes.push(top);
        proof {
            assert(slots_view(top@) =~= slots_view(top0).push((name@, (var.slot as nat, var.ty))));
            assert(slots_env_view(self.scopes@) =~= lenv_declare(slots_env_view(before), name@, var.slot as nat, var.ty));
            assert(self.scopes@.subrange(0, before.len() - 1) =~= before.subrange(0, before.len() - 1));
        }
    }

    /// The LLVM type of `ty`.
    fn llvm_ty(&mut self, ty: ValTy) -> (r: usize)
        ensures
            final(self).log() == old(self).log().push(IrOp::IntType { ty }),
            r == count(old(self).log(), Table::IntTypes),
            final(self).scopes@ == old(self).scopes@,
            final(self).current == old(self).current,
            final(self).terminated == old(self).terminated,
            final(self).same_ctx(old(self)),
    {
        match ty {
            ValTy::I32 => self.ir.i32_type(),
            ValTy::Bool => self.ir.bool_type(),
        }
    }

    /// A stack slot at the start of the entry block; the builder comes back
    /// to `current`.
    #[verifier::rlimit(30)]
    fn alloca(&mut self, ty: ValTy, name: &str) -> (r: Result<usize, CodegenError>)
        requires
            old(self).wf(),
        ensures
            final(self).wf(),
            final(self).same_ctx(old(self)),
            final(self).scopes@ == old(self).scopes@,
            final(self).current == old(self).current,
            final(self).terminated == old(self).terminated,
            grew(old(self).log(), final(self).log()),
            r matches Ok(slot) && (final(self).log(), slot as nat) == lower_alloca(
                old(self).ctx(),
                old(self).log(),
                old(self).current as nat,
                ty,
                name@,
            ) && slot < count(final(self).log(), Table::Slots),
    {
        let ghost l0 = self.log();
        let ghost found = block_has_instruction(l0, self.entry as nat);
        match self.ir.first_instruction(self.entry) {
            Some(first) => self.ir.position_before(first),
            None => self.ir.position_at_end(self.entry),
        }
        let ghost l2 = self.log();
        proof {
            assert(l2 == if found {
                l0.push(IrOp::FirstInstruction { block: self.entry as nat, found }).push(
                    IrOp::PositionBefore { inst: count(l0, Table::Insts) },
                )
            } else {
                l0.push(IrOp::FirstInstruction { block: self.entry as nat, found }).push(
                    IrOp::PositionAtEnd { block: self.entry as nat },
                )
            });
            assert(positioned(l2));
        }
        let t = self.llvm_ty(ty);
        let ghost l3 = self.log();
        let ptr = match self.ir.build_alloca(t, name) {
            Ok(ptr) => ptr,
            Err(e) => return Err(builder_failure(named("alloca", name).as_str(), &e)),
        };
        let ghost l4 = self.log();
        assert(ptr == count(l3, Table::Slots));
        self.ir.position_at_end(self.current);
        proof {
            assert(grew(l0, self.log()));
            assert(slots_below(self.lenv(), count(self.log(), Table::Slots)));
        }
        Ok(ptr)
    }

    /// The constant `value` of type `i32`.
    fn int_const(&mut self, value: i64) -> (r: usize)
        ensures
            final(self).log() == old(self).log().push(IrOp::IntType { ty: ValTy::I32 }).push(
                IrOp::ConstInt { ty: count(old(self).log(), Table::IntTypes), value: value as u64, sign_extend: true },
            ),
            r == count(old(self).log(), Table::Values),
            final(self).scopes@ == old(self).scopes@,
            final(self).current == old(self).current,
            final(self).terminated == old(self).terminated,
            final(self).same_ctx(old(self)),
    {
        let t = self.ir.i32_type();
        self.ir.const_int(t, value as u64, true)
    }

    /// The constant `value` of type `i1`.
    fn bool_const(&mut self, value: bool) -> (r: usize)
        ensures
            final(self).log() == old(self).log().push(IrOp::IntType { ty: ValTy::Bool }).push(
                IrOp::ConstInt {
                    ty: count(old(self).log(), Table::IntTypes),
                    value: if value {
                        1u64
                    } else {
                        0u64
                    },
                    sign_extend: false,
                },
            ),
            r == count(old(self).log(), Table::Values),
            final(self).scopes@ == old(self).scopes@,
            final(self).current == old(self).current,
            final(self).terminated == old(self).terminated,
            final(self).same_ctx(old(self)),
    {
        let t = self.ir.bool_type();
        self.ir.const_int(t, if value { 1 } else { 0 }, false)
    }

    /// The value of `expr` and its type.
    #[verifier::rlimit(30)]
    fn gen_expr(&mut self, expr: &Expr) -> (r: Result<(usize, ValTy), CodegenError>)
        requires
            old(self).wf(),
            cg_expr(old(self).env(), expr@) is Ok,
        ensures
            final(self).wf(),
            final(self).same_ctx(old(self)),
            final(self).scopes@ == old(self).scopes@,
            final(self).current == old(self).current,
            final(self).terminated == old(self).terminated,
            grew(old(self).log(), final(self).log()),
            r matches Ok(v) && {
                &&& (final(self).log(), v.0 as nat) == lower_expr(old(self).log(), old(self).lenv(), expr@)
                &&& cg_expr(old(self).env(), expr@) == Ok::<ValTy, Seq<char>>(v.1)
                &&& v.0 < count(final(self).log(), Table::Values)
            },
        decreases expr,
    {
        match expr {
            Expr::Int(value) => Ok((self.int_const(*value), ValTy::I32)),
            Expr::Bool(value) => Ok((self.bool_const(*value), ValTy::Bool)),
            Expr::Var(name) => {
                proof {
                    lemma_lenv_get(self.lenv(), name@);
                }
                let (slot, ty) = match self.lookup(name.as_str()) {
                    Some(s) => s,
                    None => return Err(undeclared_var(name.as_str())),
                };
                proof {
                    assert(slot < count(self.log(), Table::Slots)) by {
                        lemma_lenv_get_below(self.lenv(), name@, count(self.log(), Table::Slots));
                    }
                }
                match self.ir.build_load(slot, name.as_str()) {
                    Ok(v) => Ok((v, ty)),
                    Err(e) => Err(builder_failure(named("load", name.as_str()).as_str(), &e)),
                }
            },
            Expr::Binary { op, lhs, rhs } => {
                let (l, lt) = self.gen_expr(lhs)?;
                let (r, _) = self.gen_expr(rhs)?;
                if matches!(op, BinOp::Add) {
                    match self.ir.build_int_add(l, r, "add") {
                        Ok(v) => Ok((v, lt)),
                        Err(e) => Err(builder_failure("build add", &e)),
                    }
                } else {
                    match build_compare(&mut self.ir, comparison_of(*op), l, r, "cmp") {
                        Ok(v) => Ok((v, ValTy::Bool)),
                        Err(e) => Err(builder_failure("build compare", &e)),
                    }
                }
            },
            _ => Err(CodegenError { message: string_of("codegen: unsupported expression") }),
        }
    }
}

proof fn lemma_lscope_get_below(s: LScope, name: Seq<char>, n: nat)
    requires
        forall|j: int| 0 <= j < s.len() ==> #[trigger] s[j].1.0 < n,
    ensures
        lscope_get(s, name) matches Some(p) ==> p.0 < n,
    decreases s.len(),
{
    if s.len() > 0 {
        assert(s.last() == s[s.len() - 1]);
        lemma_lscope_get_below(s.drop_last(), name, n);
    }
}

proof fn lemma_lenv_get_below(env: LEnv, name: Seq<char>, n: nat)
    requires
        slots_below(env, n),
    ensures
        lenv_get(env, name) matches Some(p) ==> p.0 < n,
    decreases env.len(),
{
    if env.len() > 0 {
        let i = env.len() - 1;
        assert forall|j: int| 0 <= j < env.last().len() implies #[trigger] env.last()[j].1.0 < n by {
            assert(env[i][j].1.0 < n);
        }
        lemma_lscope_get_below(env.last(), name, n);
        assert(slots_below(env.drop_last(), n)) by {
            assert forall|a: int, b: int| 0 <= a < env.drop_last().len() && 0 <= b < env.drop_last()[a].len()
                implies #[trigger] env.drop_last()[a][b].1.0 < n by {
                assert(env[a][b].1.0 < n);
            }
        }
        lemma_lenv_get_below(env.drop_last(), name, n);
    }
}


impl<'ctx> Codegen<'ctx> {
    #[verifier::rlimit(50)]
    fn gen_block(&mut self, block: &Block) -> (r: Result<(), CodegenError>)
        requires
            old(self).wf(),
            cg_block(old(self).env(), block@) is Ok,
            !old(self).terminated,
        ensures
            r is Ok,
            final(self).wf(),
            final(self).same_ctx(old(self)),
            grew(old(self).log(), final(self).log()),
            final(self).scopes@ == old(self).scopes@,
            cg_block(old(self).env(), block@) == Ok::<bool, Seq<char>>(final(self).terminated),
            final(self).state() == lower_block(old(self).ctx(), old(self).state(), block@),
        decreases block, 0int,
    {
        let ghost start = self.scopes@;
        let ghost g0 = Gen {
            log: self.log(),
            env: self.lenv().push(Seq::empty()),
            current: self.current as nat,
            terminated: false,
        };
        let ghost c = self.ctx();
        let ghost sv = stmts_view(block.stmts@);
        proof {
            lemma_stmts_view(block.stmts@);
        }
        let fresh: Vec<(String, Var)> = Vec::new();
        proof {
            assert(slots_view(fresh@) =~= Seq::<(Seq<char>, (nat, ValTy))>::empty());
        }
        self.scopes.push(fresh);
        proof {
            assert(slots_env_view(self.scopes@) =~= slots_env_view(start).push(Seq::empty()));
            assert(lscope_types(Seq::empty()) =~= Seq::<(Seq<char>, ValTy)>::empty());
            assert(lenv_types(self.lenv()) =~= lenv_types(slots_env_view(start)).push(Seq::empty()));
            assert(sv.subrange(0, sv.len() as int) =~= sv);
            assert(self.scopes@.subrange(0, start.len() as int) =~= start);
            assert(self.state() == g0);
            assert(slots_below(self.lenv(), count(self.log(), Table::Slots)));
        }
        let mut i: usize = 0;
        while i < block.stmts.len() && !self.terminated
            invariant
                start == old(self).scopes@,
                c == old(self).ctx(),
                g0.log == old(self).log(),
                g0.env == slots_env_view(start).push(Seq::empty()),
                g0.current == old(self).current,
                !g0.terminated,
                self.wf(),
                self.same_ctx(old(self)),
                grew(old(self).log(), self.log()),
                i <= block.stmts@.len(),
                sv == stmts_view(block.stmts@),
                sv.len() == block.stmts@.len(),
                forall|j: int| 0 <= j < block.stmts@.len() ==> sv[j] == stmt_view(#[trigger] block.stmts@[j]),
                self.scopes@.len() == start.len() + 1,
                self.scopes@.subrange(0, start.len() as int) == start,
                cg_stmts(lenv_types(slots_env_view(start)).push(Seq::empty()), sv) is Ok,
                cg_stmts(lenv_types(slots_env_view(start)).push(Seq::empty()), sv) == (if self.terminated {
                    Ok((self.env(), true))
                } else {
                    cg_stmts(self.env(), sv.subrange(i as int, sv.len() as int))
                }),
                lower_stmts(c, g0, sv) == (if self.terminated {
                    self.state()
                } else {
                    lower_stmts(c, self.state(), sv.subrange(i as int, sv.len() as int))
                }),
            decreases block.stmts@.len() - i,
        {
            proof {
                assert(decreases_to!(*block => block.stmts));
                assert(decreases_to!(block.stmts => block.stmts@));
                assert(decreases_to!(block.stmts@ => block.stmts@[i as int]));
                assert(sv.subrange(i as int, sv.len() as int).drop_first() =~= sv.subrange(
                    i + 1,
                    sv.len() as int,
                ));
                assert(sv.subrange(i as int, sv.len() as int)[0] == sv[i as int]);
            }
            let ghost before = self.scopes@;
            self.gen_stmt(&block.stmts[i])?;
            proof {
                assert(self.scopes@.subrange(0, start.len() as int) =~= before.subrange(0, start.len() as int));
            }
            i = i + 1;
        }
        let ghost inner = self.state();
        self.scopes.pop();
        proof {
            assert(self.scopes@ =~= start);
            assert(sv.subrange(sv.len() as int, sv.len() as int) =~= Seq::<SpecStmt>::empty());
            assert(lenv_types(slots_env_view(start)) == old(self).env());
            assert(slots_below(self.lenv(), count(self.log(), Table::Slots))) by {
                assert forall|a: int, b: int| 0 <= a < self.lenv().len() && 0 <= b < self.lenv()[a].len()
                    implies #[trigger] self.lenv()[a][b].1.0 < count(self.log(), Table::Slots) by {
                    assert(self.lenv()[a] == inner.env[a]);
                }
            }
        }
        Ok(())
    }

    #[verifier::rlimit(50)]
    fn gen_stmt(&mut self, stmt: &Stmt) -> (r: Result<(), CodegenError>)
        requires
            old(self).wf(),
            old(self).scopes@.len() > 0,
            cg_stmt(old(self).env(), stmt@) is Ok,
            !old(self).terminated,
        ensures
            r is Ok,
            final(self).wf(),
            final(self).same_ctx(old(self)),
            grew(old(self).log(), final(self).log()),
            final(self).scopes@.len() == old(self).scopes@.len(),
            final(self).scopes@.subrange(0, old(self).scopes@.len() - 1) == old(self).scopes@.subrange(
                0,
                old(self).scopes@.len() - 1,
            ),
            cg_stmt(old(self).env(), stmt@) == Ok::<(CgEnv, bool), Seq<char>>(
                (final(self).env(), final(self).terminated),
            ),
            final(self).state() == lower_stmt(old(self).ctx(), old(self).state(), stmt@),
        decreases stmt, 2int,
    {
        proof {
            assert(self.scopes@.subrange(0, self.scopes@.len() - 1) =~= old(self).scopes@.subrange(
                0,
                old(self).scopes@.len() - 1,
            ));
        }
        match stmt {
            Stmt::Return(expr) => {
                let (value, _) = self.gen_expr(expr)?;
                match self.ir.build_return(value) {
                    Ok(_) => {},
                    Err(e) => return Err(builder_failure("build return", &e)),
                }
                self.terminated = true;
                Ok(())
            },
            Stmt::Print(expr) => {
                let (value, _) = self.gen_expr(expr)?;
                match self.ir.build_call(self.print_fn, value) {
                    Ok(_) => Ok(()),
                    Err(e) => Err(builder_failure("build print", &e)),
                }
            },
            Stmt::Let { name, value, .. } => {
                let ghost env0 = self.lenv();
                let (init, ty) = self.gen_expr(value)?;
                let slot = self.alloca(ty, name.as_str())?;
                match self.ir.build_store(slot, init) {
                    Ok(_) => {},
                    Err(e) => return Err(builder_failure(named("store", name.as_str()).as_str(), &e)),
                }
                self.declare(name, Var { slot, ty });
                proof {
                    lemma_lenv_declare(env0, name@, slot as nat, ty);
                    let n = count(self.log(), Table::Slots);
                    assert(slots_below(self.lenv(), n)) by {
                        assert forall|a: int, b: int| 0 <= a < self.lenv().len() && 0 <= b < self.lenv()[a].len()
                            implies #[trigger] self.lenv()[a][b].1.0 < n by {
                            if a == env0.len() - 1 && b == env0.last().len() {
                            } else {
                                assert(self.lenv()[a][b] == env0[a][b]);
                            }
                        }
                    }
                }
                Ok(())
            },
            Stmt::Assign { target: Expr::Var(name), value } => {
                let (val, _) = self.gen_expr(value)?;
                proof {
                    lemma_lenv_get(self.lenv(), name@);
                }
                let (slot, _) = match self.lookup(name.as_str()) {
                    Some(s) => s,
                    None => return Err(undeclared_var(name.as_str())),
                };
                proof {
                    lemma_lenv_get_below(self.lenv(), name@, count(self.log(), Table::Slots));
                }
                match self.ir.build_store(slot, val) {
                    Ok(_) => Ok(()),
                    Err(e) => Err(builder_failure(named("assign", name.as_str()).as_str(), &e)),
                }
            },
            Stmt::If { .. } => self.gen_if(stmt),
            Stmt::While { .. } => self.gen_while(stmt),
            _ => Err(CodegenError { message: string_of("codegen: unsupported statement") }),
        }
    }

    #[verifier::rlimit(100)]
    #[verifier::spinoff_prover]
    fn gen_if(&mut self, stmt: &Stmt) -> (r: Result<(), CodegenError>)
        requires
            old(self).wf(),
            old(self).scopes@.len() > 0,
            stmt is If,
            cg_stmt(old(self).env(), stmt@) is Ok,
            !old(self).terminated,
        ensures
            r is Ok,
            final(self).wf(),
            final(self).same_ctx(old(self)),
            grew(old(self).log(), final(self).log()),
            final(self).scopes@ == old(self).scopes@,
            cg_stmt(old(self).env(), stmt@) == Ok::<(CgEnv, bool), Seq<char>>(
                (final(self).env(), final(self).terminated),
            ),
            final(self).state() == lower_stmt(old(self).ctx(), old(self).state(), stmt@),
        decreases stmt, 1int,
    {
        let (cond, then_block, else_block) = match stmt {
            Stmt::If { cond, then_block, else_block } => (cond, then_block, else_block),
            _ => return Err(CodegenError { message: string_of("codegen: unsupported statement") }),
        };
        proof {
            assert(decreases_to!(*stmt => (*stmt)->then_block));
            if else_block is Some {
                assert(decreases_to!(*stmt => (*stmt)->else_block));
                assert(decreases_to!((*stmt)->else_block => (*stmt)->else_block->Some_0));
            }
        }
        let ghost g = self.state();
        let ghost cx = self.ctx();
        let ghost v = lower_expr(g.log, g.env, cond@);
        let (c, _) = self.gen_expr(cond)?;
        let then_bb = self.ir.append_basic_block(self.main_fn, "if.then");
        let else_bb = self.ir.append_basic_block(self.main_fn, "if.else");
        match self.ir.build_conditional_branch(c, then_bb, else_bb) {
            Ok(_) => {},
            Err(e) => return Err(builder_failure("build if", &e)),
        }
        let ghost l3 = self.log();
        proof {
            let l1 = v.0.push(IrOp::AppendBlock { function: cx.main_fn, name: "if.then"@ });
            assert(then_bb == count(v.0, Table::Blocks));
            assert(else_bb == count(l1, Table::Blocks));
            assert(l3 == l1.push(IrOp::AppendBlock { function: cx.main_fn, name: "if.else"@ }).push(
                IrOp::CondBr { cond: v.1, then_dest: then_bb as nat, else_dest: else_bb as nat },
            ));
        }
        self.position(then_bb);
        let ghost at_then = self.state();
        self.gen_block(then_block)?;
        let then_term = self.terminated;
        let then_end = self.current;
        let ghost g1 = self.state();
        proof {
            assert(at_then == Gen {
                log: l3.push(IrOp::PositionAtEnd { block: then_bb as nat }),
                env: g.env,
                current: then_bb as nat,
                terminated: false,
            });
            assert(g1 == lower_block(cx, at_then, then_block@));
        }
        self.position(else_bb);
        let ghost at_else = self.state();
        proof {
            assert(at_else == Gen {
                log: g1.log.push(IrOp::PositionAtEnd { block: else_bb as nat }),
                env: g.env,
                current: else_bb as nat,
                terminated: false,
            });
        }
        if let Some(b) = else_block {
            self.gen_block(b)?;
        }
        let ghost g2 = self.state();
        proof {
            assert(g2 == match *else_block {
                Some(b) => lower_block(cx, at_else, b@),
                None => at_else,
            });
        }
        self.join(then_term, then_end)
    }

    /// Joins the branches of an `if`: the `then` branch ended in `then_end`,
    /// the `else` branch is where the builder is.
    #[verifier::rlimit(30)]
    fn join(&mut self, then_term: bool, then_end: usize) -> (r: Result<(), CodegenError>)
        requires
            old(self).wf(),
            then_end < count(old(self).log(), Table::Blocks),
        ensures
            r is Ok,
            final(self).wf(),
            final(self).same_ctx(old(self)),
            grew(old(self).log(), final(self).log()),
            final(self).scopes@ == old(self).scopes@,
            final(self).terminated == (then_term && old(self).terminated),
            final(self).state() == lower_join(old(self).ctx(), then_term, then_end as nat, old(self).state()),
    {
        let else_term = self.terminated;
        let else_end = self.current;
        if then_term && else_term {
            return Ok(());
        }
        let merge = self.ir.append_basic_block(self.main_fn, "if.merge");
        if !then_term {
            self.ir.position_at_end(then_end);
            match self.ir.build_unconditional_branch(merge) {
                Ok(_) => {},
                Err(e) => return Err(builder_failure("leave then", &e)),
            }
        }
        if !else_term {
            self.ir.position_at_end(else_end);
            match self.ir.build_unconditional_branch(merge) {
                Ok(_) => {},
                Err(e) => return Err(builder_failure("leave else", &e)),
            }
        }
        self.position(merge);
        Ok(())
    }

    #[verifier::rlimit(80)]
    fn gen_while(&mut self, stmt: &Stmt) -> (r: Result<(), CodegenError>)
        requires
            old(self).wf(),
            old(self).scopes@.len() > 0,
            stmt is While,
            cg_stmt(old(self).env(), stmt@) is Ok,
            !old(self).terminated,
        ensures
            r is Ok,
            final(self).wf(),
            final(self).same_ctx(old(self)),
            grew(old(self).log(), final(self).log()),
            final(self).scopes@ == old(self).scopes@,
            cg_stmt(old(self).env(), stmt@) == Ok::<(CgEnv, bool), Seq<char>>(
                (final(self).env(), final(self).terminated),
            ),
            final(self).state() == lower_stmt(old(self).ctx(), old(self).state(), stmt@),
        decreases stmt, 1int,
    {
        let (cond, body) = match stmt {
            Stmt::While { cond, body } => (cond, body),
            _ => return Err(CodegenError { message: string_of("codegen: unsupported statement") }),
        };
        proof {
            assert(decreases_to!(*stmt => (*stmt)->While_body));
        }
        let cond_bb = self.ir.append_basic_block(self.main_fn, "while.cond");
        let body_bb = self.ir.append_basic_block(self.main_fn, "while.body");
        let after_bb = self.ir.append_basic_block(self.main_fn, "while.after");
        match self.ir.build_unconditional_branch(cond_bb) {
            Ok(_) => {},
            Err(e) => return Err(builder_failure("enter while", &e)),
        }
        self.position(cond_bb);
        let (c, _) = self.gen_expr(cond)?;
        match self.ir.build_conditional_branch(c, body_bb, after_bb) {
            Ok(_) => {},
            Err(e) => return Err(builder_failure("build while", &e)),
        }
        self.position(body_bb);
        self.gen_block(body)?;
        if !self.terminated {
            match self.ir.build_unconditional_branch(cond_bb) {
                Ok(_) => {},
                Err(e) => return Err(builder_failure("loop", &e)),
            }
        }
        self.position(after_bb);
        Ok(())
    }
}

/// Declares the runtime's `void sattle_print_i32(i32)`; gives back its handle.
fn declare_runtime(ir: &mut IrModule) -> (r: usize)
    ensures
        ir_log(*final(ir)) == lower_runtime(ir_log(*old(ir))),
        r == count(ir_log(*old(ir)), Table::Functions),
{
    let void = ir.void_type();
    let i32_ty = ir.i32_type();
    let ty = ir.void_fn_type(void, i32_ty);
    ir.add_function(PRINT_I32, ty)
}

/// Generates `i32 main()` from `func`.
#[verifier::rlimit(30)]
fn gen_main<'ctx>(ir: IrModule<'ctx>, print_fn: usize, func: &Function) -> (r: (IrModule<'ctx>, Result<(), CodegenError>))
    requires
        print_fn < count(ir_log(ir), Table::Functions),
        cg_main(function_view(*func)) is Ok,
    ensures
        r.1 is Ok,
        ir_log(r.0) == lower_main(ir_log(ir), print_fn as nat, function_view(*func)),
        grew(ir_log(ir), ir_log(r.0)),
{
    let mut ir = ir;
    let t = ir.i32_type();
    let fn_ty = ir.int_fn_type(t);
    let main_fn = ir.add_function("main", fn_ty);
    let entry = ir.append_basic_block(main_fn, "entry");
    ir.position_at_end(entry);
    let mut cg = Codegen {
        ir,
        print_fn,
        main_fn,
        entry,
        current: entry,
        scopes: Vec::new(),
        terminated: false,
    };
    proof {
        assert(cg.lenv() =~= Seq::<LScope>::empty());
        assert(cg.env() =~= Seq::<CgScope>::empty());
    }
    let res = cg.gen_block(&func.body);
    let terminated = cg.terminated;
    let ir = cg.ir;
    match res {
        Ok(_) => {},
        Err(e) => return (ir, Err(e)),
    }
    if !terminated {
        return (ir, Err(CodegenError { message: string_of("missing `return`") }));
    }
    (ir, Ok(()))
}

/// Builds the LLVM module for `module` in `context`. A module that the
/// generator does not support is answered with the error of `codegen_check`;
/// otherwise the module holds what `lower_module` asks of LLVM, and it is
/// given back exactly when LLVM's verifier accepts it.
#[verifier::rlimit(30)]
fn build_ir<'ctx>(context: &'ctx Context, module: &SourceModule, source_name: &str) -> (r: Result<IrModule<'ctx>, CodegenError>)
    ensures
        match r {
            Ok(ir) => {
                &&& codegen_check(module@) is Ok
                &&& ir_log(ir) == lower_module(module@, source_name@)
                &&& llvm_verifies(ir_log(ir))
            },
            Err(e) => match codegen_check(module@) {
                Err(m) => e.message@ == m,
                Ok(_) => !llvm_verifies(lower_module(module@, source_name@)) && verify_failure(e.message@),
            },
        },
{
    check_codegen(module)?;
    let mut ir = IrModule::create(context, source_name);
    ir.set_source_file_name(source_name);
    let ghost l0 = ir_log(ir);
    let print_fn = declare_runtime(&mut ir);
    let ghost iv = items_view(module.items@);
    let ghost mut saw = false;
    let mut i: usize = 0;
    proof {
        assert(iv.subrange(0, iv.len() as int) =~= iv);
        assert(l0 == seq![IrOp::Module { name: source_name@ }].push(IrOp::SourceFileName { name: source_name@ }));
    }
    while i < module.items.len()
        invariant
            i <= module.items@.len(),
            iv == items_view(module.items@),
            codegen_check(module@) is Ok,
            cg_items(iv.subrange(i as int, iv.len() as int), saw) is Ok,
            print_fn < count(ir_log(ir), Table::Functions),
            print_fn == count(l0, Table::Functions),
            lower_items(ir_log(ir), print_fn as nat, iv.subrange(i as int, iv.len() as int)) == lower_module(
                module@,
                source_name@,
            ),
        decreases module.items@.len() - i,
    {
        proof {
            assert(iv.subrange(i as int, iv.len() as int).drop_first() =~= iv.subrange(
                i + 1,
                iv.len() as int,
            ));
            assert(iv.subrange(i as int, iv.len() as int)[0] == iv[i as int]);
        }
        match &module.items[i] {
            Item::Fn(func) => {
                if str_eq(func.name.as_str(), "main") {
                    let (m, res) = gen_main(ir, print_fn, func);
                    ir = m;
                    res?;
                    proof {
                        saw = true;
                    }
                } else {
                    return Err(unsupported("function", func.name.as_str()));
                }
            },
            _ => {
                return Err(CodegenError { message: string_of("codegen: unsupported item") });
            },
        }
        i = i + 1;
    }
    proof {
        assert(iv.subrange(iv.len() as int, iv.len() as int) =~= Seq::<SpecItem>::empty());
    }
    match ir.verify() {
        Ok(()) => Ok(ir),
        Err(detail) => {
            let mut m = string_of("LLVM module verification failed: ");
            push_str(&mut m, detail.as_str());
            proof {
                assert(m@ =~= "LLVM module verification failed: "@ + detail@);
            }
            Err(CodegenError { message: m })
        },
    }
}

/// Builds the LLVM module for `module` in `context`. A module that the
/// generator does not support is answered with the error of `codegen_check`;
/// otherwise the module is the one that `lower_module` describes, given back
/// exactly when LLVM's verifier accepts it.
pub fn build_module<'ctx>(context: &'ctx Context, module: &SourceModule, source_name: &str) -> (r:
    Result<LlvmModule<'ctx>, CodegenError>)
    ensures
        match r {
            Ok(_) => codegen_check(module@) is Ok && llvm_verifies(lower_module(module@, source_name@)),
            Err(e) => match codegen_check(module@) {
                Err(m) => e.message@ == m,
                Ok(_) => !llvm_verifies(lower_module(module@, source_name@)) && verify_failure(e.message@),
            },
        },
{
    let ir = build_ir(context, module, source_name)?;
    Ok(ir.into_module())
}

/// Emit LLVM IR for a type-checked module. A module that the generator does
/// not support is answered with the error of `codegen_check`. Otherwise the
/// module holds what `lower_module` asks of LLVM, and the result is LLVM's
/// text of it, or the verifier's complaint.
pub fn emit_llvm_ir(module: &SourceModule, source_name: &str) -> (r: Result<String, CodegenError>)
    ensures
        match codegen_check(module@) {
            Err(m) => r matches Err(e) && e.message@ == m,
            Ok(_) => if llvm_verifies(lower_module(module@, source_name@)) {
                r matches Ok(text) && text@ == ir_text(lower_module(module@, source_name@))
            } else {
                r matches Err(e) && verify_failure(e.message@)
            },
        },
{
    let context = create_context();
    let ir = build_ir(&context, module, source_name)?;
    Ok(ir.print_to_string())
}

/// `Context::create`: a fresh LLVM context.
#[verifier::external_body]
fn create_context() -> Context {
    Context::create()
}

} // verus!
