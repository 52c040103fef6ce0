//! The typing rules of sattle, as spec functions over the AST view.
//!
//! `spec_typeck(m)` is `Ok(())` exactly for the well-typed modules and
//! otherwise carries the message of the first rule that fails, in the order in
//! which the checker visits the program.

use vstd::prelude::*;
use crate::ast::{binop_text, BinOp, SpecBlock, SpecExpr, SpecFunction, SpecItem, SpecMatchArm, SpecModule, SpecParam, SpecStmt, SpecType, UnOp};
use crate::text::{int_text, nat_text};

verus! {

/// Resolved types.
pub enum SpecTy {
    I32,
    Bool,
    Struct(Seq<char>),
    Enum(Seq<char>),
    Ptr(Box<SpecTy>),
}

/// How control leaves a statement or block.
#[derive(Debug, Clone, Copy, PartialEq, Eq, Structural)]
pub enum Flow {
    /// Falls through to the next statement.
    Next,
    /// Leaves by `break` or `continue`.
    Jump,
    /// Leaves by `return`.
    Return,
}

/// The name of a type as written in messages.
pub open spec fn ty_name(t: SpecTy) -> Seq<char>
    decreases t,
{
    match t {
        SpecTy::I32 => "i32"@,
        SpecTy::Bool => "bool"@,
        SpecTy::Struct(n) => n,
        SpecTy::Enum(n) => n,
        SpecTy::Ptr(inner) => "*"@ + ty_name(*inner),
    }
}

/// A table keyed by names, in declaration order.
pub open spec fn lookup_from<V>(tbl: Seq<(Seq<char>, V)>, name: Seq<char>, i: int) -> Option<V>
    decreases tbl.len() - i,
{
    if i < 0 || i >= tbl.len() {
        None
    } else if tbl[i].0 == name {
        Some(tbl[i].1)
    } else {
        lookup_from(tbl, name, i + 1)
    }
}

pub open spec fn lookup<V>(tbl: Seq<(Seq<char>, V)>, name: Seq<char>) -> Option<V> {
    lookup_from(tbl, name, 0)
}

pub open spec fn has_key<V>(tbl: Seq<(Seq<char>, V)>, name: Seq<char>) -> bool {
    lookup(tbl, name) is Some
}

/// Struct name ↦ fields (name, type).
pub type StructTable = Seq<(Seq<char>, Seq<(Seq<char>, SpecTy)>)>;

/// Enum name ↦ variants.
pub type EnumTable = Seq<(Seq<char>, Seq<Seq<char>>)>;

/// Function name ↦ (parameter types, return type).
pub type FnTable = Seq<(Seq<char>, (Seq<SpecTy>, SpecTy))>;

/// Const name ↦ type.
pub type ConstTable = Seq<(Seq<char>, SpecTy)>;

/// Everything that name resolution of values and types needs.
pub struct Ctx {
    pub structs: StructTable,
    pub enums: EnumTable,
    pub fns: FnTable,
    pub consts: ConstTable,
}

/// A scope: variable name ↦ (type, whether it may be assigned).
pub type Scope = Seq<(Seq<char>, (SpecTy, bool))>;

/// Scopes, innermost last.
pub type Env = Seq<Scope>;

pub open spec fn env_get_from(env: Env, name: Seq<char>, k: int) -> Option<(SpecTy, bool)>
    decreases k + 1,
{
    if k < 0 || k >= env.len() {
        None
    } else {
        match lookup(env[k], name) {
            Some(b) => Some(b),
            None => env_get_from(env, name, k - 1),
        }
    }
}

/// The innermost binding of `name`.
pub open spec fn env_get(env: Env, name: Seq<char>) -> Option<(SpecTy, bool)> {
    env_get_from(env, name, env.len() - 1)
}

/// Declares `name` in the innermost scope.
pub open spec fn declare(env: Env, name: Seq<char>, ty: SpecTy, mutable: bool) -> Result<Env, Seq<char>> {
    let top = env.last();
    if has_key(top, name) {
        Err("duplicate variable `"@ + name + "`"@)
    } else {
        Ok(env.update(env.len() - 1, top.push((name, (ty, mutable)))))
    }
}

pub open spec fn resolve_type(t: SpecType, structs: StructTable, enums: EnumTable) -> Result<SpecTy, Seq<char>>
    decreases t,
{
    match t {
        SpecType::Name(n) => {
            if n == "i32"@ {
                Ok(SpecTy::I32)
            } else if n == "bool"@ {
                Ok(SpecTy::Bool)
            } else if has_key(structs, n) {
                Ok(SpecTy::Struct(n))
            } else if has_key(enums, n) {
                Ok(SpecTy::Enum(n))
            } else {
                Err("unknown type `"@ + n + "`"@)
            }
        },
        SpecType::Ptr(inner) => match resolve_type(*inner, structs, enums) {
            Ok(t) => Ok(SpecTy::Ptr(Box::new(t))),
            Err(m) => Err(m),
        },
    }
}

pub open spec fn msg_undeclared(name: Seq<char>) -> Seq<char> {
    "undeclared variable `"@ + name + "`"@
}

pub open spec fn msg_not_place() -> Seq<char> {
    "cannot assign to this expression"@
}

pub open spec fn msg_no_field(field: Seq<char>, name: Seq<char>) -> Seq<char> {
    "no field `"@ + field + "` on `"@ + name + "`"@
}

pub open spec fn msg_deref(t: SpecTy) -> Seq<char> {
    "`*` requires a pointer, found `"@ + ty_name(t) + "`"@
}

pub open spec fn msg_operands(op: BinOp, kind: Seq<char>, l: SpecTy, r: SpecTy) -> Seq<char> {
    "`"@ + binop_text(op) + "` requires "@ + kind + " operands, found `"@ + ty_name(l) + "` and `"@
        + ty_name(r) + "`"@
}

pub open spec fn msg_arity(name: Seq<char>, expected: nat, found: nat) -> Seq<char> {
    "`"@ + name + "` expects "@ + nat_text(expected) + " argument"@ + (if expected == 1 {
        ""@
    } else {
        "s"@
    }) + ", found "@ + nat_text(found)
}

/// The type of a field of a struct, looking through pointers.
pub open spec fn field_ty_from(c: Ctx, base: SpecTy, cur: SpecTy, field: Seq<char>) -> Result<SpecTy, Seq<char>>
    decreases cur,
{
    match cur {
        SpecTy::Struct(name) => match lookup(c.structs, name) {
            Some(fields) => match lookup(fields, field) {
                Some(t) => Ok(t),
                None => Err(msg_no_field(field, name)),
            },
            None => Err(msg_no_field(field, name)),
        },
        SpecTy::Ptr(inner) => field_ty_from(c, base, *inner, field),
        _ => Err("field access requires a struct, found `"@ + ty_name(base) + "`"@),
    }
}

pub open spec fn field_ty(c: Ctx, base: SpecTy, field: Seq<char>) -> Result<SpecTy, Seq<char>> {
    field_ty_from(c, base, base, field)
}

pub open spec fn lookup_value(c: Ctx, env: Env, name: Seq<char>) -> Result<SpecTy, Seq<char>> {
    match env_get(env, name) {
        Some(b) => Ok(b.0),
        None => match lookup(c.consts, name) {
            Some(t) => Ok(t),
            None => Err(msg_undeclared(name)),
        },
    }
}

/// Field names of a struct literal before position `i`.
pub open spec fn lit_names(fields: Seq<(Seq<char>, SpecExpr)>, i: int) -> Seq<Seq<char>> {
    fields.take(i).map_values(|f: (Seq<char>, SpecExpr)| f.0)
}

/// The first field of `def` that the literal does not set.
pub open spec fn first_missing(def: Seq<(Seq<char>, SpecTy)>, set: Seq<Seq<char>>, j: int) -> Option<Seq<char>>
    decreases def.len() - j,
{
    if j < 0 || j >= def.len() {
        None
    } else if !set.contains(def[j].0) {
        Some(def[j].0)
    } else {
        first_missing(def, set, j + 1)
    }
}

/// The type of an expression.
pub open spec fn check_expr(c: Ctx, env: Env, e: SpecExpr) -> Result<SpecTy, Seq<char>>
    decreases e, 0int,
{
    match e {
        SpecExpr::Int(v) => {
            if v < i32::MIN || v > i32::MAX {
                Err("integer literal `"@ + int_text(v) + "` does not fit in `i32`"@)
            } else {
                Ok(SpecTy::I32)
            }
        },
        SpecExpr::Bool(_) => Ok(SpecTy::Bool),
        SpecExpr::Var(name) => lookup_value(c, env, name),
        SpecExpr::Call { name, args } => match lookup(c.fns, name) {
            None => Err("unknown function `"@ + name + "`"@),
            Some(sig) => {
                if args.len() != sig.0.len() {
                    Err(msg_arity(name, sig.0.len(), args.len()))
                } else {
                    match check_args(c, env, name, sig.0, args, 0) {
                        Ok(_) => Ok(sig.1),
                        Err(m) => Err(m),
                    }
                }
            },
        },
        SpecExpr::StructLit { name, fields } => match lookup(c.structs, name) {
            None => Err("unknown struct `"@ + name + "`"@),
            Some(def) => match check_lit_fields(c, env, name, def, fields, 0) {
                Err(m) => Err(m),
                Ok(_) => match first_missing(def, lit_names(fields, fields.len() as int), 0) {
                    Some(f) => Err("missing field `"@ + f + "` in `"@ + name + "` literal"@),
                    None => Ok(SpecTy::Struct(name)),
                },
            },
        },
        SpecExpr::Variant { enum_name, variant } => match lookup(c.enums, enum_name) {
            None => Err("unknown enum `"@ + enum_name + "`"@),
            Some(vs) => {
                if vs.contains(variant) {
                    Ok(SpecTy::Enum(enum_name))
                } else {
                    Err("no variant `"@ + variant + "` on `"@ + enum_name + "`"@)
                }
            },
        },
        SpecExpr::Field { base, field } => match check_expr(c, env, *base) {
            Ok(bt) => field_ty(c, bt, field),
            Err(m) => Err(m),
        },
        SpecExpr::Unary { op, expr } => match op {
            UnOp::Neg => match check_expr(c, env, *expr) {
                Ok(t) => if t != SpecTy::I32 {
                    Err("`-` requires `i32`, found `"@ + ty_name(t) + "`"@)
                } else {
                    Ok(SpecTy::I32)
                },
                Err(m) => Err(m),
            },
            UnOp::Not => match check_expr(c, env, *expr) {
                Ok(t) => if t != SpecTy::Bool {
                    Err("`!` requires `bool`, found `"@ + ty_name(t) + "`"@)
                } else {
                    Ok(SpecTy::Bool)
                },
                Err(m) => Err(m),
            },
            UnOp::Deref => match check_expr(c, env, *expr) {
                Ok(t) => match t {
                    SpecTy::Ptr(inner) => Ok(*inner),
                    _ => Err(msg_deref(t)),
                },
                Err(m) => Err(m),
            },
            UnOp::AddrOf => match check_place(c, env, *expr) {
                Ok(p) => if !p.2 {
                    Err("cannot take address of const"@)
                } else {
                    Ok(SpecTy::Ptr(Box::new(p.0)))
                },
                Err(m) => if m == msg_not_place() {
                    Err("cannot take address of this expression"@)
                } else {
                    Err(m)
                },
            },
        },
        SpecExpr::Binary { op, lhs, rhs } => match check_expr(c, env, *lhs) {
            Err(m) => Err(m),
            Ok(lt) => match check_expr(c, env, *rhs) {
                Err(m) => Err(m),
                Ok(rt) => check_binary(op, lt, rt),
            },
        },
    }
}

/// The type of `lhs op rhs` given the operand types.
pub open spec fn check_binary(op: BinOp, lt: SpecTy, rt: SpecTy) -> Result<SpecTy, Seq<char>> {
    match op {
        BinOp::Add | BinOp::Sub | BinOp::Mul | BinOp::Div | BinOp::Rem => {
            if lt != SpecTy::I32 || rt != SpecTy::I32 {
                Err(msg_operands(op, "`i32`"@, lt, rt))
            } else {
                Ok(SpecTy::I32)
            }
        },
        BinOp::Eq | BinOp::Ne => {
            if lt != rt {
                Err(msg_operands(op, "matching"@, lt, rt))
            } else if !(lt is I32 || lt is Bool || lt is Enum) {
                Err("cannot compare `"@ + ty_name(lt) + "`"@)
            } else {
                Ok(SpecTy::Bool)
            }
        },
        BinOp::Lt | BinOp::Le | BinOp::Gt | BinOp::Ge => {
            if lt != SpecTy::I32 || rt != SpecTy::I32 {
                Err(msg_operands(op, "`i32`"@, lt, rt))
            } else {
                Ok(SpecTy::Bool)
            }
        },
        BinOp::And | BinOp::Or => {
            if lt != SpecTy::Bool || rt != SpecTy::Bool {
                Err(msg_operands(op, "`bool`"@, lt, rt))
            } else {
                Ok(SpecTy::Bool)
            }
        },
    }
}

/// Checks call arguments from position `i` on against the parameter types.
pub open spec fn check_args(
    c: Ctx,
    env: Env,
    name: Seq<char>,
    params: Seq<SpecTy>,
    args: Seq<SpecExpr>,
    i: int,
) -> Result<(), Seq<char>>
    decreases args, args.len() - i,
{
    if i < 0 || i >= args.len() {
        Ok(())
    } else {
        match check_expr(c, env, args[i]) {
            Err(m) => Err(m),
            Ok(t) => if t != params[i] {
                Err(
                    "argument "@ + nat_text((i + 1) as nat) + " of `"@ + name + "`: expected `"@
                        + ty_name(params[i]) + "`, found `"@ + ty_name(t) + "`"@,
                )
            } else {
                check_args(c, env, name, params, args, i + 1)
            },
        }
    }
}

/// Checks the field initializers of a struct literal from position `i` on.
pub open spec fn check_lit_fields(
    c: Ctx,
    env: Env,
    name: Seq<char>,
    def: Seq<(Seq<char>, SpecTy)>,
    fields: Seq<(Seq<char>, SpecExpr)>,
    i: int,
) -> Result<(), Seq<char>>
    decreases fields, fields.len() - i,
{
    if i < 0 || i >= fields.len() {
        Ok(())
    } else {
        let f = fields[i].0;
        if lit_names(fields, i).contains(f) {
            Err("duplicate field `"@ + f + "` in `"@ + name + "` literal"@)
        } else {
            match lookup(def, f) {
                None => Err(msg_no_field(f, name)),
                Some(expected) => match check_expr(c, env, fields[i].1) {
                    Err(m) => Err(m),
                    Ok(t) => if t != expected {
                        Err(
                            "field `"@ + f + "` of `"@ + name + "`: expected `"@ + ty_name(expected)
                                + "`, found `"@ + ty_name(t) + "`"@,
                        )
                    } else {
                        check_lit_fields(c, env, name, def, fields, i + 1)
                    },
                },
            }
        }
    }
}

/// What an assignable expression denotes: (type, may be assigned, may be borrowed).
pub open spec fn check_place(c: Ctx, env: Env, e: SpecExpr) -> Result<(SpecTy, bool, bool), Seq<char>>
    decreases e, 0int,
{
    match e {
        SpecExpr::Var(name) => match env_get(env, name) {
            Some(b) => Ok((b.0, b.1, true)),
            None => match lookup(c.consts, name) {
                Some(t) => Ok((t, false, false)),
                None => Err(msg_undeclared(name)),
            },
        },
        SpecExpr::Unary { op: UnOp::Deref, expr } => match check_expr(c, env, *expr) {
            Ok(t) => match t {
                SpecTy::Ptr(inner) => Ok((*inner, true, true)),
                _ => Err(msg_deref(t)),
            },
            Err(m) => Err(m),
        },
        SpecExpr::Field { base, field } => match check_expr(c, env, *base) {
            Err(m) => Err(m),
            Ok(bt) => match field_ty(c, bt, field) {
                Err(m) => Err(m),
                Ok(ft) => if bt is Ptr {
                    Ok((ft, true, true))
                } else {
                    match check_place(c, env, *base) {
                        Ok(p) => Ok((ft, p.1, p.2)),
                        Err(_) => Err(msg_not_place()),
                    }
                },
            },
        },
        _ => Err(msg_not_place()),
    }
}

pub open spec fn join_if(then_flow: Flow, else_flow: Option<Flow>) -> Flow {
    match else_flow {
        None => Flow::Next,
        Some(e) => if then_flow == Flow::Return && e == Flow::Return {
            Flow::Return
        } else if then_flow == Flow::Next || e == Flow::Next {
            Flow::Next
        } else {
            Flow::Jump
        },
    }
}

pub open spec fn join_match(flows: Seq<Flow>) -> Flow {
    if forall|i: int| 0 <= i < flows.len() ==> flows[i] == Flow::Return {
        Flow::Return
    } else if exists|i: int| 0 <= i < flows.len() && flows[i] == Flow::Next {
        Flow::Next
    } else {
        Flow::Jump
    }
}

/// The enum that a `match` scrutinee of type `cur` names, looking through pointers.
pub open spec fn enum_of_from(orig: SpecTy, cur: SpecTy) -> Result<Seq<char>, Seq<char>>
    decreases cur,
{
    match cur {
        SpecTy::Enum(n) => Ok(n),
        SpecTy::Ptr(inner) => enum_of_from(orig, *inner),
        _ => Err("`match` requires an enum, found `"@ + ty_name(orig) + "`"@),
    }
}

pub open spec fn enum_of(t: SpecTy) -> Result<Seq<char>, Seq<char>> {
    enum_of_from(t, t)
}

/// The variants of enum `n`, empty when it is not declared.
pub open spec fn variants_of(c: Ctx, n: Seq<char>) -> Seq<Seq<char>> {
    match lookup(c.enums, n) {
        Some(vs) => vs,
        None => Seq::empty(),
    }
}

pub open spec fn arm_variants(arms: Seq<SpecMatchArm>, i: int) -> Seq<Seq<char>> {
    arms.take(i).map_values(|a: SpecMatchArm| a.variant)
}

/// The variants that no arm names, each written `` `E::V` ``, joined with `, `.
pub open spec fn missing_list(en: Seq<char>, missing: Seq<Seq<char>>) -> Seq<char>
    decreases missing.len(),
{
    if missing.len() == 0 {
        Seq::empty()
    } else if missing.len() == 1 {
        "`"@ + en + "::"@ + missing[0] + "`"@
    } else {
        missing_list(en, missing.drop_last()) + ", "@ + ("`"@ + en + "::"@ + missing.last() + "`"@)
    }
}

/// A `return` met by a checker that is not checking a function body.
pub open spec fn msg_return_outside() -> Seq<char> {
    "`return` outside of a function"@
}

/// Checks one statement; yields the environment after it and how control leaves it.
pub open spec fn check_stmt(c: Ctx, env: Env, in_loop: bool, ret: Option<SpecTy>, s: SpecStmt) -> Result<(Env, Flow), Seq<char>>
    decreases s, 0int,
{
    match s {
        SpecStmt::Return(e) => match check_expr(c, env, e) {
            Err(m) => Err(m),
            Ok(t) => match ret {
                None => Err(msg_return_outside()),
                Some(rt) => if t != rt {
                    Err(
                        "return type mismatch: expected `"@ + ty_name(rt) + "`, found `"@ + ty_name(t)
                            + "`"@,
                    )
                } else {
                    Ok((env, Flow::Return))
                },
            },
        },
        SpecStmt::Print(e) => match check_expr(c, env, e) {
            Err(m) => Err(m),
            Ok(t) => if t != SpecTy::I32 {
                Err("`print` requires `i32`, found `"@ + ty_name(t) + "`"@)
            } else {
                Ok((env, Flow::Next))
            },
        },
        SpecStmt::Let { name, ty, value, mutable } => match check_expr(c, env, value) {
            Err(m) => Err(m),
            Ok(vt) => {
                let t: Result<SpecTy, Seq<char>> = match ty {
                    Some(ann) => match resolve_type(ann, c.structs, c.enums) {
                        Err(m) => Err(m),
                        Ok(at) => if at != vt {
                            Err(
                                "variable `"@ + name + "` has type `"@ + ty_name(at)
                                    + "` but initializer has type `"@ + ty_name(vt) + "`"@,
                            )
                        } else {
                            Ok(at)
                        },
                    },
                    None => Ok(vt),
                };
                match t {
                    Err(m) => Err(m),
                    Ok(t) => match declare(env, name, t, mutable) {
                        Err(m) => Err(m),
                        Ok(env2) => Ok((env2, Flow::Next)),
                    },
                }
            },
        },
        SpecStmt::Assign { target, value } => match check_place(c, env, target) {
            Err(m) => Err(m),
            Ok(p) => if !p.1 {
                Err("cannot assign to const"@)
            } else {
                match check_expr(c, env, value) {
                    Err(m) => Err(m),
                    Ok(vt) => if p.0 != vt {
                        Err(
                            "cannot assign `"@ + ty_name(vt) + "` to expression of type `"@
                                + ty_name(p.0) + "`"@,
                        )
                    } else {
                        Ok((env, Flow::Next))
                    },
                }
            },
        },
        SpecStmt::If { cond, then_block, else_block } => match check_expr(c, env, cond) {
            Err(m) => Err(m),
            Ok(ct) => if ct != SpecTy::Bool {
                Err("`if` condition must be `bool`, found `"@ + ty_name(ct) + "`"@)
            } else {
                match check_block(c, env, in_loop, ret, then_block) {
                    Err(m) => Err(m),
                    Ok(tf) => match else_block {
                        None => Ok((env, join_if(tf, None))),
                        Some(eb) => match check_block(c, env, in_loop, ret, eb) {
                            Err(m) => Err(m),
                            Ok(ef) => Ok((env, join_if(tf, Some(ef)))),
                        },
                    },
                }
            },
        },
        SpecStmt::While { cond, body } => match check_expr(c, env, cond) {
            Err(m) => Err(m),
            Ok(ct) => if ct != SpecTy::Bool {
                Err("`while` condition must be `bool`, found `"@ + ty_name(ct) + "`"@)
            } else {
                match check_block(c, env, true, ret, body) {
                    Err(m) => Err(m),
                    Ok(_) => Ok((env, Flow::Next)),
                }
            },
        },
        SpecStmt::For { name, start, end, body } => match check_expr(c, env, start) {
            Err(m) => Err(m),
            Ok(st) => match check_expr(c, env, end) {
                Err(m) => Err(m),
                Ok(et) => if st != SpecTy::I32 || et != SpecTy::I32 {
                    Err(
                        "`for` range bounds must be `i32`, found `"@ + ty_name(st) + "` and `"@
                            + ty_name(et) + "`"@,
                    )
                } else {
                    let inner = env.push(seq![(name, (SpecTy::I32, true))]);
                    match check_block(c, inner, true, ret, body) {
                        Err(m) => Err(m),
                        Ok(_) => Ok((env, Flow::Next)),
                    }
                },
            },
        },
        SpecStmt::Break => if !in_loop {
            Err("`break` outside of a loop"@)
        } else {
            Ok((env, Flow::Jump))
        },
        SpecStmt::Continue => if !in_loop {
            Err("`continue` outside of a loop"@)
        } else {
            Ok((env, Flow::Jump))
        },
        SpecStmt::Match { scrutinee, arms } => match check_expr(c, env, scrutinee) {
            Err(m) => Err(m),
            Ok(st) => match enum_of(st) {
                Err(m) => Err(m),
                Ok(en) => match check_arms(c, env, in_loop, ret, en, variants_of(c, en), arms, 0) {
                    Err(m) => Err(m),
                    Ok(flows) => {
                        let missing = variants_of(c, en).filter(
                            |v: Seq<char>| !arm_variants(arms, arms.len() as int).contains(v),
                        );
                        if missing.len() > 0 {
                            Err(
                                "non-exhaustive match on `"@ + en + "`: missing "@ + missing_list(
                                    en,
                                    missing,
                                ),
                            )
                        } else {
                            Ok((env, join_match(flows)))
                        }
                    },
                },
            },
        },
    }
}

/// Checks the arms of a `match` on enum `en` from position `i` on; yields their flows.
pub open spec fn check_arms(
    c: Ctx,
    env: Env,
    in_loop: bool,
    ret: Option<SpecTy>,
    en: Seq<char>,
    variants: Seq<Seq<char>>,
    arms: Seq<SpecMatchArm>,
    i: int,
) -> Result<Seq<Flow>, Seq<char>>
    decreases arms, arms.len() - i,
{
    if i < 0 || i >= arms.len() {
        Ok(Seq::empty())
    } else {
        let arm = arms[i];
        if arm.enum_name != en {
            Err(
                "pattern `"@ + arm.enum_name + "::"@ + arm.variant + "` does not match `"@ + en
                    + "`"@,
            )
        } else if !variants.contains(arm.variant) {
            Err("no variant `"@ + arm.variant + "` on `"@ + en + "`"@)
        } else if arm_variants(arms, i).contains(arm.variant) {
            Err("duplicate match arm `"@ + en + "::"@ + arm.variant + "`"@)
        } else {
            match check_block(c, env, in_loop, ret, arm.body) {
                Err(m) => Err(m),
                Ok(f) => match check_arms(c, env, in_loop, ret, en, variants, arms, i + 1) {
                    Err(m) => Err(m),
                    Ok(rest) => Ok(seq![f] + rest),
                },
            }
        }
    }
}

/// Checks a block in a fresh innermost scope.
pub open spec fn check_block(c: Ctx, env: Env, in_loop: bool, ret: Option<SpecTy>, b: SpecBlock) -> Result<Flow, Seq<char>>
    decreases b, 0int,
{
    check_stmts(c, env.push(Seq::empty()), in_loop, ret, b.stmts, 0)
}

/// Checks statements from position `i` on, stopping at the first that does not fall through.
pub open spec fn check_stmts(
    c: Ctx,
    env: Env,
    in_loop: bool,
    ret: Option<SpecTy>,
    stmts: Seq<SpecStmt>,
    i: int,
) -> Result<Flow, Seq<char>>
    decreases stmts, stmts.len() - i,
{
    if i < 0 || i >= stmts.len() {
        Ok(Flow::Next)
    } else {
        match check_stmt(c, env, in_loop, ret, stmts[i]) {
            Err(m) => Err(m),
            Ok((env2, f)) => if f != Flow::Next {
                Ok(f)
            } else {
                check_stmts(c, env2, in_loop, ret, stmts, i + 1)
            },
        }
    }
}

/// Declares the parameters from position `i` on.
pub open spec fn declare_params(c: Ctx, env: Env, params: Seq<SpecParam>, i: int) -> Result<Env, Seq<char>>
    decreases params.len() - i,
{
    if i < 0 || i >= params.len() {
        Ok(env)
    } else {
        match resolve_type(params[i].ty, c.structs, c.enums) {
            Err(m) => Err(m),
            Ok(t) => match declare(env, params[i].name, t, true) {
                Err(m) => Err(m),
                Ok(env2) => declare_params(c, env2, params, i + 1),
            },
        }
    }
}

/// The return type recorded for function `name`.
pub open spec fn ret_of(c: Ctx, name: Seq<char>) -> SpecTy {
    match lookup(c.fns, name) {
        Some(sig) => sig.1,
        None => SpecTy::I32,
    }
}

#[verifier::opaque]
pub open spec fn check_function(c: Ctx, f: SpecFunction) -> Result<(), Seq<char>> {
    match declare_params(c, seq![Seq::empty()], f.params, 0) {
        Err(m) => Err(m),
        Ok(env) => match check_block(c, env, false, Some(ret_of(c, f.name)), f.body) {
            Err(m) => Err(m),
            Ok(flow) => if flow != Flow::Return {
                Err("missing `return`"@)
            } else {
                Ok(())
            },
        },
    }
}

// ---------------------------------------------------------------------------
// Declarations.
// ---------------------------------------------------------------------------
pub open spec fn check_new_type(name: Seq<char>, structs: StructTable, enums: EnumTable) -> Result<(), Seq<char>> {
    if name == "i32"@ || name == "bool"@ {
        Err("cannot define type with reserved name `"@ + name + "`"@)
    } else if has_key(structs, name) || has_key(enums, name) {
        Err("duplicate definition of `"@ + name + "`"@)
    } else {
        Ok(())
    }
}

/// The first entry of `s` from position `i` on that already occurs before it.
pub open spec fn first_dup(s: Seq<Seq<char>>, i: int) -> Option<Seq<char>>
    decreases s.len() - i,
{
    if i < 0 || i >= s.len() {
        None
    } else if s.take(i).contains(s[i]) {
        Some(s[i])
    } else {
        first_dup(s, i + 1)
    }
}

/// The variants of an enum are distinct, and there is at least one.
pub open spec fn check_variants(name: Seq<char>, variants: Seq<Seq<char>>) -> Result<(), Seq<char>> {
    match first_dup(variants, 0) {
        Some(v) => Err("duplicate variant `"@ + v + "` on `"@ + name + "`"@),
        None => if variants.len() == 0 {
            Err("enum `"@ + name + "` must have at least one variant"@)
        } else {
            Ok(())
        },
    }
}

/// First pass: the names of all structs (fields still empty) and all enums.
pub open spec fn collect_type_names(items: Seq<SpecItem>, i: int, structs: StructTable, enums: EnumTable) -> Result<(StructTable, EnumTable), Seq<char>>
    decreases items.len() - i,
{
    if i < 0 || i >= items.len() {
        Ok((structs, enums))
    } else {
        match items[i] {
            SpecItem::Struct(def) => match check_new_type(def.name, structs, enums) {
                Err(m) => Err(m),
                Ok(_) => collect_type_names(items, i + 1, structs.push((def.name, Seq::empty())), enums),
            },
            SpecItem::Enum(def) => match check_new_type(def.name, structs, enums) {
                Err(m) => Err(m),
                Ok(_) => match check_variants(def.name, def.variants) {
                    Err(m) => Err(m),
                    Ok(_) => collect_type_names(items, i + 1, structs, enums.push((def.name, def.variants))),
                },
            },
            _ => collect_type_names(items, i + 1, structs, enums),
        }
    }
}

/// Resolves the field declarations of a struct from position `j` on.
pub open spec fn resolve_fields(
    sname: Seq<char>,
    fields: Seq<SpecParam>,
    j: int,
    structs: StructTable,
    enums: EnumTable,
) -> Result<Seq<(Seq<char>, SpecTy)>, Seq<char>>
    decreases fields.len() - j,
{
    if j < 0 || j >= fields.len() {
        Ok(Seq::empty())
    } else if fields.take(j).map_values(|f: SpecParam| f.name).contains(fields[j].name) {
        Err("duplicate field `"@ + fields[j].name + "` on `"@ + sname + "`"@)
    } else {
        match resolve_type(fields[j].ty, structs, enums) {
            Err(m) => Err(m),
            Ok(t) => match resolve_fields(sname, fields, j + 1, structs, enums) {
                Err(m) => Err(m),
                Ok(rest) => Ok(seq![(fields[j].name, t)] + rest),
            },
        }
    }
}

/// The position of `name` in a table, or -1.
pub open spec fn index_from<V>(tbl: Seq<(Seq<char>, V)>, name: Seq<char>, i: int) -> int
    decreases tbl.len() - i,
{
    if i < 0 || i >= tbl.len() {
        -1
    } else if tbl[i].0 == name {
        i
    } else {
        index_from(tbl, name, i + 1)
    }
}

/// Second pass: the fields of every struct.
pub open spec fn collect_fields(items: Seq<SpecItem>, i: int, structs: StructTable, enums: EnumTable) -> Result<StructTable, Seq<char>>
    decreases items.len() - i,
{
    if i < 0 || i >= items.len() {
        Ok(structs)
    } else {
        match items[i] {
            SpecItem::Struct(def) => match resolve_fields(def.name, def.fields, 0, structs, enums) {
                Err(m) => Err(m),
                Ok(fields) => if fields.len() == 0 {
                    Err("struct `"@ + def.name + "` must have at least one field"@)
                } else {
                    let k = index_from(structs, def.name, 0);
                    let structs2 = if k >= 0 {
                        structs.update(k, (def.name, fields))
                    } else {
                        structs
                    };
                    collect_fields(items, i + 1, structs2, enums)
                },
            },
            _ => collect_fields(items, i + 1, structs, enums),
        }
    }
}

/// Measure of the depth-first searches: how many more names may be pushed.
pub open spec fn room(n: int, stack: Seq<Seq<char>>) -> int {
    if stack.len() < n {
        n - stack.len()
    } else {
        0
    }
}

/// Depth-first search for a struct that contains itself by value.
/// Yields the names known to be finite.
pub open spec fn finite_dfs(structs: StructTable, name: Seq<char>, stack: Seq<Seq<char>>, done: Seq<Seq<char>>) -> Result<Seq<Seq<char>>, Seq<char>>
    decreases room(structs.len() as int, stack), 0int,
{
    if done.contains(name) {
        Ok(done)
    } else if stack.contains(name) {
        Err("recursive type `"@ + name + "` without indirection"@)
    } else if stack.len() >= structs.len() {
        Ok(done)
    } else {
        let fields = match lookup(structs, name) {
            Some(f) => f,
            None => Seq::empty(),
        };
        match finite_fields(structs, fields, 0, stack.push(name), done) {
            Err(m) => Err(m),
            Ok(d) => Ok(d.push(name)),
        }
    }
}

pub open spec fn finite_fields(
    structs: StructTable,
    fields: Seq<(Seq<char>, SpecTy)>,
    j: int,
    stack: Seq<Seq<char>>,
    done: Seq<Seq<char>>,
) -> Result<Seq<Seq<char>>, Seq<char>>
    decreases room(structs.len() as int, stack), fields.len() - j + 1,
{
    if j < 0 || j >= fields.len() {
        Ok(done)
    } else {
        match fields[j].1 {
            SpecTy::Struct(inner) => match finite_dfs(structs, inner, stack, done) {
                Err(m) => Err(m),
                Ok(d) => finite_fields(structs, fields, j + 1, stack, d),
            },
            _ => finite_fields(structs, fields, j + 1, stack, done),
        }
    }
}

/// Third pass: every struct, in declaration order, is finite.
pub open spec fn check_all_finite(structs: StructTable, i: int, done: Seq<Seq<char>>) -> Result<(), Seq<char>>
    decreases structs.len() - i,
{
    if i < 0 || i >= structs.len() {
        Ok(())
    } else {
        match finite_dfs(structs, structs[i].0, Seq::empty(), done) {
            Err(m) => Err(m),
            Ok(d) => check_all_finite(structs, i + 1, d),
        }
    }
}

pub open spec fn collect_types(m: SpecModule) -> Result<(StructTable, EnumTable), Seq<char>> {
    match collect_type_names(m.items, 0, Seq::empty(), Seq::empty()) {
        Err(e) => Err(e),
        Ok((s0, enums)) => match collect_fields(m.items, 0, s0, enums) {
            Err(e) => Err(e),
            Ok(structs) => match check_all_finite(structs, 0, Seq::empty()) {
                Err(e) => Err(e),
                Ok(_) => Ok((structs, enums)),
            },
        },
    }
}

pub open spec fn check_new_value(name: Seq<char>, fns: FnTable, consts: ConstTable) -> Result<(), Seq<char>> {
    if has_key(fns, name) || has_key(consts, name) {
        Err("duplicate definition of `"@ + name + "`"@)
    } else {
        Ok(())
    }
}

/// Resolves parameter types from position `j` on.
pub open spec fn resolve_params(params: Seq<SpecParam>, j: int, structs: StructTable, enums: EnumTable) -> Result<Seq<SpecTy>, Seq<char>>
    decreases params.len() - j,
{
    if j < 0 || j >= params.len() {
        Ok(Seq::empty())
    } else {
        match resolve_type(params[j].ty, structs, enums) {
            Err(m) => Err(m),
            Ok(t) => match resolve_params(params, j + 1, structs, enums) {
                Err(m) => Err(m),
                Ok(rest) => Ok(seq![t] + rest),
            },
        }
    }
}

/// Function signatures and const types, in declaration order.
pub open spec fn collect_values(
    items: Seq<SpecItem>,
    i: int,
    structs: StructTable,
    enums: EnumTable,
    fns: FnTable,
    consts: ConstTable,
) -> Result<(FnTable, ConstTable), Seq<char>>
    decreases items.len() - i,
{
    if i < 0 || i >= items.len() {
        Ok((fns, consts))
    } else {
        match items[i] {
            SpecItem::Fn(f) => match check_new_value(f.name, fns, consts) {
                Err(m) => Err(m),
                Ok(_) => match resolve_params(f.params, 0, structs, enums) {
                    Err(m) => Err(m),
                    Ok(ps) => match resolve_type(f.return_ty, structs, enums) {
                        Err(m) => Err(m),
                        Ok(r) => collect_values(items, i + 1, structs, enums, fns.push((f.name, (ps, r))), consts),
                    },
                },
            },
            SpecItem::Const(k) => match check_new_value(k.name, fns, consts) {
                Err(m) => Err(m),
                Ok(_) => match resolve_type(k.ty, structs, enums) {
                    Err(m) => Err(m),
                    Ok(t) => collect_values(items, i + 1, structs, enums, fns, consts.push((k.name, t))),
                },
            },
            _ => collect_values(items, i + 1, structs, enums, fns, consts),
        }
    }
}

/// Const initializers may not call, dereference or take addresses.
pub open spec fn check_const_ops(e: SpecExpr) -> Result<(), Seq<char>>
    decreases e, 0int,
{
    match e {
        SpecExpr::Call { name, .. } => Err("cannot call `"@ + name + "` in a const initializer"@),
        SpecExpr::Unary { op: UnOp::Deref, .. } => Err("cannot dereference in a const initializer"@),
        SpecExpr::Unary { op: UnOp::AddrOf, .. } => Err(
            "cannot take address in a const initializer"@,
        ),
        SpecExpr::Unary { expr, .. } => check_const_ops(*expr),
        SpecExpr::Field { base, .. } => check_const_ops(*base),
        SpecExpr::Binary { lhs, rhs, .. } => match check_const_ops(*lhs) {
            Err(m) => Err(m),
            Ok(_) => check_const_ops(*rhs),
        },
        SpecExpr::StructLit { fields, .. } => check_const_ops_fields(fields, 0),
        _ => Ok(()),
    }
}

pub open spec fn check_const_ops_fields(fields: Seq<(Seq<char>, SpecExpr)>, i: int) -> Result<(), Seq<char>>
    decreases fields, fields.len() - i,
{
    if i < 0 || i >= fields.len() {
        Ok(())
    } else {
        match check_const_ops(fields[i].1) {
            Err(m) => Err(m),
            Ok(_) => check_const_ops_fields(fields, i + 1),
        }
    }
}

/// Each const initializer, in declaration order, is allowed and has the declared type.
pub open spec fn check_consts(c: Ctx, items: Seq<SpecItem>, i: int) -> Result<(), Seq<char>>
    decreases items.len() - i,
{
    if i < 0 || i >= items.len() {
        Ok(())
    } else {
        match items[i] {
            SpecItem::Const(k) => match check_const_ops(k.value) {
                Err(m) => Err(m),
                Ok(_) => match check_expr(c, Seq::empty(), k.value) {
                    Err(m) => Err(m),
                    Ok(t) => {
                        let expected = match lookup(c.consts, k.name) {
                            Some(e) => e,
                            None => SpecTy::I32,
                        };
                        if t != expected {
                            Err(
                                "const `"@ + k.name + "` has type `"@ + ty_name(expected)
                                    + "` but initializer has type `"@ + ty_name(t) + "`"@,
                            )
                        } else {
                            check_consts(c, items, i + 1)
                        }
                    },
                },
            },
            _ => check_consts(c, items, i + 1),
        }
    }
}

/// The consts that an initializer reads, in the order in which they occur.
pub open spec fn const_refs(e: SpecExpr, consts: ConstTable) -> Seq<Seq<char>>
    decreases e, 0int,
{
    match e {
        SpecExpr::Var(n) => if has_key(consts, n) {
            seq![n]
        } else {
            Seq::empty()
        },
        SpecExpr::Unary { expr, .. } => const_refs(*expr, consts),
        SpecExpr::Field { base, .. } => const_refs(*base, consts),
        SpecExpr::Binary { lhs, rhs, .. } => const_refs(*lhs, consts) + const_refs(*rhs, consts),
        SpecExpr::StructLit { fields, .. } => const_refs_fields(fields, 0, consts),
        SpecExpr::Call { args, .. } => const_refs_args(args, 0, consts),
        _ => Seq::empty(),
    }
}

pub open spec fn const_refs_fields(fields: Seq<(Seq<char>, SpecExpr)>, i: int, consts: ConstTable) -> Seq<Seq<char>>
    decreases fields, fields.len() - i,
{
    if i < 0 || i >= fields.len() {
        Seq::empty()
    } else {
        const_refs(fields[i].1, consts) + const_refs_fields(fields, i + 1, consts)
    }
}

pub open spec fn const_refs_args(args: Seq<SpecExpr>, i: int, consts: ConstTable) -> Seq<Seq<char>>
    decreases args, args.len() - i,
{
    if i < 0 || i >= args.len() {
        Seq::empty()
    } else {
        const_refs(args[i], consts) + const_refs_args(args, i + 1, consts)
    }
}

/// Const name ↦ initializer, in declaration order.
pub open spec fn const_inits(items: Seq<SpecItem>, i: int) -> Seq<(Seq<char>, SpecExpr)>
    decreases items.len() - i,
{
    if i < 0 || i >= items.len() {
        Seq::empty()
    } else {
        match items[i] {
            SpecItem::Const(k) => seq![(k.name, k.value)] + const_inits(items, i + 1),
            _ => const_inits(items, i + 1),
        }
    }
}

/// Depth-first search for a const whose initializer depends on itself.
pub open spec fn const_dfs(
    inits: Seq<(Seq<char>, SpecExpr)>,
    consts: ConstTable,
    name: Seq<char>,
    stack: Seq<Seq<char>>,
    done: Seq<Seq<char>>,
) -> Result<Seq<Seq<char>>, Seq<char>>
    decreases room(inits.len() as int, stack), 0int,
{
    if done.contains(name) {
        Ok(done)
    } else if stack.contains(name) {
        Err("recursive const `"@ + name + "`"@)
    } else if stack.len() >= inits.len() {
        Ok(done)
    } else {
        let deps = match lookup(inits, name) {
            Some(e) => const_refs(e, consts),
            None => Seq::empty(),
        };
        match const_deps(inits, consts, deps, 0, stack.push(name), done) {
            Err(m) => Err(m),
            Ok(d) => Ok(d.push(name)),
        }
    }
}

pub open spec fn const_deps(
    inits: Seq<(Seq<char>, SpecExpr)>,
    consts: ConstTable,
    deps: Seq<Seq<char>>,
    j: int,
    stack: Seq<Seq<char>>,
    done: Seq<Seq<char>>,
) -> Result<Seq<Seq<char>>, Seq<char>>
    decreases room(inits.len() as int, stack), deps.len() - j + 1,
{
    if j < 0 || j >= deps.len() {
        Ok(done)
    } else {
        match const_dfs(inits, consts, deps[j], stack, done) {
            Err(m) => Err(m),
            Ok(d) => const_deps(inits, consts, deps, j + 1, stack, d),
        }
    }
}

pub open spec fn check_all_consts_finite(
    inits: Seq<(Seq<char>, SpecExpr)>,
    consts: ConstTable,
    i: int,
    done: Seq<Seq<char>>,
) -> Result<(), Seq<char>>
    decreases inits.len() - i,
{
    if i < 0 || i >= inits.len() {
        Ok(())
    } else {
        match const_dfs(inits, consts, inits[i].0, Seq::empty(), done) {
            Err(m) => Err(m),
            Ok(d) => check_all_consts_finite(inits, consts, i + 1, d),
        }
    }
}

/// Every function body, in declaration order.
pub open spec fn check_functions(c: Ctx, items: Seq<SpecItem>, i: int) -> Result<(), Seq<char>>
    decreases items.len() - i,
{
    if i < 0 || i >= items.len() {
        Ok(())
    } else {
        match items[i] {
            SpecItem::Fn(f) => match check_function(c, f) {
                Err(m) => Err(m),
                Ok(_) => check_functions(c, items, i + 1),
            },
            _ => check_functions(c, items, i + 1),
        }
    }
}

/// The verdict of the type checker on a module.
pub open spec fn spec_typeck(m: SpecModule) -> Result<(), Seq<char>> {
    match collect_types(m) {
        Err(e) => Err(e),
        Ok((structs, enums)) => match collect_values(m.items, 0, structs, enums, Seq::empty(), Seq::empty()) {
            Err(e) => Err(e),
            Ok((fns, consts)) => {
                let c = Ctx { structs, enums, fns, consts };
                match check_consts(c, m.items, 0) {
                    Err(e) => Err(e),
                    Ok(_) => match check_all_consts_finite(const_inits(m.items, 0), consts, 0, Seq::empty()) {
                        Err(e) => Err(e),
                        Ok(_) => check_functions(c, m.items, 0),
                    },
                }
            },
        },
    }
}

} // verus!
