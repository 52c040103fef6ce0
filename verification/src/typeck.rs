//! Type checking.
//!
//! `typeck` returns exactly what `spec_typeck` (in `typeck_spec`) prescribes.

use vstd::prelude::*;
use crate::ast::{
    arms_view, binop_str, block_view, expr_view, exprs_view, field_inits_view, lemma_arms_view,
    lemma_exprs_view, lemma_field_inits_view, lemma_stmts_view, stmts_view,
    BinOp, Block, Expr, Function, Item, MatchArm, SourceModule, Param,
    SpecExpr, Stmt, StructItem, Type, UnOp,
};
use crate::text::{push_str, push_u64, push_i64, str_eq, string_of};
use crate::typeck_spec::{
    Ctx, Flow, SpecTy, ConstTable, EnumTable, FnTable, Scope, StructTable,
    check_args, check_expr, check_lit_fields, check_place, declare, env_get,
    env_get_from, field_ty, field_ty_from, first_missing, lit_names, lookup,
    lookup_from, lookup_value, msg_arity, msg_deref, msg_no_field, msg_not_place, msg_operands,
    msg_undeclared, ty_name, check_stmt, check_block, check_stmts, check_arms, variants_of,
    arm_variants, missing_list, declare_params, ret_of, spec_typeck, collect_type_names,
    collect_fields, check_all_finite, finite_dfs, finite_fields, first_dup, resolve_fields,
    index_from, check_consts, const_refs,
    const_refs_args, const_refs_fields, const_inits, const_dfs, const_deps,
    check_all_consts_finite, check_functions, check_const_ops_fields, room,
};
use vstd::pervasive::VecAdditionalExecFns;
use crate::ast::{function_view, params_view, field_decls_view, strings_view, SpecMatchArm, SpecParam, SpecStmt};
use crate::typeck_spec;

verus! {

/// A type-checking error.
#[derive(Debug, Clone, PartialEq, Eq)]
pub struct TypeError {
    pub message: String,
}

/// Resolved types (after name resolution of type syntax).
#[derive(Debug, PartialEq, Eq)]
pub enum Ty {
    I32,
    Bool,
    Struct(String),
    Enum(String),
    Ptr(Box<Ty>),
}

pub open spec fn ty_view(t: Ty) -> SpecTy
    decreases t,
{
    match t {
        Ty::I32 => SpecTy::I32,
        Ty::Bool => SpecTy::Bool,
        Ty::Struct(n) => SpecTy::Struct(n@),
        Ty::Enum(n) => SpecTy::Enum(n@),
        Ty::Ptr(inner) => SpecTy::Ptr(Box::new(ty_view(*inner))),
    }
}

impl View for Ty {
    type V = SpecTy;

    open spec fn view(&self) -> SpecTy {
        ty_view(*self)
    }
}

impl Ty {
    /// The name of the type as written in source: `i32`, `bool`, `Name` or `*T`.
    pub fn name(&self) -> (r: String)
        ensures
            r@ == ty_name(self@),
        decreases self,
    {
        match self {
            Ty::I32 => {
                proof { reveal_strlit("i32"); }
                string_of("i32")
            },
            Ty::Bool => {
                proof { reveal_strlit("bool"); }
                string_of("bool")
            },
            Ty::Struct(n) => n.clone(),
            Ty::Enum(n) => n.clone(),
            Ty::Ptr(inner) => {
                let mut s = string_of("*");
                let rest = inner.name();
                push_str(&mut s, rest.as_str());
                s
            },
        }
    }
}

/// Structural equality of types.
fn ty_eq(a: &Ty, b: &Ty) -> (r: bool)
    ensures
        r == (a@ == b@),
    decreases a,
{
    match (a, b) {
        (Ty::I32, Ty::I32) => true,
        (Ty::Bool, Ty::Bool) => true,
        (Ty::Struct(x), Ty::Struct(y)) => str_eq(x.as_str(), y.as_str()),
        (Ty::Enum(x), Ty::Enum(y)) => str_eq(x.as_str(), y.as_str()),
        (Ty::Ptr(x), Ty::Ptr(y)) => ty_eq(x, y),
        _ => false,
    }
}

/// A copy of a type.
fn ty_copy(t: &Ty) -> (r: Ty)
    ensures
        r@ == t@,
    decreases t,
{
    match t {
        Ty::I32 => Ty::I32,
        Ty::Bool => Ty::Bool,
        Ty::Struct(n) => Ty::Struct(n.clone()),
        Ty::Enum(n) => Ty::Enum(n.clone()),
        Ty::Ptr(inner) => Ty::Ptr(Box::new(ty_copy(inner))),
    }
}

// ---------------------------------------------------------------------------
// Error messages.
// ---------------------------------------------------------------------------
fn err(m: String) -> (e: TypeError)
    ensures
        e.message@ == m@,
{
    TypeError { message: m }
}

fn cat3(a: &str, b: &str, c: &str) -> (r: String)
    ensures
        r@ == a@ + b@ + c@,
{
    let mut s = string_of(a);
    push_str(&mut s, b);
    push_str(&mut s, c);
    s
}

fn cat5(a: &str, b: &str, c: &str, d: &str, e: &str) -> (r: String)
    ensures
        r@ == a@ + b@ + c@ + d@ + e@,
{
    let mut s = cat3(a, b, c);
    push_str(&mut s, d);
    push_str(&mut s, e);
    s
}

fn cat7(a: &str, b: &str, c: &str, d: &str, e: &str, f: &str, g: &str) -> (r: String)
    ensures
        r@ == a@ + b@ + c@ + d@ + e@ + f@ + g@,
{
    let mut s = cat5(a, b, c, d, e);
    push_str(&mut s, f);
    push_str(&mut s, g);
    s
}

fn cat9(a: &str, b: &str, c: &str, d: &str, e: &str, f: &str, g: &str, h: &str, i: &str) -> (r: String)
    ensures
        r@ == a@ + b@ + c@ + d@ + e@ + f@ + g@ + h@ + i@,
{
    let mut s = cat7(a, b, c, d, e, f, g);
    push_str(&mut s, h);
    push_str(&mut s, i);
    s
}

fn err_undeclared(name: &str) -> (e: TypeError)
    ensures
        e.message@ == msg_undeclared(name@),
{
    err(cat3("undeclared variable `", name, "`"))
}

fn err_not_place() -> (e: TypeError)
    ensures
        e.message@ == msg_not_place(),
{
    err(string_of("cannot assign to this expression"))
}

fn err_no_field(field: &str, name: &str) -> (e: TypeError)
    ensures
        e.message@ == msg_no_field(field@, name@),
{
    err(cat5("no field `", field, "` on `", name, "`"))
}

fn err_deref(t: &Ty) -> (e: TypeError)
    ensures
        e.message@ == msg_deref(t@),
{
    let n = t.name();
    err(cat3("`*` requires a pointer, found `", n.as_str(), "`"))
}

fn err_operands(op: BinOp, kind: &str, l: &Ty, r: &Ty) -> (e: TypeError)
    ensures
        e.message@ == msg_operands(op, kind@, l@, r@),
{
    let ln = l.name();
    let rn = r.name();
    err(cat9("`", binop_str(op), "` requires ", kind, " operands, found `", ln.as_str(), "` and `", rn.as_str(), "`"))
}

fn err_arity(name: &str, expected: usize, found: usize) -> (e: TypeError)
    ensures
        e.message@ == msg_arity(name@, expected as nat, found as nat),
{
    let mut s = cat3("`", name, "` expects ");
    push_u64(&mut s, expected as u64);
    push_str(&mut s, " argument");
    if expected == 1 {
        push_str(&mut s, "");
    } else {
        push_str(&mut s, "s");
    }
    push_str(&mut s, ", found ");
    push_u64(&mut s, found as u64);
    err(s)
}

// ---------------------------------------------------------------------------
// Tables.
// ---------------------------------------------------------------------------
struct StructDef {
    fields: Vec<(String, Ty)>,
}

struct EnumDef {
    variants: Vec<String>,
}

struct FnSig {
    params: Vec<Ty>,
    ret: Ty,
}

struct ConstDef {
    ty: Ty,
}

pub open spec fn fields_view(s: Seq<(String, Ty)>) -> Seq<(Seq<char>, SpecTy)> {
    s.map_values(|e: (String, Ty)| (e.0@, e.1@))
}

pub open spec fn names_view(s: Seq<String>) -> Seq<Seq<char>> {
    strings_view(s)
}

pub open spec fn tys_view(s: Seq<Ty>) -> Seq<SpecTy> {
    s.map_values(|e: Ty| e@)
}

spec fn structs_view(s: Seq<(String, StructDef)>) -> StructTable {
    s.map_values(|e: (String, StructDef)| (e.0@, fields_view(e.1.fields@)))
}

spec fn enums_view(s: Seq<(String, EnumDef)>) -> EnumTable {
    s.map_values(|e: (String, EnumDef)| (e.0@, names_view(e.1.variants@)))
}

spec fn fns_view(s: Seq<(String, FnSig)>) -> FnTable {
    s.map_values(|e: (String, FnSig)| (e.0@, (tys_view(e.1.params@), e.1.ret@)))
}

spec fn consts_view(s: Seq<(String, ConstDef)>) -> ConstTable {
    s.map_values(|e: (String, ConstDef)| (e.0@, e.1.ty@))
}

proof fn lemma_lookup_found<V>(tbl: Seq<(Seq<char>, V)>, name: Seq<char>, i: int, j: int)
    requires
        0 <= i <= j < tbl.len(),
        tbl[j].0 == name,
        forall|k: int| i <= k < j ==> tbl[k].0 != name,
    ensures
        lookup_from(tbl, name, i) == Some(tbl[j].1),
    decreases j - i,
{
    if i < j {
        lemma_lookup_found(tbl, name, i + 1, j);
    }
}

proof fn lemma_lookup_absent<V>(tbl: Seq<(Seq<char>, V)>, name: Seq<char>, i: int)
    requires
        0 <= i <= tbl.len(),
        forall|k: int| i <= k < tbl.len() ==> tbl[k].0 != name,
    ensures
        lookup_from(tbl, name, i) is None,
    decreases tbl.len() - i,
{
    if i < tbl.len() {
        lemma_lookup_absent(tbl, name, i + 1);
    }
}

/// The first position whose key is `name`.
fn find_key<V>(tbl: &Vec<(String, V)>, name: &str) -> (r: Option<usize>)
    ensures
        match r {
            Some(i) => i < tbl@.len() && tbl@[i as int].0@ == name@ && forall|k: int|
                0 <= k < i ==> tbl@[k].0@ != name@,
            None => forall|k: int| 0 <= k < tbl@.len() ==> tbl@[k].0@ != name@,
        },
{
    let mut i: usize = 0;
    while i < tbl.len()
        invariant
            i <= tbl@.len(),
            forall|k: int| 0 <= k < i ==> tbl@[k].0@ != name@,
        decreases tbl@.len() - i,
    {
        if str_eq(tbl[i].0.as_str(), name) {
            return Some(i);
        }
        i = i + 1;
    }
    None
}

/// The position of `name` among plain names.
fn find_name(names: &Vec<String>, name: &str) -> (r: Option<usize>)
    ensures
        match r {
            Some(i) => i < names@.len() && names@[i as int]@ == name@,
            None => !names_view(names@).contains(name@),
        },
{
    let mut i: usize = 0;
    while i < names.len()
        invariant
            i <= names@.len(),
            forall|k: int| 0 <= k < i ==> names@[k]@ != name@,
        decreases names@.len() - i,
    {
        if str_eq(names[i].as_str(), name) {
            return Some(i);
        }
        i = i + 1;
    }
    proof {
        if names_view(names@).contains(name@) {
            let k = choose|k: int| 0 <= k < names_view(names@).len() && names_view(names@)[k] == name@;
            assert(names@[k]@ == name@);
        }
    }
    None
}

/// Whether `name` occurs among plain names.
fn contains_name(names: &Vec<String>, name: &str) -> (r: bool)
    ensures
        r == names_view(names@).contains(name@),
{
    match find_name(names, name) {
        Some(i) => {
            proof { assert(names_view(names@)[i as int] == name@); }
            true
        },
        None => false,
    }
}

fn lookup_struct<'b>(tbl: &'b Vec<(String, StructDef)>, name: &str) -> (r: Option<&'b StructDef>)
    ensures
        match r {
            Some(d) => lookup(structs_view(tbl@), name@) == Some(fields_view(d.fields@)),
            None => lookup(structs_view(tbl@), name@) is None,
        },
{
    match find_key(tbl, name) {
        Some(i) => {
            proof { lemma_lookup_found(structs_view(tbl@), name@, 0, i as int); }
            Some(&tbl[i].1)
        },
        None => {
            proof { lemma_lookup_absent(structs_view(tbl@), name@, 0); }
            None
        },
    }
}

fn lookup_enum<'b>(tbl: &'b Vec<(String, EnumDef)>, name: &str) -> (r: Option<&'b EnumDef>)
    ensures
        match r {
            Some(d) => lookup(enums_view(tbl@), name@) == Some(names_view(d.variants@)),
            None => lookup(enums_view(tbl@), name@) is None,
        },
{
    match find_key(tbl, name) {
        Some(i) => {
            proof { lemma_lookup_found(enums_view(tbl@), name@, 0, i as int); }
            Some(&tbl[i].1)
        },
        None => {
            proof { lemma_lookup_absent(enums_view(tbl@), name@, 0); }
            None
        },
    }
}

fn lookup_fn<'b>(tbl: &'b Vec<(String, FnSig)>, name: &str) -> (r: Option<&'b FnSig>)
    ensures
        match r {
            Some(d) => lookup(fns_view(tbl@), name@) == Some((tys_view(d.params@), d.ret@)),
            None => lookup(fns_view(tbl@), name@) is None,
        },
{
    match find_key(tbl, name) {
        Some(i) => {
            proof { lemma_lookup_found(fns_view(tbl@), name@, 0, i as int); }
            Some(&tbl[i].1)
        },
        None => {
            proof { lemma_lookup_absent(fns_view(tbl@), name@, 0); }
            None
        },
    }
}

fn lookup_const<'b>(tbl: &'b Vec<(String, ConstDef)>, name: &str) -> (r: Option<&'b ConstDef>)
    ensures
        match r {
            Some(d) => lookup(consts_view(tbl@), name@) == Some(d.ty@),
            None => lookup(consts_view(tbl@), name@) is None,
        },
{
    match find_key(tbl, name) {
        Some(i) => {
            proof { lemma_lookup_found(consts_view(tbl@), name@, 0, i as int); }
            Some(&tbl[i].1)
        },
        None => {
            proof { lemma_lookup_absent(consts_view(tbl@), name@, 0); }
            None
        },
    }
}

fn lookup_field<'b>(fields: &'b Vec<(String, Ty)>, name: &str) -> (r: Option<&'b Ty>)
    ensures
        match r {
            Some(t) => lookup(fields_view(fields@), name@) == Some(t@),
            None => lookup(fields_view(fields@), name@) is None,
        },
{
    match find_key(fields, name) {
        Some(i) => {
            proof { lemma_lookup_found(fields_view(fields@), name@, 0, i as int); }
            Some(&fields[i].1)
        },
        None => {
            proof { lemma_lookup_absent(fields_view(fields@), name@, 0); }
            None
        },
    }
}

fn resolve_type(
    ty: &Type,
    structs: &Vec<(String, StructDef)>,
    enums: &Vec<(String, EnumDef)>,
) -> (r: Result<Ty, TypeError>)
    ensures
        ty_res(r, typeck_spec::resolve_type(ty@, structs_view(structs@), enums_view(enums@))),
    decreases ty,
{
    match ty {
        Type::Name(name) => {
            proof {
                reveal_strlit("i32");
                reveal_strlit("bool");
            }
            if str_eq(name.as_str(), "i32") {
                Ok(Ty::I32)
            } else if str_eq(name.as_str(), "bool") {
                Ok(Ty::Bool)
            } else if lookup_struct(structs, name.as_str()).is_some() {
                Ok(Ty::Struct(name.clone()))
            } else if lookup_enum(enums, name.as_str()).is_some() {
                Ok(Ty::Enum(name.clone()))
            } else {
                Err(err(cat3("unknown type `", name.as_str(), "`")))
            }
        },
        Type::Ptr(inner) => {
            let t = resolve_type(inner, structs, enums)?;
            Ok(Ty::Ptr(Box::new(t)))
        },
    }
}

pub open spec fn ty_res(r: Result<Ty, TypeError>, s: Result<SpecTy, Seq<char>>) -> bool {
    match r {
        Ok(t) => s == Ok::<SpecTy, Seq<char>>(t@),
        Err(e) => s == Err::<SpecTy, Seq<char>>(e.message@),
    }
}

pub open spec fn unit_res(r: Result<(), TypeError>, s: Result<(), Seq<char>>) -> bool {
    match r {
        Ok(_) => s is Ok,
        Err(e) => s == Err::<(), Seq<char>>(e.message@),
    }
}

// ---------------------------------------------------------------------------
// Scopes of local variables.
// ---------------------------------------------------------------------------
struct Binding {
    ty: Ty,
    mutable: bool,
}

struct Env {
    scopes: Vec<Vec<(String, Binding)>>,
}

spec fn scope_view(s: Seq<(String, Binding)>) -> Scope {
    s.map_values(|e: (String, Binding)| (e.0@, (e.1.ty@, e.1.mutable)))
}

impl View for Env {
    type V = typeck_spec::Env;

    closed spec fn view(&self) -> typeck_spec::Env {
        self.scopes@.map_values(|sc: Vec<(String, Binding)>| scope_view(sc@))
    }
}

impl Env {
    fn new() -> (r: Self)
        ensures
            r@ == Seq::<Scope>::empty(),
    {
        let r = Env { scopes: Vec::new() };
        proof { assert(r@ =~= Seq::<Scope>::empty()); }
        r
    }

    fn push(&mut self)
        ensures
            final(self)@ == old(self)@.push(Seq::empty()),
    {
        self.scopes.push(Vec::new());
        proof {
            assert(scope_view(Seq::<(String, Binding)>::empty()) =~= Seq::empty());
            assert(self@ =~= old(self)@.push(Seq::empty()));
        }
    }

    fn pop(&mut self)
        requires
            old(self)@.len() > 0,
        ensures
            final(self)@ == old(self)@.drop_last(),
    {
        self.scopes.pop();
        proof { assert(self@ =~= old(self)@.drop_last()); }
    }

    fn declare(&mut self, name: &String, ty: Ty, mutable: bool) -> (r: Result<(), TypeError>)
        requires
            old(self)@.len() > 0,
        ensures
            match r {
                Ok(_) => declare(old(self)@, name@, ty@, mutable) == Ok::<typeck_spec::Env, Seq<char>>(final(self)@),
                Err(e) => declare(old(self)@, name@, ty@, mutable) == Err::<typeck_spec::Env, Seq<char>>(e.message@)
                    && final(self)@ == old(self)@,
            },
    {
        let last = self.scopes.len() - 1;
        let ghost top = scope_view(self.scopes@[last as int]@);
        match find_key(&self.scopes[last], name.as_str()) {
            Some(i) => {
                proof { lemma_lookup_found(top, name@, 0, i as int); }
                return Err(err(cat3("duplicate variable `", name.as_str(), "`")));
            },
            None => {
                proof { lemma_lookup_absent(top, name@, 0); }
            },
        }
        let ghost old_view = self@;
        let mut scope = self.scopes.pop().unwrap();
        scope.push((name.clone(), Binding { ty, mutable }));
        self.scopes.push(scope);
        proof {
            assert(scope_view(scope@) =~= top.push((name@, (ty@, mutable))));
            assert(self@ =~= old_view.update(old_view.len() - 1, top.push((name@, (ty@, mutable)))));
        }
        Ok(())
    }

    fn get(&self, name: &str) -> (r: Option<&Binding>)
        ensures
            match r {
                Some(b) => env_get(self@, name@) == Some((b.ty@, b.mutable)),
                None => env_get(self@, name@) is None,
            },
    {
        let mut k = self.scopes.len();
        while k > 0
            invariant
                k <= self.scopes@.len(),
                env_get(self@, name@) == env_get_from(self@, name@, k - 1),
            decreases k,
        {
            let ghost sc = scope_view(self.scopes@[k - 1]@);
            assert(self@[k - 1] == sc);
            match find_key(&self.scopes[k - 1], name) {
                Some(i) => {
                    proof { lemma_lookup_found(sc, name@, 0, i as int); }
                    return Some(&self.scopes[k - 1][i].1);
                },
                None => {
                    proof { lemma_lookup_absent(sc, name@, 0); }
                },
            }
            k = k - 1;
        }
        None
    }
}

// ---------------------------------------------------------------------------
// Expressions.
// ---------------------------------------------------------------------------
/// What an assignable expression denotes.
struct Place {
    ty: Ty,
    mutable: bool,
    addressable: bool,
}

spec fn place_res(r: Result<Place, TypeError>, s: Result<(SpecTy, bool, bool), Seq<char>>) -> bool {
    match r {
        Ok(p) => s == Ok::<(SpecTy, bool, bool), Seq<char>>((p.ty@, p.mutable, p.addressable)),
        Err(e) => s == Err::<(SpecTy, bool, bool), Seq<char>>(e.message@),
    }
}

struct Checker<'a> {
    env: Env,
    fns: &'a Vec<(String, FnSig)>,
    structs: &'a Vec<(String, StructDef)>,
    enums: &'a Vec<(String, EnumDef)>,
    consts: &'a Vec<(String, ConstDef)>,
    return_ty: Option<Ty>,
}

fn checker<'a>(
    fns: &'a Vec<(String, FnSig)>,
    structs: &'a Vec<(String, StructDef)>,
    enums: &'a Vec<(String, EnumDef)>,
    consts: &'a Vec<(String, ConstDef)>,
    return_ty: Option<Ty>,
) -> (r: Checker<'a>)
    ensures
        r.env@ == Seq::<Scope>::empty(),
        r.fns == fns,
        r.structs == structs,
        r.enums == enums,
        r.consts == consts,
        r.return_ty == return_ty,
{
    Checker { env: Env::new(), fns, structs, enums, consts, return_ty }
}

fn check_binary(op: BinOp, lt: &Ty, rt: &Ty) -> (r: Result<Ty, TypeError>)
    ensures
        ty_res(r, typeck_spec::check_binary(op, lt@, rt@)),
{
    proof {
        reveal_strlit("`i32`");
        reveal_strlit("`bool`");
    }
    match op {
        BinOp::Add | BinOp::Sub | BinOp::Mul | BinOp::Div | BinOp::Rem => {
            if !ty_eq(lt, &Ty::I32) || !ty_eq(rt, &Ty::I32) {
                return Err(err_operands(op, "`i32`", lt, rt));
            }
            Ok(Ty::I32)
        },
        BinOp::Eq | BinOp::Ne => {
            if !ty_eq(lt, rt) {
                return Err(err_operands(op, "matching", lt, rt));
            }
            match lt {
                Ty::I32 | Ty::Bool | Ty::Enum(_) => Ok(Ty::Bool),
                _ => {
                    let n = lt.name();
                    Err(err(cat3("cannot compare `", n.as_str(), "`")))
                },
            }
        },
        BinOp::Lt | BinOp::Le | BinOp::Gt | BinOp::Ge => {
            if !ty_eq(lt, &Ty::I32) || !ty_eq(rt, &Ty::I32) {
                return Err(err_operands(op, "`i32`", lt, rt));
            }
            Ok(Ty::Bool)
        },
        BinOp::And | BinOp::Or => {
            if !ty_eq(lt, &Ty::Bool) || !ty_eq(rt, &Ty::Bool) {
                return Err(err_operands(op, "`bool`", lt, rt));
            }
            Ok(Ty::Bool)
        },
    }
}

impl<'a> Checker<'a> {
    spec fn ctx(&self) -> Ctx {
        Ctx {
            structs: structs_view(self.structs@),
            enums: enums_view(self.enums@),
            fns: fns_view(self.fns@),
            consts: consts_view(self.consts@),
        }
    }

    fn lookup_value(&self, name: &str) -> (r: Result<Ty, TypeError>)
        ensures
            ty_res(r, lookup_value(self.ctx(), self.env@, name@)),
    {
        if let Some(binding) = self.env.get(name) {
            return Ok(ty_copy(&binding.ty));
        }
        if let Some(def) = lookup_const(self.consts, name) {
            return Ok(ty_copy(&def.ty));
        }
        Err(err_undeclared(name))
    }

    fn field_ty_from(&self, base: &Ty, cur: &Ty, field: &str) -> (r: Result<Ty, TypeError>)
        ensures
            ty_res(r, field_ty_from(self.ctx(), base@, cur@, field@)),
        decreases cur,
    {
        match cur {
            Ty::Struct(name) => match lookup_struct(self.structs, name.as_str()) {
                Some(def) => match lookup_field(&def.fields, field) {
                    Some(t) => Ok(ty_copy(t)),
                    None => Err(err_no_field(field, name.as_str())),
                },
                None => Err(err_no_field(field, name.as_str())),
            },
            Ty::Ptr(inner) => self.field_ty_from(base, inner, field),
            _ => {
                let n = base.name();
                Err(err(cat3("field access requires a struct, found `", n.as_str(), "`")))
            },
        }
    }

    fn field_ty(&self, base: &Ty, field: &str) -> (r: Result<Ty, TypeError>)
        ensures
            ty_res(r, field_ty(self.ctx(), base@, field@)),
    {
        self.field_ty_from(base, base, field)
    }

    fn check_place(&self, expr: &Expr) -> (r: Result<Place, TypeError>)
        ensures
            place_res(r, check_place(self.ctx(), self.env@, expr@)),
        decreases expr,
    {
        match expr {
            Expr::Var(name) => {
                if let Some(binding) = self.env.get(name.as_str()) {
                    Ok(Place { ty: ty_copy(&binding.ty), mutable: binding.mutable, addressable: true })
                } else if let Some(def) = lookup_const(self.consts, name.as_str()) {
                    Ok(Place { ty: ty_copy(&def.ty), mutable: false, addressable: false })
                } else {
                    Err(err_undeclared(name.as_str()))
                }
            },
            Expr::Unary { op: UnOp::Deref, expr: inner } => {
                let t = self.check_expr(inner)?;
                match t {
                    Ty::Ptr(pointee) => Ok(Place { ty: *pointee, mutable: true, addressable: true }),
                    _ => Err(err_deref(&t)),
                }
            },
            Expr::Field { base, field } => {
                let base_ty = self.check_expr(base)?;
                let field_ty = self.field_ty(&base_ty, field.as_str())?;
                if let Ty::Ptr(_) = base_ty {
                    Ok(Place { ty: field_ty, mutable: true, addressable: true })
                } else {
                    match self.check_place(base) {
                        Ok(b) => Ok(Place { ty: field_ty, mutable: b.mutable, addressable: b.addressable }),
                        Err(_) => Err(err_not_place()),
                    }
                }
            },
            _ => Err(err_not_place()),
        }
    }

    fn check_expr(&self, expr: &Expr) -> (r: Result<Ty, TypeError>)
        ensures
            ty_res(r, check_expr(self.ctx(), self.env@, expr@)),
        decreases expr,
    {
        match expr {
            Expr::Int(value) => {
                if *value < -2147483648i64 || *value > 2147483647i64 {
                    let mut s = string_of("integer literal `");
                    push_i64(&mut s, *value);
                    push_str(&mut s, "` does not fit in `i32`");
                    return Err(err(s));
                }
                Ok(Ty::I32)
            },
            Expr::Bool(_) => Ok(Ty::Bool),
            Expr::Var(name) => self.lookup_value(name.as_str()),
            Expr::Call { name, args } => {
                let sig = match lookup_fn(self.fns, name.as_str()) {
                    None => {
                        return Err(err(cat3("unknown function `", name.as_str(), "`")));
                    },
                    Some(sig) => sig,
                };
                let ghost av = exprs_view(args@);
                let ghost pv = tys_view(sig.params@);
                proof { lemma_exprs_view(args@); }
                if args.len() != sig.params.len() {
                    return Err(err_arity(name.as_str(), sig.params.len(), args.len()));
                }
                let mut i: usize = 0;
                while i < args.len()
                    invariant
                        *expr == (Expr::Call { name: *name, args: *args }),
                        i <= args@.len(),
                        args@.len() == sig.params@.len(),
                        lookup(self.ctx().fns, name@) == Some((pv, sig.ret@)),
                        pv == tys_view(sig.params@),
                        av == exprs_view(args@),
                        av.len() == args@.len(),
                        forall|j: int| 0 <= j < args@.len() ==> av[j] == expr_view(#[trigger] args@[j]),
                        check_args(self.ctx(), self.env@, name@, pv, av, 0) == check_args(
                            self.ctx(),
                            self.env@,
                            name@,
                            pv,
                            av,
                            i as int,
                        ),
                    decreases args@.len() - i,
                {
                    proof {
                        assert(decreases_to!(*expr => (*expr)->args));
                        assert(decreases_to!(*args => args@));
                        assert(decreases_to!(args@ => args@[i as int]));
                    }
                    let ty = self.check_expr(&args[i])?;
                    if !ty_eq(&ty, &sig.params[i]) {
                        let pn = sig.params[i].name();
                        let tn = ty.name();
                        let mut s = string_of("argument ");
                        push_u64(&mut s, (i + 1) as u64);
                        push_str(&mut s, " of `");
                        push_str(&mut s, name.as_str());
                        push_str(&mut s, "`: expected `");
                        push_str(&mut s, pn.as_str());
                        push_str(&mut s, "`, found `");
                        push_str(&mut s, tn.as_str());
                        push_str(&mut s, "`");
                        return Err(err(s));
                    }
                    i = i + 1;
                }
                Ok(ty_copy(&sig.ret))
            },
            Expr::StructLit { name, fields } => {
                let def = match lookup_struct(self.structs, name.as_str()) {
                    None => {
                        return Err(err(cat3("unknown struct `", name.as_str(), "`")));
                    },
                    Some(def) => def,
                };
                let ghost fv = field_inits_view(fields@);
                let ghost dv = fields_view(def.fields@);
                proof { lemma_field_inits_view(fields@); }
                let mut seen: Vec<String> = Vec::new();
                let mut i: usize = 0;
                while i < fields.len()
                    invariant
                        *expr == (Expr::StructLit { name: *name, fields: *fields }),
                        i <= fields@.len(),
                        lookup(self.ctx().structs, name@) == Some(dv),
                        dv == fields_view(def.fields@),
                        fv == field_inits_view(fields@),
                        fv.len() == fields@.len(),
                        forall|j: int|
                            0 <= j < fields@.len() ==> fv[j].0 == (#[trigger] fields@[j]).0@ && fv[j].1
                                == expr_view(fields@[j].1),
                        names_view(seen@) == lit_names(fv, i as int),
                        check_lit_fields(self.ctx(), self.env@, name@, dv, fv, 0) == check_lit_fields(
                            self.ctx(),
                            self.env@,
                            name@,
                            dv,
                            fv,
                            i as int,
                        ),
                    decreases fields@.len() - i,
                {
                    let field = &fields[i].0;
                    let value = &fields[i].1;
                    if contains_name(&seen, field.as_str()) {
                        return Err(err(cat5("duplicate field `", field.as_str(), "` in `", name.as_str(), "` literal")));
                    }
                    seen.push(field.clone());
                    proof {
                        assert(lit_names(fv, i + 1) =~= lit_names(fv, i as int).push(fv[i as int].0));
                        assert(names_view(seen@) =~= names_view(seen@.drop_last()).push(field@));
                    }
                    let expected = match lookup_field(&def.fields, field.as_str()) {
                        None => {
                            return Err(err_no_field(field.as_str(), name.as_str()));
                        },
                        Some(t) => t,
                    };
                    proof {
                        assert(decreases_to!(*expr => (*expr)->fields));
                        assert(decreases_to!(*fields => fields@));
                        assert(decreases_to!(fields@ => fields@[i as int]));
                        assert(decreases_to!(fields@[i as int] => fields@[i as int].1));
                    }
                    let ty = self.check_expr(value)?;
                    if !ty_eq(&ty, expected) {
                        let en = expected.name();
                        let tn = ty.name();
                        return Err(err(cat9("field `", field.as_str(), "` of `", name.as_str(), "`: expected `", en.as_str(), "`, found `", tn.as_str(), "`")));
                    }
                    i = i + 1;
                }
                let ghost set = lit_names(fv, fv.len() as int);
                let mut j: usize = 0;
                while j < def.fields.len()
                    invariant
                        *expr == (Expr::StructLit { name: *name, fields: *fields }),
                        lookup(self.ctx().structs, name@) == Some(dv),
                        fv == field_inits_view(fields@),
                        check_lit_fields(self.ctx(), self.env@, name@, dv, fv, 0) is Ok,
                        j <= def.fields@.len(),
                        dv == fields_view(def.fields@),
                        names_view(seen@) == set,
                        set == lit_names(fv, fv.len() as int),
                        first_missing(dv, set, 0) == first_missing(dv, set, j as int),
                    decreases def.fields@.len() - j,
                {
                    if !contains_name(&seen, def.fields[j].0.as_str()) {
                        let f = &def.fields[j].0;
                        proof {
                            assert(dv[j as int].0 == def.fields@[j as int].0@);
                            assert(first_missing(dv, set, j as int) == Some(dv[j as int].0));
                        }
                        return Err(err(cat5("missing field `", f.as_str(), "` in `", name.as_str(), "` literal")));
                    }
                    j = j + 1;
                }
                Ok(Ty::Struct(name.clone()))
            },
            Expr::Variant { enum_name, variant } => {
                let def = match lookup_enum(self.enums, enum_name.as_str()) {
                    None => {
                        return Err(err(cat3("unknown enum `", enum_name.as_str(), "`")));
                    },
                    Some(def) => def,
                };
                if !contains_name(&def.variants, variant.as_str()) {
                    return Err(err(cat5("no variant `", variant.as_str(), "` on `", enum_name.as_str(), "`")));
                }
                Ok(Ty::Enum(enum_name.clone()))
            },
            Expr::Field { base, field } => {
                let base_ty = self.check_expr(base)?;
                self.field_ty(&base_ty, field.as_str())
            },
            Expr::Unary { op, expr: inner } => match op {
                UnOp::Neg => {
                    let t = self.check_expr(inner)?;
                    if !ty_eq(&t, &Ty::I32) {
                        let n = t.name();
                        return Err(err(cat3("`-` requires `i32`, found `", n.as_str(), "`")));
                    }
                    Ok(Ty::I32)
                },
                UnOp::Not => {
                    let t = self.check_expr(inner)?;
                    if !ty_eq(&t, &Ty::Bool) {
                        let n = t.name();
                        return Err(err(cat3("`!` requires `bool`, found `", n.as_str(), "`")));
                    }
                    Ok(Ty::Bool)
                },
                UnOp::Deref => {
                    let t = self.check_expr(inner)?;
                    match t {
                        Ty::Ptr(pointee) => Ok(*pointee),
                        _ => Err(err_deref(&t)),
                    }
                },
                UnOp::AddrOf => match self.check_place(inner) {
                    Ok(place) => {
                        if !place.addressable {
                            return Err(err(string_of("cannot take address of const")));
                        }
                        Ok(Ty::Ptr(Box::new(place.ty)))
                    },
                    Err(e) => {
                        if str_eq(e.message.as_str(), "cannot assign to this expression") {
                            Err(err(string_of("cannot take address of this expression")))
                        } else {
                            Err(e)
                        }
                    },
                },
            },
            Expr::Binary { op, lhs, rhs } => {
                let lt = self.check_expr(lhs)?;
                let rt = self.check_expr(rhs)?;
                check_binary(*op, &lt, &rt)
            },
        }
    }
}

// ---------------------------------------------------------------------------
// Statements.
// ---------------------------------------------------------------------------
fn join_if(then_flow: Flow, else_flow: Option<Flow>) -> (r: Flow)
    ensures
        r == typeck_spec::join_if(then_flow, else_flow),
{
    match else_flow {
        None => Flow::Next,
        Some(e) => {
            if then_flow == Flow::Return && e == Flow::Return {
                Flow::Return
            } else if then_flow == Flow::Next || e == Flow::Next {
                Flow::Next
            } else {
                Flow::Jump
            }
        },
    }
}

fn join_match(flows: &Vec<Flow>) -> (r: Flow)
    ensures
        r == typeck_spec::join_match(flows@),
{
    let mut all_return = true;
    let mut any_next = false;
    let mut i: usize = 0;
    while i < flows.len()
        invariant
            i <= flows@.len(),
            all_return == (forall|k: int| 0 <= k < i ==> flows@[k] == Flow::Return),
            any_next == (exists|k: int| 0 <= k < i && flows@[k] == Flow::Next),
        decreases flows@.len() - i,
    {
        if flows[i] != Flow::Return {
            all_return = false;
        }
        if flows[i] == Flow::Next {
            any_next = true;
        }
        i = i + 1;
    }
    if all_return {
        Flow::Return
    } else if any_next {
        Flow::Next
    } else {
        Flow::Jump
    }
}

fn enum_of_from(orig: &Ty, cur: &Ty) -> (r: Result<String, TypeError>)
    ensures
        match r {
            Ok(n) => typeck_spec::enum_of_from(orig@, cur@) == Ok::<Seq<char>, Seq<char>>(n@),
            Err(e) => typeck_spec::enum_of_from(orig@, cur@) == Err::<Seq<char>, Seq<char>>(e.message@),
        },
    decreases cur,
{
    match cur {
        Ty::Enum(name) => Ok(name.clone()),
        Ty::Ptr(inner) => enum_of_from(orig, inner),
        _ => {
            let n = orig.name();
            Err(err(cat3("`match` requires an enum, found `", n.as_str(), "`")))
        },
    }
}

/// The enum named by a `match` scrutinee of type `ty`, looking through pointers.
fn enum_of(ty: &Ty) -> (r: Result<String, TypeError>)
    ensures
        match r {
            Ok(n) => typeck_spec::enum_of(ty@) == Ok::<Seq<char>, Seq<char>>(n@),
            Err(e) => typeck_spec::enum_of(ty@) == Err::<Seq<char>, Seq<char>>(e.message@),
        },
{
    enum_of_from(ty, ty)
}

proof fn lemma_check_stmt_env(c: Ctx, env: typeck_spec::Env, in_loop: bool, ret: Option<SpecTy>, s: SpecStmt)
    requires
        env.len() > 0,
    ensures
        check_stmt(c, env, in_loop, ret, s) matches Ok((env2, _)) ==> env2.len() == env.len()
            && env2.drop_last() == env.drop_last(),
{
    match s {
        SpecStmt::Let { name, ty, value, mutable } => {
            if let Ok((env2, _)) = check_stmt(c, env, in_loop, ret, s) {
                let vt = check_expr(c, env, value)->Ok_0;
                let t: SpecTy = match ty {
                    Some(ann) => typeck_spec::resolve_type(ann, c.structs, c.enums)->Ok_0,
                    None => vt,
                };
                assert(declare(env, name, t, mutable) == Ok::<typeck_spec::Env, Seq<char>>(env2));
                assert(env2.drop_last() =~= env.drop_last());
            }
        },
        _ => {},
    }
}

spec fn flow_res(r: Result<Flow, TypeError>, s: Result<Flow, Seq<char>>) -> bool {
    match r {
        Ok(f) => s == Ok::<Flow, Seq<char>>(f),
        Err(e) => s == Err::<Flow, Seq<char>>(e.message@),
    }
}

impl<'a> Checker<'a> {
    spec fn same_tables(&self, other: &Checker<'a>) -> bool {
        &&& self.fns == other.fns
        &&& self.structs == other.structs
        &&& self.enums == other.enums
        &&& self.consts == other.consts
        &&& self.return_ty == other.return_ty
    }

    spec fn ret(&self) -> Option<SpecTy> {
        match self.return_ty {
            Some(t) => Some(t@),
            None => None,
        }
    }

    fn check_block(&mut self, block: &Block, in_loop: bool) -> (r: Result<Flow, TypeError>)
        ensures
            final(self).same_tables(old(self)),
            flow_res(r, check_block(old(self).ctx(), old(self).env@, in_loop, old(self).ret(), block@)),
            r is Ok ==> final(self).env@ == old(self).env@,
        decreases block, 1int,
    {
        let ghost env0 = self.env@;
        let ghost sv = stmts_view(block.stmts@);
        let ghost target = check_block(self.ctx(), env0, in_loop, self.ret(), block@);
        proof { lemma_stmts_view(block.stmts@); }
        self.env.push();
        proof {
            assert(target == check_stmts(self.ctx(), self.env@, in_loop, self.ret(), sv, 0));
        }
        let mut flow = Flow::Next;
        let mut done = false;
        let mut i: usize = 0;
        while i < block.stmts.len() && !done
            invariant
                self.same_tables(old(self)),
                i <= block.stmts@.len(),
                sv == stmts_view(block.stmts@),
                sv.len() == block.stmts@.len(),
                self.env@.len() == env0.len() + 1,
                self.env@.drop_last() == env0,
                target == check_block(old(self).ctx(), env0, in_loop, old(self).ret(), block@),
                env0 == old(self).env@,
                !done ==> flow == Flow::Next && target == check_stmts(self.ctx(), self.env@, in_loop, self.ret(), sv, i as int),
                done ==> target == Ok::<Flow, Seq<char>>(flow),
            decreases block.stmts@.len() - i,
        {
            proof {
                assert(decreases_to!(*block => block.stmts));
                assert(decreases_to!(block.stmts => block.stmts@));
                assert(decreases_to!(block.stmts@ => block.stmts@[i as int]));
                lemma_stmts_view(block.stmts@);
                assert(sv[i as int] == block.stmts@[i as int]@);
                lemma_check_stmt_env(self.ctx(), self.env@, in_loop, self.ret(), sv[i as int]);
            }
            let ghost env_before = self.env@;
            let f = self.check_stmt(&block.stmts[i], in_loop)?;
            flow = f;
            if f != Flow::Next {
                done = true;
            }
            i = i + 1;
        }
        self.env.pop();
        Ok(flow)
    }

    fn check_stmt(&mut self, stmt: &Stmt, in_loop: bool) -> (r: Result<Flow, TypeError>)
        requires
            stmt is Let ==> old(self).env@.len() > 0,
        ensures
            final(self).same_tables(old(self)),
            match r {
                Ok(f) => check_stmt(old(self).ctx(), old(self).env@, in_loop, old(self).ret(), stmt@)
                    == Ok::<(typeck_spec::Env, Flow), Seq<char>>((final(self).env@, f)),
                Err(e) => check_stmt(old(self).ctx(), old(self).env@, in_loop, old(self).ret(), stmt@)
                    == Err::<(typeck_spec::Env, Flow), Seq<char>>(e.message@),
            },
        decreases stmt, 2int,
    {
        match stmt {
            Stmt::Return(expr) => {
                let ty = self.check_expr(expr)?;
                let expected = match &self.return_ty {
                    Some(t) => t,
                    None => return Err(err(string_of("`return` outside of a function"))),
                };
                if !ty_eq(&ty, expected) {
                    let en = expected.name();
                    let tn = ty.name();
                    return Err(err(cat5("return type mismatch: expected `", en.as_str(), "`, found `", tn.as_str(), "`")));
                }
                Ok(Flow::Return)
            },
            Stmt::Print(expr) => {
                let ty = self.check_expr(expr)?;
                if !ty_eq(&ty, &Ty::I32) {
                    let n = ty.name();
                    return Err(err(cat3("`print` requires `i32`, found `", n.as_str(), "`")));
                }
                Ok(Flow::Next)
            },
            Stmt::Let { name, ty, value, mutable } => self.check_let(stmt, name, ty, value, *mutable, in_loop),
            Stmt::Assign { target, value } => self.check_assign(stmt, target, value, in_loop),
            Stmt::If { cond, then_block, else_block } => self.check_if(stmt, cond, then_block, else_block, in_loop),
            Stmt::While { cond, body } => self.check_while(stmt, cond, body, in_loop),
            Stmt::For { name, start, end, body } => self.check_for(stmt, name, start, end, body, in_loop),
            Stmt::Break => {
                if !in_loop {
                    return Err(err(string_of("`break` outside of a loop")));
                }
                Ok(Flow::Jump)
            },
            Stmt::Continue => {
                if !in_loop {
                    return Err(err(string_of("`continue` outside of a loop")));
                }
                Ok(Flow::Jump)
            },
            Stmt::Match { scrutinee, arms } => self.check_match(stmt, scrutinee, arms, in_loop),
        }
    }

    fn check_let(&mut self, stmt: &Stmt, name: &String, ty: &Option<Type>, value: &Expr, mutable: bool, in_loop: bool) -> (r: Result<Flow, TypeError>)
        requires
            old(self).env@.len() > 0,
            *stmt == (Stmt::Let { name: *name, ty: *ty, value: *value, mutable }),
        ensures
            final(self).same_tables(old(self)),
            match r {
                Ok(f) => check_stmt(old(self).ctx(), old(self).env@, in_loop, old(self).ret(), stmt@)
                    == Ok::<(typeck_spec::Env, Flow), Seq<char>>((final(self).env@, f)),
                Err(e) => check_stmt(old(self).ctx(), old(self).env@, in_loop, old(self).ret(), stmt@)
                    == Err::<(typeck_spec::Env, Flow), Seq<char>>(e.message@),
            },
        decreases stmt, 1int,
    {
        let value_ty = self.check_expr(value)?;
        let final_ty = match ty {
            Some(ann) => {
                let ann_ty = resolve_type(ann, self.structs, self.enums)?;
                if !ty_eq(&ann_ty, &value_ty) {
                    let an = ann_ty.name();
                    let vn = value_ty.name();
                    return Err(err(cat7("variable `", name.as_str(), "` has type `", an.as_str(), "` but initializer has type `", vn.as_str(), "`")));
                }
                ann_ty
            },
            None => value_ty,
        };
        self.env.declare(name, final_ty, mutable)?;
        Ok(Flow::Next)
    }

    fn check_assign(&mut self, stmt: &Stmt, target: &Expr, value: &Expr, in_loop: bool) -> (r: Result<Flow, TypeError>)
        requires
            *stmt == (Stmt::Assign { target: *target, value: *value }),
        ensures
            final(self).same_tables(old(self)),
            match r {
                Ok(f) => check_stmt(old(self).ctx(), old(self).env@, in_loop, old(self).ret(), stmt@)
                    == Ok::<(typeck_spec::Env, Flow), Seq<char>>((final(self).env@, f)),
                Err(e) => check_stmt(old(self).ctx(), old(self).env@, in_loop, old(self).ret(), stmt@)
                    == Err::<(typeck_spec::Env, Flow), Seq<char>>(e.message@),
            },
        decreases stmt, 1int,
    {
        let place = self.check_place(target)?;
        if !place.mutable {
            return Err(err(string_of("cannot assign to const")));
        }
        let value_ty = self.check_expr(value)?;
        if !ty_eq(&place.ty, &value_ty) {
            let vn = value_ty.name();
            let pn = place.ty.name();
            return Err(err(cat5("cannot assign `", vn.as_str(), "` to expression of type `", pn.as_str(), "`")));
        }
        Ok(Flow::Next)
    }

    fn check_if(&mut self, stmt: &Stmt, cond: &Expr, then_block: &Block, else_block: &Option<Block>, in_loop: bool) -> (r: Result<Flow, TypeError>)
        requires
            *stmt == (Stmt::If { cond: *cond, then_block: *then_block, else_block: *else_block }),
        ensures
            final(self).same_tables(old(self)),
            match r {
                Ok(f) => check_stmt(old(self).ctx(), old(self).env@, in_loop, old(self).ret(), stmt@)
                    == Ok::<(typeck_spec::Env, Flow), Seq<char>>((final(self).env@, f)),
                Err(e) => check_stmt(old(self).ctx(), old(self).env@, in_loop, old(self).ret(), stmt@)
                    == Err::<(typeck_spec::Env, Flow), Seq<char>>(e.message@),
            },
        decreases stmt, 1int,
    {
        let cond_ty = self.check_expr(cond)?;
        if !ty_eq(&cond_ty, &Ty::Bool) {
            let n = cond_ty.name();
            return Err(err(cat3("`if` condition must be `bool`, found `", n.as_str(), "`")));
        }
        let then_flow = self.check_block(then_block, in_loop)?;
        let else_flow = match else_block {
            Some(b) => Some(self.check_block(b, in_loop)?),
            None => None,
        };
        Ok(join_if(then_flow, else_flow))
    }

    fn check_while(&mut self, stmt: &Stmt, cond: &Expr, body: &Block, in_loop: bool) -> (r: Result<Flow, TypeError>)
        requires
            *stmt == (Stmt::While { cond: *cond, body: *body }),
        ensures
            final(self).same_tables(old(self)),
            match r {
                Ok(f) => check_stmt(old(self).ctx(), old(self).env@, in_loop, old(self).ret(), stmt@)
                    == Ok::<(typeck_spec::Env, Flow), Seq<char>>((final(self).env@, f)),
                Err(e) => check_stmt(old(self).ctx(), old(self).env@, in_loop, old(self).ret(), stmt@)
                    == Err::<(typeck_spec::Env, Flow), Seq<char>>(e.message@),
            },
        decreases stmt, 1int,
    {
        let cond_ty = self.check_expr(cond)?;
        if !ty_eq(&cond_ty, &Ty::Bool) {
            let n = cond_ty.name();
            return Err(err(cat3("`while` condition must be `bool`, found `", n.as_str(), "`")));
        }
        let _ = self.check_block(body, true)?;
        Ok(Flow::Next)
    }

    fn check_for(&mut self, stmt: &Stmt, name: &String, start: &Expr, end: &Expr, body: &Block, in_loop: bool) -> (r: Result<Flow, TypeError>)
        requires
            *stmt == (Stmt::For { name: *name, start: *start, end: *end, body: *body }),
        ensures
            final(self).same_tables(old(self)),
            match r {
                Ok(f) => check_stmt(old(self).ctx(), old(self).env@, in_loop, old(self).ret(), stmt@)
                    == Ok::<(typeck_spec::Env, Flow), Seq<char>>((final(self).env@, f)),
                Err(e) => check_stmt(old(self).ctx(), old(self).env@, in_loop, old(self).ret(), stmt@)
                    == Err::<(typeck_spec::Env, Flow), Seq<char>>(e.message@),
            },
        decreases stmt, 1int,
    {
        let start_ty = self.check_expr(start)?;
        let end_ty = self.check_expr(end)?;
        if !ty_eq(&start_ty, &Ty::I32) || !ty_eq(&end_ty, &Ty::I32) {
            let sn = start_ty.name();
            let en = end_ty.name();
            return Err(err(cat5("`for` range bounds must be `i32`, found `", sn.as_str(), "` and `", en.as_str(), "`")));
        }
        let ghost env0 = self.env@;
        self.env.push();
        proof {
            lemma_lookup_absent(Seq::<(Seq<char>, (SpecTy, bool))>::empty(), name@, 0);
        }
        self.env.declare(name, Ty::I32, true)?;
        proof {
            assert(self.env@ =~= env0.push(seq![(name@, (SpecTy::I32, true))]));
        }
        let _ = self.check_block(body, true)?;
        self.env.pop();
        proof { assert(self.env@ =~= env0); }
        Ok(Flow::Next)
    }

    fn check_match(&mut self, stmt: &Stmt, scrutinee: &Expr, arms: &Vec<MatchArm>, in_loop: bool) -> (r: Result<Flow, TypeError>)
        requires
            *stmt == (Stmt::Match { scrutinee: *scrutinee, arms: *arms }),
        ensures
            final(self).same_tables(old(self)),
            match r {
                Ok(f) => check_stmt(old(self).ctx(), old(self).env@, in_loop, old(self).ret(), stmt@)
                    == Ok::<(typeck_spec::Env, Flow), Seq<char>>((final(self).env@, f)),
                Err(e) => check_stmt(old(self).ctx(), old(self).env@, in_loop, old(self).ret(), stmt@)
                    == Err::<(typeck_spec::Env, Flow), Seq<char>>(e.message@),
            },
        decreases stmt, 1int,
    {
        let scrut_ty = self.check_expr(scrutinee)?;
        let enum_name = enum_of(&scrut_ty)?;
        let enums: &'a Vec<(String, EnumDef)> = self.enums;
        let empty: Vec<String> = Vec::new();
        let variants: &Vec<String> = match lookup_enum(enums, enum_name.as_str()) {
            Some(def) => &def.variants,
            None => &empty,
        };
        let ghost vv = names_view(variants@);
        let ghost av = arms_view(arms@);
        let ghost env0 = self.env@;
        proof {
            lemma_arms_view(arms@);
            assert(vv == variants_of(self.ctx(), enum_name@)) by {
                if lookup(self.ctx().enums, enum_name@) is None {
                    assert(vv =~= Seq::<Seq<char>>::empty());
                }
            }
        }
        let mut seen: Vec<String> = Vec::new();
        let mut flows: Vec<Flow> = Vec::new();
        let mut i: usize = 0;
        while i < arms.len()
            invariant
                *stmt == (Stmt::Match { scrutinee: *scrutinee, arms: *arms }),
                check_expr(self.ctx(), env0, scrutinee@) == Ok::<SpecTy, Seq<char>>(scrut_ty@),
                typeck_spec::enum_of(scrut_ty@) == Ok::<Seq<char>, Seq<char>>(enum_name@),
                self.same_tables(old(self)),
                self.env@ == env0,
                env0 == old(self).env@,
                i <= arms@.len(),
                av == arms_view(arms@),
                av.len() == arms@.len(),
                forall|j: int|
                    0 <= j < arms@.len() ==> av[j] == (SpecMatchArm {
                        enum_name: (#[trigger] arms@[j]).enum_name@,
                        variant: arms@[j].variant@,
                        body: block_view(arms@[j].body),
                    }),
                vv == names_view(variants@),
                vv == variants_of(self.ctx(), enum_name@),
                names_view(seen@) == arm_variants(av, i as int),
                check_arms(self.ctx(), env0, in_loop, self.ret(), enum_name@, vv, av, 0) == match check_arms(
                    self.ctx(),
                    env0,
                    in_loop,
                    self.ret(),
                    enum_name@,
                    vv,
                    av,
                    i as int,
                ) {
                    Ok(rest) => Ok(flows@ + rest),
                    Err(m) => Err::<Seq<Flow>, Seq<char>>(m),
                },
            decreases arms@.len() - i,
        {
                let arm = &arms[i];
            if !str_eq(arm.enum_name.as_str(), enum_name.as_str()) {
                return Err(err(cat7("pattern `", arm.enum_name.as_str(), "::", arm.variant.as_str(), "` does not match `", enum_name.as_str(), "`")));
            }
            if !contains_name(variants, arm.variant.as_str()) {
                return Err(err(cat5("no variant `", arm.variant.as_str(), "` on `", enum_name.as_str(), "`")));
            }
            if contains_name(&seen, arm.variant.as_str()) {
                return Err(err(cat5("duplicate match arm `", enum_name.as_str(), "::", arm.variant.as_str(), "`")));
            }
            seen.push(arm.variant.clone());
            proof {
                assert(arm_variants(av, i + 1) =~= arm_variants(av, i as int).push(av[i as int].variant));
                assert(names_view(seen@) =~= names_view(seen@.drop_last()).push(arm.variant@));
                assert(decreases_to!(*stmt => (*stmt)->arms));
                assert(decreases_to!(*arms => arms@));
                assert(decreases_to!(arms@ => arms@[i as int]));
                assert(decreases_to!(arms@[i as int] => arms@[i as int].body));
            }
            let f = self.check_block(&arm.body, in_loop)?;
            let ghost old_flows = flows@;
            flows.push(f);
            proof {
                assert(flows@ == old_flows + seq![f]);
                match check_arms(self.ctx(), env0, in_loop, self.ret(), enum_name@, vv, av, i + 1) {
                    Ok(rest) => {
                        assert(old_flows + (seq![f] + rest) =~= flows@ + rest);
                    },
                    Err(_) => {},
                }
            }
            i = i + 1;
        }
        let ghost set = arm_variants(av, av.len() as int);
        let ghost pred = |v: Seq<char>| !set.contains(v);
        let mut missing: Vec<String> = Vec::new();
        let mut j: usize = 0;
        while j < variants.len()
            invariant
                j <= variants@.len(),
                vv == names_view(variants@),
                names_view(seen@) == set,
                pred == (|v: Seq<char>| !set.contains(v)),
                names_view(missing@) == vv.take(j as int).filter(pred),
            decreases variants@.len() - j,
        {
            let ghost before = names_view(missing@);
            if !contains_name(&seen, variants[j].as_str()) {
                missing.push(variants[j].clone());
                proof { assert(names_view(missing@) =~= before.push(vv[j as int])); }
            }
            proof {
                reveal_with_fuel(Seq::<Seq<char>>::filter, 1);
                assert(vv.take(j + 1).drop_last() =~= vv.take(j as int));
            }
            j = j + 1;
        }
        proof {
            assert(vv.take(vv.len() as int) =~= vv);
        }
        let ghost mv = names_view(missing@);
        if missing.len() > 0 {
            proof { reveal_strlit(""); }
            let mut list = string_of("");
            let mut k: usize = 0;
            while k < missing.len()
                invariant
                    k <= missing@.len(),
                    mv == names_view(missing@),
                    list@ == missing_list(enum_name@, mv.take(k as int)),
                decreases missing@.len() - k,
            {
                let ghost before = list@;
                if k > 0 {
                    push_str(&mut list, ", ");
                }
                push_str(&mut list, "`");
                push_str(&mut list, enum_name.as_str());
                push_str(&mut list, "::");
                push_str(&mut list, missing[k].as_str());
                push_str(&mut list, "`");
                proof {
                    let t = mv.take(k + 1);
                    assert(t.drop_last() =~= mv.take(k as int));
                    assert(t.last() == missing@[k as int]@);
                    if k == 0 {
                        assert(before =~= Seq::<char>::empty());
                        assert(list@ =~= "`"@ + enum_name@ + "::"@ + t[0] + "`"@);
                    } else {
                        assert(list@ =~= before + ", "@ + ("`"@ + enum_name@ + "::"@ + t.last() + "`"@));
                    }
                }
                k = k + 1;
            }
            proof { assert(mv.take(mv.len() as int) =~= mv); }
            let mut m = cat3("non-exhaustive match on `", enum_name.as_str(), "`: missing ");
            push_str(&mut m, list.as_str());
            return Err(err(m));
        }
        Ok(join_match(&flows))
    }
}

impl<'a> Checker<'a> {
    fn check_function(&mut self, func: &Function) -> (r: Result<(), TypeError>)
        requires
            old(self).env@ == Seq::<Scope>::empty(),
            old(self).ret() == Some(ret_of(old(self).ctx(), func.name@)),
        ensures
            unit_res(r, typeck_spec::check_function(old(self).ctx(), function_view(*func))),
    {
        proof { reveal(typeck_spec::check_function); }
        let ghost pv = params_view(func.params@);
        let ghost env0 = seq![Seq::<(Seq<char>, (SpecTy, bool))>::empty()];
        self.env.push();
        proof { assert(self.env@ =~= env0); }
        let mut i: usize = 0;
        while i < func.params.len()
            invariant
                self.same_tables(old(self)),
                i <= func.params@.len(),
                pv == params_view(func.params@),
                self.env@.len() == 1,
                old(self).env@ == Seq::<Scope>::empty(),
                env0 == seq![Seq::<(Seq<char>, (SpecTy, bool))>::empty()],
                declare_params(self.ctx(), env0, pv, 0) == declare_params(self.ctx(), self.env@, pv, i as int),
            decreases func.params@.len() - i,
        {
            proof { reveal(typeck_spec::check_function); }
            let param = &func.params[i];
            let ty = resolve_type(&param.ty, self.structs, self.enums)?;
            self.env.declare(&param.name, ty, true)?;
            i = i + 1;
        }
        let flow = self.check_block(&func.body, false)?;
        if flow != Flow::Return {
            return Err(err(string_of("missing `return`")));
        }
        self.env.pop();
        Ok(())
    }
}

// ---------------------------------------------------------------------------
// Declarations.
// ---------------------------------------------------------------------------
fn is_reserved_type(name: &str) -> (r: bool)
    ensures
        r == (name@ == "i32"@ || name@ == "bool"@),
{
    str_eq(name, "i32") || str_eq(name, "bool")
}

fn check_new_type(
    name: &String,
    structs: &Vec<(String, StructDef)>,
    enums: &Vec<(String, EnumDef)>,
) -> (r: Result<(), TypeError>)
    ensures
        unit_res(r, typeck_spec::check_new_type(name@, structs_view(structs@), enums_view(enums@))),
{
    if is_reserved_type(name.as_str()) {
        return Err(err(cat3("cannot define type with reserved name `", name.as_str(), "`")));
    }
    if lookup_struct(structs, name.as_str()).is_some() || lookup_enum(enums, name.as_str()).is_some() {
        return Err(err(cat3("duplicate definition of `", name.as_str(), "`")));
    }
    Ok(())
}

fn check_new_value(
    name: &String,
    fns: &Vec<(String, FnSig)>,
    consts: &Vec<(String, ConstDef)>,
) -> (r: Result<(), TypeError>)
    ensures
        unit_res(r, typeck_spec::check_new_value(name@, fns_view(fns@), consts_view(consts@))),
{
    if lookup_fn(fns, name.as_str()).is_some() || lookup_const(consts, name.as_str()).is_some() {
        return Err(err(cat3("duplicate definition of `", name.as_str(), "`")));
    }
    Ok(())
}

fn copy_names(v: &Vec<String>) -> (r: Vec<String>)
    ensures
        names_view(r@) == names_view(v@),
{
    let mut r: Vec<String> = Vec::new();
    let mut i: usize = 0;
    while i < v.len()
        invariant
            i <= v@.len(),
            names_view(r@) == names_view(v@).take(i as int),
        decreases v@.len() - i,
    {
        let ghost before = names_view(r@);
        r.push(v[i].clone());
        proof {
            assert(names_view(r@) =~= before.push(v@[i as int]@));
            assert(names_view(v@).take(i + 1) =~= names_view(v@).take(i as int).push(v@[i as int]@));
        }
        i = i + 1;
    }
    proof { assert(names_view(v@).take(v@.len() as int) =~= names_view(v@)); }
    r
}

proof fn lemma_index_found<V>(tbl: Seq<(Seq<char>, V)>, name: Seq<char>, i: int, j: int)
    requires
        0 <= i <= j < tbl.len(),
        tbl[j].0 == name,
        forall|k: int| i <= k < j ==> tbl[k].0 != name,
    ensures
        index_from(tbl, name, i) == j,
    decreases j - i,
{
    if i < j {
        lemma_index_found(tbl, name, i + 1, j);
    }
}

proof fn lemma_index_absent<V>(tbl: Seq<(Seq<char>, V)>, name: Seq<char>, i: int)
    requires
        0 <= i <= tbl.len(),
        forall|k: int| i <= k < tbl.len() ==> tbl[k].0 != name,
    ensures
        index_from(tbl, name, i) == -1,
    decreases tbl.len() - i,
{
    if i < tbl.len() {
        lemma_index_absent(tbl, name, i + 1);
    }
}

/// Duplicate and missing enum variants.
fn check_variants(name: &String, variants: &Vec<String>) -> (r: Result<(), TypeError>)
    ensures
        unit_res(r, typeck_spec::check_variants(name@, strings_view(variants@))),
{
    let ghost vv = strings_view(variants@);
    let mut seen: Vec<String> = Vec::new();
    let mut j: usize = 0;
    proof { assert(names_view(seen@) =~= vv.take(0)); }
    while j < variants.len()
        invariant
            j <= variants@.len(),
            vv == strings_view(variants@),
            names_view(seen@) == vv.take(j as int),
            first_dup(vv, 0) == first_dup(vv, j as int),
        decreases variants@.len() - j,
    {
        let v = &variants[j];
        if contains_name(&seen, v.as_str()) {
            return Err(err(cat5("duplicate variant `", v.as_str(), "` on `", name.as_str(), "`")));
        }
        let ghost before = names_view(seen@);
        seen.push(v.clone());
        proof {
            assert(names_view(seen@) =~= before.push(v@));
            assert(vv.take(j + 1) =~= vv.take(j as int).push(vv[j as int]));
        }
        j = j + 1;
    }
    if variants.len() == 0 {
        return Err(err(cat3("enum `", name.as_str(), "` must have at least one variant")));
    }
    Ok(())
}

/// Resolves the field declarations of a struct.
fn resolve_struct_fields(
    def: &StructItem,
    structs: &Vec<(String, StructDef)>,
    enums: &Vec<(String, EnumDef)>,
) -> (r: Result<Vec<(String, Ty)>, TypeError>)
    ensures
        match r {
            Ok(f) => resolve_fields(def.name@, field_decls_view(def.fields@), 0, structs_view(structs@), enums_view(enums@))
                == Ok::<Seq<(Seq<char>, SpecTy)>, Seq<char>>(fields_view(f@)),
            Err(e) => resolve_fields(def.name@, field_decls_view(def.fields@), 0, structs_view(structs@), enums_view(enums@))
                == Err::<Seq<(Seq<char>, SpecTy)>, Seq<char>>(e.message@),
        },
{
    let ghost dv = field_decls_view(def.fields@);
    let ghost target = resolve_fields(def.name@, dv, 0, structs_view(structs@), enums_view(enums@));
    let mut fields: Vec<(String, Ty)> = Vec::new();
    let mut seen: Vec<String> = Vec::new();
    let mut j: usize = 0;
    proof {
        assert(names_view(seen@) =~= dv.take(0).map_values(|f: SpecParam| f.name));
        assert(fields_view(fields@) =~= Seq::<(Seq<char>, SpecTy)>::empty());
        match target {
            Ok(rest) => { assert(fields_view(fields@) + rest =~= rest); },
            Err(_) => {},
        }
    }
    while j < def.fields.len()
        invariant
            j <= def.fields@.len(),
            dv == field_decls_view(def.fields@),
            names_view(seen@) == dv.take(j as int).map_values(|f: SpecParam| f.name),
            target == resolve_fields(def.name@, dv, 0, structs_view(structs@), enums_view(enums@)),
            target == match resolve_fields(def.name@, dv, j as int, structs_view(structs@), enums_view(enums@)) {
                Ok(rest) => Ok(fields_view(fields@) + rest),
                Err(m) => Err::<Seq<(Seq<char>, SpecTy)>, Seq<char>>(m),
            },
        decreases def.fields@.len() - j,
    {
        let field = &def.fields[j];
        if contains_name(&seen, field.name.as_str()) {
            return Err(err(cat5("duplicate field `", field.name.as_str(), "` on `", def.name.as_str(), "`")));
        }
        let ghost before_seen = names_view(seen@);
        seen.push(field.name.clone());
        proof {
            assert(names_view(seen@) =~= before_seen.push(field.name@));
            assert(dv.take(j + 1).map_values(|f: SpecParam| f.name) =~= dv.take(j as int).map_values(|f: SpecParam| f.name).push(dv[j as int].name));
        }
        let ty = resolve_type(&field.ty, structs, enums)?;
        let ghost before = fields_view(fields@);
        fields.push((field.name.clone(), ty));
        proof {
            assert(fields_view(fields@) =~= before.push((field.name@, ty@)));
            match resolve_fields(def.name@, dv, j + 1, structs_view(structs@), enums_view(enums@)) {
                Ok(rest) => {
                    assert(before + (seq![(dv[j as int].name, ty@)] + rest) =~= fields_view(fields@) + rest);
                },
                Err(_) => {},
            }
        }
        j = j + 1;
    }
    proof {
        assert(fields_view(fields@) + Seq::<(Seq<char>, SpecTy)>::empty() =~= fields_view(fields@));
    }
    Ok(fields)
}

/// The names of the structs, in declaration order.
fn struct_names(structs: &Vec<(String, StructDef)>) -> (r: Vec<String>)
    ensures
        r@.len() == structs@.len(),
        forall|m: int| 0 <= m < r@.len() ==> r@[m]@ == structs@[m].0@,
{
    let mut names: Vec<String> = Vec::new();
    let mut k: usize = 0;
    while k < structs.len()
        invariant
            k <= structs@.len(),
            names@.len() == k,
            forall|m: int| 0 <= m < k ==> names@[m]@ == structs@[m].0@,
        decreases structs@.len() - k,
    {
        names.push(structs[k].0.clone());
        k = k + 1;
    }
    names
}

/// Collects struct and enum definitions: names first, then fields, then
/// rejects structs that contain themselves by value.
fn collect_types(module: &SourceModule) -> (r: Result<(Vec<(String, StructDef)>, Vec<(String, EnumDef)>), TypeError>)
    ensures
        match r {
            Ok((s, e)) => typeck_spec::collect_types(module@) == Ok::<(StructTable, EnumTable), Seq<char>>(
                (structs_view(s@), enums_view(e@)),
            ),
            Err(e) => typeck_spec::collect_types(module@) == Err::<(StructTable, EnumTable), Seq<char>>(e.message@),
        },
{
    let ghost iv = module@.items;
    let mut structs: Vec<(String, StructDef)> = Vec::new();
    let mut enums: Vec<(String, EnumDef)> = Vec::new();
    let mut i: usize = 0;
    proof {
        assert(structs_view(structs@) =~= Seq::<(Seq<char>, Seq<(Seq<char>, SpecTy)>)>::empty());
        assert(enums_view(enums@) =~= Seq::<(Seq<char>, Seq<Seq<char>>)>::empty());
    }
    while i < module.items.len()
        invariant
            i <= module.items@.len(),
            iv == module@.items,
            iv == crate::ast::items_view(module.items@),
            collect_type_names(iv, 0, Seq::empty(), Seq::empty()) == collect_type_names(
                iv,
                i as int,
                structs_view(structs@),
                enums_view(enums@),
            ),
        decreases module.items@.len() - i,
    {
        match &module.items[i] {
            Item::Struct(def) => {
                check_new_type(&def.name, &structs, &enums)?;
                let ghost before = structs_view(structs@);
                structs.push((def.name.clone(), StructDef { fields: Vec::new() }));
                proof {
                    assert(fields_view(Seq::<(String, Ty)>::empty()) =~= Seq::empty());
                    assert(structs_view(structs@) =~= before.push((def.name@, Seq::empty())));
                }
            },
            Item::Enum(def) => {
                check_new_type(&def.name, &structs, &enums)?;
                check_variants(&def.name, &def.variants)?;
                let variants = copy_names(&def.variants);
                let ghost before = enums_view(enums@);
                enums.push((def.name.clone(), EnumDef { variants }));
                proof {
                    assert(enums_view(enums@) =~= before.push((def.name@, strings_view(def.variants@))));
                }
            },
            _ => {},
        }
        i = i + 1;
    }
    let ghost s0 = structs_view(structs@);
    let ghost e0 = enums_view(enums@);
    i = 0;
    while i < module.items.len()
        invariant
            i <= module.items@.len(),
            iv == module@.items,
            iv == crate::ast::items_view(module.items@),
            e0 == enums_view(enums@),
            collect_type_names(iv, 0, Seq::empty(), Seq::empty()) == Ok::<(StructTable, EnumTable), Seq<char>>((s0, e0)),
            collect_fields(iv, 0, s0, e0) == collect_fields(iv, i as int, structs_view(structs@), e0),
        decreases module.items@.len() - i,
    {
        if let Item::Struct(def) = &module.items[i] {
            let fields = resolve_struct_fields(def, &structs, &enums)?;
            if fields.len() == 0 {
                return Err(err(cat3("struct `", def.name.as_str(), "` must have at least one field")));
            }
            let ghost before = structs_view(structs@);
            let ghost fv = fields_view(fields@);
            match find_key(&structs, def.name.as_str()) {
                Some(k) => {
                    proof { lemma_index_found(before, def.name@, 0, k as int); }
                    structs.set(k, (def.name.clone(), StructDef { fields }));
                    proof {
                        assert(structs_view(structs@) =~= before.update(k as int, (def.name@, fv)));
                    }
                },
                None => {
                    proof { lemma_index_absent(before, def.name@, 0); }
                },
            }
        }
        i = i + 1;
    }
    let names = struct_names(&structs);
    let ghost sv = structs_view(structs@);
    let mut done: Vec<String> = Vec::new();
    let mut stack: Vec<String> = Vec::new();
    proof {
        assert(names_view(done@) =~= Seq::<Seq<char>>::empty());
        assert(names_view(stack@) =~= Seq::<Seq<char>>::empty());
    }
    i = 0;
    while i < names.len()
        invariant
            i <= names@.len(),
            names@.len() == structs@.len(),
            sv == structs_view(structs@),
            forall|m: int| 0 <= m < names@.len() ==> names@[m]@ == structs@[m].0@,
            names_view(stack@) == Seq::<Seq<char>>::empty(),
            collect_type_names(iv, 0, Seq::empty(), Seq::empty()) == Ok::<(StructTable, EnumTable), Seq<char>>((s0, e0)),
            collect_fields(iv, 0, s0, e0) == Ok::<StructTable, Seq<char>>(sv),
            e0 == enums_view(enums@),
            iv == module@.items,
            check_all_finite(sv, 0, Seq::empty()) == check_all_finite(sv, i as int, names_view(done@)),
        decreases names@.len() - i,
    {
        check_finite(&names[i], &structs, &mut stack, &mut done)?;
        i = i + 1;
    }
    Ok((structs, enums))
}

/// Depth-first search for a struct that contains itself by value.
fn check_finite(
    name: &String,
    structs: &Vec<(String, StructDef)>,
    stack: &mut Vec<String>,
    done: &mut Vec<String>,
) -> (r: Result<(), TypeError>)
    ensures
        match r {
            Ok(_) => finite_dfs(structs_view(structs@), name@, names_view(old(stack)@), names_view(old(done)@))
                == Ok::<Seq<Seq<char>>, Seq<char>>(names_view(final(done)@)) && names_view(final(stack)@) == names_view(old(stack)@),
            Err(e) => finite_dfs(structs_view(structs@), name@, names_view(old(stack)@), names_view(old(done)@))
                == Err::<Seq<Seq<char>>, Seq<char>>(e.message@),
        },
    decreases room(structs@.len() as int, names_view(stack@)), 0int,
{
    let ghost sv = structs_view(structs@);
    if contains_name(done, name.as_str()) {
        return Ok(());
    }
    if contains_name(stack, name.as_str()) {
        return Err(err(cat3("recursive type `", name.as_str(), "` without indirection")));
    }
    // A stack that already holds as many names as there are structs cannot grow.
    if stack.len() >= structs.len() {
        return Ok(());
    }
    let empty: Vec<(String, Ty)> = Vec::new();
    let fields: &Vec<(String, Ty)> = match lookup_struct(structs, name.as_str()) {
        Some(def) => &def.fields,
        None => &empty,
    };
    let ghost fv = fields_view(fields@);
    proof {
        assert(fv == match lookup(sv, name@) { Some(f) => f, None => Seq::<(Seq<char>, SpecTy)>::empty() }) by {
            if lookup(sv, name@) is None {
                assert(fv =~= Seq::<(Seq<char>, SpecTy)>::empty());
            }
        }
    }
    let ghost stack0 = names_view(stack@);
    let ghost done0 = names_view(done@);
    stack.push(name.clone());
    proof { assert(names_view(stack@) =~= stack0.push(name@)); }
    let ghost stk = names_view(stack@);
    let mut j: usize = 0;
    while j < fields.len()
        invariant
            j <= fields@.len(),
            fv == fields_view(fields@),
            sv == structs_view(structs@),
            fv == match lookup(sv, name@) { Some(f) => f, None => Seq::<(Seq<char>, SpecTy)>::empty() },
            names_view(stack@) == stk,
            stk == stack0.push(name@),
            stack0 == names_view(old(stack)@),
            done0 == names_view(old(done)@),
            !done0.contains(name@),
            !stack0.contains(name@),
            stack0.len() < structs@.len(),
            finite_fields(sv, fv, 0, stk, done0) == finite_fields(sv, fv, j as int, stk, names_view(done@)),
        decreases fields@.len() - j,
    {
        if let Ty::Struct(inner) = &fields[j].1 {
            check_finite(inner, structs, stack, done)?;
        }
        j = j + 1;
    }
    let ghost sb = stack@;
    stack.pop();
    proof { assert(names_view(stack@) =~= names_view(sb).drop_last()); }
    let ghost d = names_view(done@);
    done.push(name.clone());
    proof { assert(names_view(done@) =~= d.push(name@)); }
    Ok(())
}

fn resolve_params(
    params: &Vec<Param>,
    structs: &Vec<(String, StructDef)>,
    enums: &Vec<(String, EnumDef)>,
) -> (r: Result<Vec<Ty>, TypeError>)
    ensures
        match r {
            Ok(ps) => typeck_spec::resolve_params(params_view(params@), 0, structs_view(structs@), enums_view(enums@))
                == Ok::<Seq<SpecTy>, Seq<char>>(tys_view(ps@)),
            Err(e) => typeck_spec::resolve_params(params_view(params@), 0, structs_view(structs@), enums_view(enums@))
                == Err::<Seq<SpecTy>, Seq<char>>(e.message@),
        },
{
    let ghost pv = params_view(params@);
    let ghost target = typeck_spec::resolve_params(pv, 0, structs_view(structs@), enums_view(enums@));
    let mut out: Vec<Ty> = Vec::new();
    let mut j: usize = 0;
    proof { assert(tys_view(out@) + target->Ok_0 =~= target->Ok_0) by {}; }
    while j < params.len()
        invariant
            j <= params@.len(),
            pv == params_view(params@),
            target == typeck_spec::resolve_params(pv, 0, structs_view(structs@), enums_view(enums@)),
            target == match typeck_spec::resolve_params(pv, j as int, structs_view(structs@), enums_view(enums@)) {
                Ok(rest) => Ok(tys_view(out@) + rest),
                Err(m) => Err::<Seq<SpecTy>, Seq<char>>(m),
            },
        decreases params@.len() - j,
    {
        let t = resolve_type(&params[j].ty, structs, enums)?;
        let ghost before = tys_view(out@);
        out.push(t);
        proof {
            assert(tys_view(out@) =~= before.push(t@));
            match typeck_spec::resolve_params(pv, j + 1, structs_view(structs@), enums_view(enums@)) {
                Ok(rest) => {
                    assert(before + (seq![t@] + rest) =~= tys_view(out@) + rest);
                },
                Err(_) => {},
            }
        }
        j = j + 1;
    }
    proof { assert(tys_view(out@) + Seq::<SpecTy>::empty() =~= tys_view(out@)); }
    Ok(out)
}

/// Collects function signatures and const types.
fn collect_values(
    module: &SourceModule,
    structs: &Vec<(String, StructDef)>,
    enums: &Vec<(String, EnumDef)>,
) -> (r: Result<(Vec<(String, FnSig)>, Vec<(String, ConstDef)>), TypeError>)
    ensures
        match r {
            Ok((f, c)) => typeck_spec::collect_values(module@.items, 0, structs_view(structs@), enums_view(enums@), Seq::empty(), Seq::empty())
                == Ok::<(FnTable, ConstTable), Seq<char>>((fns_view(f@), consts_view(c@))),
            Err(e) => typeck_spec::collect_values(module@.items, 0, structs_view(structs@), enums_view(enums@), Seq::empty(), Seq::empty())
                == Err::<(FnTable, ConstTable), Seq<char>>(e.message@),
        },
{
    let ghost iv = module@.items;
    let mut fns: Vec<(String, FnSig)> = Vec::new();
    let mut consts: Vec<(String, ConstDef)> = Vec::new();
    proof {
        assert(fns_view(fns@) =~= Seq::<(Seq<char>, (Seq<SpecTy>, SpecTy))>::empty());
        assert(consts_view(consts@) =~= Seq::<(Seq<char>, SpecTy)>::empty());
    }
    let mut i: usize = 0;
    while i < module.items.len()
        invariant
            i <= module.items@.len(),
            iv == module@.items,
            typeck_spec::collect_values(iv, 0, structs_view(structs@), enums_view(enums@), Seq::empty(), Seq::empty())
                == typeck_spec::collect_values(iv, i as int, structs_view(structs@), enums_view(enums@), fns_view(fns@), consts_view(consts@)),
        decreases module.items@.len() - i,
    {
        match &module.items[i] {
            Item::Fn(func) => {
                check_new_value(&func.name, &fns, &consts)?;
                let params = resolve_params(&func.params, structs, enums)?;
                let ret = resolve_type(&func.return_ty, structs, enums)?;
                let ghost before = fns_view(fns@);
                fns.push((func.name.clone(), FnSig { params, ret }));
                proof { assert(fns_view(fns@) =~= before.push((func.name@, (tys_view(params@), ret@)))); }
            },
            Item::Const(def) => {
                check_new_value(&def.name, &fns, &consts)?;
                let ty = resolve_type(&def.ty, structs, enums)?;
                let ghost before = consts_view(consts@);
                consts.push((def.name.clone(), ConstDef { ty }));
                proof { assert(consts_view(consts@) =~= before.push((def.name@, ty@))); }
            },
            _ => {},
        }
        i = i + 1;
    }
    Ok((fns, consts))
}

/// Const initializers may not call functions, dereference or take addresses.
fn check_const_ops(expr: &Expr) -> (r: Result<(), TypeError>)
    ensures
        unit_res(r, typeck_spec::check_const_ops(expr@)),
    decreases expr,
{
    match expr {
        Expr::Call { name, .. } => Err(err(cat3("cannot call `", name.as_str(), "` in a const initializer"))),
        Expr::Unary { op: UnOp::Deref, .. } => Err(err(string_of("cannot dereference in a const initializer"))),
        Expr::Unary { op: UnOp::AddrOf, .. } => Err(err(string_of("cannot take address in a const initializer"))),
        Expr::Unary { expr: inner, .. } => check_const_ops(inner),
        Expr::Field { base, .. } => check_const_ops(base),
        Expr::Binary { lhs, rhs, .. } => {
            check_const_ops(lhs)?;
            check_const_ops(rhs)
        },
        Expr::StructLit { name, fields } => {
            let ghost fv = field_inits_view(fields@);
            proof { lemma_field_inits_view(fields@); }
            let mut i: usize = 0;
            while i < fields.len()
                invariant
                    *expr == (Expr::StructLit { name: *name, fields: *fields }),
                    i <= fields@.len(),
                    fv == field_inits_view(fields@),
                    fv.len() == fields@.len(),
                    forall|j: int| 0 <= j < fields@.len() ==> fv[j].1 == expr_view((#[trigger] fields@[j]).1),
                    check_const_ops_fields(fv, 0) == check_const_ops_fields(fv, i as int),
                decreases fields@.len() - i,
            {
                proof {
                    assert(decreases_to!(*expr => (*expr)->fields));
                    assert(decreases_to!(*fields => fields@));
                    assert(decreases_to!(fields@ => fields@[i as int]));
                    assert(decreases_to!(fields@[i as int] => fields@[i as int].1));
                }
                check_const_ops(&fields[i].1)?;
                i = i + 1;
            }
            Ok(())
        },
        _ => Ok(()),
    }
}

/// Appends the consts that `expr` reads to `deps`, in the order in which they occur.
fn collect_const_refs(expr: &Expr, consts: &Vec<(String, ConstDef)>, deps: &mut Vec<String>)
    ensures
        names_view(final(deps)@) == names_view(old(deps)@) + const_refs(expr@, consts_view(consts@)),
    decreases expr,
{
    let ghost cv = consts_view(consts@);
    let ghost d0 = names_view(deps@);
    match expr {
        Expr::Var(name) => {
            if lookup_const(consts, name.as_str()).is_some() {
                deps.push(name.clone());
                proof { assert(names_view(deps@) =~= d0 + seq![name@]); }
            } else {
                proof { assert(names_view(deps@) =~= d0 + Seq::<Seq<char>>::empty()); }
            }
        },
        Expr::Unary { expr: inner, .. } => collect_const_refs(inner, consts, deps),
        Expr::Field { base, .. } => collect_const_refs(base, consts, deps),
        Expr::Binary { lhs, rhs, .. } => {
            collect_const_refs(lhs, consts, deps);
            collect_const_refs(rhs, consts, deps);
            proof {
                assert(names_view(deps@) =~= d0 + (const_refs(lhs@, cv) + const_refs(rhs@, cv)));
            }
        },
        Expr::StructLit { name, fields } => {
            let ghost fv = field_inits_view(fields@);
            proof { lemma_field_inits_view(fields@); }
            let mut i: usize = 0;
            while i < fields.len()
                invariant
                    *expr == (Expr::StructLit { name: *name, fields: *fields }),
                    i <= fields@.len(),
                    cv == consts_view(consts@),
                    fv == field_inits_view(fields@),
                    fv.len() == fields@.len(),
                    forall|j: int| 0 <= j < fields@.len() ==> fv[j].1 == expr_view((#[trigger] fields@[j]).1),
                    d0 + const_refs_fields(fv, 0, cv) == names_view(deps@) + const_refs_fields(fv, i as int, cv),
                decreases fields@.len() - i,
            {
                proof {
                    assert(decreases_to!(*expr => (*expr)->fields));
                    assert(decreases_to!(*fields => fields@));
                    assert(decreases_to!(fields@ => fields@[i as int]));
                    assert(decreases_to!(fields@[i as int] => fields@[i as int].1));
                }
                let ghost before = names_view(deps@);
                collect_const_refs(&fields[i].1, consts, deps);
                proof {
                    assert(before + const_refs_fields(fv, i as int, cv) =~= names_view(deps@) + const_refs_fields(fv, i + 1, cv));
                }
                i = i + 1;
            }
            proof { assert(names_view(deps@) + Seq::<Seq<char>>::empty() =~= names_view(deps@)); }
        },
        Expr::Call { name, args } => {
            let ghost av = exprs_view(args@);
            proof { lemma_exprs_view(args@); }
            let mut i: usize = 0;
            while i < args.len()
                invariant
                    *expr == (Expr::Call { name: *name, args: *args }),
                    i <= args@.len(),
                    cv == consts_view(consts@),
                    av == exprs_view(args@),
                    av.len() == args@.len(),
                    forall|j: int| 0 <= j < args@.len() ==> av[j] == expr_view(#[trigger] args@[j]),
                    d0 + const_refs_args(av, 0, cv) == names_view(deps@) + const_refs_args(av, i as int, cv),
                decreases args@.len() - i,
            {
                proof {
                    assert(decreases_to!(*expr => (*expr)->args));
                    assert(decreases_to!(*args => args@));
                    assert(decreases_to!(args@ => args@[i as int]));
                }
                let ghost before = names_view(deps@);
                collect_const_refs(&args[i], consts, deps);
                proof {
                    assert(before + const_refs_args(av, i as int, cv) =~= names_view(deps@) + const_refs_args(av, i + 1, cv));
                }
                i = i + 1;
            }
            proof { assert(names_view(deps@) + Seq::<Seq<char>>::empty() =~= names_view(deps@)); }
        },
        _ => {
            proof { assert(names_view(deps@) =~= d0 + Seq::<Seq<char>>::empty()); }
        },
    }
}

spec fn inits_view(s: Seq<(&String, &Expr)>) -> Seq<(Seq<char>, SpecExpr)> {
    s.map_values(|e: (&String, &Expr)| (e.0@, e.1@))
}

fn lookup_init<'m>(inits: &Vec<(&'m String, &'m Expr)>, name: &str) -> (r: Option<&'m Expr>)
    ensures
        match r {
            Some(e) => lookup(inits_view(inits@), name@) == Some(e@),
            None => lookup(inits_view(inits@), name@) is None,
        },
{
    let mut i: usize = 0;
    while i < inits.len()
        invariant
            i <= inits@.len(),
            forall|k: int| 0 <= k < i ==> inits@[k].0@ != name@,
        decreases inits@.len() - i,
    {
        if str_eq(inits[i].0.as_str(), name) {
            proof { lemma_lookup_found(inits_view(inits@), name@, 0, i as int); }
            return Some(inits[i].1);
        }
        i = i + 1;
    }
    proof { lemma_lookup_absent(inits_view(inits@), name@, 0); }
    None
}

/// Depth-first search for a const whose initializer depends on itself.
fn check_const_finite<'m>(
    name: &String,
    inits: &Vec<(&'m String, &'m Expr)>,
    consts: &Vec<(String, ConstDef)>,
    stack: &mut Vec<String>,
    done: &mut Vec<String>,
) -> (r: Result<(), TypeError>)
    ensures
        match r {
            Ok(_) => const_dfs(inits_view(inits@), consts_view(consts@), name@, names_view(old(stack)@), names_view(old(done)@))
                == Ok::<Seq<Seq<char>>, Seq<char>>(names_view(final(done)@)) && names_view(final(stack)@) == names_view(old(stack)@),
            Err(e) => const_dfs(inits_view(inits@), consts_view(consts@), name@, names_view(old(stack)@), names_view(old(done)@))
                == Err::<Seq<Seq<char>>, Seq<char>>(e.message@),
        },
    decreases room(inits@.len() as int, names_view(stack@)), 0int,
{
    let ghost iv = inits_view(inits@);
    let ghost cv = consts_view(consts@);
    if contains_name(done, name.as_str()) {
        return Ok(());
    }
    if contains_name(stack, name.as_str()) {
        return Err(err(cat3("recursive const `", name.as_str(), "`")));
    }
    // A stack that already holds as many names as there are consts cannot grow.
    if stack.len() >= inits.len() {
        return Ok(());
    }
    let mut deps: Vec<String> = Vec::new();
    match lookup_init(inits, name.as_str()) {
        Some(e) => {
            collect_const_refs(e, consts, &mut deps);
            proof { assert(names_view(deps@) =~= const_refs(e@, cv)); }
        },
        None => {
            proof { assert(names_view(deps@) =~= Seq::<Seq<char>>::empty()); }
        },
    }
    let ghost dv = names_view(deps@);
    let ghost stack0 = names_view(stack@);
    let ghost done0 = names_view(done@);
    stack.push(name.clone());
    proof { assert(names_view(stack@) =~= stack0.push(name@)); }
    let ghost stk = names_view(stack@);
    let mut j: usize = 0;
    while j < deps.len()
        invariant
            j <= deps@.len(),
            dv == names_view(deps@),
            iv == inits_view(inits@),
            cv == consts_view(consts@),
            names_view(stack@) == stk,
            stk == stack0.push(name@),
            stack0.len() < inits@.len(),
            stack0 == names_view(old(stack)@),
            done0 == names_view(old(done)@),
            !done0.contains(name@),
            !stack0.contains(name@),
            dv == match lookup(iv, name@) { Some(e) => const_refs(e, cv), None => Seq::<Seq<char>>::empty() },
            const_deps(iv, cv, dv, 0, stk, done0) == const_deps(iv, cv, dv, j as int, stk, names_view(done@)),
        decreases deps@.len() - j,
    {
        check_const_finite(&deps[j], inits, consts, stack, done)?;
        j = j + 1;
    }
    let ghost sb = stack@;
    stack.pop();
    proof { assert(names_view(stack@) =~= names_view(sb).drop_last()); }
    let ghost d = names_view(done@);
    done.push(name.clone());
    proof { assert(names_view(done@) =~= d.push(name@)); }
    Ok(())
}

/// Rejects consts whose initializers depend on themselves.
fn check_const_cycles(module: &SourceModule, consts: &Vec<(String, ConstDef)>) -> (r: Result<(), TypeError>)
    ensures
        unit_res(r, check_all_consts_finite(const_inits(module@.items, 0), consts_view(consts@), 0, Seq::empty())),
{
    let ghost iv = module@.items;
    let mut inits: Vec<(&String, &Expr)> = Vec::new();
    let mut i: usize = 0;
    while i < module.items.len()
        invariant
            i <= module.items@.len(),
            iv == module@.items,
            const_inits(iv, 0) == inits_view(inits@) + const_inits(iv, i as int),
        decreases module.items@.len() - i,
    {
        let ghost before = inits_view(inits@);
        if let Item::Const(def) = &module.items[i] {
            inits.push((&def.name, &def.value));
            proof {
                assert(inits_view(inits@) =~= before.push((def.name@, def.value@)));
                assert(before + const_inits(iv, i as int) =~= inits_view(inits@) + const_inits(iv, i + 1));
            }
        }
        i = i + 1;
    }
    let ghost civ = inits_view(inits@);
    proof { assert(civ + Seq::<(Seq<char>, SpecExpr)>::empty() =~= civ); }
    let mut done: Vec<String> = Vec::new();
    let mut stack: Vec<String> = Vec::new();
    proof {
        assert(names_view(done@) =~= Seq::<Seq<char>>::empty());
        assert(names_view(stack@) =~= Seq::<Seq<char>>::empty());
    }
    let mut k: usize = 0;
    while k < inits.len()
        invariant
            k <= inits@.len(),
            civ == inits_view(inits@),
            civ == const_inits(iv, 0),
            iv == module@.items,
            names_view(stack@) == Seq::<Seq<char>>::empty(),
            check_all_consts_finite(civ, consts_view(consts@), 0, Seq::empty())
                == check_all_consts_finite(civ, consts_view(consts@), k as int, names_view(done@)),
        decreases inits@.len() - k,
    {
        let name: &String = inits[k].0;
        check_const_finite(name, &inits, consts, &mut stack, &mut done)?;
        k = k + 1;
    }
    Ok(())
}

/// Type-check a module.
pub fn typeck(module: &SourceModule) -> (r: Result<(), TypeError>)
    ensures
        unit_res(r, spec_typeck(module@)),
{
    let (structs, enums) = collect_types(module)?;
    let (fns, consts) = collect_values(module, &structs, &enums)?;
    let ghost iv = module@.items;
    let ghost tys = (structs_view(structs@), enums_view(enums@));
    let ghost vals = (fns_view(fns@), consts_view(consts@));
    let const_checker = checker(&fns, &structs, &enums, &consts, None);
    let ghost c = const_checker.ctx();
    let mut i: usize = 0;
    while i < module.items.len()
        invariant
            i <= module.items@.len(),
            iv == module@.items,
            c == const_checker.ctx(),
            const_checker.env@ == Seq::<Scope>::empty(),
            iv == crate::ast::items_view(module.items@),
            typeck_spec::collect_types(module@) == Ok::<(StructTable, EnumTable), Seq<char>>(tys),
            typeck_spec::collect_values(iv, 0, tys.0, tys.1, Seq::empty(), Seq::empty()) == Ok::<(FnTable, ConstTable), Seq<char>>(vals),
            c == (Ctx { structs: tys.0, enums: tys.1, fns: vals.0, consts: vals.1 }),
            c.consts == consts_view(consts@),
            check_consts(c, iv, 0) == check_consts(c, iv, i as int),
        decreases module.items@.len() - i,
    {
        if let Item::Const(def) = &module.items[i] {
            check_const_ops(&def.value)?;
            let ty = const_checker.check_expr(&def.value)?;
            let expected = match lookup_const(&consts, def.name.as_str()) {
                Some(d) => ty_copy(&d.ty),
                None => Ty::I32,
            };
            if !ty_eq(&ty, &expected) {
                let en = expected.name();
                let tn = ty.name();
                return Err(err(cat7("const `", def.name.as_str(), "` has type `", en.as_str(), "` but initializer has type `", tn.as_str(), "`")));
            }
        }
        i = i + 1;
    }
    check_const_cycles(module, &consts)?;
    i = 0;
    while i < module.items.len()
        invariant
            i <= module.items@.len(),
            iv == module@.items,
            c == (Ctx { structs: structs_view(structs@), enums: enums_view(enums@), fns: fns_view(fns@), consts: consts_view(consts@) }),
            iv == crate::ast::items_view(module.items@),
            typeck_spec::collect_types(module@) == Ok::<(StructTable, EnumTable), Seq<char>>(tys),
            typeck_spec::collect_values(iv, 0, tys.0, tys.1, Seq::empty(), Seq::empty()) == Ok::<(FnTable, ConstTable), Seq<char>>(vals),
            c == (Ctx { structs: tys.0, enums: tys.1, fns: vals.0, consts: vals.1 }),
            check_consts(c, iv, 0) is Ok,
            check_all_consts_finite(const_inits(iv, 0), vals.1, 0, Seq::empty()) is Ok,
            check_functions(c, iv, 0) == check_functions(c, iv, i as int),
        decreases module.items@.len() - i,
    {
        if let Item::Fn(func) = &module.items[i] {
            let ret = match lookup_fn(&fns, func.name.as_str()) {
                Some(sig) => ty_copy(&sig.ret),
                None => Ty::I32,
            };
            let mut chk = checker(&fns, &structs, &enums, &consts, Some(ret));
            chk.check_function(func)?;
        }
        i = i + 1;
    }
    Ok(())
}

} // verus!
