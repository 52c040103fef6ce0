//! Abstract syntax tree of sattle programs, and its mathematical view.
//!
//! Every executable node type has a `Spec*` counterpart in which names are
//! `Seq<char>` and lists are `Seq`. Contracts of the parser, the pretty
//! printer and the type checker are stated over these views.

use vstd::prelude::*;
use crate::text::{int_text, push_i64, push_str, string_of};

verus! {

/// A parsed source file: its items in order.
#[derive(Debug, PartialEq, Eq)]
pub struct SourceModule {
    pub items: Vec<Item>,
}

/// A top-level item.
#[derive(Debug, PartialEq, Eq)]
pub enum Item {
    Fn(Function),
    Struct(StructItem),
    Enum(EnumItem),
    Const(ConstItem),
}

/// `fn name(params) -> return_ty body`
#[derive(Debug, PartialEq, Eq)]
pub struct Function {
    pub name: String,
    pub params: Vec<Param>,
    pub return_ty: Type,
    pub body: Block,
}

/// A function parameter `name: ty`.
#[derive(Debug, PartialEq, Eq)]
pub struct Param {
    pub name: String,
    pub ty: Type,
}

/// `struct Name { field: ty, ... }`
#[derive(Debug, PartialEq, Eq)]
pub struct StructItem {
    pub name: String,
    pub fields: Vec<Field>,
}

/// A struct field declaration `name: ty`.
#[derive(Debug, PartialEq, Eq)]
pub struct Field {
    pub name: String,
    pub ty: Type,
}

/// `enum Name { Variant, ... }`
#[derive(Debug, PartialEq, Eq)]
pub struct EnumItem {
    pub name: String,
    pub variants: Vec<String>,
}

/// `const NAME: ty = value;`
#[derive(Debug, PartialEq, Eq)]
pub struct ConstItem {
    pub name: String,
    pub ty: Type,
    pub value: Expr,
}

/// Type syntax.
#[derive(Debug, PartialEq, Eq)]
pub enum Type {
    Name(String),
    Ptr(Box<Type>),
}

/// `{ stmt* }`
#[derive(Debug, PartialEq, Eq)]
pub struct Block {
    pub stmts: Vec<Stmt>,
}

/// Statements. `mutable` is `true` for `let` and `false` for a local `const`.
#[derive(Debug, PartialEq, Eq)]
pub enum Stmt {
    Return(Expr),
    Print(Expr),
    Let { name: String, ty: Option<Type>, value: Expr, mutable: bool },
    Assign { target: Expr, value: Expr },
    If { cond: Expr, then_block: Block, else_block: Option<Block> },
    While { cond: Expr, body: Block },
    For { name: String, start: Expr, end: Expr, body: Block },
    Break,
    Continue,
    Match { scrutinee: Expr, arms: Vec<MatchArm> },
}

/// One arm `Enum::Variant => { ... }` of a `match`.
#[derive(Debug, PartialEq, Eq)]
pub struct MatchArm {
    pub enum_name: String,
    pub variant: String,
    pub body: Block,
}

/// Expressions.
#[derive(Debug, PartialEq, Eq)]
pub enum Expr {
    Int(i64),
    Bool(bool),
    Var(String),
    Call { name: String, args: Vec<Expr> },
    StructLit { name: String, fields: Vec<(String, Expr)> },
    Variant { enum_name: String, variant: String },
    Field { base: Box<Expr>, field: String },
    Unary { op: UnOp, expr: Box<Expr> },
    Binary { op: BinOp, lhs: Box<Expr>, rhs: Box<Expr> },
}

/// Unary operators: `-`, `!`, `*` (dereference) and `&` (address of).
#[derive(Debug, Clone, Copy, PartialEq, Eq)]
pub enum UnOp {
    Neg,
    Not,
    Deref,
    AddrOf,
}

/// Binary operators.
#[derive(Debug, Clone, Copy, PartialEq, Eq)]
pub enum BinOp {
    Add,
    Sub,
    Mul,
    Div,
    Rem,
    Eq,
    Ne,
    Lt,
    Le,
    Gt,
    Ge,
    And,
    Or,
}

// ---------------------------------------------------------------------------
// Mathematical view of the tree.
// ---------------------------------------------------------------------------
pub struct SpecModule {
    pub items: Seq<SpecItem>,
}

pub enum SpecItem {
    Fn(SpecFunction),
    Struct(SpecStructItem),
    Enum(SpecEnumItem),
    Const(SpecConstItem),
}

pub struct SpecFunction {
    pub name: Seq<char>,
    pub params: Seq<SpecParam>,
    pub return_ty: SpecType,
    pub body: SpecBlock,
}

pub struct SpecParam {
    pub name: Seq<char>,
    pub ty: SpecType,
}

pub struct SpecStructItem {
    pub name: Seq<char>,
    pub fields: Seq<SpecParam>,
}

pub struct SpecEnumItem {
    pub name: Seq<char>,
    pub variants: Seq<Seq<char>>,
}

pub struct SpecConstItem {
    pub name: Seq<char>,
    pub ty: SpecType,
    pub value: SpecExpr,
}

pub enum SpecType {
    Name(Seq<char>),
    Ptr(Box<SpecType>),
}

pub struct SpecBlock {
    pub stmts: Seq<SpecStmt>,
}

pub enum SpecStmt {
    Return(SpecExpr),
    Print(SpecExpr),
    Let { name: Seq<char>, ty: Option<SpecType>, value: SpecExpr, mutable: bool },
    Assign { target: SpecExpr, value: SpecExpr },
    If { cond: SpecExpr, then_block: SpecBlock, else_block: Option<SpecBlock> },
    While { cond: SpecExpr, body: SpecBlock },
    For { name: Seq<char>, start: SpecExpr, end: SpecExpr, body: SpecBlock },
    Break,
    Continue,
    Match { scrutinee: SpecExpr, arms: Seq<SpecMatchArm> },
}

pub struct SpecMatchArm {
    pub enum_name: Seq<char>,
    pub variant: Seq<char>,
    pub body: SpecBlock,
}

pub enum SpecExpr {
    Int(int),
    Bool(bool),
    Var(Seq<char>),
    Call { name: Seq<char>, args: Seq<SpecExpr> },
    StructLit { name: Seq<char>, fields: Seq<(Seq<char>, SpecExpr)> },
    Variant { enum_name: Seq<char>, variant: Seq<char> },
    Field { base: Box<SpecExpr>, field: Seq<char> },
    Unary { op: UnOp, expr: Box<SpecExpr> },
    Binary { op: BinOp, lhs: Box<SpecExpr>, rhs: Box<SpecExpr> },
}

pub open spec fn type_view(t: Type) -> SpecType
    decreases t,
{
    match t {
        Type::Name(n) => SpecType::Name(n@),
        Type::Ptr(inner) => SpecType::Ptr(Box::new(type_view(*inner))),
    }
}

pub open spec fn expr_view(e: Expr) -> SpecExpr
    decreases e,
{
    match e {
        Expr::Int(n) => SpecExpr::Int(n as int),
        Expr::Bool(b) => SpecExpr::Bool(b),
        Expr::Var(n) => SpecExpr::Var(n@),
        Expr::Call { name, args } => SpecExpr::Call { name: name@, args: exprs_view(args@) },
        Expr::StructLit { name, fields } => SpecExpr::StructLit {
            name: name@,
            fields: field_inits_view(fields@),
        },
        Expr::Variant { enum_name, variant } => SpecExpr::Variant {
            enum_name: enum_name@,
            variant: variant@,
        },
        Expr::Field { base, field } => SpecExpr::Field {
            base: Box::new(expr_view(*base)),
            field: field@,
        },
        Expr::Unary { op, expr } => SpecExpr::Unary { op, expr: Box::new(expr_view(*expr)) },
        Expr::Binary { op, lhs, rhs } => SpecExpr::Binary {
            op,
            lhs: Box::new(expr_view(*lhs)),
            rhs: Box::new(expr_view(*rhs)),
        },
    }
}

pub open spec fn exprs_view(s: Seq<Expr>) -> Seq<SpecExpr>
    decreases s,
{
    if s.len() == 0 {
        Seq::empty()
    } else {
        seq![expr_view(s[0])] + exprs_view(s.drop_first())
    }
}

pub open spec fn field_inits_view(s: Seq<(String, Expr)>) -> Seq<(Seq<char>, SpecExpr)>
    decreases s,
{
    if s.len() == 0 {
        Seq::empty()
    } else {
        seq![(s[0].0@, expr_view(s[0].1))] + field_inits_view(s.drop_first())
    }
}

pub open spec fn block_view(b: Block) -> SpecBlock
    decreases b,
{
    SpecBlock { stmts: stmts_view(b.stmts@) }
}

pub open spec fn stmts_view(s: Seq<Stmt>) -> Seq<SpecStmt>
    decreases s,
{
    if s.len() == 0 {
        Seq::empty()
    } else {
        seq![stmt_view(s[0])] + stmts_view(s.drop_first())
    }
}

pub open spec fn arms_view(s: Seq<MatchArm>) -> Seq<SpecMatchArm>
    decreases s,
{
    if s.len() == 0 {
        Seq::empty()
    } else {
        seq![
            SpecMatchArm {
                enum_name: s[0].enum_name@,
                variant: s[0].variant@,
                body: block_view(s[0].body),
            },
        ] + arms_view(s.drop_first())
    }
}

pub open spec fn opt_type_view(t: Option<Type>) -> Option<SpecType> {
    match t {
        Some(t) => Some(type_view(t)),
        None => None,
    }
}

pub open spec fn stmt_view(s: Stmt) -> SpecStmt
    decreases s,
{
    match s {
        Stmt::Return(e) => SpecStmt::Return(expr_view(e)),
        Stmt::Print(e) => SpecStmt::Print(expr_view(e)),
        Stmt::Let { name, ty, value, mutable } => SpecStmt::Let {
            name: name@,
            ty: opt_type_view(ty),
            value: expr_view(value),
            mutable,
        },
        Stmt::Assign { target, value } => SpecStmt::Assign {
            target: expr_view(target),
            value: expr_view(value),
        },
        Stmt::If { cond, then_block, else_block } => SpecStmt::If {
            cond: expr_view(cond),
            then_block: block_view(then_block),
            else_block: match else_block {
                Some(b) => Some(block_view(b)),
                None => None,
            },
        },
        Stmt::While { cond, body } => SpecStmt::While {
            cond: expr_view(cond),
            body: block_view(body),
        },
        Stmt::For { name, start, end, body } => SpecStmt::For {
            name: name@,
            start: expr_view(start),
            end: expr_view(end),
            body: block_view(body),
        },
        Stmt::Break => SpecStmt::Break,
        Stmt::Continue => SpecStmt::Continue,
        Stmt::Match { scrutinee, arms } => SpecStmt::Match {
            scrutinee: expr_view(scrutinee),
            arms: arms_view(arms@),
        },
    }
}

pub open spec fn param_view(p: Param) -> SpecParam {
    SpecParam { name: p.name@, ty: type_view(p.ty) }
}

pub open spec fn field_view(f: Field) -> SpecParam {
    SpecParam { name: f.name@, ty: type_view(f.ty) }
}

pub open spec fn params_view(s: Seq<Param>) -> Seq<SpecParam> {
    s.map_values(|p: Param| param_view(p))
}

pub open spec fn field_decls_view(s: Seq<Field>) -> Seq<SpecParam> {
    s.map_values(|f: Field| field_view(f))
}

pub open spec fn strings_view(s: Seq<String>) -> Seq<Seq<char>> {
    s.map_values(|v: String| v@)
}

pub open spec fn items_view(s: Seq<Item>) -> Seq<SpecItem> {
    s.map_values(|i: Item| item_view(i))
}

pub open spec fn function_view(f: Function) -> SpecFunction {
    SpecFunction {
        name: f.name@,
        params: params_view(f.params@),
        return_ty: type_view(f.return_ty),
        body: block_view(f.body),
    }
}

pub open spec fn item_view(i: Item) -> SpecItem {
    match i {
        Item::Fn(f) => SpecItem::Fn(function_view(f)),
        Item::Struct(s) => SpecItem::Struct(
            SpecStructItem {
                name: s.name@,
                fields: field_decls_view(s.fields@),
            },
        ),
        Item::Enum(e) => SpecItem::Enum(
            SpecEnumItem { name: e.name@, variants: strings_view(e.variants@) },
        ),
        Item::Const(c) => SpecItem::Const(
            SpecConstItem { name: c.name@, ty: type_view(c.ty), value: expr_view(c.value) },
        ),
    }
}

impl View for Type {
    type V = SpecType;

    open spec fn view(&self) -> SpecType {
        type_view(*self)
    }
}

impl View for Expr {
    type V = SpecExpr;

    open spec fn view(&self) -> SpecExpr {
        expr_view(*self)
    }
}

impl View for Block {
    type V = SpecBlock;

    open spec fn view(&self) -> SpecBlock {
        block_view(*self)
    }
}

impl View for Stmt {
    type V = SpecStmt;

    open spec fn view(&self) -> SpecStmt {
        stmt_view(*self)
    }
}

impl View for Item {
    type V = SpecItem;

    open spec fn view(&self) -> SpecItem {
        item_view(*self)
    }
}

impl View for SourceModule {
    type V = SpecModule;

    open spec fn view(&self) -> SpecModule {
        SpecModule { items: items_view(self.items@) }
    }
}

// ---------------------------------------------------------------------------
// Lemmas relating list views to element views.
// ---------------------------------------------------------------------------
pub proof fn lemma_exprs_view(s: Seq<Expr>)
    ensures
        exprs_view(s).len() == s.len(),
        forall|j: int| 0 <= j < s.len() ==> exprs_view(s)[j] == expr_view(#[trigger] s[j]),
    decreases s.len(),
{
    if s.len() > 0 {
        lemma_exprs_view(s.drop_first());
        assert forall|j: int| 0 <= j < s.len() implies exprs_view(s)[j] == expr_view(
            #[trigger] s[j],
        ) by {
            if j > 0 {
                assert(s[j] == s.drop_first()[j - 1]);
            }
        }
    }
}

pub proof fn lemma_field_inits_view(s: Seq<(String, Expr)>)
    ensures
        field_inits_view(s).len() == s.len(),
        forall|j: int|
            0 <= j < s.len() ==> field_inits_view(s)[j].0 == (
            #[trigger] s[j]).0@ && field_inits_view(s)[j].1 == expr_view(s[j].1),
    decreases s.len(),
{
    if s.len() > 0 {
        lemma_field_inits_view(s.drop_first());
        assert forall|j: int| 0 <= j < s.len() implies field_inits_view(s)[j].0 == (
        #[trigger] s[j]).0@ && field_inits_view(s)[j].1 == expr_view(s[j].1) by {
            if j > 0 {
                assert(s[j] == s.drop_first()[j - 1]);
            }
        }
    }
}

pub proof fn lemma_stmts_view(s: Seq<Stmt>)
    ensures
        stmts_view(s).len() == s.len(),
        forall|j: int| 0 <= j < s.len() ==> stmts_view(s)[j] == stmt_view(#[trigger] s[j]),
    decreases s.len(),
{
    if s.len() > 0 {
        lemma_stmts_view(s.drop_first());
        assert forall|j: int| 0 <= j < s.len() implies stmts_view(s)[j] == stmt_view(
            #[trigger] s[j],
        ) by {
            if j > 0 {
                assert(s[j] == s.drop_first()[j - 1]);
            }
        }
    }
}

pub proof fn lemma_arms_view(s: Seq<MatchArm>)
    ensures
        arms_view(s).len() == s.len(),
        forall|j: int|
            0 <= j < s.len() ==> arms_view(s)[j] == (SpecMatchArm {
                enum_name: (#[trigger] s[j]).enum_name@,
                variant: s[j].variant@,
                body: block_view(s[j].body),
            }),
    decreases s.len(),
{
    if s.len() > 0 {
        lemma_arms_view(s.drop_first());
        assert forall|j: int| 0 <= j < s.len() implies arms_view(s)[j] == (SpecMatchArm {
            enum_name: (#[trigger] s[j]).enum_name@,
            variant: s[j].variant@,
            body: block_view(s[j].body),
        }) by {
            if j > 0 {
                assert(s[j] == s.drop_first()[j - 1]);
            }
        }
    }
}

pub proof fn lemma_exprs_view_push(s: Seq<Expr>, x: Expr)
    ensures
        exprs_view(s.push(x)) == exprs_view(s).push(expr_view(x)),
{
    lemma_exprs_view(s);
    lemma_exprs_view(s.push(x));
    assert forall|j: int| 0 <= j < s.len() + 1 implies #[trigger] exprs_view(s.push(x))[j]
        == exprs_view(s).push(expr_view(x))[j] by {
        if j < s.len() {
            assert(s.push(x)[j] == s[j]);
        } else {
            assert(s.push(x)[j] == x);
        }
    }
    assert(exprs_view(s.push(x)) =~= exprs_view(s).push(expr_view(x)));
}

pub proof fn lemma_field_inits_view_push(s: Seq<(String, Expr)>, x: (String, Expr))
    ensures
        field_inits_view(s.push(x)) == field_inits_view(s).push((x.0@, expr_view(x.1))),
{
    lemma_field_inits_view(s);
    lemma_field_inits_view(s.push(x));
    assert forall|j: int| 0 <= j < s.len() + 1 implies #[trigger] field_inits_view(s.push(x))[j]
        == field_inits_view(s).push((x.0@, expr_view(x.1)))[j] by {
        if j < s.len() {
            assert(s.push(x)[j] == s[j]);
        } else {
            assert(s.push(x)[j] == x);
        }
    }
    assert(field_inits_view(s.push(x)) =~= field_inits_view(s).push((x.0@, expr_view(x.1))));
}

pub proof fn lemma_stmts_view_push(s: Seq<Stmt>, x: Stmt)
    ensures
        stmts_view(s.push(x)) == stmts_view(s).push(stmt_view(x)),
{
    lemma_stmts_view(s);
    lemma_stmts_view(s.push(x));
    assert forall|j: int| 0 <= j < s.len() + 1 implies #[trigger] stmts_view(s.push(x))[j]
        == stmts_view(s).push(stmt_view(x))[j] by {
        if j < s.len() {
            assert(s.push(x)[j] == s[j]);
        } else {
            assert(s.push(x)[j] == x);
        }
    }
    assert(stmts_view(s.push(x)) =~= stmts_view(s).push(stmt_view(x)));
}

pub proof fn lemma_arms_view_push(s: Seq<MatchArm>, x: MatchArm)
    ensures
        arms_view(s.push(x)) == arms_view(s).push(
            SpecMatchArm { enum_name: x.enum_name@, variant: x.variant@, body: block_view(x.body) },
        ),
{
    lemma_arms_view(s);
    lemma_arms_view(s.push(x));
    assert forall|j: int| 0 <= j < s.len() + 1 implies #[trigger] arms_view(s.push(x))[j]
        == arms_view(s).push(
        SpecMatchArm { enum_name: x.enum_name@, variant: x.variant@, body: block_view(x.body) },
    )[j] by {
        if j < s.len() {
            assert(s.push(x)[j] == s[j]);
        } else {
            assert(s.push(x)[j] == x);
        }
    }
    assert(arms_view(s.push(x)) =~= arms_view(s).push(
        SpecMatchArm { enum_name: x.enum_name@, variant: x.variant@, body: block_view(x.body) },
    ));
}

// ---------------------------------------------------------------------------
// The tree dump.
//
// `emit_*` append the dump of a node to the text `out`, each line indented by
// `ind` and children by two more spaces.
// ---------------------------------------------------------------------------
pub open spec fn step(ind: Seq<char>) -> Seq<char> {
    ind + "  "@
}

pub open spec fn unop_text(op: UnOp) -> Seq<char> {
    match op {
        UnOp::Neg => "-"@,
        UnOp::Not => "!"@,
        UnOp::Deref => "*"@,
        UnOp::AddrOf => "&"@,
    }
}

pub open spec fn binop_text(op: BinOp) -> Seq<char> {
    match op {
        BinOp::Add => "+"@,
        BinOp::Sub => "-"@,
        BinOp::Mul => "*"@,
        BinOp::Div => "/"@,
        BinOp::Rem => "%"@,
        BinOp::Eq => "=="@,
        BinOp::Ne => "!="@,
        BinOp::Lt => "<"@,
        BinOp::Le => "<="@,
        BinOp::Gt => ">"@,
        BinOp::Ge => ">="@,
        BinOp::And => "&&"@,
        BinOp::Or => "||"@,
    }
}

pub open spec fn bool_text(b: bool) -> Seq<char> {
    if b {
        "true"@
    } else {
        "false"@
    }
}

pub open spec fn emit_type(out: Seq<char>, t: SpecType, ind: Seq<char>) -> Seq<char>
    decreases t,
{
    match t {
        SpecType::Name(n) => out + ind + "Name("@ + n + ")\n"@,
        SpecType::Ptr(inner) => emit_type(out + ind + "Ptr\n"@, *inner, step(ind)),
    }
}

pub open spec fn emit_expr(out: Seq<char>, e: SpecExpr, ind: Seq<char>) -> Seq<char>
    decreases e,
{
    match e {
        SpecExpr::Int(n) => out + ind + "Int("@ + int_text(n) + ")\n"@,
        SpecExpr::Bool(b) => out + ind + "Bool("@ + bool_text(b) + ")\n"@,
        SpecExpr::Var(n) => out + ind + "Var("@ + n + ")\n"@,
        SpecExpr::Call { name, args } => emit_exprs(
            out + ind + "Call("@ + name + ")\n"@,
            args,
            step(ind),
        ),
        SpecExpr::StructLit { name, fields } => emit_field_inits(
            out + ind + "StructLit("@ + name + ")\n"@,
            fields,
            step(ind),
        ),
        SpecExpr::Variant { enum_name, variant } => out + ind + "Variant("@ + enum_name + "::"@
            + variant + ")\n"@,
        SpecExpr::Field { base, field } => emit_expr(
            out + ind + "Field("@ + field + ")\n"@,
            *base,
            step(ind),
        ),
        SpecExpr::Unary { op, expr } => emit_expr(
            out + ind + "Unary("@ + unop_text(op) + ")\n"@,
            *expr,
            step(ind),
        ),
        SpecExpr::Binary { op, lhs, rhs } => emit_expr(
            emit_expr(out + ind + "Binary("@ + binop_text(op) + ")\n"@, *lhs, step(ind)),
            *rhs,
            step(ind),
        ),
    }
}

pub open spec fn emit_exprs(out: Seq<char>, es: Seq<SpecExpr>, ind: Seq<char>) -> Seq<char>
    decreases es,
{
    if es.len() == 0 {
        out
    } else {
        emit_exprs(emit_expr(out, es[0], ind), es.drop_first(), ind)
    }
}

pub open spec fn emit_field_inits(
    out: Seq<char>,
    fs: Seq<(Seq<char>, SpecExpr)>,
    ind: Seq<char>,
) -> Seq<char>
    decreases fs,
{
    if fs.len() == 0 {
        out
    } else {
        emit_field_inits(
            emit_expr(out + ind + "Field "@ + fs[0].0 + "\n"@, fs[0].1, step(ind)),
            fs.drop_first(),
            ind,
        )
    }
}

pub open spec fn emit_block(out: Seq<char>, b: SpecBlock, ind: Seq<char>) -> Seq<char>
    decreases b,
{
    emit_stmts(out + ind + "Block\n"@, b.stmts, step(ind))
}

pub open spec fn emit_stmts(out: Seq<char>, ss: Seq<SpecStmt>, ind: Seq<char>) -> Seq<char>
    decreases ss,
{
    if ss.len() == 0 {
        out
    } else {
        emit_stmts(emit_stmt(out, ss[0], ind), ss.drop_first(), ind)
    }
}

pub open spec fn let_keyword(mutable: bool) -> Seq<char> {
    if mutable {
        "Let "@
    } else {
        "Const "@
    }
}

pub open spec fn emit_stmt(out: Seq<char>, s: SpecStmt, ind: Seq<char>) -> Seq<char>
    decreases s,
{
    match s {
        SpecStmt::Return(e) => emit_expr(out + ind + "Return\n"@, e, step(ind)),
        SpecStmt::Print(e) => emit_expr(out + ind + "Print\n"@, e, step(ind)),
        SpecStmt::Let { name, ty, value, mutable } => {
            let head = out + ind + let_keyword(mutable) + name + "\n"@;
            let typed = match ty {
                Some(t) => emit_type(head + step(ind) + "Type\n"@, t, step(step(ind))),
                None => head,
            };
            emit_expr(typed, value, step(ind))
        },
        SpecStmt::Assign { target, value } => emit_expr(
            emit_expr(out + ind + "Assign\n"@, target, step(ind)),
            value,
            step(ind),
        ),
        SpecStmt::If { cond, then_block, else_block } => {
            let c = emit_expr(out + ind + "If\n"@ + step(ind) + "Cond\n"@, cond, step(step(ind)));
            let t = emit_block(c + step(ind) + "Then\n"@, then_block, step(step(ind)));
            match else_block {
                Some(b) => emit_block(t + step(ind) + "Else\n"@, b, step(step(ind))),
                None => t,
            }
        },
        SpecStmt::While { cond, body } => {
            let c = emit_expr(out + ind + "While\n"@ + step(ind) + "Cond\n"@, cond, step(step(ind)));
            emit_block(c + step(ind) + "Body\n"@, body, step(step(ind)))
        },
        SpecStmt::For { name, start, end, body } => {
            let a = emit_expr(
                out + ind + "For "@ + name + "\n"@ + step(ind) + "Start\n"@,
                start,
                step(step(ind)),
            );
            let b = emit_expr(a + step(ind) + "End\n"@, end, step(step(ind)));
            emit_block(b + step(ind) + "Body\n"@, body, step(step(ind)))
        },
        SpecStmt::Break => out + ind + "Break\n"@,
        SpecStmt::Continue => out + ind + "Continue\n"@,
        SpecStmt::Match { scrutinee, arms } => emit_arms(
            emit_expr(out + ind + "Match\n"@, scrutinee, step(ind)),
            arms,
            step(ind),
        ),
    }
}

pub open spec fn emit_arms(out: Seq<char>, arms: Seq<SpecMatchArm>, ind: Seq<char>) -> Seq<char>
    decreases arms,
{
    if arms.len() == 0 {
        out
    } else {
        emit_arms(
            emit_block(
                out + ind + "Arm "@ + arms[0].enum_name + "::"@ + arms[0].variant + "\n"@,
                arms[0].body,
                step(ind),
            ),
            arms.drop_first(),
            ind,
        )
    }
}

/// Parameter or field declarations, each `LABEL name` over its type.
pub open spec fn emit_decls(
    out: Seq<char>,
    ds: Seq<SpecParam>,
    label: Seq<char>,
    ind: Seq<char>,
) -> Seq<char>
    decreases ds.len(),
{
    if ds.len() == 0 {
        out
    } else {
        emit_decls(
            emit_type(out + ind + label + ds[0].name + "\n"@, ds[0].ty, step(ind)),
            ds.drop_first(),
            label,
            ind,
        )
    }
}

pub open spec fn emit_variants(out: Seq<char>, vs: Seq<Seq<char>>, ind: Seq<char>) -> Seq<char>
    decreases vs.len(),
{
    if vs.len() == 0 {
        out
    } else {
        emit_variants(out + ind + "Variant "@ + vs[0] + "\n"@, vs.drop_first(), ind)
    }
}

pub open spec fn emit_item(out: Seq<char>, i: SpecItem, ind: Seq<char>) -> Seq<char> {
    match i {
        SpecItem::Fn(f) => {
            let a = emit_decls(out + ind + "Fn "@ + f.name + "\n"@, f.params, "Param "@, step(ind));
            let b = emit_type(a + step(ind) + "ReturnType\n"@, f.return_ty, step(step(ind)));
            emit_block(b + step(ind) + "Body\n"@, f.body, step(step(ind)))
        },
        SpecItem::Struct(s) => emit_decls(
            out + ind + "Struct "@ + s.name + "\n"@,
            s.fields,
            "Field "@,
            step(ind),
        ),
        SpecItem::Enum(e) => emit_variants(out + ind + "Enum "@ + e.name + "\n"@, e.variants, step(ind)),
        SpecItem::Const(c) => emit_expr(
            emit_type(
                out + ind + "Const "@ + c.name + "\n"@ + step(ind) + "Type\n"@,
                c.ty,
                step(step(ind)),
            ),
            c.value,
            step(ind),
        ),
    }
}

pub open spec fn emit_items(out: Seq<char>, items: Seq<SpecItem>, ind: Seq<char>) -> Seq<char>
    decreases items.len(),
{
    if items.len() == 0 {
        out
    } else {
        emit_items(emit_item(out, items[0], ind), items.drop_first(), ind)
    }
}

/// The dump of a module: `Module`, then each item one level in.
pub open spec fn module_dump(m: SpecModule) -> Seq<char> {
    emit_items("Module\n"@, m.items, "  "@)
}

/// `ind` and two more spaces.
fn child_indent(ind: &str) -> (r: String)
    ensures
        r@ == step(ind@),
{
    let mut c = string_of(ind);
    push_str(&mut c, "  ");
    c
}

fn write_type(out: &mut String, ty: &Type, ind: &str)
    ensures
        final(out)@ == emit_type(old(out)@, ty@, ind@),
    decreases ty,
{
    match ty {
        Type::Name(name) => {
            push_str(out, ind);
            push_str(out, "Name(");
            push_str(out, name.as_str());
            push_str(out, ")\n");
        },
        Type::Ptr(inner) => {
            push_str(out, ind);
            push_str(out, "Ptr\n");
            let c = child_indent(ind);
            write_type(out, inner, c.as_str());
        },
    }
}

fn write_expr(out: &mut String, expr: &Expr, ind: &str)
    ensures
        final(out)@ == emit_expr(old(out)@, expr@, ind@),
    decreases expr,
{
    match expr {
        Expr::Int(n) => {
            push_str(out, ind);
            push_str(out, "Int(");
            push_i64(out, *n);
            push_str(out, ")\n");
        },
        Expr::Bool(b) => {
            push_str(out, ind);
            push_str(out, "Bool(");
            push_str(out, if *b { "true" } else { "false" });
            push_str(out, ")\n");
        },
        Expr::Var(name) => {
            push_str(out, ind);
            push_str(out, "Var(");
            push_str(out, name.as_str());
            push_str(out, ")\n");
        },
        Expr::Call { name, args } => {
            push_str(out, ind);
            push_str(out, "Call(");
            push_str(out, name.as_str());
            push_str(out, ")\n");
            let c = child_indent(ind);
            let ghost av = exprs_view(args@);
            let ghost mid = out@;
            proof {
                lemma_exprs_view(args@);
            }
            proof {
                assert(av.subrange(0, av.len() as int) =~= av);
            }
            let mut i: usize = 0;
            while i < args.len()
                invariant
                    *expr == (Expr::Call { name: *name, args: *args }),
                    i <= args@.len(),
                    av == exprs_view(args@),
                    av.len() == args@.len(),
                    forall|j: int| 0 <= j < args@.len() ==> av[j] == expr_view(#[trigger] args@[j]),
                    c@ == step(ind@),
                    emit_exprs(mid, av, c@) == emit_exprs(out@, av.subrange(i as int, av.len() as int), c@),
                decreases args@.len() - i,
            {
                proof {
                    assert(decreases_to!(*expr => (*expr)->args));
                    assert(decreases_to!(*args => args@));
                    assert(decreases_to!(args@ => args@[i as int]));
                    assert(av.subrange(i as int, av.len() as int).drop_first() =~= av.subrange(
                        i + 1,
                        av.len() as int,
                    ));
                }
                write_expr(out, &args[i], c.as_str());
                i = i + 1;
            }
            proof {
                assert(av.subrange(av.len() as int, av.len() as int) =~= Seq::<SpecExpr>::empty());
            }
        },
        Expr::StructLit { name, fields } => {
            push_str(out, ind);
            push_str(out, "StructLit(");
            push_str(out, name.as_str());
            push_str(out, ")\n");
            let c = child_indent(ind);
            let cc = child_indent(c.as_str());
            let ghost fv = field_inits_view(fields@);
            let ghost mid = out@;
            proof {
                lemma_field_inits_view(fields@);
            }
            proof {
                assert(fv.subrange(0, fv.len() as int) =~= fv);
            }
            let mut i: usize = 0;
            while i < fields.len()
                invariant
                    *expr == (Expr::StructLit { name: *name, fields: *fields }),
                    i <= fields@.len(),
                    fv == field_inits_view(fields@),
                    fv.len() == fields@.len(),
                    forall|j: int|
                        0 <= j < fields@.len() ==> fv[j].0 == (#[trigger] fields@[j]).0@ && fv[j].1
                            == expr_view(fields@[j].1),
                    c@ == step(ind@),
                    cc@ == step(c@),
                    emit_field_inits(mid, fv, c@) == emit_field_inits(
                        out@,
                        fv.subrange(i as int, fv.len() as int),
                        c@,
                    ),
                decreases fields@.len() - i,
            {
                proof {
                    assert(decreases_to!(*expr => (*expr)->fields));
                    assert(decreases_to!(*fields => fields@));
                    assert(decreases_to!(fields@ => fields@[i as int]));
                    assert(decreases_to!(fields@[i as int] => fields@[i as int].1));
                    assert(fv.subrange(i as int, fv.len() as int).drop_first() =~= fv.subrange(
                        i + 1,
                        fv.len() as int,
                    ));
                }
                push_str(out, c.as_str());
                push_str(out, "Field ");
                push_str(out, fields[i].0.as_str());
                push_str(out, "\n");
                write_expr(out, &fields[i].1, cc.as_str());
                i = i + 1;
            }
            proof {
                assert(fv.subrange(fv.len() as int, fv.len() as int) =~= Seq::<
                    (Seq<char>, SpecExpr),
                >::empty());
            }
        },
        Expr::Variant { enum_name, variant } => {
            push_str(out, ind);
            push_str(out, "Variant(");
            push_str(out, enum_name.as_str());
            push_str(out, "::");
            push_str(out, variant.as_str());
            push_str(out, ")\n");
        },
        Expr::Field { base, field } => {
            push_str(out, ind);
            push_str(out, "Field(");
            push_str(out, field.as_str());
            push_str(out, ")\n");
            let c = child_indent(ind);
            write_expr(out, base, c.as_str());
        },
        Expr::Unary { op, expr: inner } => {
            push_str(out, ind);
            push_str(out, "Unary(");
            push_str(out, unop_str(*op));
            push_str(out, ")\n");
            let c = child_indent(ind);
            write_expr(out, inner, c.as_str());
        },
        Expr::Binary { op, lhs, rhs } => {
            push_str(out, ind);
            push_str(out, "Binary(");
            push_str(out, binop_str(*op));
            push_str(out, ")\n");
            let c = child_indent(ind);
            write_expr(out, lhs, c.as_str());
            write_expr(out, rhs, c.as_str());
        },
    }
}

/// The text of a unary operator.
pub(crate) fn unop_str(op: UnOp) -> (r: &'static str)
    ensures
        r@ == unop_text(op),
{
    match op {
        UnOp::Neg => "-",
        UnOp::Not => "!",
        UnOp::Deref => "*",
        UnOp::AddrOf => "&",
    }
}

/// The text of a binary operator.
pub(crate) fn binop_str(op: BinOp) -> (r: &'static str)
    ensures
        r@ == binop_text(op),
{
    match op {
        BinOp::Add => "+",
        BinOp::Sub => "-",
        BinOp::Mul => "*",
        BinOp::Div => "/",
        BinOp::Rem => "%",
        BinOp::Eq => "==",
        BinOp::Ne => "!=",
        BinOp::Lt => "<",
        BinOp::Le => "<=",
        BinOp::Gt => ">",
        BinOp::Ge => ">=",
        BinOp::And => "&&",
        BinOp::Or => "||",
    }
}

fn write_block(out: &mut String, block: &Block, ind: &str)
    ensures
        final(out)@ == emit_block(old(out)@, block@, ind@),
    decreases block,
{
    push_str(out, ind);
    push_str(out, "Block\n");
    let c = child_indent(ind);
    let ghost sv = stmts_view(block.stmts@);
    let ghost mid = out@;
    proof {
        lemma_stmts_view(block.stmts@);
    }
    proof {
        assert(sv.subrange(0, sv.len() as int) =~= sv);
    }
    let mut i: usize = 0;
    while i < block.stmts.len()
        invariant
            i <= block.stmts@.len(),
            sv == stmts_view(block.stmts@),
            sv.len() == block.stmts@.len(),
            forall|j: int| 0 <= j < block.stmts@.len() ==> sv[j] == stmt_view(#[trigger] block.stmts@[j]),
            c@ == step(ind@),
            emit_stmts(mid, sv, c@) == emit_stmts(out@, sv.subrange(i as int, sv.len() as int), c@),
        decreases block.stmts@.len() - i,
    {
        proof {
            assert(decreases_to!(*block => block.stmts));
            assert(decreases_to!(block.stmts => block.stmts@));
            assert(decreases_to!(block.stmts@ => block.stmts@[i as int]));
            assert(sv.subrange(i as int, sv.len() as int).drop_first() =~= sv.subrange(
                i + 1,
                sv.len() as int,
            ));
        }
        write_stmt(out, &block.stmts[i], c.as_str());
        i = i + 1;
    }
    proof {
        assert(sv.subrange(sv.len() as int, sv.len() as int) =~= Seq::<SpecStmt>::empty());
    }
}

fn write_stmt(out: &mut String, stmt: &Stmt, ind: &str)
    ensures
        final(out)@ == emit_stmt(old(out)@, stmt@, ind@),
    decreases stmt,
{
    let c = child_indent(ind);
    let cc = child_indent(c.as_str());
    match stmt {
        Stmt::Return(expr) => {
            push_str(out, ind);
            push_str(out, "Return\n");
            write_expr(out, expr, c.as_str());
        },
        Stmt::Print(expr) => {
            push_str(out, ind);
            push_str(out, "Print\n");
            write_expr(out, expr, c.as_str());
        },
        Stmt::Let { name, ty, value, mutable } => {
            push_str(out, ind);
            push_str(out, if *mutable { "Let " } else { "Const " });
            push_str(out, name.as_str());
            push_str(out, "\n");
            if let Some(t) = ty {
                push_str(out, c.as_str());
                push_str(out, "Type\n");
                write_type(out, t, cc.as_str());
            }
            write_expr(out, value, c.as_str());
        },
        Stmt::Assign { target, value } => {
            push_str(out, ind);
            push_str(out, "Assign\n");
            write_expr(out, target, c.as_str());
            write_expr(out, value, c.as_str());
        },
        Stmt::If { cond, then_block, else_block } => {
            push_str(out, ind);
            push_str(out, "If\n");
            push_str(out, c.as_str());
            push_str(out, "Cond\n");
            write_expr(out, cond, cc.as_str());
            push_str(out, c.as_str());
            push_str(out, "Then\n");
            write_block(out, then_block, cc.as_str());
            if let Some(b) = else_block {
                push_str(out, c.as_str());
                push_str(out, "Else\n");
                write_block(out, b, cc.as_str());
            }
        },
        Stmt::While { cond, body } => {
            push_str(out, ind);
            push_str(out, "While\n");
            push_str(out, c.as_str());
            push_str(out, "Cond\n");
            write_expr(out, cond, cc.as_str());
            push_str(out, c.as_str());
            push_str(out, "Body\n");
            write_block(out, body, cc.as_str());
        },
        Stmt::For { name, start, end, body } => {
            push_str(out, ind);
            push_str(out, "For ");
            push_str(out, name.as_str());
            push_str(out, "\n");
            push_str(out, c.as_str());
            push_str(out, "Start\n");
            write_expr(out, start, cc.as_str());
            push_str(out, c.as_str());
            push_str(out, "End\n");
            write_expr(out, end, cc.as_str());
            push_str(out, c.as_str());
            push_str(out, "Body\n");
            write_block(out, body, cc.as_str());
        },
        Stmt::Break => {
            push_str(out, ind);
            push_str(out, "Break\n");
        },
        Stmt::Continue => {
            push_str(out, ind);
            push_str(out, "Continue\n");
        },
        Stmt::Match { scrutinee, arms } => {
            push_str(out, ind);
            push_str(out, "Match\n");
            write_expr(out, scrutinee, c.as_str());
            let ghost av = arms_view(arms@);
            let ghost mid = out@;
            proof {
                lemma_arms_view(arms@);
            }
            proof {
                assert(av.subrange(0, av.len() as int) =~= av);
            }
            let mut i: usize = 0;
            while i < arms.len()
                invariant
                    *stmt == (Stmt::Match { scrutinee: *scrutinee, arms: *arms }),
                    i <= arms@.len(),
                    av == arms_view(arms@),
                    av.len() == arms@.len(),
                    forall|j: int|
                        0 <= j < arms@.len() ==> av[j] == (SpecMatchArm {
                            enum_name: (#[trigger] arms@[j]).enum_name@,
                            variant: arms@[j].variant@,
                            body: block_view(arms@[j].body),
                        }),
                    c@ == step(ind@),
                    cc@ == step(c@),
                    emit_arms(mid, av, c@) == emit_arms(out@, av.subrange(i as int, av.len() as int), c@),
                decreases arms@.len() - i,
            {
                proof {
                    assert(decreases_to!(*stmt => (*stmt)->arms));
                    assert(decreases_to!(*arms => arms@));
                    assert(decreases_to!(arms@ => arms@[i as int]));
                    assert(decreases_to!(arms@[i as int] => arms@[i as int].body));
                    assert(av.subrange(i as int, av.len() as int).drop_first() =~= av.subrange(
                        i + 1,
                        av.len() as int,
                    ));
                }
                push_str(out, c.as_str());
                push_str(out, "Arm ");
                push_str(out, arms[i].enum_name.as_str());
                push_str(out, "::");
                push_str(out, arms[i].variant.as_str());
                push_str(out, "\n");
                write_block(out, &arms[i].body, cc.as_str());
                i = i + 1;
            }
            proof {
                assert(av.subrange(av.len() as int, av.len() as int) =~= Seq::<SpecMatchArm>::empty());
            }
        },
    }
}

fn write_params(out: &mut String, params: &Vec<Param>, ind: &str)
    ensures
        final(out)@ == emit_decls(old(out)@, params_view(params@), "Param "@, ind@),
{
    let c = child_indent(ind);
    let ghost pv = params_view(params@);
    let ghost start = out@;
    proof {
        assert(pv.subrange(0, pv.len() as int) =~= pv);
    }
    let mut i: usize = 0;
    while i < params.len()
        invariant
            i <= params@.len(),
            pv == params_view(params@),
            c@ == step(ind@),
            emit_decls(start, pv, "Param "@, ind@) == emit_decls(
                out@,
                pv.subrange(i as int, pv.len() as int),
                "Param "@,
                ind@,
            ),
        decreases params@.len() - i,
    {
        proof {
            assert(pv.subrange(i as int, pv.len() as int).drop_first() =~= pv.subrange(
                i + 1,
                pv.len() as int,
            ));
        }
        push_str(out, ind);
        push_str(out, "Param ");
        push_str(out, params[i].name.as_str());
        push_str(out, "\n");
        write_type(out, &params[i].ty, c.as_str());
        i = i + 1;
    }
    proof {
        assert(pv.subrange(pv.len() as int, pv.len() as int) =~= Seq::<SpecParam>::empty());
    }
}

fn write_fields(out: &mut String, fields: &Vec<Field>, ind: &str)
    ensures
        final(out)@ == emit_decls(old(out)@, field_decls_view(fields@), "Field "@, ind@),
{
    let c = child_indent(ind);
    let ghost fv = field_decls_view(fields@);
    let ghost start = out@;
    proof {
        assert(fv.subrange(0, fv.len() as int) =~= fv);
    }
    let mut i: usize = 0;
    while i < fields.len()
        invariant
            i <= fields@.len(),
            fv == field_decls_view(fields@),
            c@ == step(ind@),
            emit_decls(start, fv, "Field "@, ind@) == emit_decls(
                out@,
                fv.subrange(i as int, fv.len() as int),
                "Field "@,
                ind@,
            ),
        decreases fields@.len() - i,
    {
        proof {
            assert(fv.subrange(i as int, fv.len() as int).drop_first() =~= fv.subrange(
                i + 1,
                fv.len() as int,
            ));
        }
        push_str(out, ind);
        push_str(out, "Field ");
        push_str(out, fields[i].name.as_str());
        push_str(out, "\n");
        write_type(out, &fields[i].ty, c.as_str());
        i = i + 1;
    }
    proof {
        assert(fv.subrange(fv.len() as int, fv.len() as int) =~= Seq::<SpecParam>::empty());
    }
}

fn write_variants(out: &mut String, variants: &Vec<String>, ind: &str)
    ensures
        final(out)@ == emit_variants(old(out)@, strings_view(variants@), ind@),
{
    let ghost vv = strings_view(variants@);
    let ghost start = out@;
    proof {
        assert(vv.subrange(0, vv.len() as int) =~= vv);
    }
    let mut i: usize = 0;
    while i < variants.len()
        invariant
            i <= variants@.len(),
            vv == strings_view(variants@),
            emit_variants(start, vv, ind@) == emit_variants(
                out@,
                vv.subrange(i as int, vv.len() as int),
                ind@,
            ),
        decreases variants@.len() - i,
    {
        proof {
            assert(vv.subrange(i as int, vv.len() as int).drop_first() =~= vv.subrange(
                i + 1,
                vv.len() as int,
            ));
        }
        push_str(out, ind);
        push_str(out, "Variant ");
        push_str(out, variants[i].as_str());
        push_str(out, "\n");
        i = i + 1;
    }
    proof {
        assert(vv.subrange(vv.len() as int, vv.len() as int) =~= Seq::<Seq<char>>::empty());
    }
}

fn write_item(out: &mut String, item: &Item, ind: &str)
    ensures
        final(out)@ == emit_item(old(out)@, item@, ind@),
{
    let c = child_indent(ind);
    let cc = child_indent(c.as_str());
    match item {
        Item::Fn(func) => {
            push_str(out, ind);
            push_str(out, "Fn ");
            push_str(out, func.name.as_str());
            push_str(out, "\n");
            write_params(out, &func.params, c.as_str());
            push_str(out, c.as_str());
            push_str(out, "ReturnType\n");
            write_type(out, &func.return_ty, cc.as_str());
            push_str(out, c.as_str());
            push_str(out, "Body\n");
            write_block(out, &func.body, cc.as_str());
        },
        Item::Struct(def) => {
            push_str(out, ind);
            push_str(out, "Struct ");
            push_str(out, def.name.as_str());
            push_str(out, "\n");
            write_fields(out, &def.fields, c.as_str());
        },
        Item::Enum(def) => {
            push_str(out, ind);
            push_str(out, "Enum ");
            push_str(out, def.name.as_str());
            push_str(out, "\n");
            write_variants(out, &def.variants, c.as_str());
        },
        Item::Const(def) => {
            push_str(out, ind);
            push_str(out, "Const ");
            push_str(out, def.name.as_str());
            push_str(out, "\n");
            push_str(out, c.as_str());
            push_str(out, "Type\n");
            write_type(out, &def.ty, cc.as_str());
            write_expr(out, &def.value, c.as_str());
        },
    }
}

/// Pretty-print the AST: one node per line, children indented by two spaces.
pub fn format_ast(module: &SourceModule) -> (r: String)
    ensures
        r@ == module_dump(module@),
{
    let mut out = string_of("Module\n");
    let ind = string_of("  ");
    let ghost iv = items_view(module.items@);
    let ghost start = out@;
    proof {
        assert(iv.subrange(0, iv.len() as int) =~= iv);
    }
    let mut i: usize = 0;
    while i < module.items.len()
        invariant
            i <= module.items@.len(),
            iv == items_view(module.items@),
            ind@ == "  "@,
            start == "Module\n"@,
            emit_items(start, iv, ind@) == emit_items(out@, iv.subrange(i as int, iv.len() as int), ind@),
        decreases module.items@.len() - i,
    {
        proof {
            assert(iv.subrange(i as int, iv.len() as int).drop_first() =~= iv.subrange(
                i + 1,
                iv.len() as int,
            ));
        }
        write_item(&mut out, &module.items[i], ind.as_str());
        i = i + 1;
    }
    proof {
        assert(iv.subrange(iv.len() as int, iv.len() as int) =~= Seq::<SpecItem>::empty());
    }
    out
}

} // verus!
