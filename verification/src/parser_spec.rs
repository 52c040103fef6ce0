//! The grammar of sattle, as a recursive-descent definition over token views.
//!
//! Every `p_*` function takes the tokens (kind, start, end), the end-of-file
//! offset and a position, and yields either the parsed view and the position
//! after it, or an error message with the byte offset where it is reported.
//! Positions only move forward; the `bad_step` branches never occur and only
//! make termination evident.

use vstd::prelude::*;
use crate::ast::{
    BinOp, SpecBlock, SpecConstItem, SpecEnumItem, SpecExpr, SpecFunction, SpecItem,
    SpecMatchArm, SpecModule, SpecParam, SpecStmt, SpecStructItem, SpecType, UnOp,
};
use crate::lexer::{token_text, SpecToken};

verus! {

pub type Toks = Seq<(SpecToken, int, int)>;

/// A parse outcome: the value and the next position, or (message, offset).
pub type PRes<T> = Result<(T, int), (Seq<char>, int)>;

pub open spec fn peek(ts: Toks, p: int) -> Option<SpecToken> {
    if 0 <= p < ts.len() {
        Some(ts[p].0)
    } else {
        None
    }
}

pub open spec fn at(ts: Toks, p: int, k: SpecToken) -> bool {
    peek(ts, p) == Some(k)
}

/// Where an error at position `p` is reported: the start of that token, or the end of the source.
pub open spec fn offset_at(ts: Toks, eof: int, p: int) -> int {
    if 0 <= p < ts.len() {
        ts[p].1
    } else {
        eof
    }
}

/// How the token at `p` is named in messages.
pub open spec fn found(ts: Toks, p: int) -> Seq<char> {
    match peek(ts, p) {
        Some(k) => token_text(k),
        None => "end of file"@,
    }
}

pub open spec fn err_at<T>(ts: Toks, eof: int, p: int, msg: Seq<char>) -> PRes<T> {
    Err((msg, offset_at(ts, eof, p)))
}

/// `expected LABEL, found …`
pub open spec fn expected_msg(ts: Toks, p: int, label: Seq<char>) -> Seq<char> {
    "expected "@ + label + ", found "@ + found(ts, p)
}

/// A step from `p` to `q` that does not move forward within the tokens.
pub open spec fn bad_step(ts: Toks, p: int, q: int) -> bool {
    q <= p || q > ts.len()
}

pub open spec fn stuck<T>() -> PRes<T> {
    Err((Seq::empty(), 0))
}

/// Whether `t` is of the kind `k`: the same variant, whatever text an
/// integer or identifier carries.
pub open spec fn kind_matches(t: SpecToken, k: SpecToken) -> bool {
    match (t, k) {
        (SpecToken::Int(_), SpecToken::Int(_)) => true,
        (SpecToken::Ident(_), SpecToken::Ident(_)) => true,
        _ => t == k,
    }
}

/// Consumes a token of the kind `k`.
pub open spec fn expect(ts: Toks, eof: int, p: int, k: SpecToken, label: Seq<char>) -> PRes<()> {
    if peek(ts, p) matches Some(t) && kind_matches(t, k) {
        Ok(((), p + 1))
    } else {
        err_at(ts, eof, p, expected_msg(ts, p, label))
    }
}

/// Consumes an identifier and yields its text.
pub open spec fn expect_ident(ts: Toks, eof: int, p: int, label: Seq<char>) -> PRes<Seq<char>> {
    match peek(ts, p) {
        Some(SpecToken::Ident(name)) => Ok((name, p + 1)),
        _ => err_at(ts, eof, p, expected_msg(ts, p, label)),
    }
}

// ---------------------------------------------------------------------------
// Integer literals: an optional sign, then decimal digits, within `i64`.
// ---------------------------------------------------------------------------
pub open spec fn digits_value(d: Seq<u8>) -> int
    decreases d.len(),
{
    if d.len() == 0 {
        0
    } else {
        digits_value(d.drop_last()) * 10 + (d.last() - 48)
    }
}

pub open spec fn all_digits(d: Seq<u8>) -> bool {
    forall|i: int| 0 <= i < d.len() ==> 48 <= #[trigger] d[i] <= 57
}

/// The `i64` that `text` denotes, if any.
pub open spec fn int_value(text: Seq<u8>) -> Option<int> {
    let neg = text.len() > 0 && text[0] == 45;
    let signed = text.len() > 0 && (text[0] == 45 || text[0] == 43);
    let d = if signed {
        text.drop_first()
    } else {
        text
    };
    if d.len() == 0 || !all_digits(d) {
        None
    } else {
        let v = if neg {
            -digits_value(d)
        } else {
            digits_value(d)
        };
        if i64::MIN <= v <= i64::MAX {
            Some(v)
        } else {
            None
        }
    }
}

// ---------------------------------------------------------------------------
// Expressions.
// ---------------------------------------------------------------------------
pub open spec fn bin(op: BinOp, l: SpecExpr, r: SpecExpr) -> SpecExpr {
    SpecExpr::Binary { op, lhs: Box::new(l), rhs: Box::new(r) }
}

pub open spec fn compare_op(k: Option<SpecToken>) -> Option<BinOp> {
    match k {
        Some(SpecToken::EqEq) => Some(BinOp::Eq),
        Some(SpecToken::NotEq) => Some(BinOp::Ne),
        Some(SpecToken::Lt) => Some(BinOp::Lt),
        Some(SpecToken::Le) => Some(BinOp::Le),
        Some(SpecToken::Gt) => Some(BinOp::Gt),
        Some(SpecToken::Ge) => Some(BinOp::Ge),
        _ => None,
    }
}

pub open spec fn add_op(k: Option<SpecToken>) -> Option<BinOp> {
    match k {
        Some(SpecToken::Plus) => Some(BinOp::Add),
        Some(SpecToken::Minus) => Some(BinOp::Sub),
        _ => None,
    }
}

pub open spec fn mul_op(k: Option<SpecToken>) -> Option<BinOp> {
    match k {
        Some(SpecToken::Star) => Some(BinOp::Mul),
        Some(SpecToken::Slash) => Some(BinOp::Div),
        Some(SpecToken::Percent) => Some(BinOp::Rem),
        _ => None,
    }
}

pub open spec fn un_op(k: Option<SpecToken>) -> Option<UnOp> {
    match k {
        Some(SpecToken::Minus) => Some(UnOp::Neg),
        Some(SpecToken::Bang) => Some(UnOp::Not),
        Some(SpecToken::Star) => Some(UnOp::Deref),
        Some(SpecToken::Amp) => Some(UnOp::AddrOf),
        _ => None,
    }
}

/// `expr := or`
pub open spec fn p_expr(ts: Toks, eof: int, p: int) -> PRes<SpecExpr>
    decreases ts.len() - p, 40int,
{
    p_or(ts, eof, p)
}

/// `or := and ("||" and)*`, left associative.
pub open spec fn p_or(ts: Toks, eof: int, p: int) -> PRes<SpecExpr>
    decreases ts.len() - p, 39int,
{
    match p_and(ts, eof, p) {
        Err(e) => Err(e),
        Ok((lhs, q)) => if bad_step(ts, p, q) {
            stuck()
        } else {
            or_tail(ts, eof, q, lhs)
        },
    }
}

pub open spec fn or_tail(ts: Toks, eof: int, p: int, lhs: SpecExpr) -> PRes<SpecExpr>
    decreases ts.len() - p, 38int,
{
    if at(ts, p, SpecToken::OrOr) {
        match p_and(ts, eof, p + 1) {
            Err(e) => Err(e),
            Ok((rhs, q)) => if bad_step(ts, p, q) {
                stuck()
            } else {
                or_tail(ts, eof, q, bin(BinOp::Or, lhs, rhs))
            },
        }
    } else {
        Ok((lhs, p))
    }
}

/// `and := compare ("&&" compare)*`
pub open spec fn p_and(ts: Toks, eof: int, p: int) -> PRes<SpecExpr>
    decreases ts.len() - p, 37int,
{
    match p_compare(ts, eof, p) {
        Err(e) => Err(e),
        Ok((lhs, q)) => if bad_step(ts, p, q) {
            stuck()
        } else {
            and_tail(ts, eof, q, lhs)
        },
    }
}

pub open spec fn and_tail(ts: Toks, eof: int, p: int, lhs: SpecExpr) -> PRes<SpecExpr>
    decreases ts.len() - p, 36int,
{
    if at(ts, p, SpecToken::AndAnd) {
        match p_compare(ts, eof, p + 1) {
            Err(e) => Err(e),
            Ok((rhs, q)) => if bad_step(ts, p, q) {
                stuck()
            } else {
                and_tail(ts, eof, q, bin(BinOp::And, lhs, rhs))
            },
        }
    } else {
        Ok((lhs, p))
    }
}

/// `compare := add (OP add)*` with `==`, `!=`, `<`, `<=`, `>`, `>=`.
pub open spec fn p_compare(ts: Toks, eof: int, p: int) -> PRes<SpecExpr>
    decreases ts.len() - p, 35int,
{
    match p_add(ts, eof, p) {
        Err(e) => Err(e),
        Ok((lhs, q)) => if bad_step(ts, p, q) {
            stuck()
        } else {
            compare_tail(ts, eof, q, lhs)
        },
    }
}

pub open spec fn compare_tail(ts: Toks, eof: int, p: int, lhs: SpecExpr) -> PRes<SpecExpr>
    decreases ts.len() - p, 34int,
{
    match compare_op(peek(ts, p)) {
        Some(op) => match p_add(ts, eof, p + 1) {
            Err(e) => Err(e),
            Ok((rhs, q)) => if bad_step(ts, p, q) {
                stuck()
            } else {
                compare_tail(ts, eof, q, bin(op, lhs, rhs))
            },
        },
        None => Ok((lhs, p)),
    }
}

/// `add := mul (("+" | "-") mul)*`
pub open spec fn p_add(ts: Toks, eof: int, p: int) -> PRes<SpecExpr>
    decreases ts.len() - p, 33int,
{
    match p_mul(ts, eof, p) {
        Err(e) => Err(e),
        Ok((lhs, q)) => if bad_step(ts, p, q) {
            stuck()
        } else {
            add_tail(ts, eof, q, lhs)
        },
    }
}

pub open spec fn add_tail(ts: Toks, eof: int, p: int, lhs: SpecExpr) -> PRes<SpecExpr>
    decreases ts.len() - p, 32int,
{
    match add_op(peek(ts, p)) {
        Some(op) => match p_mul(ts, eof, p + 1) {
            Err(e) => Err(e),
            Ok((rhs, q)) => if bad_step(ts, p, q) {
                stuck()
            } else {
                add_tail(ts, eof, q, bin(op, lhs, rhs))
            },
        },
        None => Ok((lhs, p)),
    }
}

/// `mul := unary (("*" | "/" | "%") unary)*`
pub open spec fn p_mul(ts: Toks, eof: int, p: int) -> PRes<SpecExpr>
    decreases ts.len() - p, 31int,
{
    match p_unary(ts, eof, p) {
        Err(e) => Err(e),
        Ok((lhs, q)) => if bad_step(ts, p, q) {
            stuck()
        } else {
            mul_tail(ts, eof, q, lhs)
        },
    }
}

pub open spec fn mul_tail(ts: Toks, eof: int, p: int, lhs: SpecExpr) -> PRes<SpecExpr>
    decreases ts.len() - p, 30int,
{
    match mul_op(peek(ts, p)) {
        Some(op) => match p_unary(ts, eof, p + 1) {
            Err(e) => Err(e),
            Ok((rhs, q)) => if bad_step(ts, p, q) {
                stuck()
            } else {
                mul_tail(ts, eof, q, bin(op, lhs, rhs))
            },
        },
        None => Ok((lhs, p)),
    }
}

/// `unary := ("-" | "!" | "*" | "&") unary | postfix`
pub open spec fn p_unary(ts: Toks, eof: int, p: int) -> PRes<SpecExpr>
    decreases ts.len() - p, 29int,
{
    match un_op(peek(ts, p)) {
        Some(op) => match p_unary(ts, eof, p + 1) {
            Err(e) => Err(e),
            Ok((e, q)) => Ok((SpecExpr::Unary { op, expr: Box::new(e) }, q)),
        },
        None => p_postfix(ts, eof, p),
    }
}

/// `postfix := operand ("." IDENT)*`
pub open spec fn p_postfix(ts: Toks, eof: int, p: int) -> PRes<SpecExpr>
    decreases ts.len() - p, 28int,
{
    match p_operand(ts, eof, p) {
        Err(e) => Err(e),
        Ok((base, q)) => if bad_step(ts, p, q) {
            stuck()
        } else {
            postfix_tail(ts, eof, q, base)
        },
    }
}

pub open spec fn postfix_tail(ts: Toks, eof: int, p: int, base: SpecExpr) -> PRes<SpecExpr>
    decreases ts.len() - p, 27int,
{
    if at(ts, p, SpecToken::Dot) {
        match expect_ident(ts, eof, p + 1, "field name"@) {
            Err(e) => Err(e),
            Ok((field, q)) => postfix_tail(
                ts,
                eof,
                q,
                SpecExpr::Field { base: Box::new(base), field },
            ),
        }
    } else {
        Ok((base, p))
    }
}

/// After an identifier: `{ IDENT :` starts a struct literal.
pub open spec fn at_struct_lit(ts: Toks, p: int) -> bool {
    &&& at(ts, p, SpecToken::LBrace)
    &&& peek(ts, p + 1) matches Some(SpecToken::Ident(_))
    &&& at(ts, p + 2, SpecToken::Colon)
}

/// Integer, `true`, `false`, call, variant `E::V`, struct literal, variable, or `( expr )`.
pub open spec fn p_operand(ts: Toks, eof: int, p: int) -> PRes<SpecExpr>
    decreases ts.len() - p, 26int,
{
    match peek(ts, p) {
        Some(SpecToken::Int(digits)) => match int_value(vstd::utf8::encode_utf8(digits)) {
            Some(v) => Ok((SpecExpr::Int(v), p + 1)),
            None => err_at(ts, eof, p, "integer literal `"@ + digits + "` is out of range"@),
        },
        Some(SpecToken::True) => Ok((SpecExpr::Bool(true), p + 1)),
        Some(SpecToken::False) => Ok((SpecExpr::Bool(false), p + 1)),
        Some(SpecToken::Ident(name)) => {
            if at(ts, p + 1, SpecToken::LParen) {
                match p_arg_list(ts, eof, p + 1) {
                    Err(e) => Err(e),
                    Ok((args, q)) => Ok((SpecExpr::Call { name, args }, q)),
                }
            } else if at(ts, p + 1, SpecToken::PathSep) {
                match expect_ident(ts, eof, p + 2, "variant name"@) {
                    Err(e) => Err(e),
                    Ok((variant, q)) => Ok((SpecExpr::Variant { enum_name: name, variant }, q)),
                }
            } else if at_struct_lit(ts, p + 1) {
                match p_lit_fields(ts, eof, p + 1) {
                    Err(e) => Err(e),
                    Ok((fields, q)) => Ok((SpecExpr::StructLit { name, fields }, q)),
                }
            } else {
                Ok((SpecExpr::Var(name), p + 1))
            }
        },
        Some(SpecToken::LParen) => match p_expr(ts, eof, p + 1) {
            Err(e) => Err(e),
            Ok((e, q)) => if bad_step(ts, p + 1, q) {
                stuck()
            } else {
                match expect(ts, eof, q, SpecToken::RParen, "`)`"@) {
                    Err(e) => Err(e),
                    Ok((_, r)) => Ok((e, r)),
                }
            },
        },
        _ => err_at(ts, eof, p, expected_msg(ts, p, "expression"@)),
    }
}

/// `{ IDENT : expr ("," IDENT : expr)* }`
pub open spec fn p_lit_fields(ts: Toks, eof: int, p: int) -> PRes<Seq<(Seq<char>, SpecExpr)>>
    decreases ts.len() - p, 25int,
{
    match expect(ts, eof, p, SpecToken::LBrace, "`{`"@) {
        Err(e) => Err(e),
        Ok((_, q)) => lit_fields_tail(ts, eof, q, Seq::empty()),
    }
}

pub open spec fn lit_fields_tail(ts: Toks, eof: int, p: int, acc: Seq<(Seq<char>, SpecExpr)>) -> PRes<Seq<(Seq<char>, SpecExpr)>>
    decreases ts.len() - p, 24int,
{
    match expect_ident(ts, eof, p, "field name"@) {
        Err(e) => Err(e),
        Ok((name, q)) => match expect(ts, eof, q, SpecToken::Colon, "`:`"@) {
            Err(e) => Err(e),
            Ok((_, r)) => match p_expr(ts, eof, r) {
                Err(e) => Err(e),
                Ok((value, s)) => if bad_step(ts, r, s) {
                    stuck()
                } else if at(ts, s, SpecToken::Comma) {
                    lit_fields_tail(ts, eof, s + 1, acc.push((name, value)))
                } else {
                    match expect(ts, eof, s, SpecToken::RBrace, "`}`"@) {
                        Err(e) => Err(e),
                        Ok((_, t)) => Ok((acc.push((name, value)), t)),
                    }
                },
            },
        },
    }
}

/// `( (expr ("," expr)*)? )`
pub open spec fn p_arg_list(ts: Toks, eof: int, p: int) -> PRes<Seq<SpecExpr>>
    decreases ts.len() - p, 25int,
{
    match expect(ts, eof, p, SpecToken::LParen, "`(`"@) {
        Err(e) => Err(e),
        Ok((_, q)) => if at(ts, q, SpecToken::RParen) {
            Ok((Seq::empty(), q + 1))
        } else {
            args_tail(ts, eof, q, Seq::empty())
        },
    }
}

pub open spec fn args_tail(ts: Toks, eof: int, p: int, acc: Seq<SpecExpr>) -> PRes<Seq<SpecExpr>>
    decreases ts.len() - p, 45int,
{
    match p_expr(ts, eof, p) {
        Err(e) => Err(e),
        Ok((arg, q)) => if bad_step(ts, p, q) {
            stuck()
        } else if at(ts, q, SpecToken::Comma) {
            args_tail(ts, eof, q + 1, acc.push(arg))
        } else {
            match expect(ts, eof, q, SpecToken::RParen, "`)`"@) {
                Err(e) => Err(e),
                Ok((_, r)) => Ok((acc.push(arg), r)),
            }
        },
    }
}

// ---------------------------------------------------------------------------
// Types, statements and blocks.
// ---------------------------------------------------------------------------
/// `type := "*" type | IDENT`
pub open spec fn p_type(ts: Toks, eof: int, p: int) -> PRes<SpecType>
    decreases ts.len() - p,
{
    if at(ts, p, SpecToken::Star) {
        match p_type(ts, eof, p + 1) {
            Err(e) => Err(e),
            Ok((t, q)) => Ok((SpecType::Ptr(Box::new(t)), q)),
        }
    } else {
        match expect_ident(ts, eof, p, "type name"@) {
            Err(e) => Err(e),
            Ok((n, q)) => Ok((SpecType::Name(n), q)),
        }
    }
}

/// `{ stmt* }`
pub open spec fn p_block(ts: Toks, eof: int, p: int) -> PRes<SpecBlock>
    decreases ts.len() - p, 60int,
{
    match expect(ts, eof, p, SpecToken::LBrace, "`{`"@) {
        Err(e) => Err(e),
        Ok((_, q)) => stmts_tail(ts, eof, q, Seq::empty()),
    }
}

pub open spec fn stmts_tail(ts: Toks, eof: int, p: int, acc: Seq<SpecStmt>) -> PRes<SpecBlock>
    decreases ts.len() - p, 59int,
{
    if at(ts, p, SpecToken::RBrace) || peek(ts, p) is None {
        match expect(ts, eof, p, SpecToken::RBrace, "`}`"@) {
            Err(e) => Err(e),
            Ok((_, q)) => Ok((SpecBlock { stmts: acc }, q)),
        }
    } else {
        match p_stmt(ts, eof, p) {
            Err(e) => Err(e),
            Ok((s, q)) => if bad_step(ts, p, q) {
                stuck()
            } else {
                stmts_tail(ts, eof, q, acc.push(s))
            },
        }
    }
}

/// Consumes `;`.
pub open spec fn semi<T>(ts: Toks, eof: int, p: int, v: T) -> PRes<T> {
    match expect(ts, eof, p, SpecToken::Semi, "`;`"@) {
        Err(e) => Err(e),
        Ok((_, q)) => Ok((v, q)),
    }
}

/// An expression that must move forward, then `;`.
pub open spec fn expr_semi(ts: Toks, eof: int, p: int) -> PRes<SpecExpr>
    decreases ts.len() - p, 50int,
{
    match p_expr(ts, eof, p) {
        Err(e) => Err(e),
        Ok((e, q)) => if bad_step(ts, p, q) {
            stuck()
        } else {
            semi(ts, eof, q, e)
        },
    }
}

pub open spec fn p_stmt(ts: Toks, eof: int, p: int) -> PRes<SpecStmt>
    decreases ts.len() - p, 58int,
{
    match peek(ts, p) {
        Some(SpecToken::Return) => match expr_semi(ts, eof, p + 1) {
            Err(e) => Err(e),
            Ok((e, q)) => Ok((SpecStmt::Return(e), q)),
        },
        Some(SpecToken::Print) => match expect(ts, eof, p + 1, SpecToken::LParen, "`(`"@) {
            Err(e) => Err(e),
            Ok((_, q)) => match p_expr(ts, eof, q) {
                Err(e) => Err(e),
                Ok((e, r)) => if bad_step(ts, q, r) {
                    stuck()
                } else {
                    match expect(ts, eof, r, SpecToken::RParen, "`)`"@) {
                        Err(err) => Err(err),
                        Ok((_, s)) => semi(ts, eof, s, SpecStmt::Print(e)),
                    }
                },
            },
        },
        Some(SpecToken::Let) => p_let(ts, eof, p, true),
        Some(SpecToken::Const) => p_let(ts, eof, p, false),
        Some(SpecToken::If) => p_if(ts, eof, p),
        Some(SpecToken::While) => p_while(ts, eof, p),
        Some(SpecToken::For) => p_for(ts, eof, p),
        Some(SpecToken::Match) => p_match(ts, eof, p),
        Some(SpecToken::Break) => semi(ts, eof, p + 1, SpecStmt::Break),
        Some(SpecToken::Continue) => semi(ts, eof, p + 1, SpecStmt::Continue),
        Some(_) => p_assign(ts, eof, p),
        None => err_at(ts, eof, p, "expected statement, found end of file"@),
    }
}

/// `("let" | "const") IDENT (":" type)? "=" expr ";"`
pub open spec fn p_let(ts: Toks, eof: int, p: int, mutable: bool) -> PRes<SpecStmt>
    decreases ts.len() - p, 57int,
{
    match expect_ident(ts, eof, p + 1, "variable name"@) {
        Err(e) => Err(e),
        Ok((name, q)) => {
            let ty: PRes<Option<SpecType>> = if at(ts, q, SpecToken::Colon) {
                match p_type(ts, eof, q + 1) {
                    Err(e) => Err(e),
                    Ok((t, r)) => Ok((Some(t), r)),
                }
            } else {
                Ok((None, q))
            };
            match ty {
                Err(e) => Err(e),
                Ok((ty, r)) => if bad_step(ts, p, r) {
                    stuck()
                } else {
                    match expect(ts, eof, r, SpecToken::Eq, "`=`"@) {
                        Err(e) => Err(e),
                        Ok((_, s)) => match expr_semi(ts, eof, s) {
                            Err(e) => Err(e),
                            Ok((value, t)) => Ok((SpecStmt::Let { name, ty, value, mutable }, t)),
                        },
                    }
                },
            }
        },
    }
}

/// `expr "=" expr ";"`
pub open spec fn p_assign(ts: Toks, eof: int, p: int) -> PRes<SpecStmt>
    decreases ts.len() - p, 57int,
{
    match p_expr(ts, eof, p) {
        Err(e) => Err(e),
        Ok((target, q)) => if bad_step(ts, p, q) {
            stuck()
        } else {
            match expect(ts, eof, q, SpecToken::Eq, "`=`"@) {
                Err(e) => Err(e),
                Ok((_, r)) => match expr_semi(ts, eof, r) {
                    Err(e) => Err(e),
                    Ok((value, s)) => Ok((SpecStmt::Assign { target, value }, s)),
                },
            }
        },
    }
}

/// `"if" expr block else?`
pub open spec fn p_if(ts: Toks, eof: int, p: int) -> PRes<SpecStmt>
    decreases ts.len() - p, 57int,
{
    match p_expr(ts, eof, p + 1) {
        Err(e) => Err(e),
        Ok((cond, q)) => if bad_step(ts, p, q) {
            stuck()
        } else {
            match p_block(ts, eof, q) {
                Err(e) => Err(e),
                Ok((then_block, r)) => if bad_step(ts, q, r) {
                    stuck()
                } else {
                    match p_else(ts, eof, r) {
                        Err(e) => Err(e),
                        Ok((else_block, s)) => Ok((SpecStmt::If { cond, then_block, else_block }, s)),
                    }
                },
            }
        },
    }
}

/// `("else" (if | block))?`; an `else if` is a block holding that one `if`.
pub open spec fn p_else(ts: Toks, eof: int, p: int) -> PRes<Option<SpecBlock>>
    decreases ts.len() - p, 56int,
{
    if at(ts, p, SpecToken::Else) {
        if at(ts, p + 1, SpecToken::If) {
            match p_if(ts, eof, p + 1) {
                Err(e) => Err(e),
                Ok((nested, s)) => Ok((Some(SpecBlock { stmts: seq![nested] }), s)),
            }
        } else {
            match p_block(ts, eof, p + 1) {
                Err(e) => Err(e),
                Ok((b, s)) => Ok((Some(b), s)),
            }
        }
    } else {
        Ok((None, p))
    }
}

/// `"while" expr block`
pub open spec fn p_while(ts: Toks, eof: int, p: int) -> PRes<SpecStmt>
    decreases ts.len() - p, 57int,
{
    match p_expr(ts, eof, p + 1) {
        Err(e) => Err(e),
        Ok((cond, q)) => if bad_step(ts, p, q) {
            stuck()
        } else {
            match p_block(ts, eof, q) {
                Err(e) => Err(e),
                Ok((body, r)) => Ok((SpecStmt::While { cond, body }, r)),
            }
        },
    }
}

/// `"for" IDENT "in" expr ".." expr block`
pub open spec fn p_for(ts: Toks, eof: int, p: int) -> PRes<SpecStmt>
    decreases ts.len() - p, 57int,
{
    match expect_ident(ts, eof, p + 1, "loop variable"@) {
        Err(e) => Err(e),
        Ok((name, q)) => match expect(ts, eof, q, SpecToken::In, "`in`"@) {
            Err(e) => Err(e),
            Ok((_, r)) => match p_expr(ts, eof, r) {
                Err(e) => Err(e),
                Ok((start, s)) => if bad_step(ts, r, s) {
                    stuck()
                } else {
                    match expect(ts, eof, s, SpecToken::DotDot, "`..`"@) {
                        Err(e) => Err(e),
                        Ok((_, t)) => match p_expr(ts, eof, t) {
                            Err(e) => Err(e),
                            Ok((end, u)) => if bad_step(ts, t, u) {
                                stuck()
                            } else {
                                match p_block(ts, eof, u) {
                                    Err(e) => Err(e),
                                    Ok((body, v)) => Ok((SpecStmt::For { name, start, end, body }, v)),
                                }
                            },
                        },
                    }
                },
            },
        },
    }
}

/// `"match" expr "{" (IDENT "::" IDENT "=>" block ","?)* "}"`
pub open spec fn p_match(ts: Toks, eof: int, p: int) -> PRes<SpecStmt>
    decreases ts.len() - p, 57int,
{
    match p_expr(ts, eof, p + 1) {
        Err(e) => Err(e),
        Ok((scrutinee, q)) => if bad_step(ts, p, q) {
            stuck()
        } else {
            match expect(ts, eof, q, SpecToken::LBrace, "`{`"@) {
                Err(e) => Err(e),
                Ok((_, r)) => match arms_tail(ts, eof, r, Seq::empty()) {
                    Err(e) => Err(e),
                    Ok((arms, s)) => Ok((SpecStmt::Match { scrutinee, arms }, s)),
                },
            }
        },
    }
}

pub open spec fn arms_tail(ts: Toks, eof: int, p: int, acc: Seq<SpecMatchArm>) -> PRes<Seq<SpecMatchArm>>
    decreases ts.len() - p, 56int,
{
    if at(ts, p, SpecToken::RBrace) || peek(ts, p) is None {
        match expect(ts, eof, p, SpecToken::RBrace, "`}`"@) {
            Err(e) => Err(e),
            Ok((_, q)) => Ok((acc, q)),
        }
    } else {
        match expect_ident(ts, eof, p, "enum name"@) {
            Err(e) => Err(e),
            Ok((enum_name, q)) => match expect(ts, eof, q, SpecToken::PathSep, "`::`"@) {
                Err(e) => Err(e),
                Ok((_, r)) => match expect_ident(ts, eof, r, "variant name"@) {
                    Err(e) => Err(e),
                    Ok((variant, s)) => match expect(ts, eof, s, SpecToken::FatArrow, "`=>`"@) {
                        Err(e) => Err(e),
                        Ok((_, t)) => match p_block(ts, eof, t) {
                            Err(e) => Err(e),
                            Ok((body, u)) => if bad_step(ts, t, u) {
                                stuck()
                            } else {
                                let arm = SpecMatchArm { enum_name, variant, body };
                                let v = if at(ts, u, SpecToken::Comma) {
                                    u + 1
                                } else {
                                    u
                                };
                                arms_tail(ts, eof, v, acc.push(arm))
                            },
                        },
                    },
                },
            },
        }
    }
}

// ---------------------------------------------------------------------------
// Items.
// ---------------------------------------------------------------------------
/// `"(" (IDENT ":" type ("," IDENT ":" type)*)? ")"`
pub open spec fn p_params(ts: Toks, eof: int, p: int) -> PRes<Seq<SpecParam>> {
    match expect(ts, eof, p, SpecToken::LParen, "`(`"@) {
        Err(e) => Err(e),
        Ok((_, q)) => if at(ts, q, SpecToken::RParen) {
            Ok((Seq::empty(), q + 1))
        } else {
            decls_tail(ts, eof, q, Seq::empty(), "parameter name"@, SpecToken::RParen, "`)`"@)
        },
    }
}

/// `IDENT ":" type ("," IDENT ":" type)*` then the closing token.
pub open spec fn decls_tail(
    ts: Toks,
    eof: int,
    p: int,
    acc: Seq<SpecParam>,
    label: Seq<char>,
    close: SpecToken,
    close_label: Seq<char>,
) -> PRes<Seq<SpecParam>>
    decreases ts.len() - p,
{
    match expect_ident(ts, eof, p, label) {
        Err(e) => Err(e),
        Ok((name, q)) => match expect(ts, eof, q, SpecToken::Colon, "`:`"@) {
            Err(e) => Err(e),
            Ok((_, r)) => match p_type(ts, eof, r) {
                Err(e) => Err(e),
                Ok((ty, s)) => if bad_step(ts, p, s) {
                    stuck()
                } else if at(ts, s, SpecToken::Comma) {
                    decls_tail(ts, eof, s + 1, acc.push(SpecParam { name, ty }), label, close, close_label)
                } else {
                    match expect(ts, eof, s, close, close_label) {
                        Err(e) => Err(e),
                        Ok((_, t)) => Ok((acc.push(SpecParam { name, ty }), t)),
                    }
                },
            },
        },
    }
}

/// `"fn" IDENT params "->" type block`
pub open spec fn p_function(ts: Toks, eof: int, p: int) -> PRes<SpecFunction> {
    match expect_ident(ts, eof, p + 1, "function name"@) {
        Err(e) => Err(e),
        Ok((name, q)) => match p_params(ts, eof, q) {
            Err(e) => Err(e),
            Ok((params, r)) => match expect(ts, eof, r, SpecToken::Arrow, "`->`"@) {
                Err(e) => Err(e),
                Ok((_, s)) => match p_type(ts, eof, s) {
                    Err(e) => Err(e),
                    Ok((return_ty, t)) => match p_block(ts, eof, t) {
                        Err(e) => Err(e),
                        Ok((body, u)) => Ok((SpecFunction { name, params, return_ty, body }, u)),
                    },
                },
            },
        },
    }
}

/// `"struct" IDENT "{" IDENT ":" type ("," IDENT ":" type)* "}"`, with at least one field.
pub open spec fn p_struct(ts: Toks, eof: int, p: int) -> PRes<SpecStructItem> {
    match expect_ident(ts, eof, p + 1, "struct name"@) {
        Err(e) => Err(e),
        Ok((name, q)) => match expect(ts, eof, q, SpecToken::LBrace, "`{`"@) {
            Err(e) => Err(e),
            Ok((_, r)) => if at(ts, r, SpecToken::RBrace) {
                err_at(ts, eof, r, "struct `"@ + name + "` must have at least one field"@)
            } else {
                match decls_tail(ts, eof, r, Seq::empty(), "field name"@, SpecToken::RBrace, "`}`"@) {
                    Err(e) => Err(e),
                    Ok((fields, s)) => Ok((SpecStructItem { name, fields }, s)),
                }
            },
        },
    }
}

/// `"enum" IDENT "{" (IDENT ("," IDENT)* ","?)? "}"`
pub open spec fn p_enum(ts: Toks, eof: int, p: int) -> PRes<SpecEnumItem> {
    match expect_ident(ts, eof, p + 1, "enum name"@) {
        Err(e) => Err(e),
        Ok((name, q)) => match expect(ts, eof, q, SpecToken::LBrace, "`{`"@) {
            Err(e) => Err(e),
            Ok((_, r)) => match variants_tail(ts, eof, r, Seq::empty()) {
                Err(e) => Err(e),
                Ok((variants, s)) => Ok((SpecEnumItem { name, variants }, s)),
            },
        },
    }
}

pub open spec fn variants_tail(ts: Toks, eof: int, p: int, acc: Seq<Seq<char>>) -> PRes<Seq<Seq<char>>>
    decreases ts.len() - p,
{
    if at(ts, p, SpecToken::RBrace) {
        Ok((acc, p + 1))
    } else {
        match expect_ident(ts, eof, p, "variant name"@) {
            Err(e) => Err(e),
            Ok((v, q)) => if at(ts, q, SpecToken::Comma) {
                variants_tail(ts, eof, q + 1, acc.push(v))
            } else {
                match expect(ts, eof, q, SpecToken::RBrace, "`}`"@) {
                    Err(e) => Err(e),
                    Ok((_, r)) => Ok((acc.push(v), r)),
                }
            },
        }
    }
}

/// `"const" IDENT ":" type "=" expr ";"`
pub open spec fn p_const_item(ts: Toks, eof: int, p: int) -> PRes<SpecConstItem> {
    match expect_ident(ts, eof, p + 1, "const name"@) {
        Err(e) => Err(e),
        Ok((name, q)) => match expect(ts, eof, q, SpecToken::Colon, "`:`"@) {
            Err(e) => Err(e),
            Ok((_, r)) => match p_type(ts, eof, r) {
                Err(e) => Err(e),
                Ok((ty, s)) => match expect(ts, eof, s, SpecToken::Eq, "`=`"@) {
                    Err(e) => Err(e),
                    Ok((_, t)) => match expr_semi(ts, eof, t) {
                        Err(e) => Err(e),
                        Ok((value, u)) => Ok((SpecConstItem { name, ty, value }, u)),
                    },
                },
            },
        },
    }
}

pub open spec fn p_item(ts: Toks, eof: int, p: int) -> PRes<SpecItem> {
    match peek(ts, p) {
        Some(SpecToken::Fn) => match p_function(ts, eof, p) {
            Err(e) => Err(e),
            Ok((f, q)) => Ok((SpecItem::Fn(f), q)),
        },
        Some(SpecToken::Struct) => match p_struct(ts, eof, p) {
            Err(e) => Err(e),
            Ok((s, q)) => Ok((SpecItem::Struct(s), q)),
        },
        Some(SpecToken::Enum) => match p_enum(ts, eof, p) {
            Err(e) => Err(e),
            Ok((s, q)) => Ok((SpecItem::Enum(s), q)),
        },
        Some(SpecToken::Const) => match p_const_item(ts, eof, p) {
            Err(e) => Err(e),
            Ok((s, q)) => Ok((SpecItem::Const(s), q)),
        },
        _ => err_at(ts, eof, p, expected_msg(ts, p, "item"@)),
    }
}

pub open spec fn items_tail(ts: Toks, eof: int, p: int, acc: Seq<SpecItem>) -> Result<SpecModule, (Seq<char>, int)>
    decreases ts.len() - p,
{
    if p < 0 || p >= ts.len() {
        Ok(SpecModule { items: acc })
    } else {
        match p_item(ts, eof, p) {
            Err(e) => Err(e),
            Ok((item, q)) => if bad_step(ts, p, q) {
                Err((Seq::empty(), 0))
            } else {
                items_tail(ts, eof, q, acc.push(item))
            },
        }
    }
}

/// The module that the tokens spell, or the first error.
pub open spec fn spec_parse(ts: Toks, eof: int) -> Result<SpecModule, (Seq<char>, int)> {
    items_tail(ts, eof, 0, Seq::empty())
}

} // verus!
