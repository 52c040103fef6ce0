//! Recursive-descent parser.
//!
//! Every parsing method is proved to follow the grammar of `parser_spec`:
//! on success it yields the view that the grammar yields and stops where the
//! grammar stops; on failure it reports the grammar's message and offset.

use vstd::prelude::*;
use vstd::string::StringSliceAdditionalSpecFns;
use crate::ast::{
    field_view, function_view, param_view, SpecConstItem, SpecEnumItem, SpecFunction, SpecItem,
    SpecMatchArm, SpecModule, SpecBlock, SpecParam, SpecStmt, SpecStructItem, block_view, exprs_view, field_decls_view, field_inits_view, items_view,
    lemma_arms_view_push, lemma_exprs_view_push, lemma_field_inits_view_push,
    lemma_stmts_view_push, params_view, stmts_view, arms_view, strings_view, BinOp, Block,
    ConstItem, EnumItem, Expr, SpecExpr, Field, Function, Item, MatchArm, SourceModule, Param, Stmt,
    StructItem, Type, UnOp,
};
use crate::lexer::{spans_view, SpannedToken, SpecToken, Token};
use crate::parser_spec::{
    kind_matches,
    add_op, add_tail, all_digits, and_tail, args_tail, arms_tail, at, at_struct_lit, compare_op,
    compare_tail, decls_tail, digits_value, expect, expect_ident, expected_msg, expr_semi, found,
    int_value, items_tail, lit_fields_tail, mul_op, mul_tail, offset_at, or_tail, p_add, p_and,
    p_arg_list, p_block, p_compare, p_const_item, p_enum, p_expr, p_for, p_function, p_if, p_item,
    p_let, p_lit_fields, p_match, p_mul, p_operand, p_or, p_params, p_postfix, p_stmt, p_assign, p_else,
    p_struct, p_type, p_unary, p_while, peek, postfix_tail, spec_parse, stmts_tail, un_op,
    variants_tail, PRes, Toks,
};
use crate::text::{push_str, string_of};

verus! {

/// Parse error: message and byte offset into the source.
#[derive(Debug, Clone, PartialEq, Eq)]
pub struct ParseError {
    pub message: String,
    pub offset: usize,
}

impl View for ParseError {
    type V = (Seq<char>, int);

    open spec fn view(&self) -> (Seq<char>, int) {
        (self.message@, self.offset as int)
    }
}

/// The grammar's outcome for a success with `v`, ending at `end`.
pub open spec fn success<T>(v: T, end: int) -> PRes<T> {
    Ok((v, end))
}

/// The grammar's outcome for a failure with `e`.
pub open spec fn failure<T>(e: (Seq<char>, int)) -> PRes<T> {
    Err(e)
}

/// The outcome `r` of a parsing step agrees with the grammar's outcome `s`:
/// the same view and end position on success, the same error on failure.
pub open spec fn agrees<A: View>(s: PRes<A::V>, r: Result<A, ParseError>, end: int) -> bool {
    match r {
        Ok(v) => s == success(v@, end),
        Err(e) => s == failure::<A::V>(e@),
    }
}

/// An offset that the parser reports: the start of a token, or the end of the
/// input.
pub open spec fn token_offset(ts: Toks, eof: int, o: int) -> bool {
    o == eof || exists|k: int| 0 <= k < ts.len() && #[trigger] ts[k].1 == o
}

/// The token kinds that `expect` and `peek_is` compare against.
pub open spec fn expectable(k: SpecToken) -> bool {
    ||| k is LParen
    ||| k is RParen
    ||| k is LBrace
    ||| k is RBrace
    ||| k is Colon
    ||| k is Semi
    ||| k is Eq
    ||| k is In
    ||| k is DotDot
    ||| k is PathSep
    ||| k is FatArrow
    ||| k is Arrow
    ||| k is Comma
    ||| k is OrOr
    ||| k is AndAnd
    ||| k is Dot
    ||| k is Star
    ||| k is Else
    ||| k is If
}

/// Whether `a` is of the kind `b`: the same variant, whatever text an
/// integer or identifier carries.
fn same_kind(a: &Token, b: &Token) -> (r: bool)
    ensures
        r == kind_matches(a@, b@),
{
    match b {
        Token::Int(_) => matches!(a, Token::Int(_)),
        Token::Ident(_) => matches!(a, Token::Ident(_)),
        Token::Fn => matches!(a, Token::Fn),
        Token::Struct => matches!(a, Token::Struct),
        Token::Enum => matches!(a, Token::Enum),
        Token::Impl => matches!(a, Token::Impl),
        Token::Let => matches!(a, Token::Let),
        Token::Const => matches!(a, Token::Const),
        Token::If => matches!(a, Token::If),
        Token::Else => matches!(a, Token::Else),
        Token::Match => matches!(a, Token::Match),
        Token::Loop => matches!(a, Token::Loop),
        Token::While => matches!(a, Token::While),
        Token::For => matches!(a, Token::For),
        Token::In => matches!(a, Token::In),
        Token::Break => matches!(a, Token::Break),
        Token::Continue => matches!(a, Token::Continue),
        Token::Return => matches!(a, Token::Return),
        Token::Print => matches!(a, Token::Print),
        Token::Mod => matches!(a, Token::Mod),
        Token::Use => matches!(a, Token::Use),
        Token::Type => matches!(a, Token::Type),
        Token::Pub => matches!(a, Token::Pub),
        Token::Unsafe => matches!(a, Token::Unsafe),
        Token::As => matches!(a, Token::As),
        Token::True => matches!(a, Token::True),
        Token::False => matches!(a, Token::False),
        Token::SelfValue => matches!(a, Token::SelfValue),
        Token::SelfType => matches!(a, Token::SelfType),
        Token::Literal => matches!(a, Token::Literal),
        Token::Variable => matches!(a, Token::Variable),
        Token::Formula => matches!(a, Token::Formula),
        Token::Search => matches!(a, Token::Search),
        Token::Scratch => matches!(a, Token::Scratch),
        Token::Bitstruct => matches!(a, Token::Bitstruct),
        Token::ReprEnum => matches!(a, Token::ReprEnum),
        Token::Savepoint => matches!(a, Token::Savepoint),
        Token::Rollback => matches!(a, Token::Rollback),
        Token::Arrow => matches!(a, Token::Arrow),
        Token::FatArrow => matches!(a, Token::FatArrow),
        Token::PathSep => matches!(a, Token::PathSep),
        Token::EqEq => matches!(a, Token::EqEq),
        Token::NotEq => matches!(a, Token::NotEq),
        Token::Le => matches!(a, Token::Le),
        Token::Ge => matches!(a, Token::Ge),
        Token::AndAnd => matches!(a, Token::AndAnd),
        Token::OrOr => matches!(a, Token::OrOr),
        Token::Shl => matches!(a, Token::Shl),
        Token::Shr => matches!(a, Token::Shr),
        Token::DotDotDot => matches!(a, Token::DotDotDot),
        Token::DotDot => matches!(a, Token::DotDot),
        Token::LParen => matches!(a, Token::LParen),
        Token::RParen => matches!(a, Token::RParen),
        Token::LBrace => matches!(a, Token::LBrace),
        Token::RBrace => matches!(a, Token::RBrace),
        Token::LBracket => matches!(a, Token::LBracket),
        Token::RBracket => matches!(a, Token::RBracket),
        Token::Comma => matches!(a, Token::Comma),
        Token::Semi => matches!(a, Token::Semi),
        Token::Colon => matches!(a, Token::Colon),
        Token::Dot => matches!(a, Token::Dot),
        Token::Eq => matches!(a, Token::Eq),
        Token::Plus => matches!(a, Token::Plus),
        Token::Minus => matches!(a, Token::Minus),
        Token::Star => matches!(a, Token::Star),
        Token::Slash => matches!(a, Token::Slash),
        Token::Percent => matches!(a, Token::Percent),
        Token::Lt => matches!(a, Token::Lt),
        Token::Gt => matches!(a, Token::Gt),
        Token::Bang => matches!(a, Token::Bang),
        Token::Amp => matches!(a, Token::Amp),
        Token::Pipe => matches!(a, Token::Pipe),
        Token::Caret => matches!(a, Token::Caret),
        Token::At => matches!(a, Token::At),
        Token::Hash => matches!(a, Token::Hash),
        Token::Question => matches!(a, Token::Question),
    }
}

proof fn lemma_digits_value_prefix(d: Seq<u8>, i: int)
    requires
        all_digits(d),
        0 <= i <= d.len(),
    ensures
        0 <= digits_value(d.subrange(0, i)) <= digits_value(d),
    decreases d.len(),
{
    if d.len() > 0 {
        let e = d.drop_last();
        assert(all_digits(e)) by {
            assert forall|k: int| 0 <= k < e.len() implies 48 <= #[trigger] e[k] <= 57 by {
                assert(e[k] == d[k]);
            }
        }
        let j = if i < d.len() {
            i
        } else {
            e.len() as int
        };
        lemma_digits_value_prefix(e, j);
        assert(e.subrange(0, j) =~= d.subrange(0, j));
        if i == d.len() {
            assert(d.subrange(0, i) =~= d);
            assert(e.subrange(0, j) =~= e);
        }
        assert(48 <= d.last() <= 57);
    } else {
        assert(d.subrange(0, i) =~= d);
    }
}

/// The value of an integer literal's text, as `i64` parsing reads it: an
/// optional sign, then one or more decimal digits, within range.
fn parse_int_literal(text: &str) -> (r: Option<i64>)
    ensures
        match r {
            Some(v) => int_value(text.spec_bytes()) == Some(v as int),
            None => int_value(text.spec_bytes()) is None,
        },
{
    let b = text.as_bytes();
    let n = b.len();
    let neg = n > 0 && b[0] == 45;
    let signed = n > 0 && (b[0] == 45 || b[0] == 43);
    let start: usize = if signed {
        1
    } else {
        0
    };
    let ghost d = b@.subrange(start as int, n as int);
    proof {
        if signed {
            assert(d =~= b@.drop_first());
        } else {
            assert(d =~= b@);
        }
    }
    if start == n {
        return None;
    }
    let mut acc: i64 = 0;
    let mut i: usize = start;
    while i < n
        invariant
            n == b@.len(),
            start <= i <= n,
            start < n,
            d == b@.subrange(start as int, n as int),
            all_digits(b@.subrange(start as int, i as int)),
            acc as int == (if neg {
                -digits_value(b@.subrange(start as int, i as int))
            } else {
                digits_value(b@.subrange(start as int, i as int))
            }),
            neg == (n > 0 && b@[0] == 45),
            signed == (n > 0 && (b@[0] == 45 || b@[0] == 43)),
            d == (if signed {
                b@.drop_first()
            } else {
                b@
            }),
            b@ == text.spec_bytes(),
        decreases n - i,
    {
        let c = b[i];
        let ghost pre = b@.subrange(start as int, i as int);
        let ghost next = b@.subrange(start as int, i as int + 1);
        if c < 48 || c > 57 {
            proof {
                assert(d[i - start] == c);
                assert(!all_digits(d));
            }
            return None;
        }
        proof {
            assert(next.drop_last() =~= pre);
            assert(next.last() == c);
            assert(all_digits(next)) by {
                assert forall|k: int| 0 <= k < next.len() implies 48 <= #[trigger] next[k] <= 57 by {
                    if k < pre.len() {
                        assert(next[k] == pre[k]);
                    }
                }
            }
        }
        let dv: i128 = (c - 48) as i128;
        let wide: i128 = if neg {
            acc as i128 * 10 - dv
        } else {
            acc as i128 * 10 + dv
        };
        if wide < i64::MIN as i128 || wide > i64::MAX as i128 {
            proof {
                let k = (i + 1 - start) as int;
                assert(next =~= d.subrange(0, k));
                assert(digits_value(next) == digits_value(pre) * 10 + (c - 48));
                if all_digits(d) {
                    lemma_digits_value_prefix(d, k);
                    assert(int_value(b@) is None);
                }
            }
            return None;
        }
        acc = wide as i64;
        i = i + 1;
    }
    proof {
        assert(b@.subrange(start as int, n as int) =~= d);
    }
    Some(acc)
}

/// The statement form that a token starts.
enum StmtStart {
    Return,
    Print,
    Let,
    Const,
    If,
    While,
    For,
    Match,
    Break,
    Continue,
    Other,
    End,
}

spec fn stmt_start_of(k: Option<SpecToken>) -> StmtStart {
    match k {
        Some(SpecToken::Return) => StmtStart::Return,
        Some(SpecToken::Print) => StmtStart::Print,
        Some(SpecToken::Let) => StmtStart::Let,
        Some(SpecToken::Const) => StmtStart::Const,
        Some(SpecToken::If) => StmtStart::If,
        Some(SpecToken::While) => StmtStart::While,
        Some(SpecToken::For) => StmtStart::For,
        Some(SpecToken::Match) => StmtStart::Match,
        Some(SpecToken::Break) => StmtStart::Break,
        Some(SpecToken::Continue) => StmtStart::Continue,
        Some(_) => StmtStart::Other,
        None => StmtStart::End,
    }
}

spec fn opt_block_view(b: Option<Block>) -> Option<SpecBlock> {
    match b {
        Some(b) => Some(block_view(b)),
        None => None,
    }
}

struct Parser<'a> {
    tokens: &'a [SpannedToken<'a>],
    pos: usize,
    /// Byte length of the source (EOF location).
    eof_offset: usize,
}

impl<'a> Parser<'a> {
    spec fn ts(&self) -> Toks {
        spans_view(self.tokens@)
    }

    spec fn eof(&self) -> int {
        self.eof_offset as int
    }

    spec fn at_pos(&self) -> int {
        self.pos as int
    }

    spec fn valid(&self) -> bool {
        self.pos <= self.tokens.len()
    }

    /// `next` reads the same tokens as `self`, from a position within them.
    spec fn same_input(&self, next: Self) -> bool {
        &&& next.tokens@ == self.tokens@
        &&& next.eof_offset == self.eof_offset
        &&& next.pos <= next.tokens.len()
    }

    fn peek_kind(&self) -> (r: Option<&'a Token<'a>>)
        ensures
            match r {
                Some(k) => self.pos < self.tokens.len() && peek(self.ts(), self.at_pos()) == Some(k@),
                None => peek(self.ts(), self.at_pos()) is None,
            },
    {
        if self.pos < self.tokens.len() {
            let toks: &'a [SpannedToken<'a>] = self.tokens;
            Some(&toks[self.pos].kind)
        } else {
            None
        }
    }

    /// Whether the current token is of the kind `expected`.
    fn peek_is(&self, expected: &Token) -> (r: bool)
        requires
            expectable(expected@),
        ensures
            r == at(self.ts(), self.at_pos(), expected@),
    {
        match self.peek_kind() {
            Some(k) => same_kind(k, expected),
            None => false,
        }
    }

    fn at_struct_lit(&self) -> (r: bool)
        ensures
            r == at_struct_lit(self.ts(), self.at_pos()),
    {
        if self.pos < self.tokens.len() && self.pos + 1 < self.tokens.len() && self.pos + 2
            < self.tokens.len() {
            matches!(self.tokens[self.pos].kind, Token::LBrace) && matches!(
                self.tokens[self.pos + 1].kind,
                Token::Ident(_)
            ) && matches!(self.tokens[self.pos + 2].kind, Token::Colon)
        } else {
            false
        }
    }

    fn current_offset(&self) -> (r: usize)
        ensures
            r as int == offset_at(self.ts(), self.eof(), self.at_pos()),
            token_offset(self.ts(), self.eof(), r as int),
    {
        if self.pos < self.tokens.len() {
            self.tokens[self.pos].span.start
        } else {
            self.eof_offset
        }
    }

    fn bump(&mut self)
        requires
            old(self).pos < old(self).tokens.len(),
        ensures
            final(self).pos == old(self).pos + 1,
            final(self).tokens@ == old(self).tokens@,
            final(self).eof_offset == old(self).eof_offset,
    {
        self.pos = self.pos + 1;
    }

    /// How the current token is named in messages.
    fn found_text(&self) -> (r: String)
        ensures
            r@ == found(self.ts(), self.at_pos()),
    {
        match self.peek_kind() {
            Some(k) => k.display_text(),
            None => string_of("end of file"),
        }
    }

    /// `expected LABEL, found …` at the current token.
    fn error_expected(&self, label: &str) -> (r: ParseError)
        ensures
            token_offset(self.ts(), self.eof(), r.offset as int),
            r@ == (expected_msg(self.ts(), self.at_pos(), label@), offset_at(
                self.ts(),
                self.eof(),
                self.at_pos(),
            )),
    {
        let mut m = string_of("expected ");
        push_str(&mut m, label);
        push_str(&mut m, ", found ");
        let f = self.found_text();
        push_str(&mut m, f.as_str());
        ParseError { message: m, offset: self.current_offset() }
    }

    /// Consumes the current token if it is of the kind `expected`, and hands
    /// it back.
    fn expect(&mut self, expected: &Token, label: &str) -> (r: Result<&'a SpannedToken<'a>, ParseError>)
        requires
            old(self).valid(),
        ensures
            old(self).same_input(*final(self)),
            r matches Err(e) ==> token_offset(old(self).ts(), old(self).eof(), e.offset as int),
            match r {
                Ok(tok) => {
                    &&& old(self).pos < old(self).tokens@.len()
                    &&& *tok == old(self).tokens@[old(self).pos as int]
                    &&& expect(old(self).ts(), old(self).eof(), old(self).at_pos(), expected@, label@)
                        == success((), final(self).at_pos())
                },
                Err(e) => expect(old(self).ts(), old(self).eof(), old(self).at_pos(), expected@, label@)
                    == failure::<()>(e@),
            },
            r is Ok ==> final(self).pos == old(self).pos + 1,
            r is Err ==> final(self).pos == old(self).pos,
    {
        if self.pos < self.tokens.len() && same_kind(&self.tokens[self.pos].kind, expected) {
            let toks: &'a [SpannedToken<'a>] = self.tokens;
            let tok = &toks[self.pos];
            proof {
                assert(self.ts()[self.at_pos()].0 == tok.kind@);
            }
            self.bump();
            Ok(tok)
        } else {
            Err(self.error_expected(label))
        }
    }

    fn expect_ident(&mut self, label: &str) -> (r: Result<String, ParseError>)
        requires
            old(self).valid(),
        ensures
            old(self).same_input(*final(self)),
            r matches Err(e) ==> token_offset(old(self).ts(), old(self).eof(), e.offset as int),
            agrees(
                expect_ident(old(self).ts(), old(self).eof(), old(self).at_pos(), label@),
                r,
                final(self).at_pos(),
            ),
            r is Ok ==> final(self).pos == old(self).pos + 1,
    {
        match self.peek_kind() {
            Some(Token::Ident(name)) => {
                let s = string_of(*name);
                self.bump();
                Ok(s)
            },
            _ => Err(self.error_expected(label)),
        }
    }

    #[verifier::rlimit(40)]
    fn parse_expr(&mut self) -> (r: Result<Expr, ParseError>)
        requires
            old(self).valid(),
        ensures
            old(self).same_input(*final(self)),
            r matches Err(e) ==> token_offset(old(self).ts(), old(self).eof(), e.offset as int),
            agrees(p_expr(old(self).ts(), old(self).eof(), old(self).at_pos()), r, final(self).at_pos()),
            r is Ok ==> old(self).pos < final(self).pos,
        decreases old(self).tokens.len() - old(self).pos, 40int,
    {
        self.parse_or()
    }

    #[verifier::rlimit(40)]
    fn parse_or(&mut self) -> (r: Result<Expr, ParseError>)
        requires
            old(self).valid(),
        ensures
            old(self).same_input(*final(self)),
            r matches Err(e) ==> token_offset(old(self).ts(), old(self).eof(), e.offset as int),
            agrees(p_or(old(self).ts(), old(self).eof(), old(self).at_pos()), r, final(self).at_pos()),
            r is Ok ==> old(self).pos < final(self).pos,
        decreases old(self).tokens.len() - old(self).pos, 39int,
    {
        let ghost start = self.at_pos();
        let mut lhs = self.parse_and()?;
        while self.peek_is(&Token::OrOr)
            invariant
                self.tokens@ == old(self).tokens@,
                self.eof_offset == old(self).eof_offset,
                start == old(self).pos,
                start < self.pos <= self.tokens.len(),
                p_or(self.ts(), self.eof(), start) == or_tail(self.ts(), self.eof(), self.at_pos(), lhs@),
            decreases self.tokens.len() - self.pos,
        {
            self.bump();
            let rhs = self.parse_and()?;
            lhs = Expr::Binary { op: BinOp::Or, lhs: Box::new(lhs), rhs: Box::new(rhs) };
        }
        Ok(lhs)
    }

    #[verifier::rlimit(40)]
    fn parse_and(&mut self) -> (r: Result<Expr, ParseError>)
        requires
            old(self).valid(),
        ensures
            old(self).same_input(*final(self)),
            r matches Err(e) ==> token_offset(old(self).ts(), old(self).eof(), e.offset as int),
            agrees(p_and(old(self).ts(), old(self).eof(), old(self).at_pos()), r, final(self).at_pos()),
            r is Ok ==> old(self).pos < final(self).pos,
        decreases old(self).tokens.len() - old(self).pos, 37int,
    {
        let ghost start = self.at_pos();
        let mut lhs = self.parse_compare()?;
        while self.peek_is(&Token::AndAnd)
            invariant
                self.tokens@ == old(self).tokens@,
                self.eof_offset == old(self).eof_offset,
                start == old(self).pos,
                start < self.pos <= self.tokens.len(),
                p_and(self.ts(), self.eof(), start) == and_tail(self.ts(), self.eof(), self.at_pos(), lhs@),
            decreases self.tokens.len() - self.pos,
        {
            self.bump();
            let rhs = self.parse_compare()?;
            lhs = Expr::Binary { op: BinOp::And, lhs: Box::new(lhs), rhs: Box::new(rhs) };
        }
        Ok(lhs)
    }

    fn peek_compare_op(&self) -> (r: Option<BinOp>)
        ensures
            r == compare_op(peek(self.ts(), self.at_pos())),
    {
        match self.peek_kind() {
            Some(Token::EqEq) => Some(BinOp::Eq),
            Some(Token::NotEq) => Some(BinOp::Ne),
            Some(Token::Lt) => Some(BinOp::Lt),
            Some(Token::Le) => Some(BinOp::Le),
            Some(Token::Gt) => Some(BinOp::Gt),
            Some(Token::Ge) => Some(BinOp::Ge),
            _ => None,
        }
    }

    #[verifier::rlimit(40)]
    fn parse_compare(&mut self) -> (r: Result<Expr, ParseError>)
        requires
            old(self).valid(),
        ensures
            old(self).same_input(*final(self)),
            r matches Err(e) ==> token_offset(old(self).ts(), old(self).eof(), e.offset as int),
            agrees(p_compare(old(self).ts(), old(self).eof(), old(self).at_pos()), r, final(self).at_pos()),
            r is Ok ==> old(self).pos < final(self).pos,
        decreases old(self).tokens.len() - old(self).pos, 35int,
    {
        let ghost start = self.at_pos();
        let mut lhs = self.parse_add()?;
        let mut next = self.peek_compare_op();
        while next.is_some()
            invariant
                self.tokens@ == old(self).tokens@,
                self.eof_offset == old(self).eof_offset,
                start == old(self).pos,
                start < self.pos <= self.tokens.len(),
                next == compare_op(peek(self.ts(), self.at_pos())),
                p_compare(self.ts(), self.eof(), start) == compare_tail(self.ts(), self.eof(), self.at_pos(), lhs@),
            decreases self.tokens.len() - self.pos,
        {
            if let Some(op) = next {
                self.bump();
                let rhs = self.parse_add()?;
                lhs = Expr::Binary { op, lhs: Box::new(lhs), rhs: Box::new(rhs) };
            }
            next = self.peek_compare_op();
        }
        Ok(lhs)
    }

    fn peek_add_op(&self) -> (r: Option<BinOp>)
        ensures
            r == add_op(peek(self.ts(), self.at_pos())),
    {
        match self.peek_kind() {
            Some(Token::Plus) => Some(BinOp::Add),
            Some(Token::Minus) => Some(BinOp::Sub),
            _ => None,
        }
    }

    #[verifier::rlimit(40)]
    fn parse_add(&mut self) -> (r: Result<Expr, ParseError>)
        requires
            old(self).valid(),
        ensures
            old(self).same_input(*final(self)),
            r matches Err(e) ==> token_offset(old(self).ts(), old(self).eof(), e.offset as int),
            agrees(p_add(old(self).ts(), old(self).eof(), old(self).at_pos()), r, final(self).at_pos()),
            r is Ok ==> old(self).pos < final(self).pos,
        decreases old(self).tokens.len() - old(self).pos, 33int,
    {
        let ghost start = self.at_pos();
        let mut lhs = self.parse_mul()?;
        let mut next = self.peek_add_op();
        while next.is_some()
            invariant
                self.tokens@ == old(self).tokens@,
                self.eof_offset == old(self).eof_offset,
                start == old(self).pos,
                start < self.pos <= self.tokens.len(),
                next == add_op(peek(self.ts(), self.at_pos())),
                p_add(self.ts(), self.eof(), start) == add_tail(self.ts(), self.eof(), self.at_pos(), lhs@),
            decreases self.tokens.len() - self.pos,
        {
            if let Some(op) = next {
                self.bump();
                let rhs = self.parse_mul()?;
                lhs = Expr::Binary { op, lhs: Box::new(lhs), rhs: Box::new(rhs) };
            }
            next = self.peek_add_op();
        }
        Ok(lhs)
    }

    fn peek_mul_op(&self) -> (r: Option<BinOp>)
        ensures
            r == mul_op(peek(self.ts(), self.at_pos())),
    {
        match self.peek_kind() {
            Some(Token::Star) => Some(BinOp::Mul),
            Some(Token::Slash) => Some(BinOp::Div),
            Some(Token::Percent) => Some(BinOp::Rem),
            _ => None,
        }
    }

    #[verifier::rlimit(40)]
    fn parse_mul(&mut self) -> (r: Result<Expr, ParseError>)
        requires
            old(self).valid(),
        ensures
            old(self).same_input(*final(self)),
            r matches Err(e) ==> token_offset(old(self).ts(), old(self).eof(), e.offset as int),
            agrees(p_mul(old(self).ts(), old(self).eof(), old(self).at_pos()), r, final(self).at_pos()),
            r is Ok ==> old(self).pos < final(self).pos,
        decreases old(self).tokens.len() - old(self).pos, 31int,
    {
        let ghost start = self.at_pos();
        let mut lhs = self.parse_unary()?;
        let mut next = self.peek_mul_op();
        while next.is_some()
            invariant
                self.tokens@ == old(self).tokens@,
                self.eof_offset == old(self).eof_offset,
                start == old(self).pos,
                start < self.pos <= self.tokens.len(),
                next == mul_op(peek(self.ts(), self.at_pos())),
                p_mul(self.ts(), self.eof(), start) == mul_tail(self.ts(), self.eof(), self.at_pos(), lhs@),
            decreases self.tokens.len() - self.pos,
        {
            if let Some(op) = next {
                self.bump();
                let rhs = self.parse_unary()?;
                lhs = Expr::Binary { op, lhs: Box::new(lhs), rhs: Box::new(rhs) };
            }
            next = self.peek_mul_op();
        }
        Ok(lhs)
    }

    fn peek_un_op(&self) -> (r: Option<UnOp>)
        ensures
            r == un_op(peek(self.ts(), self.at_pos())),
    {
        match self.peek_kind() {
            Some(Token::Minus) => Some(UnOp::Neg),
            Some(Token::Bang) => Some(UnOp::Not),
            Some(Token::Star) => Some(UnOp::Deref),
            Some(Token::Amp) => Some(UnOp::AddrOf),
            _ => None,
        }
    }

    #[verifier::rlimit(40)]
    fn parse_unary(&mut self) -> (r: Result<Expr, ParseError>)
        requires
            old(self).valid(),
        ensures
            old(self).same_input(*final(self)),
            r matches Err(e) ==> token_offset(old(self).ts(), old(self).eof(), e.offset as int),
            agrees(p_unary(old(self).ts(), old(self).eof(), old(self).at_pos()), r, final(self).at_pos()),
            r is Ok ==> old(self).pos < final(self).pos,
        decreases old(self).tokens.len() - old(self).pos, 29int,
    {
        match self.peek_un_op() {
            Some(op) => {
                self.bump();
                let expr = self.parse_unary()?;
                Ok(Expr::Unary { op, expr: Box::new(expr) })
            },
            None => self.parse_postfix(),
        }
    }

    #[verifier::rlimit(40)]
    fn parse_postfix(&mut self) -> (r: Result<Expr, ParseError>)
        requires
            old(self).valid(),
        ensures
            old(self).same_input(*final(self)),
            r matches Err(e) ==> token_offset(old(self).ts(), old(self).eof(), e.offset as int),
            agrees(p_postfix(old(self).ts(), old(self).eof(), old(self).at_pos()), r, final(self).at_pos()),
            r is Ok ==> old(self).pos < final(self).pos,
        decreases old(self).tokens.len() - old(self).pos, 28int,
    {
        let ghost start = self.at_pos();
        let mut expr = self.parse_operand()?;
        while self.peek_is(&Token::Dot)
            invariant
                self.tokens@ == old(self).tokens@,
                self.eof_offset == old(self).eof_offset,
                start == old(self).pos,
                start < self.pos <= self.tokens.len(),
                p_postfix(self.ts(), self.eof(), start) == postfix_tail(self.ts(), self.eof(), self.at_pos(), expr@),
            decreases self.tokens.len() - self.pos,
        {
            self.bump();
            let field = self.expect_ident("field name")?;
            expr = Expr::Field { base: Box::new(expr), field };
        }
        Ok(expr)
    }

    #[verifier::rlimit(40)]
    fn parse_operand(&mut self) -> (r: Result<Expr, ParseError>)
        requires
            old(self).valid(),
        ensures
            old(self).same_input(*final(self)),
            r matches Err(e) ==> token_offset(old(self).ts(), old(self).eof(), e.offset as int),
            agrees(p_operand(old(self).ts(), old(self).eof(), old(self).at_pos()), r, final(self).at_pos()),
            r is Ok ==> old(self).pos < final(self).pos,
        decreases old(self).tokens.len() - old(self).pos, 26int,
    {
        match self.peek_kind() {
            Some(Token::Int(digits)) => {
                let offset = self.current_offset();
                match parse_int_literal(*digits) {
                    Some(value) => {
                        self.bump();
                        Ok(Expr::Int(value))
                    },
                    None => {
                        let mut m = string_of("integer literal `");
                        push_str(&mut m, *digits);
                        push_str(&mut m, "` is out of range");
                        Err(ParseError { message: m, offset })
                    },
                }
            },
            Some(Token::True) => {
                self.bump();
                Ok(Expr::Bool(true))
            },
            Some(Token::False) => {
                self.bump();
                Ok(Expr::Bool(false))
            },
            Some(Token::Ident(name)) => {
                let name = string_of(*name);
                self.bump();
                if self.peek_is(&Token::LParen) {
                    let args = self.parse_arg_list()?;
                    Ok(Expr::Call { name, args })
                } else if self.peek_is(&Token::PathSep) {
                    self.bump();
                    let variant = self.expect_ident("variant name")?;
                    Ok(Expr::Variant { enum_name: name, variant })
                } else if self.at_struct_lit() {
                    let fields = self.parse_struct_lit_fields()?;
                    Ok(Expr::StructLit { name, fields })
                } else {
                    Ok(Expr::Var(name))
                }
            },
            Some(Token::LParen) => {
                self.bump();
                let expr = self.parse_expr()?;
                self.expect(&Token::RParen, "`)`")?;
                Ok(expr)
            },
            _ => Err(self.error_expected("expression")),
        }
    }

    #[verifier::rlimit(40)]
    fn parse_struct_lit_fields(&mut self) -> (r: Result<Vec<(String, Expr)>, ParseError>)
        requires
            old(self).valid(),
        ensures
            old(self).same_input(*final(self)),
            r matches Err(e) ==> token_offset(old(self).ts(), old(self).eof(), e.offset as int),
            match r {
                Ok(fields) => p_lit_fields(old(self).ts(), old(self).eof(), old(self).at_pos())
                    == success(field_inits_view(fields@), final(self).at_pos()),
                Err(e) => p_lit_fields(old(self).ts(), old(self).eof(), old(self).at_pos())
                    == failure::<Seq<(Seq<char>, SpecExpr)>>(e@),
            },
            r is Ok ==> old(self).pos < final(self).pos,
        decreases old(self).tokens.len() - old(self).pos, 25int,
    {
        let ghost start = self.at_pos();
        self.expect(&Token::LBrace, "`{`")?;
        let mut fields: Vec<(String, Expr)> = Vec::new();
        proof {
            assert(field_inits_view(fields@) =~= Seq::<(Seq<char>, SpecExpr)>::empty());
        }
        loop
            invariant
                self.tokens@ == old(self).tokens@,
                self.eof_offset == old(self).eof_offset,
                start == old(self).pos,
                start < self.pos <= self.tokens.len(),
                p_lit_fields(self.ts(), self.eof(), start) == lit_fields_tail(
                    self.ts(),
                    self.eof(),
                    self.at_pos(),
                    field_inits_view(fields@),
                ),
            decreases self.tokens.len() - self.pos,
        {
            let name = self.expect_ident("field name")?;
            self.expect(&Token::Colon, "`:`")?;
            let value = self.parse_expr()?;
            let ghost old_fields = fields@;
            fields.push((name, value));
            proof {
                lemma_field_inits_view_push(old_fields, fields@.last());
                assert(fields@ == old_fields.push(fields@.last()));
            }
            if self.peek_is(&Token::Comma) {
                self.bump();
            } else {
                self.expect(&Token::RBrace, "`}`")?;
                return Ok(fields);
            }
        }
    }

    #[verifier::rlimit(40)]
    fn parse_arg_list(&mut self) -> (r: Result<Vec<Expr>, ParseError>)
        requires
            old(self).valid(),
        ensures
            old(self).same_input(*final(self)),
            r matches Err(e) ==> token_offset(old(self).ts(), old(self).eof(), e.offset as int),
            match r {
                Ok(args) => p_arg_list(old(self).ts(), old(self).eof(), old(self).at_pos())
                    == success(exprs_view(args@), final(self).at_pos()),
                Err(e) => p_arg_list(old(self).ts(), old(self).eof(), old(self).at_pos())
                    == failure::<Seq<SpecExpr>>(e@),
            },
            r is Ok ==> old(self).pos < final(self).pos,
        decreases old(self).tokens.len() - old(self).pos, 25int,
    {
        let ghost start = self.at_pos();
        self.expect(&Token::LParen, "`(`")?;
        let mut args: Vec<Expr> = Vec::new();
        if self.peek_is(&Token::RParen) {
            self.bump();
            proof {
                assert(exprs_view(args@) =~= Seq::<SpecExpr>::empty());
            }
            return Ok(args);
        }
        proof {
            assert(exprs_view(args@) =~= Seq::<SpecExpr>::empty());
        }
        loop
            invariant
                self.tokens@ == old(self).tokens@,
                self.eof_offset == old(self).eof_offset,
                start == old(self).pos,
                start < self.pos <= self.tokens.len(),
                p_arg_list(self.ts(), self.eof(), start) == args_tail(self.ts(), self.eof(), self.at_pos(), exprs_view(args@)),
            decreases self.tokens.len() - self.pos,
        {
            let arg = self.parse_expr()?;
            let ghost old_args = args@;
            args.push(arg);
            proof {
                lemma_exprs_view_push(old_args, args@.last());
                assert(args@ == old_args.push(args@.last()));
            }
            if self.peek_is(&Token::Comma) {
                self.bump();
            } else {
                self.expect(&Token::RParen, "`)`")?;
                return Ok(args);
            }
        }
    }

    #[verifier::rlimit(40)]
    fn parse_type(&mut self) -> (r: Result<Type, ParseError>)
        requires
            old(self).valid(),
        ensures
            old(self).same_input(*final(self)),
            r matches Err(e) ==> token_offset(old(self).ts(), old(self).eof(), e.offset as int),
            agrees(p_type(old(self).ts(), old(self).eof(), old(self).at_pos()), r, final(self).at_pos()),
            r is Ok ==> old(self).pos < final(self).pos,
        decreases old(self).tokens.len() - old(self).pos,
    {
        if self.peek_is(&Token::Star) {
            self.bump();
            let inner = self.parse_type()?;
            Ok(Type::Ptr(Box::new(inner)))
        } else {
            let name = self.expect_ident("type name")?;
            Ok(Type::Name(name))
        }
    }

    #[verifier::rlimit(80)]
    #[verifier::spinoff_prover]
    fn parse_block(&mut self) -> (r: Result<Block, ParseError>)
        requires
            old(self).valid(),
        ensures
            old(self).same_input(*final(self)),
            r matches Err(e) ==> token_offset(old(self).ts(), old(self).eof(), e.offset as int),
            agrees(p_block(old(self).ts(), old(self).eof(), old(self).at_pos()), r, final(self).at_pos()),
            r is Ok ==> old(self).pos < final(self).pos,
        decreases old(self).tokens.len() - old(self).pos, 60int,
    {
        let ghost start = self.at_pos();
        self.expect(&Token::LBrace, "`{`")?;
        let mut stmts: Vec<Stmt> = Vec::new();
        proof {
            assert(stmts_view(stmts@) =~= Seq::<SpecStmt>::empty());
        }
        while !self.peek_is(&Token::RBrace) && self.pos < self.tokens.len()
            invariant
                self.tokens@ == old(self).tokens@,
                self.eof_offset == old(self).eof_offset,
                start == old(self).pos,
                start < self.pos <= self.tokens.len(),
                p_block(self.ts(), self.eof(), start) == stmts_tail(
                    self.ts(),
                    self.eof(),
                    self.at_pos(),
                    stmts_view(stmts@),
                ),
            decreases self.tokens.len() - self.pos,
        {
            let stmt = self.parse_stmt()?;
            let ghost before = stmts@;
            stmts.push(stmt);
            proof {
                lemma_stmts_view_push(before, stmts@.last());
                assert(stmts@ == before.push(stmts@.last()));
            }
        }
        self.expect(&Token::RBrace, "`}`")?;
        Ok(Block { stmts })
    }

    /// An expression followed by `;`.
    #[verifier::rlimit(40)]
    fn parse_expr_semi(&mut self) -> (r: Result<Expr, ParseError>)
        requires
            old(self).valid(),
        ensures
            old(self).same_input(*final(self)),
            r matches Err(e) ==> token_offset(old(self).ts(), old(self).eof(), e.offset as int),
            agrees(expr_semi(old(self).ts(), old(self).eof(), old(self).at_pos()), r, final(self).at_pos()),
            r is Ok ==> old(self).pos < final(self).pos,
    {
        let expr = self.parse_expr()?;
        self.expect(&Token::Semi, "`;`")?;
        Ok(expr)
    }

    #[verifier::rlimit(80)]
    #[verifier::spinoff_prover]
    fn parse_stmt(&mut self) -> (r: Result<Stmt, ParseError>)
        requires
            old(self).valid(),
        ensures
            old(self).same_input(*final(self)),
            r matches Err(e) ==> token_offset(old(self).ts(), old(self).eof(), e.offset as int),
            agrees(p_stmt(old(self).ts(), old(self).eof(), old(self).at_pos()), r, final(self).at_pos()),
            r is Ok ==> old(self).pos < final(self).pos,
        decreases old(self).tokens.len() - old(self).pos, 58int,
    {
        match self.stmt_start() {
            StmtStart::Return => {
                self.bump();
                let expr = self.parse_expr_semi()?;
                Ok(Stmt::Return(expr))
            },
            StmtStart::Print => {
                self.bump();
                self.expect(&Token::LParen, "`(`")?;
                let expr = self.parse_expr()?;
                self.expect(&Token::RParen, "`)`")?;
                self.expect(&Token::Semi, "`;`")?;
                Ok(Stmt::Print(expr))
            },
            StmtStart::Let => self.parse_let(true),
            StmtStart::Const => self.parse_let(false),
            StmtStart::If => self.parse_if(),
            StmtStart::While => self.parse_while(),
            StmtStart::For => self.parse_for(),
            StmtStart::Match => self.parse_match(),
            StmtStart::Break => {
                self.bump();
                self.expect(&Token::Semi, "`;`")?;
                Ok(Stmt::Break)
            },
            StmtStart::Continue => {
                self.bump();
                self.expect(&Token::Semi, "`;`")?;
                Ok(Stmt::Continue)
            },
            StmtStart::Other => self.parse_assign(),
            StmtStart::End => Err(
                ParseError {
                    message: string_of("expected statement, found end of file"),
                    offset: self.current_offset(),
                },
            ),
        }
    }

    /// Which statement form the current token starts.
    fn stmt_start(&self) -> (r: StmtStart)
        ensures
            r == stmt_start_of(peek(self.ts(), self.at_pos())),
            r != StmtStart::End ==> self.pos < self.tokens.len(),
    {
        match self.peek_kind() {
            Some(Token::Return) => StmtStart::Return,
            Some(Token::Print) => StmtStart::Print,
            Some(Token::Let) => StmtStart::Let,
            Some(Token::Const) => StmtStart::Const,
            Some(Token::If) => StmtStart::If,
            Some(Token::While) => StmtStart::While,
            Some(Token::For) => StmtStart::For,
            Some(Token::Match) => StmtStart::Match,
            Some(Token::Break) => StmtStart::Break,
            Some(Token::Continue) => StmtStart::Continue,
            Some(_) => StmtStart::Other,
            None => StmtStart::End,
        }
    }

    /// `let` (`mutable`) or `const` (not `mutable`), from its keyword.
    #[verifier::rlimit(40)]
    fn parse_let(&mut self, mutable: bool) -> (r: Result<Stmt, ParseError>)
        requires
            old(self).pos < old(self).tokens.len(),
        ensures
            old(self).same_input(*final(self)),
            r matches Err(e) ==> token_offset(old(self).ts(), old(self).eof(), e.offset as int),
            agrees(
                p_let(old(self).ts(), old(self).eof(), old(self).at_pos(), mutable),
                r,
                final(self).at_pos(),
            ),
            r is Ok ==> old(self).pos < final(self).pos,
    {
        self.bump();
        let name = self.expect_ident("variable name")?;
        let ty = if self.peek_is(&Token::Colon) {
            self.bump();
            Some(self.parse_type()?)
        } else {
            None
        };
        self.expect(&Token::Eq, "`=`")?;
        let value = self.parse_expr_semi()?;
        Ok(Stmt::Let { name, ty, value, mutable })
    }

    #[verifier::rlimit(40)]
    fn parse_assign(&mut self) -> (r: Result<Stmt, ParseError>)
        requires
            old(self).valid(),
        ensures
            old(self).same_input(*final(self)),
            r matches Err(e) ==> token_offset(old(self).ts(), old(self).eof(), e.offset as int),
            agrees(p_assign(old(self).ts(), old(self).eof(), old(self).at_pos()), r, final(self).at_pos()),
            r is Ok ==> old(self).pos < final(self).pos,
    {
        let target = self.parse_expr()?;
        self.expect(&Token::Eq, "`=`")?;
        let value = self.parse_expr_semi()?;
        Ok(Stmt::Assign { target, value })
    }

    /// `if`, from its keyword.
    #[verifier::rlimit(40)]
    fn parse_if(&mut self) -> (r: Result<Stmt, ParseError>)
        requires
            old(self).pos < old(self).tokens.len(),
        ensures
            old(self).same_input(*final(self)),
            r matches Err(e) ==> token_offset(old(self).ts(), old(self).eof(), e.offset as int),
            agrees(p_if(old(self).ts(), old(self).eof(), old(self).at_pos()), r, final(self).at_pos()),
            r is Ok ==> old(self).pos < final(self).pos,
        decreases old(self).tokens.len() - old(self).pos, 57int,
    {
        self.bump();
        let cond = self.parse_expr()?;
        let then_block = self.parse_block()?;
        let else_block = self.parse_else()?;
        Ok(Stmt::If { cond, then_block, else_block })
    }

    /// An optional `else` part; `else if` becomes a block holding that `if`.
    #[verifier::rlimit(40)]
    fn parse_else(&mut self) -> (r: Result<Option<Block>, ParseError>)
        requires
            old(self).valid(),
        ensures
            old(self).same_input(*final(self)),
            r matches Err(e) ==> token_offset(old(self).ts(), old(self).eof(), e.offset as int),
            match r {
                Ok(b) => p_else(old(self).ts(), old(self).eof(), old(self).at_pos()) == success(
                    opt_block_view(b),
                    final(self).at_pos(),
                ),
                Err(e) => p_else(old(self).ts(), old(self).eof(), old(self).at_pos())
                    == failure::<Option<SpecBlock>>(e@),
            },
            r is Ok ==> old(self).pos <= final(self).pos,
        decreases old(self).tokens.len() - old(self).pos, 56int,
    {
        if !self.peek_is(&Token::Else) {
            return Ok(None);
        }
        self.bump();
        if self.peek_is(&Token::If) {
            let nested = self.parse_if()?;
            let mut stmts: Vec<Stmt> = Vec::new();
            stmts.push(nested);
            proof {
                assert(stmts_view(Seq::<Stmt>::empty()) =~= Seq::<SpecStmt>::empty());
                lemma_stmts_view_push(Seq::<Stmt>::empty(), stmts@.last());
                assert(stmts@ =~= Seq::<Stmt>::empty().push(stmts@.last()));
            }
            Ok(Some(Block { stmts }))
        } else {
            let block = self.parse_block()?;
            Ok(Some(block))
        }
    }

    /// `while`, from its keyword.
    #[verifier::rlimit(40)]
    fn parse_while(&mut self) -> (r: Result<Stmt, ParseError>)
        requires
            old(self).pos < old(self).tokens.len(),
        ensures
            old(self).same_input(*final(self)),
            r matches Err(e) ==> token_offset(old(self).ts(), old(self).eof(), e.offset as int),
            agrees(p_while(old(self).ts(), old(self).eof(), old(self).at_pos()), r, final(self).at_pos()),
            r is Ok ==> old(self).pos < final(self).pos,
        decreases old(self).tokens.len() - old(self).pos, 57int,
    {
        self.bump();
        let cond = self.parse_expr()?;
        let body = self.parse_block()?;
        Ok(Stmt::While { cond, body })
    }

    /// `for`, from its keyword.
    #[verifier::rlimit(40)]
    fn parse_for(&mut self) -> (r: Result<Stmt, ParseError>)
        requires
            old(self).pos < old(self).tokens.len(),
        ensures
            old(self).same_input(*final(self)),
            r matches Err(e) ==> token_offset(old(self).ts(), old(self).eof(), e.offset as int),
            agrees(p_for(old(self).ts(), old(self).eof(), old(self).at_pos()), r, final(self).at_pos()),
            r is Ok ==> old(self).pos < final(self).pos,
        decreases old(self).tokens.len() - old(self).pos, 57int,
    {
        self.bump();
        let name = self.expect_ident("loop variable")?;
        self.expect(&Token::In, "`in`")?;
        let start = self.parse_expr()?;
        self.expect(&Token::DotDot, "`..`")?;
        let end = self.parse_expr()?;
        let body = self.parse_block()?;
        Ok(Stmt::For { name, start, end, body })
    }

    /// `match`, from its keyword.
    #[verifier::rlimit(40)]
    fn parse_match(&mut self) -> (r: Result<Stmt, ParseError>)
        requires
            old(self).pos < old(self).tokens.len(),
        ensures
            old(self).same_input(*final(self)),
            r matches Err(e) ==> token_offset(old(self).ts(), old(self).eof(), e.offset as int),
            agrees(p_match(old(self).ts(), old(self).eof(), old(self).at_pos()), r, final(self).at_pos()),
            r is Ok ==> old(self).pos < final(self).pos,
        decreases old(self).tokens.len() - old(self).pos, 57int,
    {
        self.bump();
        let scrutinee = self.parse_expr()?;
        self.expect(&Token::LBrace, "`{`")?;
        let arms = self.parse_arms()?;
        Ok(Stmt::Match { scrutinee, arms })
    }

    /// The arms of a `match` and its closing `}`.
    #[verifier::rlimit(40)]
    fn parse_arms(&mut self) -> (r: Result<Vec<MatchArm>, ParseError>)
        requires
            old(self).valid(),
        ensures
            old(self).same_input(*final(self)),
            r matches Err(e) ==> token_offset(old(self).ts(), old(self).eof(), e.offset as int),
            match r {
                Ok(arms) => arms_tail(old(self).ts(), old(self).eof(), old(self).at_pos(), Seq::empty())
                    == success(arms_view(arms@), final(self).at_pos()),
                Err(e) => arms_tail(old(self).ts(), old(self).eof(), old(self).at_pos(), Seq::empty())
                    == failure::<Seq<SpecMatchArm>>(e@),
            },
            r is Ok ==> old(self).pos < final(self).pos,
        decreases old(self).tokens.len() - old(self).pos, 56int,
    {
        let ghost start = self.at_pos();
        let mut arms: Vec<MatchArm> = Vec::new();
        proof {
            assert(arms_view(arms@) =~= Seq::<SpecMatchArm>::empty());
        }
        while !self.peek_is(&Token::RBrace) && self.pos < self.tokens.len()
            invariant
                self.tokens@ == old(self).tokens@,
                self.eof_offset == old(self).eof_offset,
                start == old(self).pos,
                start <= self.pos <= self.tokens.len(),
                arms_tail(self.ts(), self.eof(), start, Seq::empty()) == arms_tail(
                    self.ts(),
                    self.eof(),
                    self.at_pos(),
                    arms_view(arms@),
                ),
            decreases self.tokens.len() - self.pos,
        {
            let enum_name = self.expect_ident("enum name")?;
            self.expect(&Token::PathSep, "`::`")?;
            let variant = self.expect_ident("variant name")?;
            self.expect(&Token::FatArrow, "`=>`")?;
            let body = self.parse_block()?;
            if self.peek_is(&Token::Comma) {
                self.bump();
            }
            let ghost before = arms@;
            arms.push(MatchArm { enum_name, variant, body });
            proof {
                lemma_arms_view_push(before, arms@.last());
                assert(arms@ == before.push(arms@.last()));
            }
        }
        self.expect(&Token::RBrace, "`}`")?;
        Ok(arms)
    }

    /// `( name: type, ... )`
    #[verifier::rlimit(40)]
    fn parse_params(&mut self) -> (r: Result<Vec<Param>, ParseError>)
        requires
            old(self).valid(),
        ensures
            old(self).same_input(*final(self)),
            r matches Err(e) ==> token_offset(old(self).ts(), old(self).eof(), e.offset as int),
            match r {
                Ok(params) => p_params(old(self).ts(), old(self).eof(), old(self).at_pos())
                    == success(params_view(params@), final(self).at_pos()),
                Err(e) => p_params(old(self).ts(), old(self).eof(), old(self).at_pos())
                    == failure::<Seq<SpecParam>>(e@),
            },
            r is Ok ==> old(self).pos < final(self).pos,
    {
        let ghost start = self.at_pos();
        self.expect(&Token::LParen, "`(`")?;
        let mut params: Vec<Param> = Vec::new();
        proof {
            assert(params_view(params@) =~= Seq::<SpecParam>::empty());
        }
        if self.peek_is(&Token::RParen) {
            self.bump();
            return Ok(params);
        }
        loop
            invariant
                self.tokens@ == old(self).tokens@,
                self.eof_offset == old(self).eof_offset,
                start == old(self).pos,
                start < self.pos <= self.tokens.len(),
                p_params(self.ts(), self.eof(), start) == decls_tail(
                    self.ts(),
                    self.eof(),
                    self.at_pos(),
                    params_view(params@),
                    "parameter name"@,
                    SpecToken::RParen,
                    "`)`"@,
                ),
            decreases self.tokens.len() - self.pos,
        {
            let name = self.expect_ident("parameter name")?;
            self.expect(&Token::Colon, "`:`")?;
            let ty = self.parse_type()?;
            let ghost before = params@;
            params.push(Param { name, ty });
            proof {
                assert(params_view(params@) =~= params_view(before).push(param_view(params@.last())));
            }
            if self.peek_is(&Token::Comma) {
                self.bump();
            } else {
                self.expect(&Token::RParen, "`)`")?;
                return Ok(params);
            }
        }
    }

    /// `fn`, from its keyword.
    #[verifier::rlimit(40)]
    fn parse_function(&mut self) -> (r: Result<Function, ParseError>)
        requires
            old(self).pos < old(self).tokens.len(),
        ensures
            old(self).same_input(*final(self)),
            r matches Err(e) ==> token_offset(old(self).ts(), old(self).eof(), e.offset as int),
            match r {
                Ok(f) => p_function(old(self).ts(), old(self).eof(), old(self).at_pos())
                    == success(function_view(f), final(self).at_pos()),
                Err(e) => p_function(old(self).ts(), old(self).eof(), old(self).at_pos())
                    == failure::<SpecFunction>(e@),
            },
            r is Ok ==> old(self).pos < final(self).pos,
    {
        self.bump();
        let name = self.expect_ident("function name")?;
        let params = self.parse_params()?;
        self.expect(&Token::Arrow, "`->`")?;
        let return_ty = self.parse_type()?;
        let body = self.parse_block()?;
        Ok(Function { name, params, return_ty, body })
    }

    /// `struct`, from its keyword.
    #[verifier::rlimit(40)]
    fn parse_struct(&mut self) -> (r: Result<StructItem, ParseError>)
        requires
            old(self).pos < old(self).tokens.len(),
        ensures
            old(self).same_input(*final(self)),
            r matches Err(e) ==> token_offset(old(self).ts(), old(self).eof(), e.offset as int),
            match r {
                Ok(s) => p_struct(old(self).ts(), old(self).eof(), old(self).at_pos()) == success(
                    SpecStructItem { name: s.name@, fields: field_decls_view(s.fields@) },
                    final(self).at_pos(),
                ),
                Err(e) => p_struct(old(self).ts(), old(self).eof(), old(self).at_pos())
                    == failure::<SpecStructItem>(e@),
            },
            r is Ok ==> old(self).pos < final(self).pos,
    {
        let ghost start = self.at_pos();
        self.bump();
        let name = self.expect_ident("struct name")?;
        self.expect(&Token::LBrace, "`{`")?;
        if self.peek_is(&Token::RBrace) {
            let mut m = string_of("struct `");
            push_str(&mut m, name.as_str());
            push_str(&mut m, "` must have at least one field");
            return Err(ParseError { message: m, offset: self.current_offset() });
        }
        let ghost body_start = self.at_pos();
        let mut fields: Vec<Field> = Vec::new();
        proof {
            assert(field_decls_view(fields@) =~= Seq::<SpecParam>::empty());
        }
        loop
            invariant
                self.tokens@ == old(self).tokens@,
                self.eof_offset == old(self).eof_offset,
                start == old(self).pos,
                start < body_start <= self.pos <= self.tokens.len(),
                p_struct(self.ts(), self.eof(), start) == (match decls_tail(
                    self.ts(),
                    self.eof(),
                    body_start,
                    Seq::empty(),
                    "field name"@,
                    SpecToken::RBrace,
                    "`}`"@,
                ) {
                    Err(e) => Err(e),
                    Ok((fs, q)) => Ok((SpecStructItem { name: name@, fields: fs }, q)),
                }),
                decls_tail(
                    self.ts(),
                    self.eof(),
                    body_start,
                    Seq::empty(),
                    "field name"@,
                    SpecToken::RBrace,
                    "`}`"@,
                ) == decls_tail(
                    self.ts(),
                    self.eof(),
                    self.at_pos(),
                    field_decls_view(fields@),
                    "field name"@,
                    SpecToken::RBrace,
                    "`}`"@,
                ),
            decreases self.tokens.len() - self.pos,
        {
            let field_name = self.expect_ident("field name")?;
            self.expect(&Token::Colon, "`:`")?;
            let ty = self.parse_type()?;
            let ghost before = fields@;
            fields.push(Field { name: field_name, ty });
            proof {
                assert(field_decls_view(fields@) =~= field_decls_view(before).push(
                    field_view(fields@.last()),
                ));
            }
            if self.peek_is(&Token::Comma) {
                self.bump();
            } else {
                self.expect(&Token::RBrace, "`}`")?;
                return Ok(StructItem { name, fields });
            }
        }
    }

    /// The variants of an `enum` and its closing `}`.
    #[verifier::rlimit(40)]
    fn parse_variants(&mut self) -> (r: Result<Vec<String>, ParseError>)
        requires
            old(self).valid(),
        ensures
            old(self).same_input(*final(self)),
            r matches Err(e) ==> token_offset(old(self).ts(), old(self).eof(), e.offset as int),
            match r {
                Ok(vs) => variants_tail(old(self).ts(), old(self).eof(), old(self).at_pos(), Seq::empty())
                    == success(strings_view(vs@), final(self).at_pos()),
                Err(e) => variants_tail(old(self).ts(), old(self).eof(), old(self).at_pos(), Seq::empty())
                    == failure::<Seq<Seq<char>>>(e@),
            },
            r is Ok ==> old(self).pos < final(self).pos,
    {
        let ghost start = self.at_pos();
        let mut variants: Vec<String> = Vec::new();
        proof {
            assert(strings_view(variants@) =~= Seq::<Seq<char>>::empty());
        }
        loop
            invariant
                self.tokens@ == old(self).tokens@,
                self.eof_offset == old(self).eof_offset,
                start == old(self).pos,
                start <= self.pos <= self.tokens.len(),
                variants_tail(self.ts(), self.eof(), start, Seq::empty()) == variants_tail(
                    self.ts(),
                    self.eof(),
                    self.at_pos(),
                    strings_view(variants@),
                ),
            decreases self.tokens.len() - self.pos,
        {
            if self.peek_is(&Token::RBrace) {
                self.bump();
                return Ok(variants);
            }
            let variant = self.expect_ident("variant name")?;
            let ghost before = variants@;
            variants.push(variant);
            proof {
                assert(strings_view(variants@) =~= strings_view(before).push(variants@.last()@));
            }
            if self.peek_is(&Token::Comma) {
                self.bump();
            } else {
                self.expect(&Token::RBrace, "`}`")?;
                return Ok(variants);
            }
        }
    }

    /// `enum`, from its keyword.
    #[verifier::rlimit(40)]
    fn parse_enum(&mut self) -> (r: Result<EnumItem, ParseError>)
        requires
            old(self).pos < old(self).tokens.len(),
        ensures
            old(self).same_input(*final(self)),
            r matches Err(e) ==> token_offset(old(self).ts(), old(self).eof(), e.offset as int),
            match r {
                Ok(e) => p_enum(old(self).ts(), old(self).eof(), old(self).at_pos()) == success(
                    SpecEnumItem { name: e.name@, variants: strings_view(e.variants@) },
                    final(self).at_pos(),
                ),
                Err(e) => p_enum(old(self).ts(), old(self).eof(), old(self).at_pos())
                    == failure::<SpecEnumItem>(e@),
            },
            r is Ok ==> old(self).pos < final(self).pos,
    {
        self.bump();
        let name = self.expect_ident("enum name")?;
        self.expect(&Token::LBrace, "`{`")?;
        let variants = self.parse_variants()?;
        Ok(EnumItem { name, variants })
    }

    /// `const` at the top level, from its keyword.
    #[verifier::rlimit(40)]
    fn parse_const_item(&mut self) -> (r: Result<ConstItem, ParseError>)
        requires
            old(self).pos < old(self).tokens.len(),
        ensures
            old(self).same_input(*final(self)),
            r matches Err(e) ==> token_offset(old(self).ts(), old(self).eof(), e.offset as int),
            match r {
                Ok(c) => p_const_item(old(self).ts(), old(self).eof(), old(self).at_pos()) == success(
                    SpecConstItem { name: c.name@, ty: c.ty@, value: c.value@ },
                    final(self).at_pos(),
                ),
                Err(e) => p_const_item(old(self).ts(), old(self).eof(), old(self).at_pos())
                    == failure::<SpecConstItem>(e@),
            },
            r is Ok ==> old(self).pos < final(self).pos,
    {
        self.bump();
        let name = self.expect_ident("const name")?;
        self.expect(&Token::Colon, "`:`")?;
        let ty = self.parse_type()?;
        self.expect(&Token::Eq, "`=`")?;
        let value = self.parse_expr_semi()?;
        Ok(ConstItem { name, ty, value })
    }

    #[verifier::rlimit(40)]
    fn parse_item(&mut self) -> (r: Result<Item, ParseError>)
        requires
            old(self).valid(),
        ensures
            old(self).same_input(*final(self)),
            r matches Err(e) ==> token_offset(old(self).ts(), old(self).eof(), e.offset as int),
            agrees(p_item(old(self).ts(), old(self).eof(), old(self).at_pos()), r, final(self).at_pos()),
            r is Ok ==> old(self).pos < final(self).pos,
    {
        match self.peek_kind() {
            Some(Token::Fn) => {
                let f = self.parse_function()?;
                Ok(Item::Fn(f))
            },
            Some(Token::Struct) => {
                let s = self.parse_struct()?;
                Ok(Item::Struct(s))
            },
            Some(Token::Enum) => {
                let e = self.parse_enum()?;
                Ok(Item::Enum(e))
            },
            Some(Token::Const) => {
                let c = self.parse_const_item()?;
                Ok(Item::Const(c))
            },
            _ => Err(self.error_expected("item")),
        }
    }

    #[verifier::rlimit(40)]
    fn parse_module(&mut self) -> (r: Result<SourceModule, ParseError>)
        requires
            old(self).pos == 0,
        ensures
            r matches Err(e) ==> token_offset(old(self).ts(), old(self).eof(), e.offset as int),
            match r {
                Ok(m) => spec_parse(old(self).ts(), old(self).eof()) == Ok::<SpecModule, (Seq<char>, int)>(m@),
                Err(e) => spec_parse(old(self).ts(), old(self).eof()) == Err::<SpecModule, (Seq<char>, int)>(e@),
            },
    {
        let mut items: Vec<Item> = Vec::new();
        proof {
            assert(items_view(items@) =~= Seq::<SpecItem>::empty());
        }
        while self.pos < self.tokens.len()
            invariant
                self.tokens@ == old(self).tokens@,
                self.eof_offset == old(self).eof_offset,
                self.pos <= self.tokens.len(),
                spec_parse(self.ts(), self.eof()) == items_tail(
                    self.ts(),
                    self.eof(),
                    self.at_pos(),
                    items_view(items@),
                ),
            decreases self.tokens.len() - self.pos,
        {
            let item = self.parse_item()?;
            let ghost before = items@;
            items.push(item);
            proof {
                assert(items_view(items@) =~= items_view(before).push(items@.last()@));
            }
        }
        Ok(SourceModule { items })
    }
}

/// Parse a token stream into a module AST; `source_len` is where errors at
/// the end of the input are reported.
pub fn parse(tokens: &[SpannedToken<'_>], source_len: usize) -> (r: Result<SourceModule, ParseError>)
    ensures
        r matches Err(e) ==> token_offset(spans_view(tokens@), source_len as int, e.offset as int),
        match r {
            Ok(m) => spec_parse(spans_view(tokens@), source_len as int) == Ok::<
                SpecModule,
                (Seq<char>, int),
            >(m@),
            Err(e) => spec_parse(spans_view(tokens@), source_len as int) == Err::<
                SpecModule,
                (Seq<char>, int),
            >(e@),
        },
{
    let mut parser = Parser { tokens, pos: 0, eof_offset: source_len };
    parser.parse_module()
}

} // verus!
