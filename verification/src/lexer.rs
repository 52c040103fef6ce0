//! Lexer for sattle (`.satl`) source.
//!
//! `lex` splits a source text into tokens by longest match, keywords taking
//! precedence over identifiers, and skips whitespace, `//` line comments and
//! `/* */` block comments. Its result is exactly `spec_lex` of the source's
//! UTF-8 bytes.

use vstd::prelude::*;
use vstd::string::StringSliceAdditionalSpecFns;
use vstd::utf8::{
    decode_utf8, is_continuation_byte, length_of_first_scalar,
    pop_first_scalar, valid_first_scalar, valid_utf8,
};
use crate::text::{push_str, string_of};

verus! {

/// A lexeme with its byte span in the source.
#[derive(Debug, PartialEq, Eq)]
pub struct SpannedToken<'a> {
    pub kind: Token<'a>,
    pub span: std::ops::Range<usize>,
}

/// Token kinds produced by the lexer.
#[derive(Debug, Clone, PartialEq, Eq)]
pub enum Token<'a> {
    Fn,
    Struct,
    Enum,
    Impl,
    Let,
    Const,
    If,
    Else,
    Match,
    Loop,
    While,
    For,
    In,
    Break,
    Continue,
    Return,
    Print,
    Mod,
    Use,
    Type,
    Pub,
    Unsafe,
    As,
    True,
    False,
    SelfValue,
    SelfType,
    Literal,
    Variable,
    Formula,
    Search,
    Scratch,
    Bitstruct,
    ReprEnum,
    Savepoint,
    Rollback,
    Int(&'a str),
    Ident(&'a str),
    Arrow,
    FatArrow,
    PathSep,
    EqEq,
    NotEq,
    Le,
    Ge,
    AndAnd,
    OrOr,
    Shl,
    Shr,
    DotDotDot,
    DotDot,
    LParen,
    RParen,
    LBrace,
    RBrace,
    LBracket,
    RBracket,
    Comma,
    Semi,
    Colon,
    Dot,
    Eq,
    Plus,
    Minus,
    Star,
    Slash,
    Percent,
    Lt,
    Gt,
    Bang,
    Amp,
    Pipe,
    Caret,
    At,
    Hash,
    Question,
}

/// The mathematical view of a token: identifier and integer texts as `Seq<char>`.
pub enum SpecToken {
    Fn,
    Struct,
    Enum,
    Impl,
    Let,
    Const,
    If,
    Else,
    Match,
    Loop,
    While,
    For,
    In,
    Break,
    Continue,
    Return,
    Print,
    Mod,
    Use,
    Type,
    Pub,
    Unsafe,
    As,
    True,
    False,
    SelfValue,
    SelfType,
    Literal,
    Variable,
    Formula,
    Search,
    Scratch,
    Bitstruct,
    ReprEnum,
    Savepoint,
    Rollback,
    Int(Seq<char>),
    Ident(Seq<char>),
    Arrow,
    FatArrow,
    PathSep,
    EqEq,
    NotEq,
    Le,
    Ge,
    AndAnd,
    OrOr,
    Shl,
    Shr,
    DotDotDot,
    DotDot,
    LParen,
    RParen,
    LBrace,
    RBrace,
    LBracket,
    RBracket,
    Comma,
    Semi,
    Colon,
    Dot,
    Eq,
    Plus,
    Minus,
    Star,
    Slash,
    Percent,
    Lt,
    Gt,
    Bang,
    Amp,
    Pipe,
    Caret,
    At,
    Hash,
    Question,
}

pub open spec fn token_view(t: Token) -> SpecToken {
    match t {
        Token::Fn => SpecToken::Fn,
        Token::Struct => SpecToken::Struct,
        Token::Enum => SpecToken::Enum,
        Token::Impl => SpecToken::Impl,
        Token::Let => SpecToken::Let,
        Token::Const => SpecToken::Const,
        Token::If => SpecToken::If,
        Token::Else => SpecToken::Else,
        Token::Match => SpecToken::Match,
        Token::Loop => SpecToken::Loop,
        Token::While => SpecToken::While,
        Token::For => SpecToken::For,
        Token::In => SpecToken::In,
        Token::Break => SpecToken::Break,
        Token::Continue => SpecToken::Continue,
        Token::Return => SpecToken::Return,
        Token::Print => SpecToken::Print,
        Token::Mod => SpecToken::Mod,
        Token::Use => SpecToken::Use,
        Token::Type => SpecToken::Type,
        Token::Pub => SpecToken::Pub,
        Token::Unsafe => SpecToken::Unsafe,
        Token::As => SpecToken::As,
        Token::True => SpecToken::True,
        Token::False => SpecToken::False,
        Token::SelfValue => SpecToken::SelfValue,
        Token::SelfType => SpecToken::SelfType,
        Token::Literal => SpecToken::Literal,
        Token::Variable => SpecToken::Variable,
        Token::Formula => SpecToken::Formula,
        Token::Search => SpecToken::Search,
        Token::Scratch => SpecToken::Scratch,
        Token::Bitstruct => SpecToken::Bitstruct,
        Token::ReprEnum => SpecToken::ReprEnum,
        Token::Savepoint => SpecToken::Savepoint,
        Token::Rollback => SpecToken::Rollback,
        Token::Int(s) => SpecToken::Int(s@),
        Token::Ident(s) => SpecToken::Ident(s@),
        Token::Arrow => SpecToken::Arrow,
        Token::FatArrow => SpecToken::FatArrow,
        Token::PathSep => SpecToken::PathSep,
        Token::EqEq => SpecToken::EqEq,
        Token::NotEq => SpecToken::NotEq,
        Token::Le => SpecToken::Le,
        Token::Ge => SpecToken::Ge,
        Token::AndAnd => SpecToken::AndAnd,
        Token::OrOr => SpecToken::OrOr,
        Token::Shl => SpecToken::Shl,
        Token::Shr => SpecToken::Shr,
        Token::DotDotDot => SpecToken::DotDotDot,
        Token::DotDot => SpecToken::DotDot,
        Token::LParen => SpecToken::LParen,
        Token::RParen => SpecToken::RParen,
        Token::LBrace => SpecToken::LBrace,
        Token::RBrace => SpecToken::RBrace,
        Token::LBracket => SpecToken::LBracket,
        Token::RBracket => SpecToken::RBracket,
        Token::Comma => SpecToken::Comma,
        Token::Semi => SpecToken::Semi,
        Token::Colon => SpecToken::Colon,
        Token::Dot => SpecToken::Dot,
        Token::Eq => SpecToken::Eq,
        Token::Plus => SpecToken::Plus,
        Token::Minus => SpecToken::Minus,
        Token::Star => SpecToken::Star,
        Token::Slash => SpecToken::Slash,
        Token::Percent => SpecToken::Percent,
        Token::Lt => SpecToken::Lt,
        Token::Gt => SpecToken::Gt,
        Token::Bang => SpecToken::Bang,
        Token::Amp => SpecToken::Amp,
        Token::Pipe => SpecToken::Pipe,
        Token::Caret => SpecToken::Caret,
        Token::At => SpecToken::At,
        Token::Hash => SpecToken::Hash,
        Token::Question => SpecToken::Question,
    }
}

impl<'a> View for Token<'a> {
    type V = SpecToken;

    open spec fn view(&self) -> SpecToken {
        token_view(*self)
    }
}

/// How a token is written in dumps and messages: keywords and punctuation as
/// themselves, `Int(text)` and `Ident(text)` for the others.
pub open spec fn token_text(t: SpecToken) -> Seq<char> {
    match t {
        SpecToken::Fn => "fn"@,
        SpecToken::Struct => "struct"@,
        SpecToken::Enum => "enum"@,
        SpecToken::Impl => "impl"@,
        SpecToken::Let => "let"@,
        SpecToken::Const => "const"@,
        SpecToken::If => "if"@,
        SpecToken::Else => "else"@,
        SpecToken::Match => "match"@,
        SpecToken::Loop => "loop"@,
        SpecToken::While => "while"@,
        SpecToken::For => "for"@,
        SpecToken::In => "in"@,
        SpecToken::Break => "break"@,
        SpecToken::Continue => "continue"@,
        SpecToken::Return => "return"@,
        SpecToken::Print => "print"@,
        SpecToken::Mod => "mod"@,
        SpecToken::Use => "use"@,
        SpecToken::Type => "type"@,
        SpecToken::Pub => "pub"@,
        SpecToken::Unsafe => "unsafe"@,
        SpecToken::As => "as"@,
        SpecToken::True => "true"@,
        SpecToken::False => "false"@,
        SpecToken::SelfValue => "self"@,
        SpecToken::SelfType => "Self"@,
        SpecToken::Literal => "literal"@,
        SpecToken::Variable => "variable"@,
        SpecToken::Formula => "formula"@,
        SpecToken::Search => "search"@,
        SpecToken::Scratch => "scratch"@,
        SpecToken::Bitstruct => "bitstruct"@,
        SpecToken::ReprEnum => "repr_enum"@,
        SpecToken::Savepoint => "savepoint"@,
        SpecToken::Rollback => "rollback"@,
        SpecToken::Int(s) => "Int("@ + s + ")"@,
        SpecToken::Ident(s) => "Ident("@ + s + ")"@,
        SpecToken::Arrow => "->"@,
        SpecToken::FatArrow => "=>"@,
        SpecToken::PathSep => "::"@,
        SpecToken::EqEq => "=="@,
        SpecToken::NotEq => "!="@,
        SpecToken::Le => "<="@,
        SpecToken::Ge => ">="@,
        SpecToken::AndAnd => "&&"@,
        SpecToken::OrOr => "||"@,
        SpecToken::Shl => "<<"@,
        SpecToken::Shr => ">>"@,
        SpecToken::DotDotDot => "..."@,
        SpecToken::DotDot => ".."@,
        SpecToken::LParen => "("@,
        SpecToken::RParen => ")"@,
        SpecToken::LBrace => "{"@,
        SpecToken::RBrace => "}"@,
        SpecToken::LBracket => "["@,
        SpecToken::RBracket => "]"@,
        SpecToken::Comma => ","@,
        SpecToken::Semi => ";"@,
        SpecToken::Colon => ":"@,
        SpecToken::Dot => "."@,
        SpecToken::Eq => "="@,
        SpecToken::Plus => "+"@,
        SpecToken::Minus => "-"@,
        SpecToken::Star => "*"@,
        SpecToken::Slash => "/"@,
        SpecToken::Percent => "%"@,
        SpecToken::Lt => "<"@,
        SpecToken::Gt => ">"@,
        SpecToken::Bang => "!"@,
        SpecToken::Amp => "&"@,
        SpecToken::Pipe => "|"@,
        SpecToken::Caret => "^"@,
        SpecToken::At => "@"@,
        SpecToken::Hash => "#"@,
        SpecToken::Question => "?"@,
    }
}

impl<'a> Token<'a> {
    /// The text of `token_text`.
    pub fn display_text(&self) -> (r: String)
        ensures
            r@ == token_text(self@),
    {
        match self {
            Token::Fn => string_of("fn"),
            Token::Struct => string_of("struct"),
            Token::Enum => string_of("enum"),
            Token::Impl => string_of("impl"),
            Token::Let => string_of("let"),
            Token::Const => string_of("const"),
            Token::If => string_of("if"),
            Token::Else => string_of("else"),
            Token::Match => string_of("match"),
            Token::Loop => string_of("loop"),
            Token::While => string_of("while"),
            Token::For => string_of("for"),
            Token::In => string_of("in"),
            Token::Break => string_of("break"),
            Token::Continue => string_of("continue"),
            Token::Return => string_of("return"),
            Token::Print => string_of("print"),
            Token::Mod => string_of("mod"),
            Token::Use => string_of("use"),
            Token::Type => string_of("type"),
            Token::Pub => string_of("pub"),
            Token::Unsafe => string_of("unsafe"),
            Token::As => string_of("as"),
            Token::True => string_of("true"),
            Token::False => string_of("false"),
            Token::SelfValue => string_of("self"),
            Token::SelfType => string_of("Self"),
            Token::Literal => string_of("literal"),
            Token::Variable => string_of("variable"),
            Token::Formula => string_of("formula"),
            Token::Search => string_of("search"),
            Token::Scratch => string_of("scratch"),
            Token::Bitstruct => string_of("bitstruct"),
            Token::ReprEnum => string_of("repr_enum"),
            Token::Savepoint => string_of("savepoint"),
            Token::Rollback => string_of("rollback"),
            Token::Int(s) => {
                let mut r = string_of("Int(");
                push_str(&mut r, s);
                push_str(&mut r, ")");
                r
            },
            Token::Ident(s) => {
                let mut r = string_of("Ident(");
                push_str(&mut r, s);
                push_str(&mut r, ")");
                r
            },
            Token::Arrow => string_of("->"),
            Token::FatArrow => string_of("=>"),
            Token::PathSep => string_of("::"),
            Token::EqEq => string_of("=="),
            Token::NotEq => string_of("!="),
            Token::Le => string_of("<="),
            Token::Ge => string_of(">="),
            Token::AndAnd => string_of("&&"),
            Token::OrOr => string_of("||"),
            Token::Shl => string_of("<<"),
            Token::Shr => string_of(">>"),
            Token::DotDotDot => string_of("..."),
            Token::DotDot => string_of(".."),
            Token::LParen => string_of("("),
            Token::RParen => string_of(")"),
            Token::LBrace => string_of("{"),
            Token::RBrace => string_of("}"),
            Token::LBracket => string_of("["),
            Token::RBracket => string_of("]"),
            Token::Comma => string_of(","),
            Token::Semi => string_of(";"),
            Token::Colon => string_of(":"),
            Token::Dot => string_of("."),
            Token::Eq => string_of("="),
            Token::Plus => string_of("+"),
            Token::Minus => string_of("-"),
            Token::Star => string_of("*"),
            Token::Slash => string_of("/"),
            Token::Percent => string_of("%"),
            Token::Lt => string_of("<"),
            Token::Gt => string_of(">"),
            Token::Bang => string_of("!"),
            Token::Amp => string_of("&"),
            Token::Pipe => string_of("|"),
            Token::Caret => string_of("^"),
            Token::At => string_of("@"),
            Token::Hash => string_of("#"),
            Token::Question => string_of("?"),
        }
    }
}

/// A token as the contracts see it: (kind, start, end).
pub open spec fn spanned_view(t: SpannedToken) -> (SpecToken, int, int) {
    (t.kind@, t.span.start as int, t.span.end as int)
}

pub open spec fn spans_view(s: Seq<SpannedToken>) -> Seq<(SpecToken, int, int)> {
    s.map_values(|t: SpannedToken| spanned_view(t))
}

// ---------------------------------------------------------------------------
// The token language.
// ---------------------------------------------------------------------------
pub open spec fn is_space(c: u8) -> bool {
    c == 32 || c == 9 || c == 13 || c == 10
}

pub open spec fn is_digit(c: u8) -> bool {
    48 <= c <= 57
}

pub open spec fn is_ident_start(c: u8) -> bool {
    c == 95 || (65 <= c <= 90) || (97 <= c <= 122)
}

pub open spec fn is_ident_char(c: u8) -> bool {
    is_ident_start(c) || is_digit(c)
}

pub open spec fn not_newline(c: u8) -> bool {
    c != 10
}

/// The first position at or after `k` whose byte does not satisfy `p`.
pub open spec fn run_end(b: Seq<u8>, k: int, p: spec_fn(u8) -> bool) -> int
    decreases b.len() - k,
{
    if k < 0 || k >= b.len() {
        k
    } else if p(b[k]) {
        run_end(b, k + 1, p)
    } else {
        k
    }
}

pub open spec fn space_class() -> spec_fn(u8) -> bool {
    |c: u8| is_space(c)
}

pub open spec fn digit_class() -> spec_fn(u8) -> bool {
    |c: u8| is_digit(c)
}

pub open spec fn ident_class() -> spec_fn(u8) -> bool {
    |c: u8| is_ident_char(c)
}

pub open spec fn line_class() -> spec_fn(u8) -> bool {
    |c: u8| not_newline(c)
}

/// The end of a block comment whose body starts at `k`: the body is a run of
/// bytes other than `*` and of `*` followed by a byte other than `/`; it ends at
/// the first `*/` that starts such a unit. `None` when the input ends first.
pub open spec fn block_comment_end(b: Seq<u8>, k: int) -> Option<int>
    decreases b.len() - k,
{
    if k < 0 || k >= b.len() {
        None
    } else if b[k] != 42 {
        block_comment_end(b, k + 1)
    } else if k + 1 >= b.len() {
        None
    } else if b[k + 1] == 47 {
        Some(k + 2)
    } else {
        block_comment_end(b, k + 2)
    }
}

/// The keyword spelled by `w`, if any.
pub open spec fn keyword(w: Seq<u8>) -> Option<SpecToken> {
    if w.len() == 2 {
        if w[0] == 102 && w[1] == 110 {
            Some(SpecToken::Fn)
        } else if w[0] == 105 && w[1] == 102 {
            Some(SpecToken::If)
        } else if w[0] == 105 && w[1] == 110 {
            Some(SpecToken::In)
        } else if w[0] == 97 && w[1] == 115 {
            Some(SpecToken::As)
        } else {
            None
        }
    } else if w.len() == 3 {
        if w[0] == 108 && w[1] == 101 && w[2] == 116 {
            Some(SpecToken::Let)
        } else if w[0] == 102 && w[1] == 111 && w[2] == 114 {
            Some(SpecToken::For)
        } else if w[0] == 109 && w[1] == 111 && w[2] == 100 {
            Some(SpecToken::Mod)
        } else if w[0] == 117 && w[1] == 115 && w[2] == 101 {
            Some(SpecToken::Use)
        } else if w[0] == 112 && w[1] == 117 && w[2] == 98 {
            Some(SpecToken::Pub)
        } else {
            None
        }
    } else if w.len() == 4 {
        if w[0] == 101 && w[1] == 110 && w[2] == 117 && w[3] == 109 {
            Some(SpecToken::Enum)
        } else if w[0] == 105 && w[1] == 109 && w[2] == 112 && w[3] == 108 {
            Some(SpecToken::Impl)
        } else if w[0] == 101 && w[1] == 108 && w[2] == 115 && w[3] == 101 {
            Some(SpecToken::Else)
        } else if w[0] == 108 && w[1] == 111 && w[2] == 111 && w[3] == 112 {
            Some(SpecToken::Loop)
        } else if w[0] == 116 && w[1] == 121 && w[2] == 112 && w[3] == 101 {
            Some(SpecToken::Type)
        } else if w[0] == 116 && w[1] == 114 && w[2] == 117 && w[3] == 101 {
            Some(SpecToken::True)
        } else if w[0] == 115 && w[1] == 101 && w[2] == 108 && w[3] == 102 {
            Some(SpecToken::SelfValue)
        } else if w[0] == 83 && w[1] == 101 && w[2] == 108 && w[3] == 102 {
            Some(SpecToken::SelfType)
        } else {
            None
        }
    } else if w.len() == 5 {
        if w[0] == 99 && w[1] == 111 && w[2] == 110 && w[3] == 115 && w[4] == 116 {
            Some(SpecToken::Const)
        } else if w[0] == 109 && w[1] == 97 && w[2] == 116 && w[3] == 99 && w[4] == 104 {
            Some(SpecToken::Match)
        } else if w[0] == 119 && w[1] == 104 && w[2] == 105 && w[3] == 108 && w[4] == 101 {
            Some(SpecToken::While)
        } else if w[0] == 98 && w[1] == 114 && w[2] == 101 && w[3] == 97 && w[4] == 107 {
            Some(SpecToken::Break)
        } else if w[0] == 112 && w[1] == 114 && w[2] == 105 && w[3] == 110 && w[4] == 116 {
            Some(SpecToken::Print)
        } else if w[0] == 102 && w[1] == 97 && w[2] == 108 && w[3] == 115 && w[4] == 101 {
            Some(SpecToken::False)
        } else {
            None
        }
    } else if w.len() == 6 {
        if w[0] == 115 && w[1] == 116 && w[2] == 114 && w[3] == 117 && w[4] == 99 && w[5] == 116 {
            Some(SpecToken::Struct)
        } else if w[0] == 114 && w[1] == 101 && w[2] == 116 && w[3] == 117 && w[4] == 114 && w[5] == 110 {
            Some(SpecToken::Return)
        } else if w[0] == 117 && w[1] == 110 && w[2] == 115 && w[3] == 97 && w[4] == 102 && w[5] == 101 {
            Some(SpecToken::Unsafe)
        } else if w[0] == 115 && w[1] == 101 && w[2] == 97 && w[3] == 114 && w[4] == 99 && w[5] == 104 {
            Some(SpecToken::Search)
        } else {
            None
        }
    } else if w.len() == 7 {
        if w[0] == 108 && w[1] == 105 && w[2] == 116 && w[3] == 101 && w[4] == 114 && w[5] == 97 && w[6] == 108 {
            Some(SpecToken::Literal)
        } else if w[0] == 102 && w[1] == 111 && w[2] == 114 && w[3] == 109 && w[4] == 117 && w[5] == 108 && w[6] == 97 {
            Some(SpecToken::Formula)
        } else if w[0] == 115 && w[1] == 99 && w[2] == 114 && w[3] == 97 && w[4] == 116 && w[5] == 99 && w[6] == 104 {
            Some(SpecToken::Scratch)
        } else {
            None
        }
    } else if w.len() == 8 {
        if w[0] == 99 && w[1] == 111 && w[2] == 110 && w[3] == 116 && w[4] == 105 && w[5] == 110 && w[6] == 117 && w[7] == 101 {
            Some(SpecToken::Continue)
        } else if w[0] == 118 && w[1] == 97 && w[2] == 114 && w[3] == 105 && w[4] == 97 && w[5] == 98 && w[6] == 108 && w[7] == 101 {
            Some(SpecToken::Variable)
        } else if w[0] == 114 && w[1] == 111 && w[2] == 108 && w[3] == 108 && w[4] == 98 && w[5] == 97 && w[6] == 99 && w[7] == 107 {
            Some(SpecToken::Rollback)
        } else {
            None
        }
    } else if w.len() == 9 {
        if w[0] == 98 && w[1] == 105 && w[2] == 116 && w[3] == 115 && w[4] == 116 && w[5] == 114 && w[6] == 117 && w[7] == 99 && w[8] == 116 {
            Some(SpecToken::Bitstruct)
        } else if w[0] == 114 && w[1] == 101 && w[2] == 112 && w[3] == 114 && w[4] == 95 && w[5] == 101 && w[6] == 110 && w[7] == 117 && w[8] == 109 {
            Some(SpecToken::ReprEnum)
        } else if w[0] == 115 && w[1] == 97 && w[2] == 118 && w[3] == 101 && w[4] == 112 && w[5] == 111 && w[6] == 105 && w[7] == 110 && w[8] == 116 {
            Some(SpecToken::Savepoint)
        } else {
            None
        }
    } else {
        None
    }
}

/// A three-byte operator at `i`.
pub open spec fn punct3(b: Seq<u8>, i: int) -> Option<SpecToken> {
    if 0 <= i && i + 2 < b.len() && b[i] == 46 && b[i + 1] == 46 && b[i + 2] == 46 {
        Some(SpecToken::DotDotDot)
    } else {
        None
    }
}

/// A two-byte operator at `i`.
pub open spec fn punct2(b: Seq<u8>, i: int) -> Option<SpecToken> {
    if 0 <= i && i + 1 < b.len() {
        if b[i] == 45 && b[i + 1] == 62 {
            Some(SpecToken::Arrow)
        } else if b[i] == 61 && b[i + 1] == 62 {
            Some(SpecToken::FatArrow)
        } else if b[i] == 58 && b[i + 1] == 58 {
            Some(SpecToken::PathSep)
        } else if b[i] == 61 && b[i + 1] == 61 {
            Some(SpecToken::EqEq)
        } else if b[i] == 33 && b[i + 1] == 61 {
            Some(SpecToken::NotEq)
        } else if b[i] == 60 && b[i + 1] == 61 {
            Some(SpecToken::Le)
        } else if b[i] == 62 && b[i + 1] == 61 {
            Some(SpecToken::Ge)
        } else if b[i] == 38 && b[i + 1] == 38 {
            Some(SpecToken::AndAnd)
        } else if b[i] == 124 && b[i + 1] == 124 {
            Some(SpecToken::OrOr)
        } else if b[i] == 60 && b[i + 1] == 60 {
            Some(SpecToken::Shl)
        } else if b[i] == 62 && b[i + 1] == 62 {
            Some(SpecToken::Shr)
        } else if b[i] == 46 && b[i + 1] == 46 {
            Some(SpecToken::DotDot)
        } else {
            None
        }
    } else {
        None
    }
}

/// A one-byte operator or punctuation mark at `i`.
pub open spec fn punct1(b: Seq<u8>, i: int) -> Option<SpecToken> {
    if 0 <= i && i < b.len() {
        if b[i] == 40 {
            Some(SpecToken::LParen)
        } else if b[i] == 41 {
            Some(SpecToken::RParen)
        } else if b[i] == 123 {
            Some(SpecToken::LBrace)
        } else if b[i] == 125 {
            Some(SpecToken::RBrace)
        } else if b[i] == 91 {
            Some(SpecToken::LBracket)
        } else if b[i] == 93 {
            Some(SpecToken::RBracket)
        } else if b[i] == 44 {
            Some(SpecToken::Comma)
        } else if b[i] == 59 {
            Some(SpecToken::Semi)
        } else if b[i] == 58 {
            Some(SpecToken::Colon)
        } else if b[i] == 46 {
            Some(SpecToken::Dot)
        } else if b[i] == 61 {
            Some(SpecToken::Eq)
        } else if b[i] == 43 {
            Some(SpecToken::Plus)
        } else if b[i] == 45 {
            Some(SpecToken::Minus)
        } else if b[i] == 42 {
            Some(SpecToken::Star)
        } else if b[i] == 47 {
            Some(SpecToken::Slash)
        } else if b[i] == 37 {
            Some(SpecToken::Percent)
        } else if b[i] == 60 {
            Some(SpecToken::Lt)
        } else if b[i] == 62 {
            Some(SpecToken::Gt)
        } else if b[i] == 33 {
            Some(SpecToken::Bang)
        } else if b[i] == 38 {
            Some(SpecToken::Amp)
        } else if b[i] == 124 {
            Some(SpecToken::Pipe)
        } else if b[i] == 94 {
            Some(SpecToken::Caret)
        } else if b[i] == 64 {
            Some(SpecToken::At)
        } else if b[i] == 35 {
            Some(SpecToken::Hash)
        } else if b[i] == 63 {
            Some(SpecToken::Question)
        } else {
            None
        }
    } else {
        None
    }
}

/// The longest operator at `i`, with its length.
pub open spec fn punct(b: Seq<u8>, i: int) -> Option<(SpecToken, int)> {
    match punct3(b, i) {
        Some(t) => Some((t, 3)),
        None => match punct2(b, i) {
            Some(t) => Some((t, 2)),
            None => match punct1(b, i) {
                Some(t) => Some((t, 1)),
                None => None,
            },
        },
    }
}

/// What the longest match at a position is.
pub enum Scan {
    /// Whitespace or a comment, ending at the given position.
    Skip(int),
    /// A token, ending at the given position.
    Tok(SpecToken, int),
    /// Nothing matches.
    Fail,
}

/// The longest match at position `i < b.len()`.
pub open spec fn scan(b: Seq<u8>, i: int) -> Scan {
    let c = b[i];
    if is_space(c) {
        Scan::Skip(run_end(b, i + 1, space_class()))
    } else if c == 47 && i + 1 < b.len() && b[i + 1] == 47 {
        Scan::Skip(run_end(b, i + 2, line_class()))
    } else if c == 47 && i + 1 < b.len() && b[i + 1] == 42 && block_comment_end(b, i + 2) is Some {
        Scan::Skip(block_comment_end(b, i + 2)->0)
    } else if is_ident_start(c) {
        let j = run_end(b, i + 1, ident_class());
        match keyword(b.subrange(i, j)) {
            Some(t) => Scan::Tok(t, j),
            None => Scan::Tok(SpecToken::Ident(decode_utf8(b.subrange(i, j))), j),
        }
    } else if is_digit(c) {
        let j = run_end(b, i + 1, digit_class());
        Scan::Tok(SpecToken::Int(decode_utf8(b.subrange(i, j))), j)
    } else {
        match punct(b, i) {
            Some((t, n)) => Scan::Tok(t, i + n),
            None => Scan::Fail,
        }
    }
}

pub proof fn lemma_run_end(b: Seq<u8>, k: int, p: spec_fn(u8) -> bool)
    requires
        0 <= k <= b.len(),
    ensures
        k <= run_end(b, k, p) <= b.len(),
        forall|m: int| k <= m < run_end(b, k, p) ==> p(b[m]),
        run_end(b, k, p) < b.len() ==> !p(b[run_end(b, k, p)]),
    decreases b.len() - k,
{
    if k < b.len() && p(b[k]) {
        lemma_run_end(b, k + 1, p);
    }
}

pub proof fn lemma_block_comment_end(b: Seq<u8>, k: int)
    requires
        0 <= k <= b.len(),
    ensures
        block_comment_end(b, k) matches Some(j) ==> k + 2 <= j <= b.len(),
    decreases b.len() - k,
{
    if k < b.len() {
        if b[k] != 42 {
            lemma_block_comment_end(b, k + 1);
        } else if k + 1 < b.len() && b[k + 1] != 47 {
            lemma_block_comment_end(b, k + 2);
        }
    }
}

pub proof fn lemma_scan_progress(b: Seq<u8>, i: int)
    requires
        0 <= i < b.len(),
    ensures
        scan(b, i) matches Scan::Skip(j) ==> i < j <= b.len(),
        scan(b, i) matches Scan::Tok(_, j) ==> i < j <= b.len(),
{
    lemma_run_end(b, i + 1, space_class());
    lemma_run_end(b, i + 1, ident_class());
    lemma_run_end(b, i + 1, digit_class());
    if i + 2 <= b.len() {
        lemma_run_end(b, i + 2, line_class());
        lemma_block_comment_end(b, i + 2);
    }
}

/// The tokens from position `i` on, with their byte spans, or the position of
/// the first byte at which nothing matches.
pub open spec fn lex_from(b: Seq<u8>, i: int) -> Result<Seq<(SpecToken, int, int)>, int>
    decreases b.len() - i,
{
    if i < 0 || i >= b.len() {
        Ok(Seq::empty())
    } else {
        proof { lemma_scan_progress(b, i); }
        match scan(b, i) {
            Scan::Skip(j) => lex_from(b, j),
            Scan::Tok(t, j) => match lex_from(b, j) {
                Ok(rest) => Ok(seq![(t, i, j)] + rest),
                Err(e) => Err(e),
            },
            Scan::Fail => Err(i),
        }
    }
}

/// The tokens of a source text given as UTF-8 bytes.
pub open spec fn spec_lex(b: Seq<u8>) -> Result<Seq<(SpecToken, int, int)>, int> {
    lex_from(b, 0)
}

// ---------------------------------------------------------------------------
// Scanning.
// ---------------------------------------------------------------------------
fn space_end(b: &[u8], k: usize) -> (r: usize)
    requires
        k <= b@.len(),
    ensures
        r == run_end(b@, k as int, space_class()),
{
    let mut j = k;
    while j < b.len() && (b[j] == 32 || b[j] == 9 || b[j] == 13 || b[j] == 10)
        invariant
            k <= j <= b@.len(),
            run_end(b@, k as int, space_class()) == run_end(b@, j as int, space_class()),
        decreases b@.len() - j,
    {
        j = j + 1;
    }
    j
}

fn digit_end(b: &[u8], k: usize) -> (r: usize)
    requires
        k <= b@.len(),
    ensures
        r == run_end(b@, k as int, digit_class()),
{
    let mut j = k;
    while j < b.len() && 48 <= b[j] && b[j] <= 57
        invariant
            k <= j <= b@.len(),
            run_end(b@, k as int, digit_class()) == run_end(b@, j as int, digit_class()),
        decreases b@.len() - j,
    {
        j = j + 1;
    }
    j
}

fn ident_end(b: &[u8], k: usize) -> (r: usize)
    requires
        k <= b@.len(),
    ensures
        r == run_end(b@, k as int, ident_class()),
{
    let mut j = k;
    while j < b.len() && (b[j] == 95 || (65 <= b[j] && b[j] <= 90) || (97 <= b[j] && b[j] <= 122) || (48 <= b[j] && b[j] <= 57))
        invariant
            k <= j <= b@.len(),
            run_end(b@, k as int, ident_class()) == run_end(b@, j as int, ident_class()),
        decreases b@.len() - j,
    {
        j = j + 1;
    }
    j
}

fn line_end(b: &[u8], k: usize) -> (r: usize)
    requires
        k <= b@.len(),
    ensures
        r == run_end(b@, k as int, line_class()),
{
    let mut j = k;
    while j < b.len() && b[j] != 10
        invariant
            k <= j <= b@.len(),
            run_end(b@, k as int, line_class()) == run_end(b@, j as int, line_class()),
        decreases b@.len() - j,
    {
        j = j + 1;
    }
    j
}

fn find_block_comment_end(b: &[u8], k: usize) -> (r: Option<usize>)
    requires
        k <= b@.len(),
    ensures
        match r {
            Some(j) => block_comment_end(b@, k as int) == Some(j as int),
            None => block_comment_end(b@, k as int) is None,
        },
{
    let mut j = k;
    while j < b.len()
        invariant
            k <= j <= b@.len(),
            block_comment_end(b@, k as int) == block_comment_end(b@, j as int),
        decreases b@.len() - j,
    {
        if b[j] != 42 {
            j = j + 1;
        } else if j + 1 >= b.len() {
            return None;
        } else if b[j + 1] == 47 {
            return Some(j + 2);
        } else {
            j = j + 2;
        }
    }
    None
}

fn keyword_token<'a>(b: &[u8], start: usize, end: usize) -> (r: Option<Token<'a>>)
    requires
        start <= end <= b@.len(),
    ensures
        match r {
            Some(t) => keyword(b@.subrange(start as int, end as int)) == Some(t@),
            None => keyword(b@.subrange(start as int, end as int)) is None,
        },
{
    let ghost w = b@.subrange(start as int, end as int);
    let n = end - start;
    if n == 2 {
        if b[start + 0] == 102 && b[start + 1] == 110 {
            return Some(Token::Fn);
        }
        if b[start + 0] == 105 && b[start + 1] == 102 {
            return Some(Token::If);
        }
        if b[start + 0] == 105 && b[start + 1] == 110 {
            return Some(Token::In);
        }
        if b[start + 0] == 97 && b[start + 1] == 115 {
            return Some(Token::As);
        }
        return None;
    }
    if n == 3 {
        if b[start + 0] == 108 && b[start + 1] == 101 && b[start + 2] == 116 {
            return Some(Token::Let);
        }
        if b[start + 0] == 102 && b[start + 1] == 111 && b[start + 2] == 114 {
            return Some(Token::For);
        }
        if b[start + 0] == 109 && b[start + 1] == 111 && b[start + 2] == 100 {
            return Some(Token::Mod);
        }
        if b[start + 0] == 117 && b[start + 1] == 115 && b[start + 2] == 101 {
            return Some(Token::Use);
        }
        if b[start + 0] == 112 && b[start + 1] == 117 && b[start + 2] == 98 {
            return Some(Token::Pub);
        }
        return None;
    }
    if n == 4 {
        if b[start + 0] == 101 && b[start + 1] == 110 && b[start + 2] == 117 && b[start + 3] == 109 {
            return Some(Token::Enum);
        }
        if b[start + 0] == 105 && b[start + 1] == 109 && b[start + 2] == 112 && b[start + 3] == 108 {
            return Some(Token::Impl);
        }
        if b[start + 0] == 101 && b[start + 1] == 108 && b[start + 2] == 115 && b[start + 3] == 101 {
            return Some(Token::Else);
        }
        if b[start + 0] == 108 && b[start + 1] == 111 && b[start + 2] == 111 && b[start + 3] == 112 {
            return Some(Token::Loop);
        }
        if b[start + 0] == 116 && b[start + 1] == 121 && b[start + 2] == 112 && b[start + 3] == 101 {
            return Some(Token::Type);
        }
        if b[start + 0] == 116 && b[start + 1] == 114 && b[start + 2] == 117 && b[start + 3] == 101 {
            return Some(Token::True);
        }
        if b[start + 0] == 115 && b[start + 1] == 101 && b[start + 2] == 108 && b[start + 3] == 102 {
            return Some(Token::SelfValue);
        }
        if b[start + 0] == 83 && b[start + 1] == 101 && b[start + 2] == 108 && b[start + 3] == 102 {
            return Some(Token::SelfType);
        }
        return None;
    }
    if n == 5 {
        if b[start + 0] == 99 && b[start + 1] == 111 && b[start + 2] == 110 && b[start + 3] == 115 && b[start + 4] == 116 {
            return Some(Token::Const);
        }
        if b[start + 0] == 109 && b[start + 1] == 97 && b[start + 2] == 116 && b[start + 3] == 99 && b[start + 4] == 104 {
            return Some(Token::Match);
        }
        if b[start + 0] == 119 && b[start + 1] == 104 && b[start + 2] == 105 && b[start + 3] == 108 && b[start + 4] == 101 {
            return Some(Token::While);
        }
        if b[start + 0] == 98 && b[start + 1] == 114 && b[start + 2] == 101 && b[start + 3] == 97 && b[start + 4] == 107 {
            return Some(Token::Break);
        }
        if b[start + 0] == 112 && b[start + 1] == 114 && b[start + 2] == 105 && b[start + 3] == 110 && b[start + 4] == 116 {
            return Some(Token::Print);
        }
        if b[start + 0] == 102 && b[start + 1] == 97 && b[start + 2] == 108 && b[start + 3] == 115 && b[start + 4] == 101 {
            return Some(Token::False);
        }
        return None;
    }
    if n == 6 {
        if b[start + 0] == 115 && b[start + 1] == 116 && b[start + 2] == 114 && b[start + 3] == 117 && b[start + 4] == 99 && b[start + 5] == 116 {
            return Some(Token::Struct);
        }
        if b[start + 0] == 114 && b[start + 1] == 101 && b[start + 2] == 116 && b[start + 3] == 117 && b[start + 4] == 114 && b[start + 5] == 110 {
            return Some(Token::Return);
        }
        if b[start + 0] == 117 && b[start + 1] == 110 && b[start + 2] == 115 && b[start + 3] == 97 && b[start + 4] == 102 && b[start + 5] == 101 {
            return Some(Token::Unsafe);
        }
        if b[start + 0] == 115 && b[start + 1] == 101 && b[start + 2] == 97 && b[start + 3] == 114 && b[start + 4] == 99 && b[start + 5] == 104 {
            return Some(Token::Search);
        }
        return None;
    }
    if n == 7 {
        if b[start + 0] == 108 && b[start + 1] == 105 && b[start + 2] == 116 && b[start + 3] == 101 && b[start + 4] == 114 && b[start + 5] == 97 && b[start + 6] == 108 {
            return Some(Token::Literal);
        }
        if b[start + 0] == 102 && b[start + 1] == 111 && b[start + 2] == 114 && b[start + 3] == 109 && b[start + 4] == 117 && b[start + 5] == 108 && b[start + 6] == 97 {
            return Some(Token::Formula);
        }
        if b[start + 0] == 115 && b[start + 1] == 99 && b[start + 2] == 114 && b[start + 3] == 97 && b[start + 4] == 116 && b[start + 5] == 99 && b[start + 6] == 104 {
            return Some(Token::Scratch);
        }
        return None;
    }
    if n == 8 {
        if b[start + 0] == 99 && b[start + 1] == 111 && b[start + 2] == 110 && b[start + 3] == 116 && b[start + 4] == 105 && b[start + 5] == 110 && b[start + 6] == 117 && b[start + 7] == 101 {
            return Some(Token::Continue);
        }
        if b[start + 0] == 118 && b[start + 1] == 97 && b[start + 2] == 114 && b[start + 3] == 105 && b[start + 4] == 97 && b[start + 5] == 98 && b[start + 6] == 108 && b[start + 7] == 101 {
            return Some(Token::Variable);
        }
        if b[start + 0] == 114 && b[start + 1] == 111 && b[start + 2] == 108 && b[start + 3] == 108 && b[start + 4] == 98 && b[start + 5] == 97 && b[start + 6] == 99 && b[start + 7] == 107 {
            return Some(Token::Rollback);
        }
        return None;
    }
    if n == 9 {
        if b[start + 0] == 98 && b[start + 1] == 105 && b[start + 2] == 116 && b[start + 3] == 115 && b[start + 4] == 116 && b[start + 5] == 114 && b[start + 6] == 117 && b[start + 7] == 99 && b[start + 8] == 116 {
            return Some(Token::Bitstruct);
        }
        if b[start + 0] == 114 && b[start + 1] == 101 && b[start + 2] == 112 && b[start + 3] == 114 && b[start + 4] == 95 && b[start + 5] == 101 && b[start + 6] == 110 && b[start + 7] == 117 && b[start + 8] == 109 {
            return Some(Token::ReprEnum);
        }
        if b[start + 0] == 115 && b[start + 1] == 97 && b[start + 2] == 118 && b[start + 3] == 101 && b[start + 4] == 112 && b[start + 5] == 111 && b[start + 6] == 105 && b[start + 7] == 110 && b[start + 8] == 116 {
            return Some(Token::Savepoint);
        }
        return None;
    }
    None
}

fn punct_token<'a>(b: &[u8], i: usize) -> (r: Option<(Token<'a>, usize)>)
    requires
        i < b@.len(),
    ensures
        match r {
            Some((t, n)) => punct(b@, i as int) == Some((t@, n as int)),
            None => punct(b@, i as int) is None,
        },
{
    if b.len() - i > 2 && b[i] == 46 && b[i + 1] == 46 && b[i + 2] == 46 {
        return Some((Token::DotDotDot, 3));
    }
    if b.len() - i > 1 {
        let x = b[i];
        let y = b[i + 1];
        if x == 45 && y == 62 {
            return Some((Token::Arrow, 2));
        }
        if x == 61 && y == 62 {
            return Some((Token::FatArrow, 2));
        }
        if x == 58 && y == 58 {
            return Some((Token::PathSep, 2));
        }
        if x == 61 && y == 61 {
            return Some((Token::EqEq, 2));
        }
        if x == 33 && y == 61 {
            return Some((Token::NotEq, 2));
        }
        if x == 60 && y == 61 {
            return Some((Token::Le, 2));
        }
        if x == 62 && y == 61 {
            return Some((Token::Ge, 2));
        }
        if x == 38 && y == 38 {
            return Some((Token::AndAnd, 2));
        }
        if x == 124 && y == 124 {
            return Some((Token::OrOr, 2));
        }
        if x == 60 && y == 60 {
            return Some((Token::Shl, 2));
        }
        if x == 62 && y == 62 {
            return Some((Token::Shr, 2));
        }
        if x == 46 && y == 46 {
            return Some((Token::DotDot, 2));
        }
    }
    let x = b[i];
    if x == 40 {
        return Some((Token::LParen, 1));
    }
    if x == 41 {
        return Some((Token::RParen, 1));
    }
    if x == 123 {
        return Some((Token::LBrace, 1));
    }
    if x == 125 {
        return Some((Token::RBrace, 1));
    }
    if x == 91 {
        return Some((Token::LBracket, 1));
    }
    if x == 93 {
        return Some((Token::RBracket, 1));
    }
    if x == 44 {
        return Some((Token::Comma, 1));
    }
    if x == 59 {
        return Some((Token::Semi, 1));
    }
    if x == 58 {
        return Some((Token::Colon, 1));
    }
    if x == 46 {
        return Some((Token::Dot, 1));
    }
    if x == 61 {
        return Some((Token::Eq, 1));
    }
    if x == 43 {
        return Some((Token::Plus, 1));
    }
    if x == 45 {
        return Some((Token::Minus, 1));
    }
    if x == 42 {
        return Some((Token::Star, 1));
    }
    if x == 47 {
        return Some((Token::Slash, 1));
    }
    if x == 37 {
        return Some((Token::Percent, 1));
    }
    if x == 60 {
        return Some((Token::Lt, 1));
    }
    if x == 62 {
        return Some((Token::Gt, 1));
    }
    if x == 33 {
        return Some((Token::Bang, 1));
    }
    if x == 38 {
        return Some((Token::Amp, 1));
    }
    if x == 124 {
        return Some((Token::Pipe, 1));
    }
    if x == 94 {
        return Some((Token::Caret, 1));
    }
    if x == 64 {
        return Some((Token::At, 1));
    }
    if x == 35 {
        return Some((Token::Hash, 1));
    }
    if x == 63 {
        return Some((Token::Question, 1));
    }
    None
}

/// In valid UTF-8, the byte after an ASCII byte starts a new character.
pub proof fn lemma_after_ascii(bytes: Seq<u8>, k: int)
    requires
        valid_utf8(bytes),
        0 <= k < bytes.len(),
        bytes[k] < 0x80,
    ensures
        k + 1 < bytes.len() ==> !is_continuation_byte(bytes[k + 1]),
    decreases bytes.len(),
{
    reveal_with_fuel(valid_utf8, 2);
    let l = length_of_first_scalar(bytes);
    let pop = pop_first_scalar(bytes);
    if k < l {
        assert(k == 0);
        if k + 1 < bytes.len() {
            assert(pop.len() > 0);
            assert(valid_first_scalar(pop));
            assert(bytes[k + 1] == pop[0]);
        }
    } else {
        assert(pop[k - l] == bytes[k]);
        lemma_after_ascii(pop, k - l);
        if k + 1 < bytes.len() {
            assert(pop[k - l + 1] == bytes[k + 1]);
        }
    }
}

/// The part of `s` between two byte positions that hold ASCII bytes only.
fn ascii_slice<'a>(s: &'a str, start: usize, end: usize) -> (r: &'a str)
    requires
        start < end <= s.spec_bytes().len(),
        forall|k: int| start <= k < end ==> s.spec_bytes()[k] < 0x80,
    ensures
        r@ == decode_utf8(s.spec_bytes().subrange(start as int, end as int)),
{
    let ghost b = s.spec_bytes();
    proof {
        vstd::utf8::encode_utf8_valid_utf8(s@);
        vstd::utf8::is_char_boundary_iff_not_is_continuation_byte(b, start as int);
    }
    let (_, rest) = s.split_at(start);
    let ghost rb = rest.spec_bytes();
    proof {
        vstd::utf8::encode_utf8_valid_utf8(rest@);
        let m = (end - start) as int;
        if m < rb.len() {
            assert(rb[m - 1] == b[end - 1]);
            lemma_after_ascii(rb, m - 1);
            vstd::utf8::is_char_boundary_iff_not_is_continuation_byte(rb, m);
        } else {
            vstd::utf8::is_char_boundary_start_end_of_seq(rb);
        }
    }
    let (mid, _) = rest.split_at(end - start);
    proof {
        vstd::utf8::encode_utf8_decode_utf8(mid@);
        assert(mid.spec_bytes() =~= b.subrange(start as int, end as int));
    }
    mid
}

/// Lex `source` into spanned tokens, or return the byte offset of the first error.
pub fn lex(source: &str) -> (r: Result<Vec<SpannedToken<'_>>, usize>)
    ensures
        match r {
            Ok(tokens) => spec_lex(source.spec_bytes()) == Ok::<Seq<(SpecToken, int, int)>, int>(spans_view(tokens@)),
            Err(offset) => spec_lex(source.spec_bytes()) == Err::<Seq<(SpecToken, int, int)>, int>(offset as int),
        },
{
    let bytes = source.as_bytes();
    let ghost b = bytes@;
    let mut tokens: Vec<SpannedToken> = Vec::new();
    let mut pos: usize = 0;
    proof {
        assert(spans_view(tokens@) =~= Seq::<(SpecToken, int, int)>::empty());
        match lex_from(b, 0) {
            Ok(rest) => { assert(spans_view(tokens@) + rest =~= rest); },
            Err(_) => {},
        }
    }
    while pos < bytes.len()
        invariant
            pos <= b.len(),
            b == bytes@,
            b == source.spec_bytes(),
            spec_lex(b) == match lex_from(b, pos as int) {
                Ok(rest) => Ok(spans_view(tokens@) + rest),
                Err(e) => Err::<Seq<(SpecToken, int, int)>, int>(e),
            },
        decreases b.len() - pos,
    {
        proof { lemma_scan_progress(b, pos as int); }
        let c = bytes[pos];
        if c == 32 || c == 9 || c == 13 || c == 10 {
            pos = space_end(bytes, pos + 1);
        } else if c == 47 && pos + 1 < bytes.len() && bytes[pos + 1] == 47 {
            pos = line_end(bytes, pos + 2);
        } else {
            let comment_end = if c == 47 && pos + 1 < bytes.len() && bytes[pos + 1] == 42 {
                find_block_comment_end(bytes, pos + 2)
            } else {
                None
            };
            match comment_end {
                Some(j) => {
                    pos = j;
                },
                None => {
                    let start = pos;
                    let (kind, end) = if c == 95 || (65 <= c && c <= 90) || (97 <= c && c <= 122) {
                        let end = ident_end(bytes, pos + 1);
                        match keyword_token(bytes, start, end) {
                            Some(t) => (t, end),
                            None => {
                                proof {
                                    lemma_run_end(b, start + 1, ident_class());
                                }
                                (Token::Ident(ascii_slice(source, start, end)), end)
                            },
                        }
                    } else if 48 <= c && c <= 57 {
                        let end = digit_end(bytes, pos + 1);
                        proof {
                            lemma_run_end(b, start + 1, digit_class());
                        }
                        (Token::Int(ascii_slice(source, start, end)), end)
                    } else {
                        match punct_token(bytes, pos) {
                            Some((t, n)) => (t, pos + n),
                            None => {
                                return Err(pos);
                            },
                        }
                    };
                    let ghost before = spans_view(tokens@);
                    tokens.push(SpannedToken { kind, span: start..end });
                    proof {
                        assert(spans_view(tokens@) =~= before.push((kind@, start as int, end as int)));
                        match lex_from(b, end as int) {
                            Ok(rest) => {
                                assert(before + (seq![(kind@, start as int, end as int)] + rest) =~= spans_view(tokens@) + rest);
                            },
                            Err(_) => {},
                        }
                    }
                    pos = end;
                },
            }
        }
    }
    proof { assert(spans_view(tokens@) + Seq::<(SpecToken, int, int)>::empty() =~= spans_view(tokens@)); }
    Ok(tokens)
}

} // verus!

