//! What the command-line program decides before it prints: which dump it
//! shows, and how an error is reported.

use vstd::prelude::*;
use vstd::string::StringSliceAdditionalSpecFns;
use vstd::utf8::is_char_boundary;
use crate::span::{spec_line_col, LineIndex};
use crate::text::{nat_text, push_str, push_u64, string_of};

verus! {

/// What the program prints for a source.
#[derive(Debug, Clone, Copy, PartialEq, Eq, Structural)]
pub enum DumpMode {
    Tokens,
    Ast,
    EmitLlvm,
}

/// `--tokens` wins over `--ast`; without either, the LLVM IR is emitted.
pub fn dump_mode(tokens: bool, ast: bool) -> (r: DumpMode)
    ensures
        r == (if tokens {
            DumpMode::Tokens
        } else if ast {
            DumpMode::Ast
        } else {
            DumpMode::EmitLlvm
        }),
{
    if tokens {
        DumpMode::Tokens
    } else if ast {
        DumpMode::Ast
    } else {
        DumpMode::EmitLlvm
    }
}

/// `error: MESSAGE at PATH:LINE:COL` for an error at a byte offset of a text
/// with bytes `b`, and `error: MESSAGE (PATH)` for one without a position.
pub open spec fn error_text(b: Seq<u8>, path: Seq<char>, offset: Option<int>, message: Seq<char>) -> Seq<char> {
    match offset {
        Some(o) => {
            let (line, col) = spec_line_col(b, o);
            "error: "@ + message + " at "@ + path + ":"@ + nat_text(line as nat) + ":"@ + nat_text(
                col as nat,
            )
        },
        None => "error: "@ + message + " ("@ + path + ")"@,
    }
}

/// The report of an error in `source`, read from `path`.
pub fn error_line(source: &str, path: &str, offset: Option<usize>, message: &str) -> (r: String)
    requires
        source.spec_bytes().len() < usize::MAX,
        offset matches Some(o) ==> (o < source.spec_bytes().len() ==> is_char_boundary(
            source.spec_bytes(),
            o as int,
        )),
    ensures
        r@ == error_text(
            source.spec_bytes(),
            path@,
            match offset {
                Some(o) => Some(o as int),
                None => None,
            },
            message@,
        ),
{
    let mut out = string_of("error: ");
    push_str(&mut out, message);
    match offset {
        Some(o) => {
            let index = LineIndex::new(source);
            let (line, col) = index.line_col(source, o);
            push_str(&mut out, " at ");
            push_str(&mut out, path);
            push_str(&mut out, ":");
            push_u64(&mut out, line as u64);
            push_str(&mut out, ":");
            push_u64(&mut out, col as u64);
        },
        None => {
            push_str(&mut out, " (");
            push_str(&mut out, path);
            push_str(&mut out, ")");
        },
    }
    out
}

} // verus!
