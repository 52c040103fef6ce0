//! Source locations: byte offsets ↔ line/column.

use vstd::prelude::*;
use vstd::string::{StrSliceExecFns, StringSliceAdditionalSpecFns};
use vstd::utf8::{decode_utf8, is_char_boundary, pop_first_scalar, valid_utf8};
use crate::lexer::{lemma_after_ascii, spans_view, token_text, SpannedToken, SpecToken};
use crate::text::{nat_text, push_str, push_u64};

verus! {

/// The number of newline bytes before position `o`.
pub open spec fn newlines_before(b: Seq<u8>, o: int) -> nat
    decreases o,
{
    if o <= 0 || o > b.len() {
        0
    } else {
        newlines_before(b, o - 1) + if b[o - 1] == 10 {
            1nat
        } else {
            0nat
        }
    }
}

/// The position just after the last newline before `o`, or 0.
pub open spec fn line_start_before(b: Seq<u8>, o: int) -> int
    decreases o,
{
    if o <= 0 || o > b.len() {
        0
    } else if b[o - 1] == 10 {
        o
    } else {
        line_start_before(b, o - 1)
    }
}

/// The 1-based (line, column) of byte offset `offset` (clamped to the end of
/// the text): the line is one more than the newlines before it, the column one
/// more than the characters between the start of its line and it.
pub open spec fn spec_line_col(b: Seq<u8>, offset: int) -> (int, int) {
    let o = if offset < b.len() {
        offset
    } else {
        b.len() as int
    };
    (
        newlines_before(b, o) + 1int,
        decode_utf8(b.subrange(line_start_before(b, o), o)).len() + 1int,
    )
}

/// Start of line 1, then the position after each newline among the first `n` bytes.
pub open spec fn line_starts_upto(b: Seq<u8>, n: int) -> Seq<int>
    decreases n,
{
    if n <= 0 || n > b.len() {
        seq![0]
    } else if b[n - 1] == 10 {
        line_starts_upto(b, n - 1).push(n)
    } else {
        line_starts_upto(b, n - 1)
    }
}

pub open spec fn line_starts(b: Seq<u8>) -> Seq<int> {
    line_starts_upto(b, b.len() as int)
}

proof fn lemma_line_starts_shape(b: Seq<u8>, n: int)
    requires
        0 <= n <= b.len(),
    ensures
        line_starts_upto(b, n).len() == newlines_before(b, n) + 1,
        line_starts_upto(b, n)[0] == 0,
        forall|i: int, j: int|
            0 <= i < j < line_starts_upto(b, n).len() ==> line_starts_upto(b, n)[i] < line_starts_upto(b, n)[j],
        forall|i: int| 0 <= i < line_starts_upto(b, n).len() ==> line_starts_upto(b, n)[i] <= n,
        forall|i: int|
            0 < i < line_starts_upto(b, n).len() ==> line_starts_upto(b, n)[i] >= 1 && b[line_starts_upto(b, n)[i] - 1] == 10,
    decreases n,
{
    if n > 0 {
        lemma_line_starts_shape(b, n - 1);
    }
}

proof fn lemma_line_start_before(b: Seq<u8>, o: int)
    requires
        0 <= o <= b.len(),
    ensures
        0 <= line_start_before(b, o) <= o,
    decreases o,
{
    if o > 0 {
        lemma_line_start_before(b, o - 1);
    }
}

proof fn lemma_line_starts_locate(b: Seq<u8>, n: int, o: int)
    requires
        0 <= o <= n <= b.len(),
    ensures
        newlines_before(b, o) < line_starts_upto(b, n).len(),
        line_starts_upto(b, n)[newlines_before(b, o) as int] == line_start_before(b, o),
        newlines_before(b, o) + 1 < line_starts_upto(b, n).len() ==> line_starts_upto(b, n)[newlines_before(b, o) + 1int] > o,
    decreases n,
{
    lemma_line_starts_shape(b, n);
    if n > 0 {
        lemma_line_starts_shape(b, n - 1);
        if o <= n - 1 {
            lemma_line_starts_locate(b, n - 1, o);
        } else {
            lemma_line_starts_locate(b, n - 1, n - 1);
        }
    }
}

proof fn lemma_decode_len(bytes: Seq<u8>)
    requires
        valid_utf8(bytes),
    ensures
        decode_utf8(bytes).len() <= bytes.len(),
    decreases bytes.len(),
{
    if bytes.len() > 0 {
        lemma_decode_len(pop_first_scalar(bytes));
    }
}

/// Maps byte offsets to 1-based `(line, column)` positions.
///
/// Column counts Unicode scalar values (chars), not UTF-8 bytes.
#[derive(Debug, Clone)]
pub struct LineIndex {
    /// Byte offset of the start of each line (line 1 at index 0).
    line_starts: Vec<usize>,
}

impl LineIndex {
    /// The line starts, as the contracts see them.
    pub closed spec fn starts(&self) -> Seq<int> {
        self.line_starts@.map_values(|s: usize| s as int)
    }

    /// Whether this index was built from a text with bytes `b`.
    pub open spec fn indexes(&self, b: Seq<u8>) -> bool {
        self.starts() == line_starts(b)
    }

    pub fn new(source: &str) -> (r: Self)
        ensures
            r.indexes(source.spec_bytes()),
    {
        let bytes = source.as_bytes();
        let ghost b = bytes@;
        let mut line_starts: Vec<usize> = Vec::new();
        line_starts.push(0);
        let mut i: usize = 0;
        proof {
            assert(line_starts@.map_values(|s: usize| s as int) =~= line_starts_upto(b, 0));
        }
        while i < bytes.len()
            invariant
                i <= b.len(),
                b == bytes@,
                line_starts@.map_values(|s: usize| s as int) == line_starts_upto(b, i as int),
            decreases b.len() - i,
        {
            if bytes[i] == 10 {
                let ghost before = line_starts@.map_values(|s: usize| s as int);
                line_starts.push(i + 1);
                proof {
                    assert(line_starts@.map_values(|s: usize| s as int) =~= before.push(i + 1));
                }
            }
            i = i + 1;
        }
        LineIndex { line_starts }
    }

    /// The 1-based (line, column) of `offset`.
    pub fn line_col(&self, source: &str, offset: usize) -> (r: (usize, usize))
        requires
            self.indexes(source.spec_bytes()),
            source.spec_bytes().len() < usize::MAX,
            offset < source.spec_bytes().len() ==> is_char_boundary(source.spec_bytes(), offset as int),
        ensures
            (r.0 as int, r.1 as int) == spec_line_col(source.spec_bytes(), offset as int),
    {
        let bytes = source.as_bytes();
        let ghost b = bytes@;
        let o = if offset < bytes.len() {
            offset
        } else {
            bytes.len()
        };
        let ghost ls = self.starts();
        proof {
            lemma_line_starts_shape(b, b.len() as int);
            lemma_line_starts_locate(b, b.len() as int, o as int);
        }
        // Largest index whose line start is at most `o`.
        let mut lo: usize = 0;
        let mut hi: usize = self.line_starts.len();
        while hi - lo > 1
            invariant
                ls == self.starts(),
                ls == line_starts(b),
                ls.len() == self.line_starts@.len(),
                lo < hi <= ls.len(),
                ls[lo as int] <= o,
                hi < ls.len() ==> ls[hi as int] > o,
            decreases hi - lo,
        {
            let mid = lo + (hi - lo) / 2;
            if self.line_starts[mid] <= o {
                lo = mid;
            } else {
                hi = mid;
            }
        }
        let line_idx = lo;
        let ghost nb = newlines_before(b, o as int);
        proof {
            lemma_line_start_before(b, o as int);
            assert(hi == lo + 1);
            if (line_idx as int) < nb {
                assert(ls[line_idx + 1] <= ls[nb as int]);
            } else if (line_idx as int) > nb {
                assert(ls[line_idx as int] >= ls[nb + 1int]);
            }
            assert(line_idx as int == nb);
        }
        let line_start = self.line_starts[line_idx];
        let ghost lsb = line_start as int;
        proof {
            vstd::utf8::encode_utf8_valid_utf8(source@);
            vstd::utf8::is_char_boundary_start_end_of_seq(b);
            if lsb > 0 && lsb < b.len() {
                lemma_after_ascii(b, lsb - 1);
                vstd::utf8::is_char_boundary_iff_not_is_continuation_byte(b, lsb);
            }
        }
        let (_, rest) = source.split_at(line_start);
        let ghost rb = rest.spec_bytes();
        proof {
            vstd::utf8::encode_utf8_valid_utf8(rest@);
            vstd::utf8::is_char_boundary_start_end_of_seq(rb);
            let m = o - lsb;
            if 0 < m < rb.len() {
                assert(rb[m] == b[o as int]);
                vstd::utf8::is_char_boundary_iff_not_is_continuation_byte(b, o as int);
                vstd::utf8::is_char_boundary_iff_not_is_continuation_byte(rb, m);
            }
        }
        let (line, _) = rest.split_at(o - line_start);
        proof {
            vstd::utf8::encode_utf8_decode_utf8(line@);
            assert(line.spec_bytes() =~= b.subrange(lsb, o as int));
        }
        let col = line.unicode_len();
        proof {
            vstd::utf8::encode_utf8_valid_utf8(line@);
            lemma_decode_len(line.spec_bytes());
        }
        (line_idx + 1, col + 1)
    }
}

/// The dump line of each token, from the first `n`.
pub open spec fn format_tokens_upto(b: Seq<u8>, ts: Seq<(SpecToken, int, int)>, n: int) -> Seq<char>
    decreases n,
{
    if n <= 0 || n > ts.len() {
        Seq::empty()
    } else {
        let lc = spec_line_col(b, ts[n - 1].1);
        format_tokens_upto(b, ts, n - 1) + token_text(ts[n - 1].0) + " @ "@ + nat_text(lc.0 as nat)
            + ":"@ + nat_text(lc.1 as nat) + "\n"@
    }
}

/// Format tokens one per line: `KIND @ line:col` (1-based, token start).
pub fn format_tokens(source: &str, tokens: &[SpannedToken<'_>]) -> (r: String)
    requires
        source.spec_bytes().len() < usize::MAX,
        forall|i: int|
            0 <= i < tokens@.len() && (#[trigger] tokens@[i]).span.start < source.spec_bytes().len()
                ==> is_char_boundary(source.spec_bytes(), tokens@[i].span.start as int),
    ensures
        r@ == format_tokens_upto(source.spec_bytes(), spans_view(tokens@), tokens@.len() as int),
{
    let index = LineIndex::new(source);
    let ghost b = source.spec_bytes();
    let ghost ts = spans_view(tokens@);
    let mut out = String::new();
    let mut i: usize = 0;
    while i < tokens.len()
        invariant
            i <= tokens@.len(),
            ts == spans_view(tokens@),
            b == source.spec_bytes(),
            b.len() < usize::MAX,
            index.indexes(b),
            forall|k: int|
                0 <= k < tokens@.len() && (#[trigger] tokens@[k]).span.start < b.len()
                    ==> is_char_boundary(b, tokens@[k].span.start as int),
            out@ == format_tokens_upto(b, ts, i as int),
        decreases tokens@.len() - i,
    {
        let t = &tokens[i];
        let (line, col) = index.line_col(source, t.span.start);
        let kind = t.kind.display_text();
        push_str(&mut out, kind.as_str());
        push_str(&mut out, " @ ");
        push_u64(&mut out, line as u64);
        push_str(&mut out, ":");
        push_u64(&mut out, col as u64);
        push_str(&mut out, "\n");
        i = i + 1;
    }
    out
}

} // verus!
