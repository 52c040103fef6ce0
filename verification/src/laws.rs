//! Properties of the front end as a whole: of the token stream, of the trees
//! that parsing yields, and of what type checking and code generation accept.

use vstd::prelude::*;
use vstd::utf8::{
    encode_utf8, is_ascii_chars, is_ascii_chars_encode_utf8, is_char_boundary, is_char_boundary_iff_not_is_continuation_byte,
    is_char_boundary_start_end_of_seq, valid_utf8,
};
use crate::ast::{
    binop_text, bool_text, emit_arms, emit_block, emit_expr, emit_exprs, emit_field_inits, emit_stmt, emit_stmts,
    emit_type, let_keyword, step, unop_text, BinOp, UnOp, SpecBlock, SpecMatchArm, SpecType, SpecExpr, SpecItem, SpecModule, SpecParam, SpecStmt};
use crate::codegen::{cg_block, cg_items, cg_main, codegen_check, comparison_for, is_compare, is_main};
use crate::ir::IntPred;
use crate::lexer::{
    block_comment_end, digit_class, ident_class, lemma_after_ascii, lemma_run_end,
    lemma_scan_progress, lex_from, line_class, run_end, scan, space_class, spec_lex, token_text, Scan,
    SpecToken,
};
use crate::parser::token_offset;
use crate::text::int_text;
use crate::span::spec_line_col;
use crate::parser_spec::{
    add_op, compare_op, mul_op, un_op,
    at, bad_step, decls_tail, expect, expect_ident, items_tail, p_item, p_struct, p_type, peek,
    spec_parse, Toks,
};
use crate::typeck_spec::{
    check_new_type, check_new_value, collect_fields, collect_type_names, collect_types,
    collect_values, first_dup, has_key, index_from, lookup_from, resolve_fields, spec_typeck, ConstTable, EnumTable, FnTable,
    StructTable, check_all_finite, finite_dfs, finite_fields, lookup, room, SpecTy, check_all_consts_finite,
    const_dfs, const_deps, const_refs, check_expr, resolve_type, check_stmt, declare, join_if, join_match, Ctx, Env, Flow,
};

verus! {

// ---------------------------------------------------------------------------
// Lexing.
// ---------------------------------------------------------------------------
/// Tokens in source order: each covers a non-empty range of bytes from `from`
/// on and within `len`, and ends no later than the next one starts.
pub open spec fn spans_in_order(ts: Toks, from: int, len: int) -> bool {
    &&& forall|k: int| 0 <= k < ts.len() ==> from <= #[trigger] ts[k].1 < ts[k].2 <= len
    &&& forall|k: int, l: int| 0 <= k < l < ts.len() ==> #[trigger] ts[k].2 <= #[trigger] ts[l].1
}

/// Every token of `ts` starts at a character boundary of `b`.
pub open spec fn starts_at_boundaries(b: Seq<u8>, ts: Toks) -> bool {
    forall|k: int| 0 <= k < ts.len() ==> is_char_boundary(b, #[trigger] ts[k].1)
}

/// Every position that a lexing outcome reports is a character boundary of `b`.
pub open spec fn at_boundaries(b: Seq<u8>, r: Result<Toks, int>) -> bool {
    match r {
        Ok(ts) => starts_at_boundaries(b, ts),
        Err(o) => is_char_boundary(b, o),
    }
}

proof fn lemma_comment_end_after_slash(b: Seq<u8>, k: int)
    requires
        0 <= k <= b.len(),
    ensures
        block_comment_end(b, k) matches Some(j) ==> k + 2 <= j <= b.len() && b[j - 1] == 47,
    decreases b.len() - k,
{
    if k < b.len() {
        if b[k] != 42 {
            lemma_comment_end_after_slash(b, k + 1);
        } else if k + 1 < b.len() && b[k + 1] != 47 {
            lemma_comment_end_after_slash(b, k + 2);
        }
    }
}

/// A match that starts at `i` ends past `i`, within the input, and right after
/// an ASCII byte or right before a newline.
#[verifier::rlimit(30)]
proof fn lemma_scan_end(b: Seq<u8>, i: int)
    requires
        0 <= i < b.len(),
    ensures
        scan(b, i) matches Scan::Skip(j) ==> i < j <= b.len() && (j == b.len() || b[j - 1] < 0x80
            || b[j] == 10),
        scan(b, i) matches Scan::Tok(_, j) ==> i < j <= b.len() && (j == b.len() || b[j - 1]
            < 0x80),
{
    lemma_scan_progress(b, i);
    lemma_run_end(b, i + 1, space_class());
    lemma_run_end(b, i + 1, ident_class());
    lemma_run_end(b, i + 1, digit_class());
    let c = b[i];
    if i + 2 <= b.len() {
        lemma_run_end(b, i + 2, line_class());
        lemma_comment_end_after_slash(b, i + 2);
    }
    let js = run_end(b, i + 1, space_class());
    let jd = run_end(b, i + 1, digit_class());
    let ji = run_end(b, i + 1, ident_class());
    if js > i + 1 {
        assert(space_class()(b[js - 1]));
    }
    if jd > i + 1 {
        assert(digit_class()(b[jd - 1]));
    }
    if ji > i + 1 {
        assert(ident_class()(b[ji - 1]));
    }
    if i + 2 <= b.len() {
        let jl = run_end(b, i + 2, line_class());
        if jl < b.len() {
            assert(!line_class()(b[jl]));
        }
    }
}

proof fn lemma_boundary_after(b: Seq<u8>, j: int)
    requires
        valid_utf8(b),
        0 < j <= b.len(),
        j == b.len() || b[j - 1] < 0x80 || b[j] == 10,
    ensures
        is_char_boundary(b, j),
{
    if j == b.len() {
        is_char_boundary_start_end_of_seq(b);
    } else {
        if b[j - 1] < 0x80 {
            lemma_after_ascii(b, j - 1);
        }
        is_char_boundary_iff_not_is_continuation_byte(b, j);
    }
}

#[verifier::rlimit(30)]
proof fn lemma_lex_from(b: Seq<u8>, i: int)
    requires
        0 <= i,
    ensures
        lex_from(b, i) matches Ok(ts) ==> spans_in_order(ts, i, b.len() as int),
        lex_from(b, i) matches Err(o) ==> i <= o < b.len(),
        valid_utf8(b) && is_char_boundary(b, i) ==> at_boundaries(b, lex_from(b, i)),
    decreases b.len() - i,
{
    if i < b.len() {
        lemma_scan_end(b, i);
        match scan(b, i) {
            Scan::Skip(j) => {
                lemma_lex_from(b, j);
                if valid_utf8(b) {
                    lemma_boundary_after(b, j);
                }
            },
            Scan::Tok(t, j) => {
                lemma_lex_from(b, j);
                if valid_utf8(b) {
                    lemma_boundary_after(b, j);
                }
                if let Ok(rest) = lex_from(b, j) {
                    let ts = seq![(t, i, j)] + rest;
                    assert forall|k: int| 0 <= k < ts.len() implies i <= #[trigger] ts[k].1 < ts[k].2
                        <= b.len() by {
                        if k > 0 {
                            assert(ts[k] == rest[k - 1]);
                        }
                    }
                    assert forall|k: int, l: int| 0 <= k < l < ts.len() implies #[trigger] ts[k].2
                        <= #[trigger] ts[l].1 by {
                        assert(ts[l] == rest[l - 1]);
                        if k > 0 {
                            assert(ts[k] == rest[k - 1]);
                        }
                    }
                    if valid_utf8(b) && is_char_boundary(b, i) {
                        assert forall|k: int| 0 <= k < ts.len() implies is_char_boundary(
                            b,
                            #[trigger] ts[k].1,
                        ) by {
                            if k > 0 {
                                assert(ts[k] == rest[k - 1]);
                            }
                        }
                    }
                }
            },
            Scan::Fail => {},
        }
    }
}

/// Lexing yields tokens in source order: each covers a non-empty range of
/// bytes of the text and ends no later than the next one starts; a failure is
/// reported at a byte of the text.
pub proof fn lex_tokens_follow_source_order(b: Seq<u8>)
    ensures
        spec_lex(b) matches Ok(ts) ==> spans_in_order(ts, 0, b.len() as int),
        spec_lex(b) matches Err(o) ==> 0 <= o < b.len(),
{
    lemma_lex_from(b, 0);
}

/// Every position that lexing a UTF-8 text reports, the start of a token or
/// the place of a failure, lies on a character boundary of the text; so a
/// `LineIndex` of the text can locate it.
pub proof fn lex_positions_on_char_boundaries(b: Seq<u8>)
    requires
        valid_utf8(b),
    ensures
        at_boundaries(b, spec_lex(b)),
{
    is_char_boundary_start_end_of_seq(b);
    lemma_lex_from(b, 0);
}

/// An offset that the parser reports on the tokens of a UTF-8 text, a token's
/// start or the text's end, lies on a character boundary of the text; so the
/// errors of lexing and of parsing can both be located by a `LineIndex`.
pub proof fn parse_error_positions_on_char_boundaries(b: Seq<u8>, ts: Toks, o: int)
    requires
        valid_utf8(b),
        spec_lex(b) == Ok::<Toks, int>(ts),
        token_offset(ts, b.len() as int, o),
    ensures
        is_char_boundary(b, o),
{
    lex_positions_on_char_boundaries(b);
    is_char_boundary_start_end_of_seq(b);
    assert(starts_at_boundaries(b, ts));
    if o != b.len() {
        let k = choose|k: int| 0 <= k < ts.len() && #[trigger] ts[k].1 == o;
        assert(is_char_boundary(b, ts[k].1));
    }
}

/// Positions are 1-based: every offset has a line and a column of at least 1,
/// and the start of the text is line 1, column 1.
pub proof fn line_col_is_one_based(b: Seq<u8>, offset: int)
    ensures
        spec_line_col(b, offset).0 >= 1,
        spec_line_col(b, offset).1 >= 1,
        spec_line_col(b, 0) == (1int, 1int),
{
    assert(b.subrange(0, 0) =~= Seq::<u8>::empty());
}

// ---------------------------------------------------------------------------
// Parsing.
// ---------------------------------------------------------------------------
proof fn lemma_decls_tail_grows(
    ts: Toks,
    eof: int,
    p: int,
    acc: Seq<SpecParam>,
    label: Seq<char>,
    close: SpecToken,
    close_label: Seq<char>,
)
    ensures
        decls_tail(ts, eof, p, acc, label, close, close_label) matches Ok((ds, _)) ==> ds.len()
            > acc.len(),
    decreases ts.len() - p,
{
    if let Ok((name, q)) = expect_ident(ts, eof, p, label) {
        if let Ok((_, r)) = expect(ts, eof, q, SpecToken::Colon, "`:`"@) {
            if let Ok((ty, s)) = p_type(ts, eof, r) {
                if !bad_step(ts, p, s) && at(ts, s, SpecToken::Comma) {
                    lemma_decls_tail_grows(
                        ts,
                        eof,
                        s + 1,
                        acc.push(SpecParam { name, ty }),
                        label,
                        close,
                        close_label,
                    );
                }
            }
        }
    }
}

pub open spec fn structs_have_fields(items: Seq<SpecItem>) -> bool {
    forall|k: int|
        0 <= k < items.len() ==> (#[trigger] items[k] matches SpecItem::Struct(s) ==> s.fields.len()
            > 0)
}

proof fn lemma_struct_fields(ts: Toks, eof: int, p: int)
    ensures
        p_struct(ts, eof, p) matches Ok((s, _)) ==> s.fields.len() > 0,
{
    if let Ok((name, q)) = expect_ident(ts, eof, p + 1, "struct name"@) {
        if let Ok((_, r)) = expect(ts, eof, q, SpecToken::LBrace, "`{`"@) {
            lemma_decls_tail_grows(
                ts,
                eof,
                r,
                Seq::empty(),
                "field name"@,
                SpecToken::RBrace,
                "`}`"@,
            );
        }
    }
}

proof fn lemma_items_tail_structs(ts: Toks, eof: int, p: int, acc: Seq<SpecItem>)
    requires
        structs_have_fields(acc),
    ensures
        items_tail(ts, eof, p, acc) matches Ok(m) ==> structs_have_fields(m.items),
    decreases ts.len() - p,
{
    if 0 <= p < ts.len() {
        if let Ok((item, q)) = p_item(ts, eof, p) {
            if !bad_step(ts, p, q) {
                if peek(ts, p) == Some(SpecToken::Struct) {
                    lemma_struct_fields(ts, eof, p);
                }
                let next = acc.push(item);
                assert forall|k: int| 0 <= k < next.len() implies (#[trigger] next[k] matches SpecItem::Struct(s)
                    ==> s.fields.len() > 0) by {
                    if k < acc.len() {
                        assert(next[k] == acc[k]);
                    }
                }
                lemma_items_tail_structs(ts, eof, q, next);
            }
        }
    }
}

/// Every struct that parsing yields declares at least one field.
pub proof fn parsed_structs_have_fields(ts: Toks, eof: int)
    ensures
        spec_parse(ts, eof) matches Ok(m) ==> structs_have_fields(m.items),
{
    lemma_items_tail_structs(ts, eof, 0, Seq::empty());
}

// ---------------------------------------------------------------------------
// Type checking.
// ---------------------------------------------------------------------------
/// The name that a function or const item defines.
pub open spec fn value_name(i: SpecItem) -> Option<Seq<char>> {
    match i {
        SpecItem::Fn(f) => Some(f.name),
        SpecItem::Const(c) => Some(c.name),
        _ => None,
    }
}

/// The name that a struct or enum item defines.
pub open spec fn declared_type_name(i: SpecItem) -> Option<Seq<char>> {
    match i {
        SpecItem::Struct(s) => Some(s.name),
        SpecItem::Enum(e) => Some(e.name),
        _ => None,
    }
}

pub open spec fn names_distinct(items: Seq<SpecItem>, name_of: spec_fn(SpecItem) -> Option<Seq<char>>, from: int) -> bool {
    forall|j: int, k: int|
        from <= j < k < items.len() && (#[trigger] name_of(items[j])) is Some && (#[trigger] name_of(
            items[k],
        )) is Some ==> name_of(items[j]) != name_of(items[k])
}

proof fn lemma_lookup_from<V>(tbl: Seq<(Seq<char>, V)>, name: Seq<char>, i: int)
    requires
        0 <= i,
    ensures
        lookup_from(tbl, name, i) is Some <==> exists|k: int| i <= k < tbl.len() && #[trigger] tbl[k].0 == name,
    decreases tbl.len() - i,
{
    if i < tbl.len() {
        lemma_lookup_from(tbl, name, i + 1);
        if tbl[i].0 != name {
            assert forall|k: int| i <= k < tbl.len() && #[trigger] tbl[k].0 == name implies i + 1 <= k by {}
        }
    }
}

proof fn lemma_has_key_push<V>(tbl: Seq<(Seq<char>, V)>, x: (Seq<char>, V), name: Seq<char>)
    ensures
        has_key(tbl.push(x), name) <==> has_key(tbl, name) || x.0 == name,
{
    lemma_lookup_from(tbl, name, 0);
    lemma_lookup_from(tbl.push(x), name, 0);
    let t2 = tbl.push(x);
    if has_key(tbl, name) {
        let k = choose|k: int| 0 <= k < tbl.len() && #[trigger] tbl[k].0 == name;
        assert(t2[k] == tbl[k]);
    }
    if x.0 == name {
        assert(t2[tbl.len() as int] == x);
    }
    if has_key(t2, name) {
        let k = choose|k: int| 0 <= k < t2.len() && #[trigger] t2[k].0 == name;
        if k < tbl.len() {
            assert(t2[k] == tbl[k]);
        }
    }
}

#[verifier::rlimit(30)]
proof fn lemma_collect_values(
    items: Seq<SpecItem>,
    i: int,
    structs: StructTable,
    enums: EnumTable,
    fns: FnTable,
    consts: ConstTable,
)
    requires
        0 <= i,
    ensures
        collect_values(items, i, structs, enums, fns, consts) is Ok ==> {
            &&& names_distinct(items, |it: SpecItem| value_name(it), i)
            &&& forall|k: int|
                i <= k < items.len() && (#[trigger] value_name(items[k])) is Some ==> !has_key(
                    fns,
                    value_name(items[k])->0,
                ) && !has_key(consts, value_name(items[k])->0)
        },
    decreases items.len() - i,
{
    if i < items.len() && collect_values(items, i, structs, enums, fns, consts) is Ok {
        let f = |it: SpecItem| value_name(it);
        match items[i] {
            SpecItem::Fn(func) => {
                if let Ok(ps) = crate::typeck_spec::resolve_params(func.params, 0, structs, enums) {
                    if let Ok(r) = crate::typeck_spec::resolve_type(func.return_ty, structs, enums) {
                        let x = (func.name, (ps, r));
                        lemma_collect_values(items, i + 1, structs, enums, fns.push(x), consts);
                        assert forall|k: int|
                            i + 1 <= k < items.len() && (#[trigger] value_name(items[k])) is Some implies !has_key(
                            fns,
                            value_name(items[k])->0,
                        ) && value_name(items[k])->0 != func.name by {
                            lemma_has_key_push(fns, x, value_name(items[k])->0);
                        }
                        assert(check_new_value(func.name, fns, consts) is Ok);
                        assert forall|j: int, k: int|
                            i <= j < k < items.len() && (#[trigger] f(items[j])) is Some && (#[trigger] f(
                                items[k],
                            )) is Some implies f(items[j]) != f(items[k]) by {
                            if j == i {
                                assert(value_name(items[k]) is Some);
                            }
                        }
                    }
                }
            },
            SpecItem::Const(c) => {
                if let Ok(t) = crate::typeck_spec::resolve_type(c.ty, structs, enums) {
                    let x = (c.name, t);
                    lemma_collect_values(items, i + 1, structs, enums, fns, consts.push(x));
                    assert forall|k: int|
                        i + 1 <= k < items.len() && (#[trigger] value_name(items[k])) is Some implies !has_key(
                        consts,
                        value_name(items[k])->0,
                    ) && value_name(items[k])->0 != c.name by {
                        lemma_has_key_push(consts, x, value_name(items[k])->0);
                    }
                    assert(check_new_value(c.name, fns, consts) is Ok);
                    assert forall|j: int, k: int|
                        i <= j < k < items.len() && (#[trigger] f(items[j])) is Some && (#[trigger] f(
                            items[k],
                        )) is Some implies f(items[j]) != f(items[k]) by {
                        if j == i {
                            assert(value_name(items[k]) is Some);
                        }
                    }
                }
            },
            _ => {
                lemma_collect_values(items, i + 1, structs, enums, fns, consts);
                assert forall|j: int, k: int|
                    i <= j < k < items.len() && (#[trigger] f(items[j])) is Some && (#[trigger] f(
                        items[k],
                    )) is Some implies f(items[j]) != f(items[k]) by {
                    assert(j != i);
                }
            },
        }
    }
}

#[verifier::rlimit(30)]
proof fn lemma_collect_type_names(items: Seq<SpecItem>, i: int, structs: StructTable, enums: EnumTable)
    requires
        0 <= i,
    ensures
        collect_type_names(items, i, structs, enums) is Ok ==> {
            &&& names_distinct(items, |it: SpecItem| declared_type_name(it), i)
            &&& forall|k: int|
                i <= k < items.len() && (#[trigger] declared_type_name(items[k])) is Some ==> !has_key(
                    structs,
                    declared_type_name(items[k])->0,
                ) && !has_key(enums, declared_type_name(items[k])->0)
        },
    decreases items.len() - i,
{
    if i < items.len() && collect_type_names(items, i, structs, enums) is Ok {
        let f = |it: SpecItem| declared_type_name(it);
        match items[i] {
            SpecItem::Struct(def) => {
                let x = (def.name, Seq::<(Seq<char>, crate::typeck_spec::SpecTy)>::empty());
                lemma_collect_type_names(items, i + 1, structs.push(x), enums);
                assert forall|k: int|
                    i + 1 <= k < items.len() && (#[trigger] declared_type_name(items[k])) is Some implies !has_key(
                    structs,
                    declared_type_name(items[k])->0,
                ) && declared_type_name(items[k])->0 != def.name by {
                    lemma_has_key_push(structs, x, declared_type_name(items[k])->0);
                }
                assert(check_new_type(def.name, structs, enums) is Ok);
                assert forall|j: int, k: int|
                    i <= j < k < items.len() && (#[trigger] f(items[j])) is Some && (#[trigger] f(
                        items[k],
                    )) is Some implies f(items[j]) != f(items[k]) by {
                    if j == i {
                        assert(declared_type_name(items[k]) is Some);
                    }
                }
            },
            SpecItem::Enum(def) => {
                let x = (def.name, def.variants);
                lemma_collect_type_names(items, i + 1, structs, enums.push(x));
                assert forall|k: int|
                    i + 1 <= k < items.len() && (#[trigger] declared_type_name(items[k])) is Some implies !has_key(
                    enums,
                    declared_type_name(items[k])->0,
                ) && declared_type_name(items[k])->0 != def.name by {
                    lemma_has_key_push(enums, x, declared_type_name(items[k])->0);
                }
                assert(check_new_type(def.name, structs, enums) is Ok);
                assert forall|j: int, k: int|
                    i <= j < k < items.len() && (#[trigger] f(items[j])) is Some && (#[trigger] f(
                        items[k],
                    )) is Some implies f(items[j]) != f(items[k]) by {
                    if j == i {
                        assert(declared_type_name(items[k]) is Some);
                    }
                }
            },
            _ => {
                lemma_collect_type_names(items, i + 1, structs, enums);
                assert forall|j: int, k: int|
                    i <= j < k < items.len() && (#[trigger] f(items[j])) is Some && (#[trigger] f(
                        items[k],
                    )) is Some implies f(items[j]) != f(items[k]) by {
                    assert(j != i);
                }
            },
        }
    }
}

/// A module that type checking accepts defines each function or const name
/// once, and each struct or enum name once.
pub proof fn typeck_accepts_unique_names(m: SpecModule)
    requires
        spec_typeck(m) is Ok,
    ensures
        names_distinct(m.items, |it: SpecItem| value_name(it), 0),
        names_distinct(m.items, |it: SpecItem| declared_type_name(it), 0),
{
    lemma_collect_type_names(m.items, 0, Seq::empty(), Seq::empty());
    if let Ok((structs, enums)) = collect_types(m) {
        lemma_collect_values(m.items, 0, structs, enums, Seq::empty(), Seq::empty());
    }
}

/// The names of `ps` are pairwise distinct.
pub open spec fn distinct_names(ps: Seq<SpecParam>) -> bool {
    forall|a: int, b: int| 0 <= a < b < ps.len() ==> #[trigger] ps[a].name != #[trigger] ps[b].name
}

/// The entries of `vs` are pairwise distinct.
pub open spec fn distinct_entries(vs: Seq<Seq<char>>) -> bool {
    forall|a: int, b: int| 0 <= a < b < vs.len() ==> #[trigger] vs[a] != #[trigger] vs[b]
}

/// Struct fields have distinct names; enums have variants, all distinct.
pub open spec fn declarations_well_formed(items: Seq<SpecItem>) -> bool {
    forall|k: int|
        0 <= k < items.len() ==> match #[trigger] items[k] {
            SpecItem::Struct(s) => distinct_names(s.fields),
            SpecItem::Enum(e) => e.variants.len() > 0 && distinct_entries(e.variants),
            _ => true,
        }
}

proof fn lemma_first_dup(s: Seq<Seq<char>>, i: int)
    requires
        0 <= i,
        first_dup(s, i) is None,
    ensures
        forall|b: int| i <= b < s.len() ==> !s.take(b).contains(#[trigger] s[b]),
    decreases s.len() - i,
{
    if i < s.len() {
        lemma_first_dup(s, i + 1);
    }
}

proof fn lemma_distinct_entries(s: Seq<Seq<char>>)
    requires
        first_dup(s, 0) is None,
    ensures
        distinct_entries(s),
{
    lemma_first_dup(s, 0);
    assert forall|a: int, b: int| 0 <= a < b < s.len() implies #[trigger] s[a] != #[trigger] s[b] by {
        assert(s.take(b)[a] == s[a]);
        assert(!s.take(b).contains(s[b]));
    }
}

proof fn lemma_resolve_fields(
    sname: Seq<char>,
    fields: Seq<SpecParam>,
    j: int,
    structs: StructTable,
    enums: EnumTable,
)
    requires
        0 <= j,
        resolve_fields(sname, fields, j, structs, enums) is Ok,
    ensures
        forall|b: int|
            j <= b < fields.len() ==> !fields.take(b).map_values(|f: SpecParam| f.name).contains(
                #[trigger] fields[b].name,
            ),
    decreases fields.len() - j,
{
    if j < fields.len() {
        lemma_resolve_fields(sname, fields, j + 1, structs, enums);
    }
}

proof fn lemma_fields_distinct(sname: Seq<char>, fields: Seq<SpecParam>, structs: StructTable, enums: EnumTable)
    requires
        resolve_fields(sname, fields, 0, structs, enums) is Ok,
    ensures
        distinct_names(fields),
{
    lemma_resolve_fields(sname, fields, 0, structs, enums);
    assert forall|a: int, b: int| 0 <= a < b < fields.len() implies #[trigger] fields[a].name
        != #[trigger] fields[b].name by {
        let names = fields.take(b).map_values(|f: SpecParam| f.name);
        assert(names[a] == fields[a].name);
        assert(!names.contains(fields[b].name));
    }
}

proof fn lemma_collect_fields(items: Seq<SpecItem>, i: int, structs: StructTable, enums: EnumTable)
    requires
        0 <= i,
        collect_fields(items, i, structs, enums) is Ok,
    ensures
        forall|k: int|
            i <= k < items.len() ==> (#[trigger] items[k] matches SpecItem::Struct(s) ==> distinct_names(
                s.fields,
            )),
    decreases items.len() - i,
{
    if i < items.len() {
        match items[i] {
            SpecItem::Struct(def) => {
                lemma_fields_distinct(def.name, def.fields, structs, enums);
                if let Ok(fields) = resolve_fields(def.name, def.fields, 0, structs, enums) {
                    let k = index_from(structs, def.name, 0);
                    let structs2 = if k >= 0 {
                        structs.update(k, (def.name, fields))
                    } else {
                        structs
                    };
                    lemma_collect_fields(items, i + 1, structs2, enums);
                }
            },
            _ => {
                lemma_collect_fields(items, i + 1, structs, enums);
            },
        }
    }
}

proof fn lemma_collect_enums(items: Seq<SpecItem>, i: int, structs: StructTable, enums: EnumTable)
    requires
        0 <= i,
        collect_type_names(items, i, structs, enums) is Ok,
    ensures
        forall|k: int|
            i <= k < items.len() ==> (#[trigger] items[k] matches SpecItem::Enum(e) ==> e.variants.len()
                > 0 && distinct_entries(e.variants)),
    decreases items.len() - i,
{
    if i < items.len() {
        match items[i] {
            SpecItem::Struct(def) => {
                lemma_collect_enums(items, i + 1, structs.push((def.name, Seq::empty())), enums);
            },
            SpecItem::Enum(def) => {
                lemma_distinct_entries(def.variants);
                lemma_collect_enums(items, i + 1, structs, enums.push((def.name, def.variants)));
            },
            _ => {
                lemma_collect_enums(items, i + 1, structs, enums);
            },
        }
    }
}

/// In a module that type checking accepts, the fields of each struct have
/// distinct names, and each enum has at least one variant, all distinct.
pub proof fn typeck_accepts_well_formed_declarations(m: SpecModule)
    requires
        spec_typeck(m) is Ok,
    ensures
        declarations_well_formed(m.items),
{
    let s0 = collect_type_names(m.items, 0, Seq::empty(), Seq::empty());
    lemma_collect_enums(m.items, 0, Seq::empty(), Seq::empty());
    if let Ok((structs, enums)) = s0 {
        lemma_collect_fields(m.items, 0, structs, enums);
    }
    assert forall|k: int| 0 <= k < m.items.len() implies match #[trigger] m.items[k] {
        SpecItem::Struct(s) => distinct_names(s.fields),
        SpecItem::Enum(e) => e.variants.len() > 0 && distinct_entries(e.variants),
        _ => true,
    } by {}
}

// ---------------------------------------------------------------------------
// Code generation.
// ---------------------------------------------------------------------------
proof fn lemma_cg_items(items: Seq<SpecItem>, saw: bool)
    requires
        cg_items(items, saw) is Ok,
    ensures
        saw || items.len() > 0,
        forall|k: int| 0 <= k < items.len() ==> is_main(#[trigger] items[k]) && cg_main(items[k]->Fn_0) is Ok,
    decreases items.len(),
{
    if items.len() > 0 {
        lemma_cg_items(items.drop_first(), true);
        assert forall|k: int| 0 <= k < items.len() implies is_main(#[trigger] items[k]) && cg_main(
            items[k]->Fn_0,
        ) is Ok by {
            if k > 0 {
                assert(items[k] == items.drop_first()[k - 1]);
            }
        }
    }
}

/// The generator accepts a module only if it holds at least one item and every
/// item is a `main` function whose body ends every path with `return`.
pub proof fn codegen_accepts_only_main(m: SpecModule)
    requires
        codegen_check(m) is Ok,
    ensures
        m.items.len() > 0,
        forall|k: int|
            0 <= k < m.items.len() ==> is_main(#[trigger] m.items[k]) && cg_block(
                Seq::empty(),
                (m.items[k]->Fn_0).body,
            ) == Ok::<bool, Seq<char>>(true),
{
    lemma_cg_items(m.items, false);
}

/// Lexing the text of `t` gives back `t` alone, spanning the whole text.
pub open spec fn relexes(t: SpecToken) -> bool {
    spec_lex(encode_utf8(token_text(t))) == Ok::<Seq<(SpecToken, int, int)>, int>(
        seq![(t, 0int, token_text(t).len() as int)],
    )
}

/// The bytes `b` spell the text of `t` and scan as `t` alone.
proof fn lemma_relex(t: SpecToken, b: Seq<u8>)
    requires
        b.len() > 0,
        token_text(t).len() == b.len(),
        is_ascii_chars(token_text(t)),
        forall|i: int| 0 <= i < b.len() ==> #[trigger] token_text(t)[i] as u8 == b[i],
        scan(b, 0) == Scan::Tok(t, b.len() as int),
    ensures
        relexes(t),
{
    let s = token_text(t);
    is_ascii_chars_encode_utf8(s);
    assert(encode_utf8(s) =~= b);
    reveal_with_fuel(lex_from, 2);
    assert(lex_from(b, b.len() as int) == Ok::<Seq<(SpecToken, int, int)>, int>(Seq::empty()));
    assert(seq![(t, 0int, b.len() as int)] + Seq::<(SpecToken, int, int)>::empty() =~= seq![(t, 0int, b.len() as int)]);
}

proof fn lemma_relex_fn()
    ensures
        relexes(SpecToken::Fn),
{
    reveal_strlit("fn");
    reveal_with_fuel(run_end, 3);
    let b = seq![102u8, 110u8];
    assert(is_ascii_chars(token_text(SpecToken::Fn)));
    assert(b.subrange(0, 2) =~= b);
    lemma_relex(SpecToken::Fn, b);
}

proof fn lemma_relex_struct()
    ensures
        relexes(SpecToken::Struct),
{
    reveal_strlit("struct");
    reveal_with_fuel(run_end, 7);
    let b = seq![115u8, 116u8, 114u8, 117u8, 99u8, 116u8];
    assert(is_ascii_chars(token_text(SpecToken::Struct)));
    assert(b.subrange(0, 6) =~= b);
    lemma_relex(SpecToken::Struct, b);
}

proof fn lemma_relex_enum()
    ensures
        relexes(SpecToken::Enum),
{
    reveal_strlit("enum");
    reveal_with_fuel(run_end, 5);
    let b = seq![101u8, 110u8, 117u8, 109u8];
    assert(is_ascii_chars(token_text(SpecToken::Enum)));
    assert(b.subrange(0, 4) =~= b);
    lemma_relex(SpecToken::Enum, b);
}

proof fn lemma_relex_impl()
    ensures
        relexes(SpecToken::Impl),
{
    reveal_strlit("impl");
    reveal_with_fuel(run_end, 5);
    let b = seq![105u8, 109u8, 112u8, 108u8];
    assert(is_ascii_chars(token_text(SpecToken::Impl)));
    assert(b.subrange(0, 4) =~= b);
    lemma_relex(SpecToken::Impl, b);
}

proof fn lemma_relex_let()
    ensures
        relexes(SpecToken::Let),
{
    reveal_strlit("let");
    reveal_with_fuel(run_end, 4);
    let b = seq![108u8, 101u8, 116u8];
    assert(is_ascii_chars(token_text(SpecToken::Let)));
    assert(b.subrange(0, 3) =~= b);
    lemma_relex(SpecToken::Let, b);
}

proof fn lemma_relex_const()
    ensures
        relexes(SpecToken::Const),
{
    reveal_strlit("const");
    reveal_with_fuel(run_end, 6);
    let b = seq![99u8, 111u8, 110u8, 115u8, 116u8];
    assert(is_ascii_chars(token_text(SpecToken::Const)));
    assert(b.subrange(0, 5) =~= b);
    lemma_relex(SpecToken::Const, b);
}

proof fn lemma_relex_if()
    ensures
        relexes(SpecToken::If),
{
    reveal_strlit("if");
    reveal_with_fuel(run_end, 3);
    let b = seq![105u8, 102u8];
    assert(is_ascii_chars(token_text(SpecToken::If)));
    assert(b.subrange(0, 2) =~= b);
    lemma_relex(SpecToken::If, b);
}

proof fn lemma_relex_else()
    ensures
        relexes(SpecToken::Else),
{
    reveal_strlit("else");
    reveal_with_fuel(run_end, 5);
    let b = seq![101u8, 108u8, 115u8, 101u8];
    assert(is_ascii_chars(token_text(SpecToken::Else)));
    assert(b.subrange(0, 4) =~= b);
    lemma_relex(SpecToken::Else, b);
}

proof fn lemma_relex_match()
    ensures
        relexes(SpecToken::Match),
{
    reveal_strlit("match");
    reveal_with_fuel(run_end, 6);
    let b = seq![109u8, 97u8, 116u8, 99u8, 104u8];
    assert(is_ascii_chars(token_text(SpecToken::Match)));
    assert(b.subrange(0, 5) =~= b);
    lemma_relex(SpecToken::Match, b);
}

proof fn lemma_relex_loop()
    ensures
        relexes(SpecToken::Loop),
{
    reveal_strlit("loop");
    reveal_with_fuel(run_end, 5);
    let b = seq![108u8, 111u8, 111u8, 112u8];
    assert(is_ascii_chars(token_text(SpecToken::Loop)));
    assert(b.subrange(0, 4) =~= b);
    lemma_relex(SpecToken::Loop, b);
}

proof fn lemma_relex_while()
    ensures
        relexes(SpecToken::While),
{
    reveal_strlit("while");
    reveal_with_fuel(run_end, 6);
    let b = seq![119u8, 104u8, 105u8, 108u8, 101u8];
    assert(is_ascii_chars(token_text(SpecToken::While)));
    assert(b.subrange(0, 5) =~= b);
    lemma_relex(SpecToken::While, b);
}

proof fn lemma_relex_for()
    ensures
        relexes(SpecToken::For),
{
    reveal_strlit("for");
    reveal_with_fuel(run_end, 4);
    let b = seq![102u8, 111u8, 114u8];
    assert(is_ascii_chars(token_text(SpecToken::For)));
    assert(b.subrange(0, 3) =~= b);
    lemma_relex(SpecToken::For, b);
}

proof fn lemma_relex_in()
    ensures
        relexes(SpecToken::In),
{
    reveal_strlit("in");
    reveal_with_fuel(run_end, 3);
    let b = seq![105u8, 110u8];
    assert(is_ascii_chars(token_text(SpecToken::In)));
    assert(b.subrange(0, 2) =~= b);
    lemma_relex(SpecToken::In, b);
}

proof fn lemma_relex_break()
    ensures
        relexes(SpecToken::Break),
{
    reveal_strlit("break");
    reveal_with_fuel(run_end, 6);
    let b = seq![98u8, 114u8, 101u8, 97u8, 107u8];
    assert(is_ascii_chars(token_text(SpecToken::Break)));
    assert(b.subrange(0, 5) =~= b);
    lemma_relex(SpecToken::Break, b);
}

proof fn lemma_relex_continue()
    ensures
        relexes(SpecToken::Continue),
{
    reveal_strlit("continue");
    reveal_with_fuel(run_end, 9);
    let b = seq![99u8, 111u8, 110u8, 116u8, 105u8, 110u8, 117u8, 101u8];
    assert(is_ascii_chars(token_text(SpecToken::Continue)));
    assert(b.subrange(0, 8) =~= b);
    lemma_relex(SpecToken::Continue, b);
}

proof fn lemma_relex_return()
    ensures
        relexes(SpecToken::Return),
{
    reveal_strlit("return");
    reveal_with_fuel(run_end, 7);
    let b = seq![114u8, 101u8, 116u8, 117u8, 114u8, 110u8];
    assert(is_ascii_chars(token_text(SpecToken::Return)));
    assert(b.subrange(0, 6) =~= b);
    lemma_relex(SpecToken::Return, b);
}

proof fn lemma_relex_print()
    ensures
        relexes(SpecToken::Print),
{
    reveal_strlit("print");
    reveal_with_fuel(run_end, 6);
    let b = seq![112u8, 114u8, 105u8, 110u8, 116u8];
    assert(is_ascii_chars(token_text(SpecToken::Print)));
    assert(b.subrange(0, 5) =~= b);
    lemma_relex(SpecToken::Print, b);
}

proof fn lemma_relex_mod()
    ensures
        relexes(SpecToken::Mod),
{
    reveal_strlit("mod");
    reveal_with_fuel(run_end, 4);
    let b = seq![109u8, 111u8, 100u8];
    assert(is_ascii_chars(token_text(SpecToken::Mod)));
    assert(b.subrange(0, 3) =~= b);
    lemma_relex(SpecToken::Mod, b);
}

proof fn lemma_relex_use()
    ensures
        relexes(SpecToken::Use),
{
    reveal_strlit("use");
    reveal_with_fuel(run_end, 4);
    let b = seq![117u8, 115u8, 101u8];
    assert(is_ascii_chars(token_text(SpecToken::Use)));
    assert(b.subrange(0, 3) =~= b);
    lemma_relex(SpecToken::Use, b);
}

proof fn lemma_relex_type()
    ensures
        relexes(SpecToken::Type),
{
    reveal_strlit("type");
    reveal_with_fuel(run_end, 5);
    let b = seq![116u8, 121u8, 112u8, 101u8];
    assert(is_ascii_chars(token_text(SpecToken::Type)));
    assert(b.subrange(0, 4) =~= b);
    lemma_relex(SpecToken::Type, b);
}

proof fn lemma_relex_pub()
    ensures
        relexes(SpecToken::Pub),
{
    reveal_strlit("pub");
    reveal_with_fuel(run_end, 4);
    let b = seq![112u8, 117u8, 98u8];
    assert(is_ascii_chars(token_text(SpecToken::Pub)));
    assert(b.subrange(0, 3) =~= b);
    lemma_relex(SpecToken::Pub, b);
}

proof fn lemma_relex_unsafe()
    ensures
        relexes(SpecToken::Unsafe),
{
    reveal_strlit("unsafe");
    reveal_with_fuel(run_end, 7);
    let b = seq![117u8, 110u8, 115u8, 97u8, 102u8, 101u8];
    assert(is_ascii_chars(token_text(SpecToken::Unsafe)));
    assert(b.subrange(0, 6) =~= b);
    lemma_relex(SpecToken::Unsafe, b);
}

proof fn lemma_relex_as()
    ensures
        relexes(SpecToken::As),
{
    reveal_strlit("as");
    reveal_with_fuel(run_end, 3);
    let b = seq![97u8, 115u8];
    assert(is_ascii_chars(token_text(SpecToken::As)));
    assert(b.subrange(0, 2) =~= b);
    lemma_relex(SpecToken::As, b);
}

proof fn lemma_relex_true()
    ensures
        relexes(SpecToken::True),
{
    reveal_strlit("true");
    reveal_with_fuel(run_end, 5);
    let b = seq![116u8, 114u8, 117u8, 101u8];
    assert(is_ascii_chars(token_text(SpecToken::True)));
    assert(b.subrange(0, 4) =~= b);
    lemma_relex(SpecToken::True, b);
}

proof fn lemma_relex_false()
    ensures
        relexes(SpecToken::False),
{
    reveal_strlit("false");
    reveal_with_fuel(run_end, 6);
    let b = seq![102u8, 97u8, 108u8, 115u8, 101u8];
    assert(is_ascii_chars(token_text(SpecToken::False)));
    assert(b.subrange(0, 5) =~= b);
    lemma_relex(SpecToken::False, b);
}

proof fn lemma_relex_self_value()
    ensures
        relexes(SpecToken::SelfValue),
{
    reveal_strlit("self");
    reveal_with_fuel(run_end, 5);
    let b = seq![115u8, 101u8, 108u8, 102u8];
    assert(is_ascii_chars(token_text(SpecToken::SelfValue)));
    assert(b.subrange(0, 4) =~= b);
    lemma_relex(SpecToken::SelfValue, b);
}

proof fn lemma_relex_self_type()
    ensures
        relexes(SpecToken::SelfType),
{
    reveal_strlit("Self");
    reveal_with_fuel(run_end, 5);
    let b = seq![83u8, 101u8, 108u8, 102u8];
    assert(is_ascii_chars(token_text(SpecToken::SelfType)));
    assert(b.subrange(0, 4) =~= b);
    lemma_relex(SpecToken::SelfType, b);
}

proof fn lemma_relex_literal()
    ensures
        relexes(SpecToken::Literal),
{
    reveal_strlit("literal");
    reveal_with_fuel(run_end, 8);
    let b = seq![108u8, 105u8, 116u8, 101u8, 114u8, 97u8, 108u8];
    assert(is_ascii_chars(token_text(SpecToken::Literal)));
    assert(b.subrange(0, 7) =~= b);
    lemma_relex(SpecToken::Literal, b);
}

proof fn lemma_relex_variable()
    ensures
        relexes(SpecToken::Variable),
{
    reveal_strlit("variable");
    reveal_with_fuel(run_end, 9);
    let b = seq![118u8, 97u8, 114u8, 105u8, 97u8, 98u8, 108u8, 101u8];
    assert(is_ascii_chars(token_text(SpecToken::Variable)));
    assert(b.subrange(0, 8) =~= b);
    lemma_relex(SpecToken::Variable, b);
}

proof fn lemma_relex_formula()
    ensures
        relexes(SpecToken::Formula),
{
    reveal_strlit("formula");
    reveal_with_fuel(run_end, 8);
    let b = seq![102u8, 111u8, 114u8, 109u8, 117u8, 108u8, 97u8];
    assert(is_ascii_chars(token_text(SpecToken::Formula)));
    assert(b.subrange(0, 7) =~= b);
    lemma_relex(SpecToken::Formula, b);
}

proof fn lemma_relex_search()
    ensures
        relexes(SpecToken::Search),
{
    reveal_strlit("search");
    reveal_with_fuel(run_end, 7);
    let b = seq![115u8, 101u8, 97u8, 114u8, 99u8, 104u8];
    assert(is_ascii_chars(token_text(SpecToken::Search)));
    assert(b.subrange(0, 6) =~= b);
    lemma_relex(SpecToken::Search, b);
}

proof fn lemma_relex_scratch()
    ensures
        relexes(SpecToken::Scratch),
{
    reveal_strlit("scratch");
    reveal_with_fuel(run_end, 8);
    let b = seq![115u8, 99u8, 114u8, 97u8, 116u8, 99u8, 104u8];
    assert(is_ascii_chars(token_text(SpecToken::Scratch)));
    assert(b.subrange(0, 7) =~= b);
    lemma_relex(SpecToken::Scratch, b);
}

proof fn lemma_relex_bitstruct()
    ensures
        relexes(SpecToken::Bitstruct),
{
    reveal_strlit("bitstruct");
    reveal_with_fuel(run_end, 10);
    let b = seq![98u8, 105u8, 116u8, 115u8, 116u8, 114u8, 117u8, 99u8, 116u8];
    assert(is_ascii_chars(token_text(SpecToken::Bitstruct)));
    assert(b.subrange(0, 9) =~= b);
    lemma_relex(SpecToken::Bitstruct, b);
}

proof fn lemma_relex_repr_enum()
    ensures
        relexes(SpecToken::ReprEnum),
{
    reveal_strlit("repr_enum");
    reveal_with_fuel(run_end, 10);
    let b = seq![114u8, 101u8, 112u8, 114u8, 95u8, 101u8, 110u8, 117u8, 109u8];
    assert(is_ascii_chars(token_text(SpecToken::ReprEnum)));
    assert(b.subrange(0, 9) =~= b);
    lemma_relex(SpecToken::ReprEnum, b);
}

proof fn lemma_relex_savepoint()
    ensures
        relexes(SpecToken::Savepoint),
{
    reveal_strlit("savepoint");
    reveal_with_fuel(run_end, 10);
    let b = seq![115u8, 97u8, 118u8, 101u8, 112u8, 111u8, 105u8, 110u8, 116u8];
    assert(is_ascii_chars(token_text(SpecToken::Savepoint)));
    assert(b.subrange(0, 9) =~= b);
    lemma_relex(SpecToken::Savepoint, b);
}

proof fn lemma_relex_rollback()
    ensures
        relexes(SpecToken::Rollback),
{
    reveal_strlit("rollback");
    reveal_with_fuel(run_end, 9);
    let b = seq![114u8, 111u8, 108u8, 108u8, 98u8, 97u8, 99u8, 107u8];
    assert(is_ascii_chars(token_text(SpecToken::Rollback)));
    assert(b.subrange(0, 8) =~= b);
    lemma_relex(SpecToken::Rollback, b);
}

proof fn lemma_relex_arrow()
    ensures
        relexes(SpecToken::Arrow),
{
    reveal_strlit("->");
    let b = seq![45u8, 62u8];
    assert(is_ascii_chars(token_text(SpecToken::Arrow)));
    assert(b.subrange(0, 2) =~= b);
    lemma_relex(SpecToken::Arrow, b);
}

proof fn lemma_relex_fat_arrow()
    ensures
        relexes(SpecToken::FatArrow),
{
    reveal_strlit("=>");
    let b = seq![61u8, 62u8];
    assert(is_ascii_chars(token_text(SpecToken::FatArrow)));
    assert(b.subrange(0, 2) =~= b);
    lemma_relex(SpecToken::FatArrow, b);
}

proof fn lemma_relex_path_sep()
    ensures
        relexes(SpecToken::PathSep),
{
    reveal_strlit("::");
    let b = seq![58u8, 58u8];
    assert(is_ascii_chars(token_text(SpecToken::PathSep)));
    assert(b.subrange(0, 2) =~= b);
    lemma_relex(SpecToken::PathSep, b);
}

proof fn lemma_relex_eq_eq()
    ensures
        relexes(SpecToken::EqEq),
{
    reveal_strlit("==");
    let b = seq![61u8, 61u8];
    assert(is_ascii_chars(token_text(SpecToken::EqEq)));
    assert(b.subrange(0, 2) =~= b);
    lemma_relex(SpecToken::EqEq, b);
}

proof fn lemma_relex_not_eq()
    ensures
        relexes(SpecToken::NotEq),
{
    reveal_strlit("!=");
    let b = seq![33u8, 61u8];
    assert(is_ascii_chars(token_text(SpecToken::NotEq)));
    assert(b.subrange(0, 2) =~= b);
    lemma_relex(SpecToken::NotEq, b);
}

proof fn lemma_relex_le()
    ensures
        relexes(SpecToken::Le),
{
    reveal_strlit("<=");
    let b = seq![60u8, 61u8];
    assert(is_ascii_chars(token_text(SpecToken::Le)));
    assert(b.subrange(0, 2) =~= b);
    lemma_relex(SpecToken::Le, b);
}

proof fn lemma_relex_ge()
    ensures
        relexes(SpecToken::Ge),
{
    reveal_strlit(">=");
    let b = seq![62u8, 61u8];
    assert(is_ascii_chars(token_text(SpecToken::Ge)));
    assert(b.subrange(0, 2) =~= b);
    lemma_relex(SpecToken::Ge, b);
}

proof fn lemma_relex_and_and()
    ensures
        relexes(SpecToken::AndAnd),
{
    reveal_strlit("&&");
    let b = seq![38u8, 38u8];
    assert(is_ascii_chars(token_text(SpecToken::AndAnd)));
    assert(b.subrange(0, 2) =~= b);
    lemma_relex(SpecToken::AndAnd, b);
}

proof fn lemma_relex_or_or()
    ensures
        relexes(SpecToken::OrOr),
{
    reveal_strlit("||");
    let b = seq![124u8, 124u8];
    assert(is_ascii_chars(token_text(SpecToken::OrOr)));
    assert(b.subrange(0, 2) =~= b);
    lemma_relex(SpecToken::OrOr, b);
}

proof fn lemma_relex_shl()
    ensures
        relexes(SpecToken::Shl),
{
    reveal_strlit("<<");
    let b = seq![60u8, 60u8];
    assert(is_ascii_chars(token_text(SpecToken::Shl)));
    assert(b.subrange(0, 2) =~= b);
    lemma_relex(SpecToken::Shl, b);
}

proof fn lemma_relex_shr()
    ensures
        relexes(SpecToken::Shr),
{
    reveal_strlit(">>");
    let b = seq![62u8, 62u8];
    assert(is_ascii_chars(token_text(SpecToken::Shr)));
    assert(b.subrange(0, 2) =~= b);
    lemma_relex(SpecToken::Shr, b);
}

proof fn lemma_relex_dot_dot_dot()
    ensures
        relexes(SpecToken::DotDotDot),
{
    reveal_strlit("...");
    let b = seq![46u8, 46u8, 46u8];
    assert(is_ascii_chars(token_text(SpecToken::DotDotDot)));
    assert(b.subrange(0, 3) =~= b);
    lemma_relex(SpecToken::DotDotDot, b);
}

proof fn lemma_relex_dot_dot()
    ensures
        relexes(SpecToken::DotDot),
{
    reveal_strlit("..");
    let b = seq![46u8, 46u8];
    assert(is_ascii_chars(token_text(SpecToken::DotDot)));
    assert(b.subrange(0, 2) =~= b);
    lemma_relex(SpecToken::DotDot, b);
}

proof fn lemma_relex_l_paren()
    ensures
        relexes(SpecToken::LParen),
{
    reveal_strlit("(");
    let b = seq![40u8];
    assert(is_ascii_chars(token_text(SpecToken::LParen)));
    assert(b.subrange(0, 1) =~= b);
    lemma_relex(SpecToken::LParen, b);
}

proof fn lemma_relex_r_paren()
    ensures
        relexes(SpecToken::RParen),
{
    reveal_strlit(")");
    let b = seq![41u8];
    assert(is_ascii_chars(token_text(SpecToken::RParen)));
    assert(b.subrange(0, 1) =~= b);
    lemma_relex(SpecToken::RParen, b);
}

proof fn lemma_relex_l_brace()
    ensures
        relexes(SpecToken::LBrace),
{
    reveal_strlit("{");
    let b = seq![123u8];
    assert(is_ascii_chars(token_text(SpecToken::LBrace)));
    assert(b.subrange(0, 1) =~= b);
    lemma_relex(SpecToken::LBrace, b);
}

proof fn lemma_relex_r_brace()
    ensures
        relexes(SpecToken::RBrace),
{
    reveal_strlit("}");
    let b = seq![125u8];
    assert(is_ascii_chars(token_text(SpecToken::RBrace)));
    assert(b.subrange(0, 1) =~= b);
    lemma_relex(SpecToken::RBrace, b);
}

proof fn lemma_relex_l_bracket()
    ensures
        relexes(SpecToken::LBracket),
{
    reveal_strlit("[");
    let b = seq![91u8];
    assert(is_ascii_chars(token_text(SpecToken::LBracket)));
    assert(b.subrange(0, 1) =~= b);
    lemma_relex(SpecToken::LBracket, b);
}

proof fn lemma_relex_r_bracket()
    ensures
        relexes(SpecToken::RBracket),
{
    reveal_strlit("]");
    let b = seq![93u8];
    assert(is_ascii_chars(token_text(SpecToken::RBracket)));
    assert(b.subrange(0, 1) =~= b);
    lemma_relex(SpecToken::RBracket, b);
}

proof fn lemma_relex_comma()
    ensures
        relexes(SpecToken::Comma),
{
    reveal_strlit(",");
    let b = seq![44u8];
    assert(is_ascii_chars(token_text(SpecToken::Comma)));
    assert(b.subrange(0, 1) =~= b);
    lemma_relex(SpecToken::Comma, b);
}

proof fn lemma_relex_semi()
    ensures
        relexes(SpecToken::Semi),
{
    reveal_strlit(";");
    let b = seq![59u8];
    assert(is_ascii_chars(token_text(SpecToken::Semi)));
    assert(b.subrange(0, 1) =~= b);
    lemma_relex(SpecToken::Semi, b);
}

proof fn lemma_relex_colon()
    ensures
        relexes(SpecToken::Colon),
{
    reveal_strlit(":");
    let b = seq![58u8];
    assert(is_ascii_chars(token_text(SpecToken::Colon)));
    assert(b.subrange(0, 1) =~= b);
    lemma_relex(SpecToken::Colon, b);
}

proof fn lemma_relex_dot()
    ensures
        relexes(SpecToken::Dot),
{
    reveal_strlit(".");
    let b = seq![46u8];
    assert(is_ascii_chars(token_text(SpecToken::Dot)));
    assert(b.subrange(0, 1) =~= b);
    lemma_relex(SpecToken::Dot, b);
}

proof fn lemma_relex_eq()
    ensures
        relexes(SpecToken::Eq),
{
    reveal_strlit("=");
    let b = seq![61u8];
    assert(is_ascii_chars(token_text(SpecToken::Eq)));
    assert(b.subrange(0, 1) =~= b);
    lemma_relex(SpecToken::Eq, b);
}

proof fn lemma_relex_plus()
    ensures
        relexes(SpecToken::Plus),
{
    reveal_strlit("+");
    let b = seq![43u8];
    assert(is_ascii_chars(token_text(SpecToken::Plus)));
    assert(b.subrange(0, 1) =~= b);
    lemma_relex(SpecToken::Plus, b);
}

proof fn lemma_relex_minus()
    ensures
        relexes(SpecToken::Minus),
{
    reveal_strlit("-");
    let b = seq![45u8];
    assert(is_ascii_chars(token_text(SpecToken::Minus)));
    assert(b.subrange(0, 1) =~= b);
    lemma_relex(SpecToken::Minus, b);
}

proof fn lemma_relex_star()
    ensures
        relexes(SpecToken::Star),
{
    reveal_strlit("*");
    let b = seq![42u8];
    assert(is_ascii_chars(token_text(SpecToken::Star)));
    assert(b.subrange(0, 1) =~= b);
    lemma_relex(SpecToken::Star, b);
}

proof fn lemma_relex_slash()
    ensures
        relexes(SpecToken::Slash),
{
    reveal_strlit("/");
    let b = seq![47u8];
    assert(is_ascii_chars(token_text(SpecToken::Slash)));
    assert(b.subrange(0, 1) =~= b);
    lemma_relex(SpecToken::Slash, b);
}

proof fn lemma_relex_percent()
    ensures
        relexes(SpecToken::Percent),
{
    reveal_strlit("%");
    let b = seq![37u8];
    assert(is_ascii_chars(token_text(SpecToken::Percent)));
    assert(b.subrange(0, 1) =~= b);
    lemma_relex(SpecToken::Percent, b);
}

proof fn lemma_relex_lt()
    ensures
        relexes(SpecToken::Lt),
{
    reveal_strlit("<");
    let b = seq![60u8];
    assert(is_ascii_chars(token_text(SpecToken::Lt)));
    assert(b.subrange(0, 1) =~= b);
    lemma_relex(SpecToken::Lt, b);
}

proof fn lemma_relex_gt()
    ensures
        relexes(SpecToken::Gt),
{
    reveal_strlit(">");
    let b = seq![62u8];
    assert(is_ascii_chars(token_text(SpecToken::Gt)));
    assert(b.subrange(0, 1) =~= b);
    lemma_relex(SpecToken::Gt, b);
}

proof fn lemma_relex_bang()
    ensures
        relexes(SpecToken::Bang),
{
    reveal_strlit("!");
    let b = seq![33u8];
    assert(is_ascii_chars(token_text(SpecToken::Bang)));
    assert(b.subrange(0, 1) =~= b);
    lemma_relex(SpecToken::Bang, b);
}

proof fn lemma_relex_amp()
    ensures
        relexes(SpecToken::Amp),
{
    reveal_strlit("&");
    let b = seq![38u8];
    assert(is_ascii_chars(token_text(SpecToken::Amp)));
    assert(b.subrange(0, 1) =~= b);
    lemma_relex(SpecToken::Amp, b);
}

proof fn lemma_relex_pipe()
    ensures
        relexes(SpecToken::Pipe),
{
    reveal_strlit("|");
    let b = seq![124u8];
    assert(is_ascii_chars(token_text(SpecToken::Pipe)));
    assert(b.subrange(0, 1) =~= b);
    lemma_relex(SpecToken::Pipe, b);
}

proof fn lemma_relex_caret()
    ensures
        relexes(SpecToken::Caret),
{
    reveal_strlit("^");
    let b = seq![94u8];
    assert(is_ascii_chars(token_text(SpecToken::Caret)));
    assert(b.subrange(0, 1) =~= b);
    lemma_relex(SpecToken::Caret, b);
}

proof fn lemma_relex_at()
    ensures
        relexes(SpecToken::At),
{
    reveal_strlit("@");
    let b = seq![64u8];
    assert(is_ascii_chars(token_text(SpecToken::At)));
    assert(b.subrange(0, 1) =~= b);
    lemma_relex(SpecToken::At, b);
}

proof fn lemma_relex_hash()
    ensures
        relexes(SpecToken::Hash),
{
    reveal_strlit("#");
    let b = seq![35u8];
    assert(is_ascii_chars(token_text(SpecToken::Hash)));
    assert(b.subrange(0, 1) =~= b);
    lemma_relex(SpecToken::Hash, b);
}

proof fn lemma_relex_question()
    ensures
        relexes(SpecToken::Question),
{
    reveal_strlit("?");
    let b = seq![63u8];
    assert(is_ascii_chars(token_text(SpecToken::Question)));
    assert(b.subrange(0, 1) =~= b);
    lemma_relex(SpecToken::Question, b);
}

/// Every keyword and punctuation token displays as its own spelling: lexing
/// the text of `t` gives back `t` alone, spanning the whole text.
pub proof fn law_token_text_relexes(t: SpecToken)
    requires
        !(t is Int),
        !(t is Ident),
    ensures
        relexes(t),
{
    match t {
        SpecToken::Fn => lemma_relex_fn(),
        SpecToken::Struct => lemma_relex_struct(),
        SpecToken::Enum => lemma_relex_enum(),
        SpecToken::Impl => lemma_relex_impl(),
        SpecToken::Let => lemma_relex_let(),
        SpecToken::Const => lemma_relex_const(),
        SpecToken::If => lemma_relex_if(),
        SpecToken::Else => lemma_relex_else(),
        SpecToken::Match => lemma_relex_match(),
        SpecToken::Loop => lemma_relex_loop(),
        SpecToken::While => lemma_relex_while(),
        SpecToken::For => lemma_relex_for(),
        SpecToken::In => lemma_relex_in(),
        SpecToken::Break => lemma_relex_break(),
        SpecToken::Continue => lemma_relex_continue(),
        SpecToken::Return => lemma_relex_return(),
        SpecToken::Print => lemma_relex_print(),
        SpecToken::Mod => lemma_relex_mod(),
        SpecToken::Use => lemma_relex_use(),
        SpecToken::Type => lemma_relex_type(),
        SpecToken::Pub => lemma_relex_pub(),
        SpecToken::Unsafe => lemma_relex_unsafe(),
        SpecToken::As => lemma_relex_as(),
        SpecToken::True => lemma_relex_true(),
        SpecToken::False => lemma_relex_false(),
        SpecToken::SelfValue => lemma_relex_self_value(),
        SpecToken::SelfType => lemma_relex_self_type(),
        SpecToken::Literal => lemma_relex_literal(),
        SpecToken::Variable => lemma_relex_variable(),
        SpecToken::Formula => lemma_relex_formula(),
        SpecToken::Search => lemma_relex_search(),
        SpecToken::Scratch => lemma_relex_scratch(),
        SpecToken::Bitstruct => lemma_relex_bitstruct(),
        SpecToken::ReprEnum => lemma_relex_repr_enum(),
        SpecToken::Savepoint => lemma_relex_savepoint(),
        SpecToken::Rollback => lemma_relex_rollback(),
        SpecToken::Arrow => lemma_relex_arrow(),
        SpecToken::FatArrow => lemma_relex_fat_arrow(),
        SpecToken::PathSep => lemma_relex_path_sep(),
        SpecToken::EqEq => lemma_relex_eq_eq(),
        SpecToken::NotEq => lemma_relex_not_eq(),
        SpecToken::Le => lemma_relex_le(),
        SpecToken::Ge => lemma_relex_ge(),
        SpecToken::AndAnd => lemma_relex_and_and(),
        SpecToken::OrOr => lemma_relex_or_or(),
        SpecToken::Shl => lemma_relex_shl(),
        SpecToken::Shr => lemma_relex_shr(),
        SpecToken::DotDotDot => lemma_relex_dot_dot_dot(),
        SpecToken::DotDot => lemma_relex_dot_dot(),
        SpecToken::LParen => lemma_relex_l_paren(),
        SpecToken::RParen => lemma_relex_r_paren(),
        SpecToken::LBrace => lemma_relex_l_brace(),
        SpecToken::RBrace => lemma_relex_r_brace(),
        SpecToken::LBracket => lemma_relex_l_bracket(),
        SpecToken::RBracket => lemma_relex_r_bracket(),
        SpecToken::Comma => lemma_relex_comma(),
        SpecToken::Semi => lemma_relex_semi(),
        SpecToken::Colon => lemma_relex_colon(),
        SpecToken::Dot => lemma_relex_dot(),
        SpecToken::Eq => lemma_relex_eq(),
        SpecToken::Plus => lemma_relex_plus(),
        SpecToken::Minus => lemma_relex_minus(),
        SpecToken::Star => lemma_relex_star(),
        SpecToken::Slash => lemma_relex_slash(),
        SpecToken::Percent => lemma_relex_percent(),
        SpecToken::Lt => lemma_relex_lt(),
        SpecToken::Gt => lemma_relex_gt(),
        SpecToken::Bang => lemma_relex_bang(),
        SpecToken::Amp => lemma_relex_amp(),
        SpecToken::Pipe => lemma_relex_pipe(),
        SpecToken::Caret => lemma_relex_caret(),
        SpecToken::At => lemma_relex_at(),
        SpecToken::Hash => lemma_relex_hash(),
        SpecToken::Question => lemma_relex_question(),
        _ => {},
    }
}


// ---------------------------------------------------------------------------
// No struct contains itself by value.
// ---------------------------------------------------------------------------
/// `b` is the struct type of a field of the struct `a`.
pub open spec fn holds_by_value(structs: StructTable, a: Seq<char>, b: Seq<char>) -> bool {
    match lookup(structs, a) {
        Some(fields) => exists|j: int| 0 <= j < fields.len() && fields[j].1 == SpecTy::Struct(b),
        None => false,
    }
}

/// A chain of structs, each holding the next by value.
pub open spec fn by_value_chain(structs: StructTable, p: Seq<Seq<char>>) -> bool {
    &&& p.len() >= 2
    &&& forall|i: int| 0 <= i < p.len() - 1 ==> #[trigger] holds_by_value(structs, p[i], p[i + 1])
}

/// Every declared struct that a name of `done` holds by value comes earlier in `done`.
spec fn ordered(structs: StructTable, done: Seq<Seq<char>>) -> bool {
    &&& done.no_duplicates()
    &&& forall|i: int, b: Seq<char>|
        0 <= i < done.len() && #[trigger] holds_by_value(structs, done[i], b) && has_key(structs, b) ==> exists|j: int|
            0 <= j < i && done[j] == b
}

spec fn keys_only<V>(tbl: Seq<(Seq<char>, V)>, stack: Seq<Seq<char>>) -> bool {
    forall|k: int| 0 <= k < stack.len() ==> has_key(tbl, #[trigger] stack[k])
}

proof fn lemma_lookup_index<V>(tbl: Seq<(Seq<char>, V)>, name: Seq<char>, i: int)
    requires
        lookup_from(tbl, name, i) is Some,
    ensures
        exists|k: int| 0 <= k < tbl.len() && #[trigger] tbl[k].0 == name,
    decreases tbl.len() - i,
{
    if i >= 0 && i < tbl.len() && tbl[i].0 != name {
        lemma_lookup_index(tbl, name, i + 1);
    }
}

/// A stack of distinct declared names that lacks the declared `name` is
/// shorter than the table.
proof fn lemma_stack_room<V>(tbl: Seq<(Seq<char>, V)>, stack: Seq<Seq<char>>, name: Seq<char>)
    requires
        stack.no_duplicates(),
        keys_only(tbl, stack),
        has_key(tbl, name),
        !stack.contains(name),
    ensures
        stack.len() < tbl.len(),
{
    let keys = tbl.map_values(|p: (Seq<char>, V)| p.0);
    keys.lemma_cardinality_of_set();
    stack.unique_seq_to_set();
    let s = stack.to_set().insert(name);
    assert forall|x: Seq<char>| s.contains(x) implies keys.to_set().contains(x) by {
        if x == name {
            lemma_lookup_index(tbl, x, 0);
        } else {
            let k = choose|k: int| 0 <= k < stack.len() && stack[k] == x;
            assert(has_key(tbl, stack[k]));
            lemma_lookup_index(tbl, x, 0);
        }
        let k = choose|k: int| 0 <= k < tbl.len() && #[trigger] tbl[k].0 == x;
        assert(keys[k] == x);
    }
    vstd::set_lib::lemma_len_subset(s, keys.to_set());
    assert(!stack.to_set().contains(name));
}

proof fn lemma_ordered_push(structs: StructTable, done: Seq<Seq<char>>, name: Seq<char>)
    requires
        ordered(structs, done),
        !done.contains(name),
        forall|b: Seq<char>| #[trigger] holds_by_value(structs, name, b) && has_key(structs, b) ==> done.contains(b),
    ensures
        ordered(structs, done.push(name)),
{
    let d = done.push(name);
    assert forall|i: int, b: Seq<char>|
        0 <= i < d.len() && #[trigger] holds_by_value(structs, d[i], b) && has_key(structs, b) implies exists|j: int|
            0 <= j < i && d[j] == b by {
        if i < done.len() {
            assert(d[i] == done[i]);
            let j = choose|j: int| 0 <= j < i && done[j] == b;
            assert(d[j] == b);
        } else {
            assert(done.contains(b));
            let j = choose|j: int| 0 <= j < done.len() && done[j] == b;
            assert(d[j] == b);
        }
    }
    assert forall|a: int, c: int| 0 <= a < d.len() && 0 <= c < d.len() && a != c implies d[a] != d[c] by {
        if a < done.len() && c < done.len() {
            assert(d[a] == done[a] && d[c] == done[c]);
        } else if a < done.len() {
            assert(d[a] == done[a]);
            assert(done.contains(d[a]) );
        } else {
            assert(d[c] == done[c]);
            assert(done.contains(d[c]));
        }
    }
}

proof fn lemma_finite_dfs(structs: StructTable, name: Seq<char>, stack: Seq<Seq<char>>, done: Seq<Seq<char>>)
    requires
        ordered(structs, done),
        stack.no_duplicates(),
        keys_only(structs, stack),
    ensures
        finite_dfs(structs, name, stack, done) matches Ok(d) ==> {
            &&& ordered(structs, d)
            &&& forall|x: Seq<char>| done.contains(x) ==> #[trigger] d.contains(x)
            &&& has_key(structs, name) ==> d.contains(name)
        },
    decreases room(structs.len() as int, stack), 0int,
{
    if done.contains(name) {
    } else if stack.contains(name) {
    } else if stack.len() >= structs.len() {
        if has_key(structs, name) {
            lemma_stack_room(structs, stack, name);
        }
    } else {
        match lookup(structs, name) {
            Some(fields) => {
                let st = stack.push(name);
                assert forall|k: int| 0 <= k < st.len() implies has_key(structs, #[trigger] st[k]) by {
                    if k < stack.len() {
                        assert(st[k] == stack[k]);
                    }
                }
                assert forall|a: int, c: int| 0 <= a < st.len() && 0 <= c < st.len() && a != c implies st[a] != st[c] by {
                    if a < stack.len() && c < stack.len() {
                        assert(st[a] == stack[a] && st[c] == stack[c]);
                    } else if a < stack.len() {
                        assert(st[a] == stack[a]);
                        assert(stack.contains(st[a]));
                    } else {
                        assert(st[c] == stack[c]);
                        assert(stack.contains(st[c]));
                    }
                }
                lemma_finite_fields(structs, fields, 0, st, done);
                match finite_fields(structs, fields, 0, st, done) {
                    Ok(d1) => {
                        assert forall|b: Seq<char>| #[trigger] holds_by_value(structs, name, b) && has_key(structs, b) implies d1.contains(b) by {
                            let j = choose|j: int| 0 <= j < fields.len() && fields[j].1 == SpecTy::Struct(b);
                        }
                        assert(st[stack.len() as int] == name);
                        lemma_finite_dfs_not_done(structs, name, fields, st, done, d1);
                        lemma_ordered_push(structs, d1, name);
                        let d = d1.push(name);
                        assert(d[d1.len() as int] == name);
                        assert forall|x: Seq<char>| done.contains(x) implies #[trigger] d.contains(x) by {
                            assert(d1.contains(x));
                            let k = choose|k: int| 0 <= k < d1.len() && d1[k] == x;
                            assert(d[k] == x);
                        }
                    },
                    Err(_) => {},
                }
            },
            None => {
                assert(finite_fields(structs, Seq::empty(), 0, stack.push(name), done) == Ok::<Seq<Seq<char>>, Seq<char>>(done));
                assert forall|b: Seq<char>| #[trigger] holds_by_value(structs, name, b) && has_key(structs, b) implies done.contains(b) by {
                }
                lemma_ordered_push(structs, done, name);
                let d = done.push(name);
                assert(d[done.len() as int] == name);
                assert forall|x: Seq<char>| done.contains(x) implies #[trigger] d.contains(x) by {
                    let k = choose|k: int| 0 <= k < done.len() && done[k] == x;
                    assert(d[k] == x);
                }
            },
        }
    }
}

/// `name`, on the stack, is not added to `done` while its fields are checked.
proof fn lemma_finite_dfs_not_done(
    structs: StructTable,
    name: Seq<char>,
    fields: Seq<(Seq<char>, SpecTy)>,
    st: Seq<Seq<char>>,
    done: Seq<Seq<char>>,
    d1: Seq<Seq<char>>,
)
    requires
        st.contains(name),
        !done.contains(name),
        finite_fields(structs, fields, 0, st, done) == Ok::<Seq<Seq<char>>, Seq<char>>(d1),
    ensures
        !d1.contains(name),
{
    lemma_fields_keep_out(structs, fields, 0, st, done, name);
}

proof fn lemma_fields_keep_out(
    structs: StructTable,
    fields: Seq<(Seq<char>, SpecTy)>,
    j: int,
    stack: Seq<Seq<char>>,
    done: Seq<Seq<char>>,
    x: Seq<char>,
)
    requires
        stack.contains(x),
        !done.contains(x),
    ensures
        finite_fields(structs, fields, j, stack, done) matches Ok(d) ==> !d.contains(x),
    decreases room(structs.len() as int, stack), fields.len() - j + 1,
{
    if 0 <= j < fields.len() {
        match fields[j].1 {
            SpecTy::Struct(inner) => {
                lemma_dfs_keep_out(structs, inner, stack, done, x);
                match finite_dfs(structs, inner, stack, done) {
                    Ok(d) => lemma_fields_keep_out(structs, fields, j + 1, stack, d, x),
                    Err(_) => {},
                }
            },
            _ => lemma_fields_keep_out(structs, fields, j + 1, stack, done, x),
        }
    }
}

proof fn lemma_dfs_keep_out(structs: StructTable, name: Seq<char>, stack: Seq<Seq<char>>, done: Seq<Seq<char>>, x: Seq<char>)
    requires
        stack.contains(x),
        !done.contains(x),
    ensures
        finite_dfs(structs, name, stack, done) matches Ok(d) ==> !d.contains(x),
    decreases room(structs.len() as int, stack), 0int,
{
    if done.contains(name) {
    } else if stack.contains(name) {
    } else if stack.len() >= structs.len() {
    } else {
        let fields = match lookup(structs, name) {
            Some(f) => f,
            None => Seq::empty(),
        };
        let st = stack.push(name);
        assert(st.contains(x)) by {
            let k = choose|k: int| 0 <= k < stack.len() && stack[k] == x;
            assert(st[k] == x);
        }
        lemma_fields_keep_out(structs, fields, 0, st, done, x);
        assert(name != x);
    }
}

proof fn lemma_finite_fields(
    structs: StructTable,
    fields: Seq<(Seq<char>, SpecTy)>,
    j: int,
    stack: Seq<Seq<char>>,
    done: Seq<Seq<char>>,
)
    requires
        ordered(structs, done),
        stack.no_duplicates(),
        keys_only(structs, stack),
        j >= 0,
    ensures
        finite_fields(structs, fields, j, stack, done) matches Ok(d) ==> {
            &&& ordered(structs, d)
            &&& forall|x: Seq<char>| done.contains(x) ==> #[trigger] d.contains(x)
            &&& forall|k: int, b: Seq<char>|
                #![trigger fields[k], d.contains(b)]
                j <= k < fields.len() && fields[k].1 == SpecTy::Struct(b) && has_key(structs, b) ==> d.contains(b)
        },
    decreases room(structs.len() as int, stack), fields.len() - j + 1,
{
    if j < fields.len() {
        match fields[j].1 {
            SpecTy::Struct(inner) => {
                lemma_finite_dfs(structs, inner, stack, done);
                match finite_dfs(structs, inner, stack, done) {
                    Ok(d) => lemma_finite_fields(structs, fields, j + 1, stack, d),
                    Err(_) => {},
                }
            },
            _ => lemma_finite_fields(structs, fields, j + 1, stack, done),
        }
    }
}

proof fn lemma_check_all_finite(structs: StructTable, i: int, done: Seq<Seq<char>>)
    requires
        ordered(structs, done),
        0 <= i,
        forall|k: int| 0 <= k < i && k < structs.len() ==> done.contains(#[trigger] structs[k].0),
        check_all_finite(structs, i, done) is Ok,
    ensures
        exists|d: Seq<Seq<char>>| ordered(structs, d) && forall|x: Seq<char>| has_key(structs, x) ==> #[trigger] d.contains(x),
    decreases structs.len() - i,
{
    if i >= structs.len() {
        assert forall|x: Seq<char>| has_key(structs, x) implies #[trigger] done.contains(x) by {
            lemma_lookup_index(structs, x, 0);
            let k = choose|k: int| 0 <= k < structs.len() && #[trigger] structs[k].0 == x;
        }
    } else {
        let name = structs[i].0;
        lemma_finite_dfs(structs, name, Seq::empty(), done);
        let d = finite_dfs(structs, name, Seq::empty(), done)->Ok_0;
        assert(has_key(structs, name)) by {
            lemma_lookup_in(structs, name, 0, i);
        }
        lemma_check_all_finite(structs, i + 1, d);
    }
}

proof fn lemma_lookup_in<V>(tbl: Seq<(Seq<char>, V)>, name: Seq<char>, i: int, k: int)
    requires
        0 <= i <= k < tbl.len(),
        tbl[k].0 == name,
    ensures
        lookup_from(tbl, name, i) is Some,
    decreases k - i,
{
    if tbl[i].0 != name {
        lemma_lookup_in(tbl, name, i + 1, k);
    }
}

/// No struct contains itself by value: once the struct declarations pass,
/// no chain of structs, each holding the next as a field, comes back to where
/// it started.
pub proof fn law_no_struct_contains_itself(m: SpecModule, structs: StructTable, enums: EnumTable, p: Seq<Seq<char>>)
    requires
        collect_types(m) == Ok::<(StructTable, EnumTable), Seq<char>>((structs, enums)),
        by_value_chain(structs, p),
    ensures
        p[0] != p.last(),
{
    assert(check_all_finite(structs, 0, Seq::empty()) is Ok);
    lemma_check_all_finite(structs, 0, Seq::empty());
    let d = choose|d: Seq<Seq<char>>| ordered(structs, d) && forall|x: Seq<char>| has_key(structs, x) ==> #[trigger] d.contains(x);
    if p[0] == p.last() {
        lemma_chain_descends(structs, d, p, p.len() - 1);
        assert(false);
    }
}

/// Along a chain, the positions in `d` strictly decrease.
proof fn lemma_chain_descends(structs: StructTable, d: Seq<Seq<char>>, p: Seq<Seq<char>>, n: int)
    requires
        ordered(structs, d),
        forall|x: Seq<char>| has_key(structs, x) ==> #[trigger] d.contains(x),
        by_value_chain(structs, p),
        1 <= n < p.len(),
        p[0] == p.last() || n < p.len() - 1,
    ensures
        exists|a: int, c: int| 0 <= c < a < d.len() && d[a] == p[0] && d[c] == p[n],
    decreases n,
{
    let hv0 = holds_by_value(structs, p[0], p[1]);
    assert(hv0);
    assert(has_key(structs, p[0]));
    if n == 1 {
        assert(has_key(structs, p[1])) by {
            if p.len() > 2 {
                let i = 1int;
                assert(holds_by_value(structs, p[i], p[i + 1]));
            } else {
                assert(p[1] == p.last());
            }
        }
        assert(d.contains(p[0]));
        let a = choose|a: int| 0 <= a < d.len() && d[a] == p[0];
        assert(holds_by_value(structs, d[a], p[1]));
        let c = choose|c: int| 0 <= c < a && d[c] == p[1];
    } else {
        lemma_chain_descends(structs, d, p, n - 1);
        let (a, c) = choose|a: int, c: int| 0 <= c < a < d.len() && d[a] == p[0] && d[c] == p[n - 1];
        let i = n - 1;
        assert(holds_by_value(structs, p[i], p[i + 1]));
        assert(p[i + 1] == p[n]);
        assert(has_key(structs, p[n])) by {
            if n < p.len() - 1 {
                assert(holds_by_value(structs, p[n], p[n + 1]));
            } else {
                assert(p[n] == p[0]);
            }
        }
        assert(holds_by_value(structs, d[c], p[n]));
        let e = choose|e: int| 0 <= e < c && d[e] == p[n];
        assert(0 <= e < a < d.len() && d[a] == p[0] && d[e] == p[n]);
    }
}


// ---------------------------------------------------------------------------
// No const depends on itself.
// ---------------------------------------------------------------------------
/// The initializer of the const `a` reads the const `b`.
pub open spec fn reads_const(inits: Seq<(Seq<char>, SpecExpr)>, consts: ConstTable, a: Seq<char>, b: Seq<char>) -> bool {
    match lookup(inits, a) {
        Some(e) => const_refs(e, consts).contains(b),
        None => false,
    }
}

/// A chain of consts, each reading the next.
pub open spec fn const_chain(inits: Seq<(Seq<char>, SpecExpr)>, consts: ConstTable, p: Seq<Seq<char>>) -> bool {
    &&& p.len() >= 2
    &&& forall|i: int| 0 <= i < p.len() - 1 ==> #[trigger] reads_const(inits, consts, p[i], p[i + 1])
}

/// Every declared const that a name of `done` reads comes earlier in `done`.
spec fn c_ordered(inits: Seq<(Seq<char>, SpecExpr)>, consts: ConstTable, done: Seq<Seq<char>>) -> bool {
    &&& done.no_duplicates()
    &&& forall|i: int, b: Seq<char>|
        0 <= i < done.len() && #[trigger] reads_const(inits, consts, done[i], b) && has_key(inits, b) ==> exists|j: int|
            0 <= j < i && done[j] == b
}

proof fn lemma_c_ordered_push(inits: Seq<(Seq<char>, SpecExpr)>, consts: ConstTable, done: Seq<Seq<char>>, name: Seq<char>)
    requires
        c_ordered(inits, consts, done),
        !done.contains(name),
        forall|b: Seq<char>| #[trigger] reads_const(inits, consts, name, b) && has_key(inits, b) ==> done.contains(b),
    ensures
        c_ordered(inits, consts, done.push(name)),
        forall|x: Seq<char>| done.contains(x) ==> #[trigger] done.push(name).contains(x),
        done.push(name).contains(name),
{
    let d = done.push(name);
    assert forall|i: int, b: Seq<char>|
        0 <= i < d.len() && #[trigger] reads_const(inits, consts, d[i], b) && has_key(inits, b) implies exists|j: int|
            0 <= j < i && d[j] == b by {
        if i < done.len() {
            assert(d[i] == done[i]);
            let j = choose|j: int| 0 <= j < i && done[j] == b;
            assert(d[j] == b);
        } else {
            assert(done.contains(b));
            let j = choose|j: int| 0 <= j < done.len() && done[j] == b;
            assert(d[j] == b);
        }
    }
    assert forall|a: int, c: int| 0 <= a < d.len() && 0 <= c < d.len() && a != c implies d[a] != d[c] by {
        if a < done.len() && c < done.len() {
            assert(d[a] == done[a] && d[c] == done[c]);
        } else if a < done.len() {
            assert(d[a] == done[a]);
            assert(done.contains(d[a]));
        } else {
            assert(d[c] == done[c]);
            assert(done.contains(d[c]));
        }
    }
    assert(d[done.len() as int] == name);
    assert forall|x: Seq<char>| done.contains(x) implies #[trigger] d.contains(x) by {
        let k = choose|k: int| 0 <= k < done.len() && done[k] == x;
        assert(d[k] == x);
    }
}

proof fn lemma_push_distinct(stack: Seq<Seq<char>>, name: Seq<char>)
    requires
        stack.no_duplicates(),
        !stack.contains(name),
    ensures
        stack.push(name).no_duplicates(),
        stack.push(name).contains(name),
        forall|x: Seq<char>| stack.contains(x) ==> #[trigger] stack.push(name).contains(x),
{
    let st = stack.push(name);
    assert forall|a: int, c: int| 0 <= a < st.len() && 0 <= c < st.len() && a != c implies st[a] != st[c] by {
        if a < stack.len() && c < stack.len() {
            assert(st[a] == stack[a] && st[c] == stack[c]);
        } else if a < stack.len() {
            assert(st[a] == stack[a]);
            assert(stack.contains(st[a]));
        } else {
            assert(st[c] == stack[c]);
            assert(stack.contains(st[c]));
        }
    }
    assert(st[stack.len() as int] == name);
    assert forall|x: Seq<char>| stack.contains(x) implies #[trigger] st.contains(x) by {
        let k = choose|k: int| 0 <= k < stack.len() && stack[k] == x;
        assert(st[k] == x);
    }
}

proof fn lemma_const_dfs(
    inits: Seq<(Seq<char>, SpecExpr)>,
    consts: ConstTable,
    name: Seq<char>,
    stack: Seq<Seq<char>>,
    done: Seq<Seq<char>>,
)
    requires
        c_ordered(inits, consts, done),
        stack.no_duplicates(),
        keys_only(inits, stack),
    ensures
        const_dfs(inits, consts, name, stack, done) matches Ok(d) ==> {
            &&& c_ordered(inits, consts, d)
            &&& forall|x: Seq<char>| done.contains(x) ==> #[trigger] d.contains(x)
            &&& has_key(inits, name) ==> d.contains(name)
        },
    decreases room(inits.len() as int, stack), 0int,
{
    if done.contains(name) {
    } else if stack.contains(name) {
    } else if stack.len() >= inits.len() {
        if has_key(inits, name) {
            lemma_stack_room(inits, stack, name);
        }
    } else {
        let deps = match lookup(inits, name) {
            Some(e) => const_refs(e, consts),
            None => Seq::empty(),
        };
        let st = stack.push(name);
        lemma_push_distinct(stack, name);
        if has_key(inits, name) {
            assert forall|k: int| 0 <= k < st.len() implies has_key(inits, #[trigger] st[k]) by {
                if k < stack.len() {
                    assert(st[k] == stack[k]);
                }
            }
            lemma_const_deps(inits, consts, deps, 0, st, done);
            lemma_deps_keep_out(inits, consts, deps, 0, st, done, name);
            match const_deps(inits, consts, deps, 0, st, done) {
                Ok(d1) => {
                    assert forall|b: Seq<char>| #[trigger] reads_const(inits, consts, name, b) && has_key(inits, b) implies d1.contains(
                        b,
                    ) by {
                        let j = choose|j: int| 0 <= j < deps.len() && deps[j] == b;
                    }
                    lemma_c_ordered_push(inits, consts, d1, name);
                },
                Err(_) => {},
            }
        } else {
            assert(const_deps(inits, consts, Seq::empty(), 0, st, done) == Ok::<Seq<Seq<char>>, Seq<char>>(done));
            lemma_c_ordered_push(inits, consts, done, name);
        }
    }
}

proof fn lemma_deps_keep_out(
    inits: Seq<(Seq<char>, SpecExpr)>,
    consts: ConstTable,
    deps: Seq<Seq<char>>,
    j: int,
    stack: Seq<Seq<char>>,
    done: Seq<Seq<char>>,
    x: Seq<char>,
)
    requires
        stack.contains(x),
        !done.contains(x),
    ensures
        const_deps(inits, consts, deps, j, stack, done) matches Ok(d) ==> !d.contains(x),
    decreases room(inits.len() as int, stack), deps.len() - j + 1,
{
    if 0 <= j < deps.len() {
        lemma_c_dfs_keep_out(inits, consts, deps[j], stack, done, x);
        match const_dfs(inits, consts, deps[j], stack, done) {
            Ok(d) => lemma_deps_keep_out(inits, consts, deps, j + 1, stack, d, x),
            Err(_) => {},
        }
    }
}

proof fn lemma_c_dfs_keep_out(
    inits: Seq<(Seq<char>, SpecExpr)>,
    consts: ConstTable,
    name: Seq<char>,
    stack: Seq<Seq<char>>,
    done: Seq<Seq<char>>,
    x: Seq<char>,
)
    requires
        stack.contains(x),
        !done.contains(x),
    ensures
        const_dfs(inits, consts, name, stack, done) matches Ok(d) ==> !d.contains(x),
    decreases room(inits.len() as int, stack), 0int,
{
    if done.contains(name) {
    } else if stack.contains(name) {
    } else if stack.len() >= inits.len() {
    } else {
        let deps = match lookup(inits, name) {
            Some(e) => const_refs(e, consts),
            None => Seq::empty(),
        };
        let st = stack.push(name);
        assert(st.contains(x)) by {
            let k = choose|k: int| 0 <= k < stack.len() && stack[k] == x;
            assert(st[k] == x);
        }
        lemma_deps_keep_out(inits, consts, deps, 0, st, done, x);
        assert(name != x);
    }
}

proof fn lemma_const_deps(
    inits: Seq<(Seq<char>, SpecExpr)>,
    consts: ConstTable,
    deps: Seq<Seq<char>>,
    j: int,
    stack: Seq<Seq<char>>,
    done: Seq<Seq<char>>,
)
    requires
        c_ordered(inits, consts, done),
        stack.no_duplicates(),
        keys_only(inits, stack),
        j >= 0,
    ensures
        const_deps(inits, consts, deps, j, stack, done) matches Ok(d) ==> {
            &&& c_ordered(inits, consts, d)
            &&& forall|x: Seq<char>| done.contains(x) ==> #[trigger] d.contains(x)
            &&& forall|k: int| j <= k < deps.len() && has_key(inits, deps[k]) ==> #[trigger] d.contains(deps[k])
        },
    decreases room(inits.len() as int, stack), deps.len() - j + 1,
{
    if j < deps.len() {
        lemma_const_dfs(inits, consts, deps[j], stack, done);
        match const_dfs(inits, consts, deps[j], stack, done) {
            Ok(d) => lemma_const_deps(inits, consts, deps, j + 1, stack, d),
            Err(_) => {},
        }
    }
}

proof fn lemma_check_all_consts(inits: Seq<(Seq<char>, SpecExpr)>, consts: ConstTable, i: int, done: Seq<Seq<char>>)
    requires
        c_ordered(inits, consts, done),
        0 <= i,
        forall|k: int| 0 <= k < i && k < inits.len() ==> done.contains(#[trigger] inits[k].0),
        check_all_consts_finite(inits, consts, i, done) is Ok,
    ensures
        exists|d: Seq<Seq<char>>| c_ordered(inits, consts, d) && forall|x: Seq<char>| has_key(inits, x) ==> #[trigger] d.contains(x),
    decreases inits.len() - i,
{
    if i >= inits.len() {
        assert forall|x: Seq<char>| has_key(inits, x) implies #[trigger] done.contains(x) by {
            lemma_lookup_index(inits, x, 0);
            let k = choose|k: int| 0 <= k < inits.len() && #[trigger] inits[k].0 == x;
        }
    } else {
        let name = inits[i].0;
        lemma_const_dfs(inits, consts, name, Seq::empty(), done);
        let d = const_dfs(inits, consts, name, Seq::empty(), done)->Ok_0;
        assert(has_key(inits, name)) by {
            lemma_lookup_in(inits, name, 0, i);
        }
        lemma_check_all_consts(inits, consts, i + 1, d);
    }
}

/// No const depends on itself: once the const initializers pass, no chain of
/// consts, each read by the initializer of the one before, comes back to
/// where it started.
pub proof fn law_no_const_depends_on_itself(inits: Seq<(Seq<char>, SpecExpr)>, consts: ConstTable, p: Seq<Seq<char>>)
    requires
        check_all_consts_finite(inits, consts, 0, Seq::empty()) is Ok,
        const_chain(inits, consts, p),
    ensures
        p[0] != p.last(),
{
    lemma_check_all_consts(inits, consts, 0, Seq::empty());
    let d = choose|d: Seq<Seq<char>>| c_ordered(inits, consts, d) && forall|x: Seq<char>| has_key(inits, x) ==> #[trigger] d.contains(x);
    if p[0] == p.last() {
        lemma_const_chain_descends(inits, consts, d, p, p.len() - 1);
        assert(false);
    }
}

proof fn lemma_const_chain_descends(
    inits: Seq<(Seq<char>, SpecExpr)>,
    consts: ConstTable,
    d: Seq<Seq<char>>,
    p: Seq<Seq<char>>,
    n: int,
)
    requires
        c_ordered(inits, consts, d),
        forall|x: Seq<char>| has_key(inits, x) ==> #[trigger] d.contains(x),
        const_chain(inits, consts, p),
        1 <= n < p.len(),
        p[0] == p.last() || n < p.len() - 1,
    ensures
        exists|a: int, c: int| 0 <= c < a < d.len() && d[a] == p[0] && d[c] == p[n],
    decreases n,
{
    let i0 = 0int;
    assert(reads_const(inits, consts, p[i0], p[i0 + 1]));
    assert(has_key(inits, p[0]));
    if n == 1 {
        assert(has_key(inits, p[1])) by {
            if p.len() > 2 {
                let i = 1int;
                assert(reads_const(inits, consts, p[i], p[i + 1]));
            } else {
                assert(p[1] == p.last());
            }
        }
        assert(d.contains(p[0]));
        let a = choose|a: int| 0 <= a < d.len() && d[a] == p[0];
        assert(reads_const(inits, consts, d[a], p[1]));
        let c = choose|c: int| 0 <= c < a && d[c] == p[1];
    } else {
        lemma_const_chain_descends(inits, consts, d, p, n - 1);
        let (a, c) = choose|a: int, c: int| 0 <= c < a < d.len() && d[a] == p[0] && d[c] == p[n - 1];
        let i = n - 1;
        assert(reads_const(inits, consts, p[i], p[i + 1]));
        assert(p[i + 1] == p[n]);
        assert(has_key(inits, p[n])) by {
            if n < p.len() - 1 {
                assert(reads_const(inits, consts, p[n], p[n + 1]));
            } else {
                assert(p[n] == p[0]);
            }
        }
        assert(reads_const(inits, consts, d[c], p[n]));
        let e = choose|e: int| 0 <= e < c && d[e] == p[n];
        assert(0 <= e < a < d.len() && d[a] == p[0] && d[e] == p[n]);
    }
}


// ---------------------------------------------------------------------------
// How control leaves statements.
// ---------------------------------------------------------------------------
/// `if` without `else` falls through; with both branches it returns only when
/// both return, falls through when either falls through, and does not depend
/// on the order of its branches.
pub proof fn law_join_if(a: Flow, b: Flow)
    ensures
        join_if(a, None) == Flow::Next,
        (join_if(a, Some(b)) == Flow::Return) == (a == Flow::Return && b == Flow::Return),
        (join_if(a, Some(b)) == Flow::Next) == (a == Flow::Next || b == Flow::Next),
        join_if(a, Some(b)) == join_if(b, Some(a)),
{
}

/// A `match` returns when every arm returns (so also with no arms), falls
/// through when some arm falls through, and two arms join as an `if` with
/// `else` does.
pub proof fn law_join_match(fs: Seq<Flow>, a: Flow, b: Flow)
    ensures
        join_match(seq![a, b]) == join_if(a, Some(b)),
        (join_match(fs) == Flow::Return) == (forall|i: int| 0 <= i < fs.len() ==> fs[i] == Flow::Return),
        (join_match(fs) == Flow::Next) == (exists|i: int| 0 <= i < fs.len() && fs[i] == Flow::Next),
        join_match(Seq::empty()) == Flow::Return,
{
    let two = seq![a, b];
    assert(two[0] == a && two[1] == b);
    if a == Flow::Next {
        assert(two[0] == Flow::Next);
    }
    if b == Flow::Next {
        assert(two[1] == Flow::Next);
    }
    if exists|i: int| 0 <= i < fs.len() && fs[i] == Flow::Next {
        let i = choose|i: int| 0 <= i < fs.len() && fs[i] == Flow::Next;
        assert(fs[i] != Flow::Return);
    }
}

/// A statement that checks keeps the number of scopes; a loop falls through
/// even when its body returns; `break` and `continue` jump and are accepted
/// only inside a loop; `return` returns.
pub proof fn law_check_stmt_flow(c: Ctx, env: Env, in_loop: bool, ret: Option<SpecTy>, s: SpecStmt)
    requires
        env.len() > 0,
    ensures
        check_stmt(c, env, in_loop, ret, s) matches Ok((env2, f)) ==> {
            &&& env2.len() == env.len()
            &&& (s is While || s is For) ==> f == Flow::Next
            &&& (s is Break || s is Continue) ==> in_loop && f == Flow::Jump
            &&& s is Return ==> f == Flow::Return
        },
{
    match s {
        SpecStmt::Let { name, ty, value, mutable } => {
            if let Ok((env2, _)) = check_stmt(c, env, in_loop, ret, s) {
                let vt = crate::typeck_spec::check_expr(c, env, value)->Ok_0;
                let t: SpecTy = match ty {
                    Some(ann) => crate::typeck_spec::resolve_type(ann, c.structs, c.enums)->Ok_0,
                    None => vt,
                };
                assert(declare(env, name, t, mutable) == Ok::<Env, Seq<char>>(env2));
            }
        },
        _ => {},
    }
}


// ---------------------------------------------------------------------------
// What statements demand of the types of their parts.
// ---------------------------------------------------------------------------
/// A statement checks only when its parts have the types it needs: `return`
/// gives the declared return type (and needs one), `print` an `i32`, the
/// conditions of `if` and `while` a `bool`, the bounds of `for` an `i32`, and a
/// `let` with a type annotation an initializer of that type.
pub proof fn law_statement_types(c: Ctx, env: Env, in_loop: bool, ret: Option<SpecTy>, s: SpecStmt)
    ensures
        check_stmt(c, env, in_loop, ret, s) is Ok ==> match s {
            SpecStmt::Return(e) => ret matches Some(rt) && check_expr(c, env, e) == Ok::<SpecTy, Seq<char>>(rt),
            SpecStmt::Print(e) => check_expr(c, env, e) == Ok::<SpecTy, Seq<char>>(SpecTy::I32),
            SpecStmt::If { cond, .. } => check_expr(c, env, cond) == Ok::<SpecTy, Seq<char>>(SpecTy::Bool),
            SpecStmt::While { cond, .. } => check_expr(c, env, cond) == Ok::<SpecTy, Seq<char>>(SpecTy::Bool),
            SpecStmt::For { start, end, .. } => check_expr(c, env, start) == Ok::<SpecTy, Seq<char>>(SpecTy::I32)
                && check_expr(c, env, end) == Ok::<SpecTy, Seq<char>>(SpecTy::I32),
            SpecStmt::Let { ty, value, .. } => ty matches Some(ann) ==> check_expr(c, env, value) == resolve_type(
                ann,
                c.structs,
                c.enums,
            ),
            _ => true,
        },
{
}

// ---------------------------------------------------------------------------
// Operators are the ones their tokens spell.
// ---------------------------------------------------------------------------
/// Every operator token parses to the operator that it spells: the text of
/// the operator is the text of the token, for comparisons, sums, products and
/// prefix operators; and each of those tokens is an operator of its level.
pub proof fn law_operator_tokens(k: SpecToken)
    ensures
        compare_op(Some(k)) matches Some(op) ==> binop_text(op) == token_text(k),
        add_op(Some(k)) matches Some(op) ==> binop_text(op) == token_text(k),
        mul_op(Some(k)) matches Some(op) ==> binop_text(op) == token_text(k),
        un_op(Some(k)) matches Some(op) ==> unop_text(op) == token_text(k),
        (k is EqEq || k is NotEq || k is Lt || k is Le || k is Gt || k is Ge) ==> compare_op(Some(k)) is Some,
        (k is Plus || k is Minus) ==> add_op(Some(k)) is Some,
        (k is Star || k is Slash || k is Percent) ==> mul_op(Some(k)) is Some,
        (k is Minus || k is Bang || k is Star || k is Amp) ==> un_op(Some(k)) is Some,
{
}

// ---------------------------------------------------------------------------
// Comparisons compute what they say.
// ---------------------------------------------------------------------------
/// What LLVM's integer compare with predicate `p` yields on two `i32` values.
pub open spec fn predicate_holds(p: IntPred, a: i32, b: i32) -> bool {
    match p {
        IntPred::Eq => a == b,
        IntPred::Ne => a != b,
        IntPred::Slt => a < b,
        IntPred::Sle => a <= b,
        IntPred::Sgt => a > b,
        IntPred::Sge => a >= b,
    }
}

/// What a comparison operator of the language means on two integers.
pub open spec fn compare_holds(op: BinOp, a: int, b: int) -> bool {
    match op {
        BinOp::Eq => a == b,
        BinOp::Ne => a != b,
        BinOp::Lt => a < b,
        BinOp::Le => a <= b,
        BinOp::Gt => a > b,
        BinOp::Ge => a >= b,
        _ => false,
    }
}

/// The predicate generated for each comparison operator computes that
/// operator on `i32` values.
pub proof fn law_comparison_predicates(op: BinOp, a: i32, b: i32)
    requires
        is_compare(op),
    ensures
        predicate_holds(comparison_for(op), a, b) == compare_holds(op, a as int, b as int),
{
}

// ---------------------------------------------------------------------------
// Whitespace separates tokens and is nothing else.
// ---------------------------------------------------------------------------
/// A space, tab, carriage return or line feed makes no token: it is skipped,
/// and lexing from it gives what lexing from the next byte gives.
pub proof fn law_whitespace_makes_no_token(b: Seq<u8>, i: int)
    requires
        0 <= i < b.len(),
        b[i] == 32u8 || b[i] == 9u8 || b[i] == 13u8 || b[i] == 10u8,
    ensures
        scan(b, i) is Skip,
        lex_from(b, i) == lex_from(b, i + 1),
{
    let j = run_end(b, i + 1, space_class());
    lemma_run_end(b, i + 1, space_class());
    assert(scan(b, i) == Scan::Skip(j));
    assert(lex_from(b, i) == lex_from(b, j));
    if j > i + 1 {
        assert(crate::lexer::is_space(b[i + 1]));
        assert(run_end(b, i + 1, space_class()) == run_end(b, i + 2, space_class()));
        assert(scan(b, i + 1) == Scan::Skip(j));
    }
}


// ---------------------------------------------------------------------------
// The dump only ever appends.
// ---------------------------------------------------------------------------
/// `b` is `a` followed by more text.
pub open spec fn extends(a: Seq<char>, b: Seq<char>) -> bool {
    a.len() <= b.len() && b.subrange(0, a.len() as int) == a
}

proof fn lemma_extends_append(a: Seq<char>, x: Seq<char>)
    ensures
        extends(a, a + x),
{
    assert((a + x).subrange(0, a.len() as int) =~= a);
}

proof fn lemma_extends_trans(a: Seq<char>, b: Seq<char>, c: Seq<char>)
    requires
        extends(a, b),
        extends(b, c),
    ensures
        extends(a, c),
{
    assert(c.subrange(0, a.len() as int) =~= b.subrange(0, a.len() as int));
}

proof fn lemma_type_extends(out: Seq<char>, t: SpecType, ind: Seq<char>)
    ensures
        extends(out, emit_type(out, t, ind)),
    decreases t,
{
    match t {
        SpecType::Name(n) => {
            let x = ind + "Name("@ + n + ")\n"@;
            assert(emit_type(out, t, ind) =~= out + x);
            lemma_extends_append(out, x);
        },
        SpecType::Ptr(inner) => {
            let o = out + ind + "Ptr\n"@;
            lemma_extends_append(out, ind + "Ptr\n"@);
            assert(o == out + (ind + "Ptr\n"@));
            lemma_type_extends(o, *inner, step(ind));
            lemma_extends_trans(out, o, emit_type(o, *inner, step(ind)));
        },
    }
}

/// Appending `x` then emitting from there extends `out`.
proof fn lemma_head(out: Seq<char>, x: Seq<char>, r: Seq<char>)
    requires
        extends(out + x, r),
    ensures
        extends(out, r),
{
    lemma_extends_append(out, x);
    lemma_extends_trans(out, out + x, r);
}

proof fn lemma_expr_extends(out: Seq<char>, e: SpecExpr, ind: Seq<char>)
    ensures
        extends(out, emit_expr(out, e, ind)),
    decreases e,
{
    match e {
        SpecExpr::Int(n) => {
            let x = ind + "Int("@ + int_text(n) + ")\n"@;
            assert(emit_expr(out, e, ind) =~= out + x);
            lemma_extends_append(out, x);
        },
        SpecExpr::Bool(b) => {
            let x = ind + "Bool("@ + bool_text(b) + ")\n"@;
            assert(emit_expr(out, e, ind) =~= out + x);
            lemma_extends_append(out, x);
        },
        SpecExpr::Var(n) => {
            let x = ind + "Var("@ + n + ")\n"@;
            assert(emit_expr(out, e, ind) =~= out + x);
            lemma_extends_append(out, x);
        },
        SpecExpr::Call { name, args } => {
            let x = ind + "Call("@ + name + ")\n"@;
            assert(out + ind + "Call("@ + name + ")\n"@ == out + x);
            lemma_exprs_extends(out + x, args, step(ind));
            lemma_head(out, x, emit_expr(out, e, ind));
        },
        SpecExpr::StructLit { name, fields } => {
            let x = ind + "StructLit("@ + name + ")\n"@;
            assert(out + ind + "StructLit("@ + name + ")\n"@ == out + x);
            lemma_fields_extends(out + x, fields, step(ind));
            lemma_head(out, x, emit_expr(out, e, ind));
        },
        SpecExpr::Variant { enum_name, variant } => {
            let x = ind + "Variant("@ + enum_name + "::"@ + variant + ")\n"@;
            assert(emit_expr(out, e, ind) =~= out + x);
            lemma_extends_append(out, x);
        },
        SpecExpr::Field { base, field } => {
            let x = ind + "Field("@ + field + ")\n"@;
            assert(out + ind + "Field("@ + field + ")\n"@ == out + x);
            lemma_expr_extends(out + x, *base, step(ind));
            lemma_head(out, x, emit_expr(out, e, ind));
        },
        SpecExpr::Unary { op, expr } => {
            let x = ind + "Unary("@ + unop_text(op) + ")\n"@;
            assert(out + ind + "Unary("@ + unop_text(op) + ")\n"@ == out + x);
            lemma_expr_extends(out + x, *expr, step(ind));
            lemma_head(out, x, emit_expr(out, e, ind));
        },
        SpecExpr::Binary { op, lhs, rhs } => {
            let x = ind + "Binary("@ + binop_text(op) + ")\n"@;
            assert(out + ind + "Binary("@ + binop_text(op) + ")\n"@ == out + x);
            let l = emit_expr(out + x, *lhs, step(ind));
            lemma_expr_extends(out + x, *lhs, step(ind));
            lemma_expr_extends(l, *rhs, step(ind));
            lemma_extends_trans(out + x, l, emit_expr(out, e, ind));
            lemma_head(out, x, emit_expr(out, e, ind));
        },
    }
}

proof fn lemma_exprs_extends(out: Seq<char>, es: Seq<SpecExpr>, ind: Seq<char>)
    ensures
        extends(out, emit_exprs(out, es, ind)),
    decreases es,
{
    if es.len() == 0 {
        lemma_extends_append(out, Seq::empty());
        assert(out + Seq::<char>::empty() =~= out);
    } else {
        let o = emit_expr(out, es[0], ind);
        lemma_expr_extends(out, es[0], ind);
        lemma_exprs_extends(o, es.drop_first(), ind);
        lemma_extends_trans(out, o, emit_exprs(out, es, ind));
    }
}

proof fn lemma_fields_extends(out: Seq<char>, fs: Seq<(Seq<char>, SpecExpr)>, ind: Seq<char>)
    ensures
        extends(out, emit_field_inits(out, fs, ind)),
    decreases fs,
{
    if fs.len() == 0 {
        lemma_extends_append(out, Seq::empty());
        assert(out + Seq::<char>::empty() =~= out);
    } else {
        let x = ind + "Field "@ + fs[0].0 + "\n"@;
        assert(out + ind + "Field "@ + fs[0].0 + "\n"@ == out + x);
        let o = emit_expr(out + x, fs[0].1, step(ind));
        lemma_expr_extends(out + x, fs[0].1, step(ind));
        lemma_head(out, x, o);
        lemma_fields_extends(o, fs.drop_first(), ind);
        lemma_extends_trans(out, o, emit_field_inits(out, fs, ind));
    }
}

proof fn lemma_block_extends(out: Seq<char>, b: SpecBlock, ind: Seq<char>)
    ensures
        extends(out + ind + "Block\n"@, emit_block(out, b, ind)),
        extends(out, emit_block(out, b, ind)),
    decreases b,
{
    let x = ind + "Block\n"@;
    assert(out + ind + "Block\n"@ == out + x);
    lemma_stmts_extends(out + x, b.stmts, step(ind));
    lemma_head(out, x, emit_block(out, b, ind));
}

proof fn lemma_stmts_extends(out: Seq<char>, ss: Seq<SpecStmt>, ind: Seq<char>)
    ensures
        extends(out, emit_stmts(out, ss, ind)),
    decreases ss,
{
    if ss.len() == 0 {
        lemma_extends_append(out, Seq::empty());
        assert(out + Seq::<char>::empty() =~= out);
    } else {
        let o = emit_stmt(out, ss[0], ind);
        lemma_stmt_extends(out, ss[0], ind);
        lemma_stmts_extends(o, ss.drop_first(), ind);
        lemma_extends_trans(out, o, emit_stmts(out, ss, ind));
    }
}

proof fn lemma_arms_extends(out: Seq<char>, arms: Seq<SpecMatchArm>, ind: Seq<char>)
    ensures
        extends(out, emit_arms(out, arms, ind)),
    decreases arms,
{
    if arms.len() == 0 {
        lemma_extends_append(out, Seq::empty());
        assert(out + Seq::<char>::empty() =~= out);
    } else {
        let x = ind + "Arm "@ + arms[0].enum_name + "::"@ + arms[0].variant + "\n"@;
        assert(out + ind + "Arm "@ + arms[0].enum_name + "::"@ + arms[0].variant + "\n"@ == out + x);
        let o = emit_block(out + x, arms[0].body, step(ind));
        lemma_block_extends(out + x, arms[0].body, step(ind));
        lemma_head(out, x, o);
        lemma_arms_extends(o, arms.drop_first(), ind);
        lemma_extends_trans(out, o, emit_arms(out, arms, ind));
    }
}

proof fn lemma_stmt_extends(out: Seq<char>, s: SpecStmt, ind: Seq<char>)
    ensures
        extends(out, emit_stmt(out, s, ind)),
    decreases s,
{
    let r = emit_stmt(out, s, ind);
    match s {
        SpecStmt::Return(e) => {
            let x = ind + "Return\n"@;
            assert(out + ind + "Return\n"@ == out + x);
            lemma_expr_extends(out + x, e, step(ind));
            lemma_head(out, x, r);
        },
        SpecStmt::Print(e) => {
            let x = ind + "Print\n"@;
            assert(out + ind + "Print\n"@ == out + x);
            lemma_expr_extends(out + x, e, step(ind));
            lemma_head(out, x, r);
        },
        SpecStmt::Let { name, ty, value, mutable } => {
            let x = ind + let_keyword(mutable) + name + "\n"@;
            let head = out + ind + let_keyword(mutable) + name + "\n"@;
            assert(head == out + x);
            lemma_extends_append(out, x);
            let typed = match ty {
                Some(t) => emit_type(head + step(ind) + "Type\n"@, t, step(step(ind))),
                None => head,
            };
            match ty {
                Some(t) => {
                    let y = step(ind) + "Type\n"@;
                    assert(head + step(ind) + "Type\n"@ == head + y);
                    lemma_type_extends(head + y, t, step(step(ind)));
                    lemma_head(head, y, typed);
                    lemma_extends_trans(out, head, typed);
                },
                None => {},
            }
            lemma_expr_extends(typed, value, step(ind));
            lemma_extends_trans(out, typed, r);
        },
        SpecStmt::Assign { target, value } => {
            let x = ind + "Assign\n"@;
            assert(out + ind + "Assign\n"@ == out + x);
            let a = emit_expr(out + x, target, step(ind));
            lemma_expr_extends(out + x, target, step(ind));
            lemma_expr_extends(a, value, step(ind));
            lemma_extends_trans(out + x, a, r);
            lemma_head(out, x, r);
        },
        SpecStmt::If { cond, then_block, else_block } => {
            let x = ind + "If\n"@ + step(ind) + "Cond\n"@;
            assert(out + ind + "If\n"@ + step(ind) + "Cond\n"@ == out + x);
            let c = emit_expr(out + x, cond, step(step(ind)));
            lemma_expr_extends(out + x, cond, step(step(ind)));
            lemma_head(out, x, c);
            let y = step(ind) + "Then\n"@;
            assert(c + step(ind) + "Then\n"@ == c + y);
            let t = emit_block(c + y, then_block, step(step(ind)));
            lemma_block_extends(c + y, then_block, step(step(ind)));
            lemma_head(c, y, t);
            lemma_extends_trans(out, c, t);
            match else_block {
                Some(b) => {
                    let z = step(ind) + "Else\n"@;
                    assert(t + step(ind) + "Else\n"@ == t + z);
                    lemma_block_extends(t + z, b, step(step(ind)));
                    lemma_head(t, z, r);
                    lemma_extends_trans(out, t, r);
                },
                None => {},
            }
        },
        SpecStmt::While { cond, body } => {
            let x = ind + "While\n"@ + step(ind) + "Cond\n"@;
            assert(out + ind + "While\n"@ + step(ind) + "Cond\n"@ == out + x);
            let c = emit_expr(out + x, cond, step(step(ind)));
            lemma_expr_extends(out + x, cond, step(step(ind)));
            lemma_head(out, x, c);
            let y = step(ind) + "Body\n"@;
            assert(c + step(ind) + "Body\n"@ == c + y);
            lemma_block_extends(c + y, body, step(step(ind)));
            lemma_head(c, y, r);
            lemma_extends_trans(out, c, r);
        },
        SpecStmt::For { name, start, end, body } => {
            let x = ind + "For "@ + name + "\n"@ + step(ind) + "Start\n"@;
            assert(out + ind + "For "@ + name + "\n"@ + step(ind) + "Start\n"@ == out + x);
            let a = emit_expr(out + x, start, step(step(ind)));
            lemma_expr_extends(out + x, start, step(step(ind)));
            lemma_head(out, x, a);
            let y = step(ind) + "End\n"@;
            assert(a + step(ind) + "End\n"@ == a + y);
            let b2 = emit_expr(a + y, end, step(step(ind)));
            lemma_expr_extends(a + y, end, step(step(ind)));
            lemma_head(a, y, b2);
            let z = step(ind) + "Body\n"@;
            assert(b2 + step(ind) + "Body\n"@ == b2 + z);
            lemma_block_extends(b2 + z, body, step(step(ind)));
            lemma_head(b2, z, r);
            lemma_extends_trans(out, a, b2);
            lemma_extends_trans(out, b2, r);
        },
        SpecStmt::Break => {
            assert(r =~= out + (ind + "Break\n"@));
            lemma_extends_append(out, ind + "Break\n"@);
        },
        SpecStmt::Continue => {
            assert(r =~= out + (ind + "Continue\n"@));
            lemma_extends_append(out, ind + "Continue\n"@);
        },
        SpecStmt::Match { scrutinee, arms } => {
            let x = ind + "Match\n"@;
            assert(out + ind + "Match\n"@ == out + x);
            let m = emit_expr(out + x, scrutinee, step(ind));
            lemma_expr_extends(out + x, scrutinee, step(ind));
            lemma_head(out, x, m);
            lemma_arms_extends(m, arms, step(ind));
            lemma_extends_trans(out, m, r);
        },
    }
}

/// The dump of a statement only adds to what was written before it.
pub proof fn law_dump_appends(out: Seq<char>, s: SpecStmt, ind: Seq<char>)
    ensures
        extends(out, emit_stmt(out, s, ind)),
{
    lemma_stmt_extends(out, s, ind);
}

/// The dump shows the `else` of an `if`: the dump of an `if` with an `else`
/// block is the dump of the same `if` without it, followed by the line
/// `Else` one level deeper and the `Block` of the `else` below it.
pub proof fn law_dump_shows_else(out: Seq<char>, cond: SpecExpr, then_block: SpecBlock, b: SpecBlock, ind: Seq<char>)
    ensures
        extends(
            emit_stmt(out, SpecStmt::If { cond, then_block, else_block: None }, ind) + step(ind) + "Else\n"@
                + step(step(ind)) + "Block\n"@,
            emit_stmt(out, SpecStmt::If { cond, then_block, else_block: Some(b) }, ind),
        ),
{
    let t = emit_stmt(out, SpecStmt::If { cond, then_block, else_block: None }, ind);
    lemma_block_extends(t + step(ind) + "Else\n"@, b, step(step(ind)));
}


/// An operator expression checks only when its operands have the types the
/// operator works on: arithmetic and ordering on `i32`, `&&` and `||` on
/// `bool`, `==` and `!=` on two operands of one type; arithmetic gives an
/// `i32` and every other binary operator a `bool`; `-x` needs and gives an
/// `i32`, `!x` a `bool`; an integer literal checks only within `i32`.
pub proof fn law_expression_types(c: Ctx, env: Env, e: SpecExpr)
    ensures
        check_expr(c, env, e) matches Ok(t) ==> match e {
            SpecExpr::Int(v) => i32::MIN <= v <= i32::MAX && t == SpecTy::I32,
            SpecExpr::Bool(_) => t == SpecTy::Bool,
            SpecExpr::Binary { op, lhs, rhs } => {
                let l = check_expr(c, env, *lhs);
                let r = check_expr(c, env, *rhs);
                match op {
                    BinOp::Add | BinOp::Sub | BinOp::Mul | BinOp::Div | BinOp::Rem => t == SpecTy::I32 && l
                        == Ok::<SpecTy, Seq<char>>(SpecTy::I32) && r == Ok::<SpecTy, Seq<char>>(SpecTy::I32),
                    BinOp::Lt | BinOp::Le | BinOp::Gt | BinOp::Ge => t == SpecTy::Bool && l == Ok::<
                        SpecTy,
                        Seq<char>,
                    >(SpecTy::I32) && r == Ok::<SpecTy, Seq<char>>(SpecTy::I32),
                    BinOp::And | BinOp::Or => t == SpecTy::Bool && l == Ok::<SpecTy, Seq<char>>(SpecTy::Bool) && r
                        == Ok::<SpecTy, Seq<char>>(SpecTy::Bool),
                    BinOp::Eq | BinOp::Ne => t == SpecTy::Bool && l is Ok && l == r,
                }
            },
            SpecExpr::Unary { op, expr } => match op {
                UnOp::Neg => t == SpecTy::I32 && check_expr(c, env, *expr) == Ok::<SpecTy, Seq<char>>(SpecTy::I32),
                UnOp::Not => t == SpecTy::Bool && check_expr(c, env, *expr) == Ok::<SpecTy, Seq<char>>(SpecTy::Bool),
                _ => true,
            },
            _ => true,
        },
{
}


/// A `//` comment runs to the end of its line: it is skipped up to the first
/// line feed after it, or to the end of the input.
pub proof fn law_line_comment_skipped(b: Seq<u8>, i: int)
    requires
        0 <= i,
        i + 1 < b.len(),
        b[i] == 47u8,
        b[i + 1] == 47u8,
    ensures
        scan(b, i) matches Scan::Skip(j) && i + 2 <= j <= b.len() && (j == b.len() || b[j] == 10u8) && forall|m: int|
            i + 2 <= m < j ==> b[m] != 10u8,
{
    lemma_run_end(b, i + 2, line_class());
}

} // verus!
