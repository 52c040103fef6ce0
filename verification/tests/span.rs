use sattlec::lexer::lex;
use sattlec::span::{format_tokens, LineIndex};

#[test]
fn format_tokens_uses_line_col() {
    let src = "fn main";
    let tokens = lex(src).unwrap();
    assert_eq!(format_tokens(src, &tokens), "fn @ 1:1\nIdent(main) @ 1:4\n");
}

#[test]
fn format_tokens_tracks_newlines() {
    let src = "fn\nmain";
    let tokens = lex(src).unwrap();
    assert_eq!(format_tokens(src, &tokens), "fn @ 1:1\nIdent(main) @ 2:1\n");
}

#[test]
fn line_index_end_of_file() {
    let src = "a\nb";
    let index = LineIndex::new(src);
    assert_eq!(index.line_col(src, 0), (1, 1));
    assert_eq!(index.line_col(src, 2), (2, 1));
    assert_eq!(index.line_col(src, src.len()), (2, 2));
}
