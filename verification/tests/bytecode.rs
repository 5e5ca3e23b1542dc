use lcore::error::VMError;
use lcore::exec::{CodeBuilder, Op, Type};
use lcore::source_map::{SourceFile, SourceMap};
use lcore::span::{FileIdx, Span};
use lcore::symbol::{index_of_name, Interner};

#[test]
fn emit_op_appends_the_code_of_the_instruction() {
    let code = CodeBuilder::new().emit_op(Op::iconst).build();
    assert_eq!(code.0, vec![1u8]);
}

#[test]
fn a_constant_is_written_least_significant_byte_first() {
    let code = CodeBuilder::new().write_const(0x0102030405060708).build();
    assert_eq!(code.0, vec![8, 7, 6, 5, 4, 3, 2, 1]);
    let code = CodeBuilder::new().emit_iconst(-2).build();
    assert_eq!(code.0, vec![1, 0xfe, 0xff, 0xff, 0xff, 0xff, 0xff, 0xff, 0xff]);
    let code = CodeBuilder::new().emit_uconst(258).build();
    assert_eq!(code.0, vec![2, 2, 1, 0, 0, 0, 0, 0, 0]);
}

#[test]
fn the_instructions_with_operands_are_encoded_in_order() {
    let code = CodeBuilder::new().emit_invoke(3).emit_ldc(9).emit_iloadl(4).emit_iloadu(5).build();
    assert_eq!(code.0, vec![11, 3, 3, 9, 4, 4, 6, 5]);
    let code = CodeBuilder::new().emit_istorel(7, 1).build();
    assert_eq!(code.0, vec![1, 1, 0, 0, 0, 0, 0, 0, 0, 5, 7]);
    let code = CodeBuilder::new().emit_istoreu(7, 1).build();
    assert_eq!(code.0, vec![1, 1, 0, 0, 0, 0, 0, 0, 0, 7, 7]);
    let code = CodeBuilder::new().emit_array(Type::Bool, 2).build();
    assert_eq!(code.0, vec![2, 2, 0, 0, 0, 0, 0, 0, 0, 8, 2]);
    let code = CodeBuilder::new().emit_iaload(1).build();
    assert_eq!(code.0, vec![2, 1, 0, 0, 0, 0, 0, 0, 0, 9]);
    let code = CodeBuilder::new().emit_iastore(1, 2).build();
    assert_eq!(
        code.0,
        vec![2, 1, 0, 0, 0, 0, 0, 0, 0, 1, 2, 0, 0, 0, 0, 0, 0, 0, 10]
    );
}

#[test]
fn a_closure_is_followed_by_its_captured_variables() {
    let code = CodeBuilder::new().emit_closure(4, vec![(true, 1), (false, 2)]).build();
    assert_eq!(code.0, vec![12, 4, 1, 1, 0, 2]);
    let code = CodeBuilder::new().emit_closure(4, vec![]).build();
    assert_eq!(code.0, vec![12, 4]);
    let code = CodeBuilder::default().emit_byte(9).emit_upval(true, 3).build();
    assert_eq!(code.0, vec![9, 1, 3]);
}

#[test]
fn decoding_undoes_encoding() {
    for b in 0u8..=13 {
        assert_eq!(Op::from_byte(b).unwrap().code(), b);
    }
    assert_eq!(Op::from_byte(14), Err(VMError::InvalidOpcode(14)));
    assert_eq!(Op::from_byte(255), Err(VMError::InvalidOpcode(255)));
    assert_eq!(VMError::InvalidOpcode(14).message(), "invalid opcode `14`");
}

#[test]
fn spans_merge_to_the_span_that_covers_both() {
    let a = Span::new(FileIdx(0), 3, 5);
    let b = Span::new(FileIdx(0), 4, 9);
    assert_eq!(a.merge(b), Span::new(FileIdx(0), 3, 9));
    assert_eq!(b.merge(a), Span::new(FileIdx(0), 3, 9));
    assert!(Span::empty().is_empty());
    assert!(!a.is_empty());
}

#[test]
fn a_name_is_interned_once() {
    let mut names = Interner::new();
    let a = names.intern("a");
    let b = names.intern("b");
    assert_ne!(a, b);
    assert_eq!(names.intern("a"), a);
    assert_eq!(names.get(b), "b");
    assert_eq!(names.len(), 2);
}

#[test]
fn a_run_of_digits_is_a_position() {
    assert_eq!(index_of_name("0"), Some(0));
    assert_eq!(index_of_name("17"), Some(17));
    assert_eq!(index_of_name("007"), Some(7));
    assert_eq!(index_of_name(""), None);
    assert_eq!(index_of_name("x"), None);
    assert_eq!(index_of_name("1x"), None);
    assert_eq!(index_of_name("-1"), None);
    assert_eq!(index_of_name("99999999999999999999999999"), None);
    let mut names = Interner::new();
    let three = names.intern("3");
    let x = names.intern("x");
    assert_eq!(names.index_of(three), Some(3));
    assert_eq!(names.index_of(x), None);
}

#[test]
fn a_line_starts_behind_every_line_feed() {
    let file = SourceFile::new("foo\nbar\r\n\nbaz");
    assert_eq!(file.line_start(0), Some(0));
    assert_eq!(file.line_start(1), Some(4));
    assert_eq!(file.line_start(2), Some(9));
    assert_eq!(file.line_start(3), Some(10));
    // the line behind the last one starts at the end of the text
    assert_eq!(file.line_start(4), Some(13));
    assert_eq!(file.line_start(5), None);
    assert_eq!(file.source(), "foo\nbar\r\n\nbaz");
}

#[test]
fn a_line_feed_is_counted_in_bytes() {
    // the letter takes two bytes
    let file = SourceFile::new("\u{e9}\nx");
    assert_eq!(file.line_start(1), Some(3));
    assert_eq!(file.line_start(2), Some(4));
    assert_eq!(file.line_index(2), 0);
    assert_eq!(file.line_index(3), 1);
}

#[test]
fn a_byte_lies_in_the_last_line_that_starts_before_it() {
    let file = SourceFile::new("foo\nbar\r\n\nbaz");
    assert_eq!(file.line_index(0), 0);
    assert_eq!(file.line_index(3), 0);
    assert_eq!(file.line_index(4), 1);
    assert_eq!(file.line_index(5), 1);
    assert_eq!(file.line_index(9), 2);
    assert_eq!(file.line_index(10), 3);
    assert_eq!(file.line_index(1000), 3);
    let empty = SourceFile::new("");
    assert_eq!(empty.line_index(0), 0);
    assert_eq!(empty.line_start(0), Some(0));
    assert_eq!(empty.line_start(1), Some(0));
    assert_eq!(empty.line_start(2), None);
}

#[test]
fn a_line_reaches_up_to_the_next_line() {
    let map = SourceMap::new("foo\nbar\r\n\nbaz");
    assert_eq!(map.files.len(), 2);
    assert_eq!(map.source(FileIdx(0)), Some(""));
    assert_eq!(map.source(FileIdx(1)), Some("foo\nbar\r\n\nbaz"));
    assert_eq!(map.source(FileIdx(2)), None);
    assert_eq!(map.line_range(FileIdx(1), 0), Some((0, 4)));
    assert_eq!(map.line_range(FileIdx(1), 1), Some((4, 9)));
    assert_eq!(map.line_range(FileIdx(1), 2), Some((9, 10)));
    assert_eq!(map.line_range(FileIdx(1), 3), Some((10, 13)));
    assert_eq!(map.line_range(FileIdx(1), 4), None);
    assert_eq!(map.line_range(FileIdx(0), 0), Some((0, 0)));
    assert_eq!(map.line_range(FileIdx(2), 0), None);
    assert_eq!(map.line_index(FileIdx(1), 5), Some(1));
    assert_eq!(map.line_index(FileIdx(2), 5), None);
}
