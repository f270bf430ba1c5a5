//! The two-row content splitter: the clear request, the newline policy,
//! the column-boundary cut, and the whole-content length bound.

use pico_bsp::InlandKs0061Content;
use pico_bsp::InlandKs0061ContentError;
use pico_bsp::LcdContent;
use pico_bsp::LcdStringError;
use pico_bsp::SplitError;
use pico_bsp::split_content;

fn row(s: &Option<pico_bsp::LcdString>) -> Option<&str> {
    s.as_ref().map(|l| l.as_str())
}

fn ks_row(s: &Option<pico_bsp::InlandKs0061Line>) -> Option<&str> {
    s.as_ref().map(|l| l.as_str())
}

#[test]
fn empty_input_yields_both_rows_blank() {
    let c = LcdContent::try_from("").expect("empty input is the clear request");
    assert!(c.line1.is_none());
    assert!(c.line2.is_none());
    let k = InlandKs0061Content::try_from("").expect("empty input is the clear request");
    assert!(k.line1.is_none());
    assert!(k.line2.is_none());
}

#[test]
fn sixteen_chars_fill_row_one_only() {
    let c = LcdContent::try_from("0123456789abcdef").expect("exactly one row");
    assert_eq!(row(&c.line1), Some("0123456789abcdef"));
    assert!(c.line2.is_none());
}

#[test]
fn seventeen_chars_spill_one_char_onto_row_two() {
    let c = LcdContent::try_from("0123456789abcdefG").expect("two rows");
    assert_eq!(row(&c.line1), Some("0123456789abcdef"));
    assert_eq!(row(&c.line2), Some("G"));
}

#[test]
fn thirty_three_chars_are_too_long() {
    let input: String = "y".repeat(33);
    match LcdContent::try_from(&input) {
        Err(LcdStringError::TooLong { actual_length, max_length, .. }) => {
            assert_eq!(actual_length, 33);
            assert_eq!(max_length, 32);
        }
        other => panic!("expected TooLong, got {:?}", other),
    }
}

#[test]
fn newline_splits_onto_both_rows() {
    let c = LcdContent::try_from("AB\nCD").expect("two short lines");
    assert_eq!(row(&c.line1), Some("AB"));
    assert_eq!(row(&c.line2), Some("CD"));
}

#[test]
fn three_segments_are_too_many_lines() {
    match LcdContent::try_from("A\nB\nC") {
        Err(LcdStringError::TooManyLines { actual_lines, max_lines, .. }) => {
            assert_eq!(actual_lines, 3);
            assert_eq!(max_lines, 2);
        }
        other => panic!("expected TooManyLines, got {:?}", other),
    }
}

#[test]
fn trailing_newline_opens_an_empty_second_row() {
    let c = LcdContent::try_from("AB\n").expect("one line plus blank row");
    assert_eq!(row(&c.line1), Some("AB"));
    assert_eq!(row(&c.line2), Some(""));
}

#[test]
fn trailing_newline_after_two_lines_is_not_a_third() {
    let c = LcdContent::try_from("AB\nCD\n").expect("two lines, final newline tolerated");
    assert_eq!(row(&c.line1), Some("AB"));
    assert_eq!(row(&c.line2), Some("CD"));
}

#[test]
fn lone_newline_yields_two_blank_rows() {
    let c = LcdContent::try_from("\n").expect("two blank rows");
    assert_eq!(row(&c.line1), Some(""));
    assert_eq!(row(&c.line2), Some(""));
}

#[test]
fn over_length_first_segment_is_rejected() {
    match LcdContent::try_from("ABCDEFGHIJKLMNOPQ\nB") {
        Err(LcdStringError::TooLong { actual_length, max_length, .. }) => {
            assert_eq!(actual_length, 17);
            assert_eq!(max_length, 16);
        }
        other => panic!("expected TooLong, got {:?}", other),
    }
}

#[test]
fn invalid_character_on_second_row_is_named() {
    match InlandKs0061Content::try_from("AB\nC\u{1}") {
        Err(InlandKs0061ContentError::ContainsInvalidCharacters { invalid_char, .. }) => {
            assert_eq!(invalid_char, '\u{1}');
        }
        other => panic!("expected ContainsInvalidCharacters, got {:?}", other),
    }
}

#[test]
fn ks0061_splits_at_the_character_boundary() {
    let k = InlandKs0061Content::try_from("0123456789abcdefGHIJ").expect("two rows");
    assert_eq!(ks_row(&k.line1), Some("0123456789abcdef"));
    assert_eq!(ks_row(&k.line2), Some("GHIJ"));
}

#[test]
fn core_splitter_honours_other_geometries() {
    match split_content("abcdefgh", 4) {
        Ok((Some(l1), Some(l2))) => {
            assert_eq!(l1, "abcd");
            assert_eq!(l2, "efgh");
        }
        other => panic!("expected two rows, got {:?}", other),
    }
    match split_content("abcdefghi", 4) {
        Err(SplitError::TooLong { actual, max }) => {
            assert_eq!(actual, 9);
            assert_eq!(max, 8);
        }
        other => panic!("expected TooLong, got {:?}", other),
    }
}
