use typst_core::position::{
    byte_to_char_index, byte_to_column, byte_to_line, byte_to_utf16, char_utf8_len_exec,
    char_utf16_len_exec, line_to_byte, utf16_to_byte, utf16_total,
};
use typst_core::range::{monaco_pos_to_typst_offset, MonacoRange};
use typst_core::source_file::SourceFile;
use typst_core::store::FileId;

// "aé😀b\nx": bytes a=0, é=1..3, 😀=3..7, b=7, \n=8, x=9, end=10.
const MIXED: &str = "a\u{e9}\u{1F600}b\nx";

#[test]
fn char_lengths() {
    assert_eq!(char_utf8_len_exec('a'), 1);
    assert_eq!(char_utf8_len_exec('\u{e9}'), 2);
    assert_eq!(char_utf8_len_exec('\u{20ac}'), 3);
    assert_eq!(char_utf8_len_exec('\u{1F600}'), 4);
    assert_eq!(char_utf16_len_exec('a'), 1);
    assert_eq!(char_utf16_len_exec('\u{1F600}'), 2);
}

#[test]
fn line_to_byte_finds_line_starts() {
    let text = "one\ntwo\nthree";
    assert_eq!(line_to_byte(text, 0), Some(0));
    assert_eq!(line_to_byte(text, 1), Some(4));
    assert_eq!(line_to_byte(text, 2), Some(8));
    assert_eq!(line_to_byte(text, 3), None);
    // A trailing newline opens one more (empty) line.
    assert_eq!(line_to_byte("a\n", 1), Some(2));
    assert_eq!(line_to_byte("", 0), Some(0));
    assert_eq!(line_to_byte("", 1), None);
}

#[test]
fn utf16_and_byte_offsets_diverge_on_multibyte_text() {
    // Prefixes: a -> 1 byte / 1 unit; é -> 3 bytes / 2 units; 😀 -> 7 bytes / 4 units.
    assert_eq!(byte_to_utf16(MIXED, 0), Some(0));
    assert_eq!(byte_to_utf16(MIXED, 1), Some(1));
    assert_eq!(byte_to_utf16(MIXED, 3), Some(2));
    assert_eq!(byte_to_utf16(MIXED, 7), Some(4));
    assert_eq!(byte_to_utf16(MIXED, 10), Some(7));
    // Offsets inside a character are not boundaries.
    assert_eq!(byte_to_utf16(MIXED, 2), None);
    assert_eq!(byte_to_utf16(MIXED, 4), None);
    assert_eq!(byte_to_utf16(MIXED, 11), None);

    assert_eq!(utf16_to_byte(MIXED, 2), Some(3));
    assert_eq!(utf16_to_byte(MIXED, 4), Some(7));
    // Offset 3 falls between the surrogate halves of the emoji.
    assert_eq!(utf16_to_byte(MIXED, 3), None);
    assert_eq!(utf16_total(MIXED), 7);
}

#[test]
fn byte_to_line_and_column() {
    assert_eq!(byte_to_line(MIXED, 9), Some(1));
    assert_eq!(byte_to_column(MIXED, 9), Some(0));
    assert_eq!(byte_to_line(MIXED, 7), Some(0));
    // Column of 'b' counts the emoji as two UTF-16 units.
    assert_eq!(byte_to_column(MIXED, 7), Some(4));
    assert_eq!(byte_to_line(MIXED, 2), None);
    assert_eq!(byte_to_char_index(MIXED, 7), Some(3));
    assert_eq!(byte_to_char_index(MIXED, 4), None);
}

fn mixed_source() -> SourceFile {
    SourceFile::new(
        FileId::new(None, String::from("/main.typ")),
        String::from(MIXED),
    )
}

#[test]
fn round_trip_all_boundaries() {
    // P1 on concrete values: every character boundary survives the
    // offset -> coordinate -> offset round trip.
    let source = mixed_source();
    for byte in [0usize, 1, 3, 7, 8, 9, 10] {
        let line = byte_to_line(MIXED, byte).unwrap();
        let column = byte_to_column(MIXED, byte).unwrap();
        assert_eq!(
            monaco_pos_to_typst_offset(&source, line, column),
            Some(byte),
            "round trip failed at byte {}",
            byte
        );
    }
}

#[test]
fn monaco_range_round_trip() {
    let source = mixed_source();
    let range = MonacoRange::from_typst_range((3, 7), &source);
    assert_eq!(range, MonacoRange::new(1, 3, 1, 5));
    assert_eq!(range.to_typst_range(&source), (3, 7));
}

#[test]
fn monaco_range_degrades_to_zero() {
    let source = mixed_source();
    // A non-boundary endpoint collapses to the zero range...
    let range = MonacoRange::from_typst_range((2, 7), &source);
    assert_eq!(range, MonacoRange::new(0, 0, 0, 0));
    // ... and an unreachable coordinate collapses to the empty byte range.
    let far = MonacoRange::new(9, 1, 9, 2);
    assert_eq!(far.to_typst_range(&source), (0, 0));
}

#[test]
fn column_past_line_end_spills_forward() {
    // The composition adds the column in UTF-16 space, so a column past the
    // line end lands on a later boundary when the totals line up.
    let source = SourceFile::new(
        FileId::new(None, String::from("/main.typ")),
        String::from("ab\ncd"),
    );
    assert_eq!(monaco_pos_to_typst_offset(&source, 0, 3), Some(3));
    assert_eq!(monaco_pos_to_typst_offset(&source, 0, 9), None);
}
