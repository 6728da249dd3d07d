use typst_core::error::TypstCoreError;
use typst_core::range::MonacoRange;
use typst_core::source_file::SourceFile;
use typst_core::store::FileId;
use typst_core::typst_core::TypstCore;

#[test]
fn add_get_remove_source() {
    let mut core = TypstCore::construct();
    core.add_source(String::from("/main.typ"), String::from("Hello World"));
    assert_eq!(
        core.get_source(String::from("/main.typ")).unwrap(),
        "Hello World"
    );
    // Adding again overwrites, never duplicates.
    core.add_source(String::from("/main.typ"), String::from("Second"));
    assert_eq!(core.get_source(String::from("/main.typ")).unwrap(), "Second");
    core.remove_source(String::from("/main.typ"));
    let err = core.get_source(String::from("/main.typ")).unwrap_err();
    match err {
        TypstCoreError::DefaultError(m) => assert_eq!(
            m,
            "Failed to get source, source not found for path: /main.typ"
        ),
        TypstCoreError::CompileError(_) => panic!("expected a default error"),
    }
}

#[test]
fn set_root_requires_existing_source() {
    let mut core = TypstCore::construct();
    let err = core.set_root(String::from("/main.typ")).unwrap_err();
    assert!(matches!(err, TypstCoreError::DefaultError(_)));
    core.add_source(String::from("/main.typ"), String::from("Hello"));
    assert!(core.set_root(String::from("/main.typ")).is_ok());
    assert!(core.main_file().is_ok());
}

#[test]
fn no_root_is_a_precondition_error_not_a_panic() {
    // Compiling with no root set fails with a precondition error.
    let core = TypstCore::construct();
    let err = core.main_file().unwrap_err();
    match err {
        TypstCoreError::DefaultError(m) => assert_eq!(m, "Root path is not set"),
        TypstCoreError::CompileError(_) => panic!("expected a default error"),
    }
}

#[test]
fn edit_source_with_byte_range() {
    // The byte-range form of an edit splices exactly.
    let mut file = SourceFile::new(
        FileId::new(None, String::from("/main.typ")),
        String::from("Hello World"),
    );
    assert!(file.edit_bytes(0, 5, "Goodbye"));
    assert_eq!(file.source(), "Goodbye World");
    // Reversed or out-of-range offsets are rejected and change nothing.
    assert!(!file.edit_bytes(5, 2, "x"));
    assert!(!file.edit_bytes(0, 999, "x"));
    assert_eq!(file.source(), "Goodbye World");
}

#[test]
fn edit_splices_multibyte_text() {
    let mut file = SourceFile::new(
        FileId::new(None, String::from("/main.typ")),
        String::from("a\u{e9}\u{1F600}b"),
    );
    // Replace the emoji (bytes 3..7).
    assert!(file.edit_bytes(3, 7, "X"));
    assert_eq!(file.source(), "a\u{e9}Xb");
    // Splitting a character's encoding is refused.
    assert!(!file.edit_bytes(0, 2, "y"));
}

#[test]
fn edit_source_with_coordinates() {
    // After edit followed by get, the text equals the old text with the
    // addressed range replaced.
    let mut core = TypstCore::construct();
    core.add_source(String::from("/main.typ"), String::from("Hello World"));
    let replacement = String::from("New content\nwith two lines");
    let result = core.edit_source(
        String::from("/main.typ"),
        replacement.clone(),
        MonacoRange::new(1, 1, 1, 11),
    );
    assert!(result.is_ok(), "edit failed: {:?}", result);
    // Columns 1..11 address bytes 0..10, leaving the final "d".
    let expected = format!("{}d", replacement);
    assert_eq!(core.get_source(String::from("/main.typ")).unwrap(), expected);
}

#[test]
fn edit_source_unknown_path_is_reported() {
    let mut core = TypstCore::construct();
    let err = core
        .edit_source(
            String::from("/nope.typ"),
            String::from("text"),
            MonacoRange::new(1, 1, 1, 1),
        )
        .unwrap_err();
    assert!(matches!(err, TypstCoreError::DefaultError(_)));
}

#[test]
fn edit_source_unresolvable_range_inserts_at_start() {
    // A coordinate that does not resolve degrades to the empty range at
    // offset zero, so the edit inserts at the start of the buffer.
    let mut core = TypstCore::construct();
    core.add_source(String::from("/main.typ"), String::from("World"));
    let result = core.edit_source(
        String::from("/main.typ"),
        String::from("Hello "),
        MonacoRange::new(7, 1, 7, 1),
    );
    assert!(result.is_ok());
    assert_eq!(
        core.get_source(String::from("/main.typ")).unwrap(),
        "Hello World"
    );
}

#[test]
fn source_file_bytes_follow_edits() {
    let mut file = SourceFile::new(
        FileId::new(None, String::from("/main.typ")),
        String::from("a\u{e9}"),
    );
    // The byte view starts unmaterialized and is computed on first use.
    assert!(file.bytes.is_none());
    assert_eq!(file.bytes(), vec![0x61, 0xc3, 0xa9]);
    assert!(file.bytes.is_some());
    // A second read is served from the materialized view.
    assert_eq!(file.bytes(), vec![0x61, 0xc3, 0xa9]);
    assert!(file.edit_bytes(0, 1, "b"));
    assert_eq!(file.bytes(), vec![0x62, 0xc3, 0xa9]);
}

#[test]
fn get_source_file_exposes_stored_buffer() {
    let mut core = TypstCore::construct();
    core.add_source(String::from("/main.typ"), String::from("abc"));
    let file = core.get_source_file(String::from("/main.typ")).unwrap();
    assert_eq!(file.source(), "abc");
    assert!(core.get_source_file(String::from("/other.typ")).is_none());
}
