use typst_core::add;
use typst_core::diagnostics::{
    collect_diagnostics, RawDiagnostic, TypstCoreDiagnostics, TypstCoreSeverity,
};
use typst_core::error::TypstCoreError;
use typst_core::range::{MonacoRange, SpanData, TypstCoreRange};
use typst_core::source_file::SourceFile;
use typst_core::store::{FileId, SourceStore};
use typst_core::typst_core::TypstCore;

fn store_with_main(text: &str) -> (SourceStore, FileId) {
    let mut store = SourceStore::new();
    let id = FileId::new(None, String::from("/main.typ"));
    store.insert(SourceFile::new(
        FileId::new(None, String::from("/main.typ")),
        String::from(text),
    ));
    (store, id)
}

#[test]
fn add_sums() {
    assert_eq!(typst_core::add(2, 40), 42);
    assert_eq!(add(0, 0), 0);
}

#[test]
fn with_source_resolves_a_span() {
    let file = SourceFile::new(
        FileId::new(None, String::from("/main.typ")),
        String::from("one\ntwo"),
    );
    // Bytes 4..7 cover "two": line 2, columns 1..4.
    let span = SpanData {
        id: Some(FileId::new(None, String::from("/main.typ"))),
        range: Some((4, 7)),
    };
    let range = TypstCoreRange::with_source(&span, &file).unwrap();
    assert_eq!(range.path, "/main.typ");
    assert_eq!(range.monaco_range, MonacoRange::new(2, 1, 2, 4));
}

#[test]
fn with_source_detached_span_is_the_zero_range() {
    let file = SourceFile::new(
        FileId::new(None, String::from("/main.typ")),
        String::from("one"),
    );
    let span = SpanData { id: None, range: None };
    let range = TypstCoreRange::with_source(&span, &file).unwrap();
    assert_eq!(range.path, "");
    assert_eq!(range.monaco_range, MonacoRange::new(0, 0, 0, 0));
}

#[test]
fn with_source_lost_range_is_an_error() {
    let file = SourceFile::new(
        FileId::new(None, String::from("/main.typ")),
        String::from("one"),
    );
    let span = SpanData {
        id: Some(FileId::new(None, String::from("/main.typ"))),
        range: None,
    };
    let err = TypstCoreRange::with_source(&span, &file).unwrap_err();
    match err {
        TypstCoreError::DefaultError(m) => {
            assert_eq!(m, "Failed to get range for span")
        }
        TypstCoreError::CompileError(_) => panic!("expected a default error"),
    }
}

#[test]
fn with_sources_looks_the_file_up() {
    let (store, id) = store_with_main("one\ntwo");
    let span = SpanData { id: Some(id), range: Some((0, 3)) };
    let range = TypstCoreRange::with_sources(&span, &store).unwrap();
    assert_eq!(range.path, "/main.typ");
    assert_eq!(range.monaco_range, MonacoRange::new(1, 1, 1, 4));

    let unknown = SpanData {
        id: Some(FileId::new(None, String::from("/other.typ"))),
        range: Some((0, 1)),
    };
    let err = TypstCoreRange::with_sources(&unknown, &store).unwrap_err();
    match err {
        TypstCoreError::DefaultError(m) => {
            assert_eq!(m, "Failed to get source for id: /other.typ")
        }
        TypstCoreError::CompileError(_) => panic!("expected a default error"),
    }
}

#[test]
fn from_diagnostics_keeps_severity_and_message() {
    let (store, id) = store_with_main("one\ntwo");
    let span = SpanData { id: Some(id), range: Some((4, 7)) };
    let diag = TypstCoreDiagnostics::from_diagnostics(
        TypstCoreSeverity::Warning,
        String::from("something looks off"),
        &span,
        &store,
    )
    .unwrap();
    assert!(matches!(diag.severity, TypstCoreSeverity::Warning));
    assert_eq!(diag.message, "something looks off");
    assert_eq!(diag.range.monaco_range, MonacoRange::new(2, 1, 2, 4));
}

#[test]
fn collect_diagnostics_aggregates_in_order() {
    let mut core = TypstCore::construct();
    core.add_source(String::from("/main.typ"), String::from("one\ntwo"));
    let id = FileId::new(None, String::from("/main.typ"));
    let raw = vec![
        RawDiagnostic {
            severity: TypstCoreSeverity::Error,
            message: String::from("first"),
            span: SpanData { id: Some(id), range: Some((0, 3)) },
        },
        RawDiagnostic {
            severity: TypstCoreSeverity::Warning,
            message: String::from("second"),
            span: SpanData { id: None, range: None },
        },
    ];
    match collect_diagnostics(&raw, &core.sources) {
        TypstCoreError::CompileError(ds) => {
            assert_eq!(ds.len(), 2);
            assert_eq!(ds[0].message, "first");
            assert_eq!(ds[0].range.monaco_range, MonacoRange::new(1, 1, 1, 4));
            assert_eq!(ds[1].message, "second");
            assert_eq!(ds[1].range.monaco_range, MonacoRange::new(0, 0, 0, 0));
        }
        TypstCoreError::DefaultError(m) => panic!("unexpected failure: {}", m),
    }
}

#[test]
fn collect_diagnostics_surfaces_resolution_failures() {
    let core = TypstCore::construct();
    let raw = vec![RawDiagnostic {
        severity: TypstCoreSeverity::Error,
        message: String::from("orphan"),
        span: SpanData {
            id: Some(FileId::new(None, String::from("/gone.typ"))),
            range: Some((0, 1)),
        },
    }];
    match collect_diagnostics(&raw, &core.sources) {
        TypstCoreError::DefaultError(m) => {
            assert_eq!(m, "Failed to get source for id: /gone.typ")
        }
        TypstCoreError::CompileError(_) => panic!("expected a default error"),
    }
}
