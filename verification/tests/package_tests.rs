use typst_core::error::{FileErrorKind, PackageErrorKind, TypstCoreError};
use typst_core::package::{package_url, TypstCorePackage};
use typst_core::store::FileId;
use typst_core::typst_core::{Retrieval, TypstCore};

fn pkg(name: &str, version: &str) -> TypstCorePackage {
    TypstCorePackage {
        name: String::from(name),
        namespace: String::from("preview"),
        version: String::from(version),
    }
}

/// One ustar-style entry: a 512-byte header (name, octal size, type flag),
/// then the data padded to whole blocks.
fn tar_entry(path: &str, data: &[u8], typeflag: u8) -> Vec<u8> {
    let mut header = vec![0u8; 512];
    header[..path.len()].copy_from_slice(path.as_bytes());
    let size = format!("{:011o}\0", data.len());
    header[124..124 + 12].copy_from_slice(size.as_bytes());
    header[156] = typeflag;
    let mut out = header;
    out.extend_from_slice(data);
    let pad = (512 - data.len() % 512) % 512;
    out.extend_from_slice(&vec![0u8; pad]);
    out
}

fn tar_archive(entries: &[(&str, &[u8], u8)]) -> Vec<u8> {
    let mut out = Vec::new();
    for (path, data, flag) in entries {
        out.extend_from_slice(&tar_entry(path, data, *flag));
    }
    out.extend_from_slice(&vec![0u8; 1024]);
    out
}

fn gzip(data: &[u8]) -> Vec<u8> {
    let mut encoder =
        flate2::write::GzEncoder::new(Vec::new(), flate2::Compression::default());
    std::io::Write::write_all(&mut encoder, data).unwrap();
    encoder.finish().unwrap()
}

#[test]
fn package_url_scheme() {
    let url = package_url(&pkg("example", "0.1.0"));
    assert_eq!(
        url,
        "https://packages.typst.org/preview/example-0.1.0.tar.gz"
    );
}

#[test]
fn resolve_twice_fetches_at_most_once() {
    // P2 as a scenario: the first lookup asks for one fetch; after the
    // install, the same identity is served entirely from the store.
    let mut core = TypstCore::construct();
    let package = pkg("example", "0.1.0");
    let id = FileId::new(Some(package.clone()), String::from("lib.typ"));

    let mut fetches = 0;
    let first = core.retrieve_source(&id);
    let url = match first {
        Retrieval::FetchRequired(url) => {
            fetches += 1;
            url
        }
        other => panic!("expected a fetch request, got {:?}", other),
    };
    assert_eq!(
        url,
        "https://packages.typst.org/preview/example-0.1.0.tar.gz"
    );

    let archive = gzip(&tar_archive(&[
        ("lib.typ", b"#let answer = 42", b'0'),
        ("sub/util.typ", b"#let twice(x) = 2 * x", b'0'),
        ("assets", b"", b'5'),
    ]));
    core.install_package(&package, &archive).unwrap();

    for _ in 0..2 {
        match core.retrieve_source(&id) {
            Retrieval::Found(file) => assert_eq!(file.source(), "#let answer = 42"),
            Retrieval::FetchRequired(_) => {
                fetches += 1;
                panic!("resolved package asked for another fetch")
            }
            other => panic!("expected the stored buffer, got {:?}", other),
        }
    }
    assert_eq!(fetches, 1);

    let nested = FileId::new(Some(package.clone()), String::from("sub/util.typ"));
    match core.retrieve_source(&nested) {
        Retrieval::Found(file) => assert_eq!(file.source(), "#let twice(x) = 2 * x"),
        other => panic!("expected the stored buffer, got {:?}", other),
    }
    // The directory entry was skipped, so an identifier for it is missing.
    let dir = FileId::new(Some(package.clone()), String::from("assets"));
    match core.retrieve_source(&dir) {
        Retrieval::Failed(FileErrorKind::NotFound(path)) => assert_eq!(path, "assets"),
        other => panic!("expected not-found, got {:?}", other),
    }
}

#[test]
fn plain_identifiers_never_fetch() {
    let mut core = TypstCore::construct();
    core.add_source(String::from("/main.typ"), String::from("Hello"));
    let id = FileId::new(None, String::from("/main.typ"));
    match core.retrieve_source(&id) {
        Retrieval::Found(file) => assert_eq!(file.source(), "Hello"),
        other => panic!("expected the stored buffer, got {:?}", other),
    }
    let missing = FileId::new(None, String::from("/other.typ"));
    assert!(matches!(
        core.retrieve_source(&missing),
        Retrieval::Failed(FileErrorKind::NotFound(_))
    ));
}

#[test]
fn empty_fetch_is_a_network_failure() {
    let mut core = TypstCore::construct();
    let package = pkg("example", "0.1.0");
    let err = core.install_package(&package, &Vec::new()).unwrap_err();
    assert!(matches!(err, PackageErrorKind::NetworkFailed(None)));
    let id = FileId::new(Some(package), String::from("lib.typ"));
    // The failure left nothing resolved: the next lookup still fetches.
    assert!(matches!(
        core.retrieve_source(&id),
        Retrieval::FetchRequired(_)
    ));
}

#[test]
fn garbage_bytes_are_a_malformed_archive() {
    let mut core = TypstCore::construct();
    let package = pkg("example", "0.1.0");
    let err = core
        .install_package(&package, &vec![1, 2, 3, 4])
        .unwrap_err();
    assert!(matches!(err, PackageErrorKind::MalformedArchive(None)));
}

#[test]
fn truncated_tar_is_a_malformed_archive() {
    let mut core = TypstCore::construct();
    let package = pkg("example", "0.1.0");
    let mut archive = tar_archive(&[("lib.typ", b"#let x = 1", b'0')]);
    // Cut inside the entry's data: the declared size exceeds what is there.
    archive.truncate(515);
    let err = core.install_package(&package, &gzip(&archive)).unwrap_err();
    assert!(matches!(err, PackageErrorKind::MalformedArchive(None)));
    // Cut inside the header block itself.
    let mut short = tar_entry("lib.typ", b"x", b'0');
    short.truncate(500);
    let err = core.install_package(&package, &gzip(&short)).unwrap_err();
    assert!(matches!(err, PackageErrorKind::MalformedArchive(None)));
}

#[test]
fn invalid_path_bytes_are_a_malformed_archive() {
    let mut core = TypstCore::construct();
    let package = pkg("example", "0.1.0");
    let mut entry = tar_entry("lib.typ", b"text", b'0');
    entry[0] = 0xff;
    entry[1] = 0xfe;
    let mut archive = entry;
    archive.extend_from_slice(&vec![0u8; 1024]);
    let err = core.install_package(&package, &gzip(&archive)).unwrap_err();
    assert!(matches!(err, PackageErrorKind::MalformedArchive(None)));
    assert!(matches!(
        core.retrieve_source(&FileId::new(
            Some(package),
            String::from("lib.typ")
        )),
        Retrieval::FetchRequired(_)
    ));
}

#[test]
fn invalid_contents_are_replaced_lossily() {
    let mut core = TypstCore::construct();
    let package = pkg("example", "0.1.0");
    let archive = gzip(&tar_archive(&[("lib.typ", &[b'h', b'i', 0xff][..], b'0')]));
    core.install_package(&package, &archive).unwrap();
    let id = FileId::new(Some(package), String::from("lib.typ"));
    match core.retrieve_source(&id) {
        Retrieval::Found(file) => assert_eq!(file.source(), "hi\u{FFFD}"),
        other => panic!("expected the stored buffer, got {:?}", other),
    }
}

#[test]
fn duplicated_paths_overwrite_never_duplicate() {
    // Later entries for the same path overwrite earlier ones: the stored
    // buffer holds the last entry's contents.
    let mut core = TypstCore::construct();
    let package = pkg("example", "0.1.0");
    let archive = gzip(&tar_archive(&[
        ("lib.typ", b"first", b'0'),
        ("lib.typ", b"second", b'0'),
    ]));
    core.install_package(&package, &archive).unwrap();
    let id = FileId::new(Some(package), String::from("lib.typ"));
    match core.retrieve_source(&id) {
        Retrieval::Found(file) => assert_eq!(file.source(), "second"),
        other => panic!("expected the stored buffer, got {:?}", other),
    }
}

#[test]
fn ustar_prefix_field_extends_the_path() {
    let mut core = TypstCore::construct();
    let package = pkg("example", "0.1.0");
    let mut entry = tar_entry("file.typ", b"content", b'0');
    entry[345..345 + 4].copy_from_slice(b"deep");
    let mut archive = entry;
    archive.extend_from_slice(&vec![0u8; 1024]);
    core.install_package(&package, &gzip(&archive)).unwrap();
    let id = FileId::new(Some(package), String::from("deep/file.typ"));
    assert!(matches!(core.retrieve_source(&id), Retrieval::Found(_)));
}

#[test]
fn file_error_messages() {
    let e = TypstCoreError::from(FileErrorKind::NotFound(String::from("/main.typ")));
    match e {
        TypstCoreError::DefaultError(m) => assert_eq!(m, "File not found: /main.typ"),
        TypstCoreError::CompileError(_) => panic!("expected a default error"),
    }
    let e = TypstCoreError::from(FileErrorKind::Package(PackageErrorKind::NotFound(pkg(
        "example", "0.1.0",
    ))));
    match e {
        TypstCoreError::DefaultError(m) => {
            assert_eq!(m, "FileError: Package not found: @preview/example:0.1.0")
        }
        TypstCoreError::CompileError(_) => panic!("expected a default error"),
    }
    let e = TypstCoreError::from(FileErrorKind::Package(PackageErrorKind::NetworkFailed(
        Some(String::from("timeout")),
    )));
    match e {
        TypstCoreError::DefaultError(m) => {
            assert_eq!(m, "FileError: Network failed: timeout")
        }
        TypstCoreError::CompileError(_) => panic!("expected a default error"),
    }
    let e = TypstCoreError::from(FileErrorKind::InvalidUtf8);
    match e {
        TypstCoreError::DefaultError(m) => {
            assert_eq!(m, "FileError: Content is invalid UTF-8")
        }
        TypstCoreError::CompileError(_) => panic!("expected a default error"),
    }
}

#[test]
fn package_identity_is_structural() {
    // The same identity compares equal wherever it came from.
    assert!(pkg("a", "1.0.0") == pkg("a", "1.0.0"));
    assert!(pkg("a", "1.0.0") != pkg("a", "1.0.1"));
    assert!(pkg("a", "1.0.0") != pkg("b", "1.0.0"));
}
