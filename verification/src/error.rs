//! Error taxonomy of the bridge: file-access failures as the compiler
//! boundary reports them, package-resolution failures, and the error type
//! surfaced to the editor.
use vstd::prelude::*;
use vstd::string::*;
use crate::diagnostics::TypstCoreDiagnostics;
use crate::package::{PackageView, TypstCorePackage};

verus! {

/// Failure of resolving or unpacking a package bundle.
#[derive(Debug)]
pub enum PackageErrorKind {
    /// The package does not exist in the registry.
    NotFound(TypstCorePackage),
    /// The package exists but not in the requested version.
    VersionNotFound(TypstCorePackage, String),
    /// The archive could not be fetched from the registry.
    NetworkFailed(Option<String>),
    /// The fetched archive could not be decoded.
    MalformedArchive(Option<String>),
    /// Any other failure while resolving the package.
    Other(Option<String>),
}

/// Failure of a file access at the compiler boundary.
#[derive(Debug)]
pub enum FileErrorKind {
    /// No buffer is stored under the requested path.
    NotFound(String),
    /// The file could not be accessed.
    AccessDenied,
    /// The path addresses a directory.
    IsDirectory,
    /// The file is not a source file.
    NotSource,
    /// The file's contents are not valid UTF-8.
    InvalidUtf8,
    /// Resolving the file's package failed.
    Package(PackageErrorKind),
    /// Any other failure.
    Other(Option<String>),
}

/// Error surfaced to the editor: either per-diagnostic compile issues with
/// resolved source ranges, or a structural failure with a message.
#[derive(Debug)]
pub enum TypstCoreError {
    CompileError(Vec<TypstCoreDiagnostics>),
    DefaultError(String),
}

/// Rendering of a package identity: `@namespace/name:version`.
pub open spec fn spec_package_repr(p: PackageView) -> Seq<char> {
    "@"@ + p.namespace + "/"@ + p.name + ":"@ + p.version
}

/// Rendering of an optional failure detail.
pub open spec fn spec_detail(d: Option<String>) -> Seq<char> {
    match d {
        Some(s) => s@,
        None => Seq::<char>::empty(),
    }
}

/// The message that [`TypstCoreError::from`] gives each file error.
pub open spec fn spec_file_error_message(e: FileErrorKind) -> Seq<char> {
    match e {
        FileErrorKind::NotFound(p) => "File not found: "@ + p@,
        FileErrorKind::AccessDenied => "FileError: Access denied"@,
        FileErrorKind::IsDirectory => "FileError: File a directory"@,
        FileErrorKind::NotSource => "FileError: Not a source file"@,
        FileErrorKind::InvalidUtf8 => "FileError: Content is invalid UTF-8"@,
        FileErrorKind::Package(pe) => match pe {
            PackageErrorKind::NotFound(p) => "FileError: Package not found: "@
                + spec_package_repr(p@),
            PackageErrorKind::VersionNotFound(p, v) => "FileError: Package version not found: "@
                + spec_package_repr(p@) + "@"@ + v@,
            PackageErrorKind::NetworkFailed(d) => "FileError: Network failed: "@ + spec_detail(d),
            PackageErrorKind::MalformedArchive(d) => "FileError: Malformed archive: "@
                + spec_detail(d),
            PackageErrorKind::Other(d) => "FileError: Other package error: "@ + spec_detail(d),
        },
        FileErrorKind::Other(d) => "FileError: Other error: "@ + spec_detail(d),
    }
}

/// Builds the `@namespace/name:version` rendering of a package identity.
pub fn package_repr(p: &TypstCorePackage) -> (r: String)
    ensures
        r@ == spec_package_repr(p@),
{
    let mut s = String::from_str("@");
    s.append(p.namespace.as_str());
    s.append("/");
    s.append(p.name.as_str());
    s.append(":");
    s.append(p.version.as_str());
    proof {
        assert(s@ =~= spec_package_repr(p@));
    }
    s
}

fn detail_text(d: &Option<String>) -> (r: &str)
    ensures
        r@ == spec_detail(*d),
{
    match d {
        Some(s) => s.as_str(),
        None => {
            proof {
                reveal_strlit("");
                assert(""@ =~= Seq::<char>::empty());
            }
            ""
        },
    }
}

impl TypstCoreError {
    /// A structural failure with the given message.
    pub fn default_error(message: &str) -> (r: Self)
        ensures
            r matches TypstCoreError::DefaultError(m) && m@ == message@,
    {
        TypstCoreError::DefaultError(String::from_str(message))
    }

    /// Maps a file error to the editor-facing error, rendering the taxonomy
    /// entry into a message. Every file error becomes a `DefaultError`.
    pub fn from(value: FileErrorKind) -> (r: Self)
        ensures
            r matches TypstCoreError::DefaultError(m) && m@ == spec_file_error_message(value),
    {
        let msg = match &value {
            FileErrorKind::NotFound(p) => {
                let mut s = String::from_str("File not found: ");
                s.append(p.as_str());
                s
            },
            FileErrorKind::AccessDenied => String::from_str("FileError: Access denied"),
            FileErrorKind::IsDirectory => String::from_str("FileError: File a directory"),
            FileErrorKind::NotSource => String::from_str("FileError: Not a source file"),
            FileErrorKind::InvalidUtf8 => String::from_str(
                "FileError: Content is invalid UTF-8",
            ),
            FileErrorKind::Package(pe) => match pe {
                PackageErrorKind::NotFound(p) => {
                    let mut s = String::from_str("FileError: Package not found: ");
                    s.append(package_repr(p).as_str());
                    s
                },
                PackageErrorKind::VersionNotFound(p, v) => {
                    let mut s = String::from_str("FileError: Package version not found: ");
                    s.append(package_repr(p).as_str());
                    s.append("@");
                    s.append(v.as_str());
                    s
                },
                PackageErrorKind::NetworkFailed(d) => {
                    let mut s = String::from_str("FileError: Network failed: ");
                    s.append(detail_text(d));
                    s
                },
                PackageErrorKind::MalformedArchive(d) => {
                    let mut s = String::from_str("FileError: Malformed archive: ");
                    s.append(detail_text(d));
                    s
                },
                PackageErrorKind::Other(d) => {
                    let mut s = String::from_str("FileError: Other package error: ");
                    s.append(detail_text(d));
                    s
                },
            },
            FileErrorKind::Other(d) => {
                let mut s = String::from_str("FileError: Other error: ");
                s.append(detail_text(d));
                s
            },
        };
        proof {
            assert(msg@ =~= spec_file_error_message(value));
        }
        TypstCoreError::DefaultError(msg)
    }
}

} // verus!
