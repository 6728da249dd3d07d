//! Compiler diagnostics resolved into editor coordinates.
use vstd::prelude::*;
use crate::error::TypstCoreError;
use crate::range::{spec_from_typst_range, zero_range, SpanData, TypstCoreRange};
use crate::source_file::SourceFile;
use crate::store::{FileIdView, SourceStore};

verus! {

/// Severity of a compiler-reported issue.
#[derive(Clone, Copy, Debug, PartialEq, Eq, Structural)]
pub enum TypstCoreSeverity {
    Error,
    Warning,
}

/// One compiler-reported issue with its source range resolved through the
/// store.
#[derive(Debug)]
pub struct TypstCoreDiagnostics {
    pub severity: TypstCoreSeverity,
    pub message: String,
    pub range: TypstCoreRange,
}

impl TypstCoreDiagnostics {
    /// Builds the editor-facing diagnostic for one compiler issue: keeps the
    /// severity and message, and resolves the issue's span through the store.
    /// Fails (with a structural error) exactly when the span names a file the
    /// store does not hold or its range could not be recovered.
    pub fn from_diagnostics(
        severity: TypstCoreSeverity,
        message: String,
        span: &SpanData,
        sources: &SourceStore,
    ) -> (r: Result<Self, TypstCoreError>)
        requires
            sources.wf(),
        ensures
            r matches Ok(d) ==> d.severity == severity && d.message@ == message@,
            match span.id {
                None => (r matches Ok(d) && d.range.path@ == Seq::<char>::empty()
                    && d.range.monaco_range == zero_range()),
                Some(id) => {
                    if !sources@.contains_key(id@) {
                        r matches Err(e) && e matches TypstCoreError::DefaultError(m) && m@
                            == "Failed to get source for id: "@ + id.vpath@
                    } else {
                        let f = sources@[id@];
                        match span.range {
                            None => (r matches Err(e) && e
                                matches TypstCoreError::DefaultError(m) && m@
                                == "Failed to get range for span"@),
                            Some((a, b)) => (r matches Ok(d) && d.range.path@ == f.id.vpath@
                                && d.range.monaco_range == spec_from_typst_range(
                                f.text(),
                                a as int,
                                b as int,
                            )),
                        }
                    }
                },
            },
    {
        let range = match TypstCoreRange::with_sources(span, sources) {
            Ok(range) => range,
            Err(e) => {
                return Err(e);
            },
        };
        Ok(TypstCoreDiagnostics { severity, message, range })
    }
}

/// One compiler-reported issue before resolution: its severity, message,
/// and span.
#[derive(Debug)]
pub struct RawDiagnostic {
    pub severity: TypstCoreSeverity,
    pub message: String,
    pub span: SpanData,
}

/// True when `rng` is the resolution of `span` against the stored buffers:
/// the zero range for a detached span, and otherwise the span's byte range
/// translated within its (stored) file.
pub open spec fn span_resolved(
    span: SpanData,
    sources: Map<FileIdView, SourceFile>,
    rng: TypstCoreRange,
) -> bool {
    match span.id {
        None => rng.path@ == Seq::<char>::empty() && rng.monaco_range == zero_range(),
        Some(id) => sources.contains_key(id@) && match span.range {
            Some((a, b)) => rng.path@ == sources[id@].id.vpath@ && rng.monaco_range
                == spec_from_typst_range(sources[id@].text(), a as int, b as int),
            None => false,
        },
    }
}

/// Aggregates the compiler's issues into the editor-facing error: each
/// issue's span resolved through the store, in order. When a span cannot be
/// resolved (an unknown file, or a lost range), that resolution failure is
/// the error instead — never a silently dropped diagnostic.
pub fn collect_diagnostics(raw: &Vec<RawDiagnostic>, sources: &SourceStore) -> (r: TypstCoreError)
    requires
        sources.wf(),
    ensures
        r matches TypstCoreError::CompileError(ds) ==> ds@.len() == raw@.len() && forall|i: int|
            0 <= i < ds@.len() ==> {
                let d = #[trigger] ds@[i];
                &&& d.severity == raw@[i].severity
                &&& d.message@ == raw@[i].message@
                &&& span_resolved(raw@[i].span, sources@, d.range)
            },
        r matches TypstCoreError::DefaultError(m) ==> exists|i: int|
            0 <= i < raw@.len() && ((#[trigger] raw@[i]).span.id matches Some(id) && (
            !sources@.contains_key(id@) || raw@[i].span.range is None)),
{
    let count = raw.len();
    let mut ds: Vec<TypstCoreDiagnostics> = Vec::new();
    let mut i: usize = 0;
    while i < count
        invariant
            sources.wf(),
            count == raw@.len(),
            0 <= i <= count,
            ds@.len() == i,
            forall|k: int|
                0 <= k < i ==> {
                    let d = #[trigger] ds@[k];
                    &&& d.severity == raw@[k].severity
                    &&& d.message@ == raw@[k].message@
                    &&& span_resolved(raw@[k].span, sources@, d.range)
                },
        decreases count - i,
    {
        let entry = &raw[i];
        match TypstCoreDiagnostics::from_diagnostics(
            entry.severity,
            entry.message.clone(),
            &entry.span,
            sources,
        ) {
            Ok(d) => {
                ds.push(d);
            },
            Err(e) => {
                proof {
                    assert(raw@[i as int].span.id is Some);
                }
                return e;
            },
        }
        i = i + 1;
    }
    TypstCoreError::CompileError(ds)
}

} // verus!
