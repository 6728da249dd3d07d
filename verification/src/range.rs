//! Editor-facing ranges: 1-based (line, UTF-16 column) rectangles as editor
//! widgets use them, translation to and from byte ranges, and resolution of
//! compiler spans against stored buffers.
use vstd::prelude::*;
use vstd::string::*;
use crate::error::TypstCoreError;
use crate::position::{
    byte_pos, byte_to_column, byte_to_line, byte_to_utf16, char_at_byte, coordinate_to_offset,
    has_boundary, is_line_start, lemma_boundary_unique, lemma_coordinate_round_trip,
    lemma_line_start_exists, lemma_line_start_unique, lemma_nl_mono, lemma_utf16_pos_mono,
    line_start_of, line_to_byte, nl_before, offset_to_coordinate, utf16_pos, utf16_to_byte,
    utf16_total,
};
use crate::source_file::SourceFile;
use crate::store::{FileId, SourceStore};

verus! {

/// An editor range: 1-based line numbers and 1-based UTF-16 columns, the
/// convention of common editor widgets. The zero value marks an unresolved
/// range.
#[derive(Clone, Copy, Debug, PartialEq, Eq, Structural)]
pub struct MonacoRange {
    pub begin_line_number: usize,
    pub begin_column: usize,
    pub end_line_number: usize,
    pub end_column: usize,
}

/// The all-zero range, used where a span cannot be resolved to coordinates.
pub open spec fn zero_range() -> MonacoRange {
    MonacoRange { begin_line_number: 0, begin_column: 0, end_line_number: 0, end_column: 0 }
}

impl Default for MonacoRange {
    fn default() -> (r: Self)
        ensures
            r == zero_range(),
    {
        MonacoRange { begin_line_number: 0, begin_column: 0, end_line_number: 0, end_column: 0 }
    }
}

/// A compiler span, resolved as far as the compiler could: the file it
/// belongs to (absent for detached spans) and its byte range in that file
/// (absent when the span's range could not be recovered).
#[derive(Debug)]
pub struct SpanData {
    pub id: Option<FileId>,
    pub range: Option<(usize, usize)>,
}

/// A resolved range: the path of the file it lies in and its editor
/// coordinates.
#[derive(Debug)]
pub struct TypstCoreRange {
    pub path: String,
    pub monaco_range: MonacoRange,
}

impl Clone for TypstCoreRange {
    fn clone(&self) -> (r: Self)
        ensures
            r.path@ == self.path@,
            r.monaco_range == self.monaco_range,
    {
        TypstCoreRange { path: self.path.clone(), monaco_range: self.monaco_range }
    }
}

/// Editor coordinates of the byte range `a..b`: each endpoint translated by
/// [`offset_to_coordinate`] and moved to the 1-based convention. A range
/// whose endpoints do not both translate (or whose coordinates do not fit
/// the machine word) collapses to the zero range.
pub open spec fn spec_from_typst_range(t: Seq<char>, a: int, b: int) -> MonacoRange {
    match (offset_to_coordinate(t, a), offset_to_coordinate(t, b)) {
        (Some(begin), Some(end)) => {
            if begin.0 + 1 <= usize::MAX && begin.1 + 1 <= usize::MAX && end.0 + 1 <= usize::MAX
                && end.1 + 1 <= usize::MAX {
                MonacoRange {
                    begin_line_number: (begin.0 + 1) as usize,
                    begin_column: (begin.1 + 1) as usize,
                    end_line_number: (end.0 + 1) as usize,
                    end_column: (end.1 + 1) as usize,
                }
            } else {
                zero_range()
            }
        },
        _ => zero_range(),
    }
}

/// Saturating move from the 1-based editor convention to 0-based counting.
pub open spec fn spec_to_zero_based(x: int) -> int {
    if x <= 0 {
        0
    } else {
        x - 1
    }
}

/// Byte range addressed by an editor range: each corner translated by
/// [`coordinate_to_offset`] after moving to 0-based counting; an
/// untranslatable range collapses to the empty range at offset zero.
pub open spec fn spec_to_typst_range(t: Seq<char>, mr: MonacoRange) -> (int, int) {
    let begin = coordinate_to_offset(
        t,
        spec_to_zero_based(mr.begin_line_number as int),
        spec_to_zero_based(mr.begin_column as int),
    );
    let end = coordinate_to_offset(
        t,
        spec_to_zero_based(mr.end_line_number as int),
        spec_to_zero_based(mr.end_column as int),
    );
    match (begin, end) {
        (Some(a), Some(b)) => (a, b),
        _ => (0, 0),
    }
}

/// Byte offset addressed by a 0-based editor position: the UTF-16 offset of
/// the line start plus the column, mapped back to byte space.
pub fn monaco_pos_to_typst_offset(source: &SourceFile, line: usize, column: usize) -> (r: Option<
    usize,
>)
    ensures
        (r is Some) <==> (coordinate_to_offset(source.text(), line as int, column as int)
            is Some),
        r matches Some(b) ==> coordinate_to_offset(source.text(), line as int, column as int)
            == Some(b as int),
{
    let text = source.source_str();
    let ghost t = source.text();
    let byte_line_offset = match line_to_byte(text, line) {
        Some(b) => b,
        None => {
            return None;
        },
    };
    proof {
        let ls = line_start_of(t, line as int);
        assert(0 <= ls <= t.len() && byte_pos(t, ls) == byte_line_offset as int);
    }
    let utf16_line_offset = match byte_to_utf16(text, byte_line_offset) {
        Some(u) => u,
        None => {
            return None;
        },
    };
    proof {
        let ls = line_start_of(t, line as int);
        lemma_boundary_unique(t, ls, char_at_byte(t, byte_line_offset as int));
    }
    let limit = utf16_total(text);
    proof {
        let ls = line_start_of(t, line as int);
        lemma_utf16_pos_mono(t, ls, t.len() as int);
    }
    if column > limit - utf16_line_offset {
        proof {
            let u = utf16_line_offset as int + column as int;
            assert forall|cj: int| 0 <= cj <= t.len() implies utf16_pos(t, cj) != u by {
                lemma_utf16_pos_mono(t, cj, t.len() as int);
            }
        }
        return None;
    }
    let utf16_offset = utf16_line_offset + column;
    utf16_to_byte(text, utf16_offset)
}

impl MonacoRange {
    /// Builds a range from its four coordinates.
    pub fn new(
        begin_line_number: usize,
        begin_column: usize,
        end_line_number: usize,
        end_column: usize,
    ) -> (r: Self)
        ensures
            r == (MonacoRange { begin_line_number, begin_column, end_line_number, end_column }),
    {
        MonacoRange { begin_line_number, begin_column, end_line_number, end_column }
    }

    /// Editor coordinates of the byte range `range` of `source`.
    pub fn from_typst_range(range: (usize, usize), source: &SourceFile) -> (r: Self)
        ensures
            r == spec_from_typst_range(source.text(), range.0 as int, range.1 as int),
    {
        let text = source.source_str();
        let ghost t = source.text();
        let begin_line = byte_to_line(text, range.0);
        let begin_col = byte_to_column(text, range.0);
        let end_line = byte_to_line(text, range.1);
        let end_col = byte_to_column(text, range.1);
        match (begin_line, begin_col, end_line, end_col) {
            (Some(bl), Some(bc), Some(el), Some(ec)) => {
                if bl < usize::MAX && bc < usize::MAX && el < usize::MAX && ec < usize::MAX {
                    MonacoRange {
                        begin_line_number: bl + 1,
                        begin_column: bc + 1,
                        end_line_number: el + 1,
                        end_column: ec + 1,
                    }
                } else {
                    MonacoRange::default()
                }
            },
            _ => MonacoRange::default(),
        }
    }

    /// Byte range of `source` addressed by this editor range.
    pub fn to_typst_range(&self, source: &SourceFile) -> (r: (usize, usize))
        ensures
            r.0 as int == spec_to_typst_range(source.text(), *self).0,
            r.1 as int == spec_to_typst_range(source.text(), *self).1,
    {
        let bl = if self.begin_line_number == 0 {
            0
        } else {
            self.begin_line_number - 1
        };
        let bc = if self.begin_column == 0 {
            0
        } else {
            self.begin_column - 1
        };
        let el = if self.end_line_number == 0 {
            0
        } else {
            self.end_line_number - 1
        };
        let ec = if self.end_column == 0 {
            0
        } else {
            self.end_column - 1
        };
        let begin = monaco_pos_to_typst_offset(source, bl, bc);
        let end = monaco_pos_to_typst_offset(source, el, ec);
        match (begin, end) {
            (Some(a), Some(b)) => (a, b),
            _ => (0, 0),
        }
    }
}

impl TypstCoreRange {
    /// Resolves a span against the buffer it belongs to: a detached span
    /// becomes the zero range, a span without a recoverable byte range is a
    /// structural error, and otherwise the byte range is translated to
    /// editor coordinates under the buffer's path.
    pub fn with_source(span: &SpanData, source: &SourceFile) -> (r: Result<Self, TypstCoreError>)
        ensures
            span.id is None ==> (r matches Ok(v) && v.path@ == Seq::<char>::empty()
                && v.monaco_range == zero_range()),
            span.id is Some ==> match span.range {
                None => (r matches Err(e) && e matches TypstCoreError::DefaultError(m) && m@
                    == "Failed to get range for span"@),
                Some((a, b)) => (r matches Ok(v) && v.path@ == source.id.vpath@ && v.monaco_range
                    == spec_from_typst_range(source.text(), a as int, b as int)),
            },
    {
        if span.id.is_none() {
            return Ok(
                TypstCoreRange { path: String::new(), monaco_range: MonacoRange::default() },
            );
        }
        match &span.range {
            None => Err(TypstCoreError::default_error("Failed to get range for span")),
            Some(range) => Ok(
                TypstCoreRange {
                    path: source.id.vpath.clone(),
                    monaco_range: MonacoRange::from_typst_range(*range, source),
                },
            ),
        }
    }

    /// Resolves a span by first looking its file up in the store; an unknown
    /// file is a structural error.
    pub fn with_sources(span: &SpanData, sources: &SourceStore) -> (r: Result<
        Self,
        TypstCoreError,
    >)
        requires
            sources.wf(),
        ensures
            match span.id {
                None => (r matches Ok(v) && v.path@ == Seq::<char>::empty() && v.monaco_range
                    == zero_range()),
                Some(id) => {
                    if !sources@.contains_key(id@) {
                        r matches Err(e) && e matches TypstCoreError::DefaultError(m) && m@
                            == "Failed to get source for id: "@ + id.vpath@
                    } else {
                        let f = sources@[id@];
                        match span.range {
                            None => (r matches Err(e) && e
                                matches TypstCoreError::DefaultError(m) && m@
                                == "Failed to get range for span"@),
                            Some((a, b)) => (r matches Ok(v) && v.path@ == f.id.vpath@
                                && v.monaco_range == spec_from_typst_range(
                                f.text(),
                                a as int,
                                b as int,
                            )),
                        }
                    }
                },
            },
    {
        match &span.id {
            None => Ok(
                TypstCoreRange { path: String::new(), monaco_range: MonacoRange::default() },
            ),
            Some(id) => match sources.get(id) {
                None => {
                    let mut m = String::from_str("Failed to get source for id: ");
                    m.append(id.vpath.as_str());
                    Err(TypstCoreError::DefaultError(m))
                },
                Some(file) => {
                    proof {
                        crate::store::lemma_map_of_wf(sources.files@);
                    }
                    TypstCoreRange::with_source(span, file)
                },
            },
        }
    }
}

/// Round trip at the editor layer: the 1-based coordinate that
/// [`spec_from_typst_range`] gives a character-boundary byte offset leads
/// back to that offset under [`spec_to_typst_range`]'s corner translation.
pub proof fn lemma_monaco_round_trip(t: Seq<char>, b: int)
    requires
        has_boundary(t, b),
        offset_to_coordinate(t, b) matches Some(lc) && lc.0 + 1 <= usize::MAX && lc.1 + 1
            <= usize::MAX,
    ensures
        offset_to_coordinate(t, b) matches Some(lc) ==> coordinate_to_offset(
            t,
            spec_to_zero_based(lc.0 + 1),
            spec_to_zero_based(lc.1 + 1),
        ) == Some(b),
        offset_to_coordinate(t, b) matches Some(lc) ==> lc.0 >= 0 && lc.1 >= 0,
{
    let ci = char_at_byte(t, b);
    assert(0 <= ci <= t.len() && byte_pos(t, ci) == b);
    lemma_nl_mono(t, 0, ci);
    let l = nl_before(t, ci);
    lemma_line_start_exists(t, ci);
    let ls0 = choose|ls: int|
        is_line_start(t, ls) && ls <= ci && nl_before(t, ls) == nl_before(t, ci);
    assert(is_line_start(t, ls0) && nl_before(t, ls0) == l);
    lemma_line_start_unique(t, line_start_of(t, l), ls0);
    lemma_utf16_pos_mono(t, ls0, ci);
    lemma_coordinate_round_trip(t, b);
}

/// Round trip at the range layer: a byte range whose endpoints are
/// character boundaries, translated to editor coordinates by
/// [`spec_from_typst_range`] and back by [`spec_to_typst_range`], is
/// unchanged — given only that the 1-based coordinates fit the machine
/// word. This is the law behind [`MonacoRange::from_typst_range`] followed
/// by [`MonacoRange::to_typst_range`].
pub proof fn lemma_range_round_trip(t: Seq<char>, a: int, b: int)
    requires
        has_boundary(t, a),
        has_boundary(t, b),
        offset_to_coordinate(t, a) matches Some(begin) && begin.0 + 1 <= usize::MAX && begin.1
            + 1 <= usize::MAX,
        offset_to_coordinate(t, b) matches Some(end) && end.0 + 1 <= usize::MAX && end.1 + 1
            <= usize::MAX,
    ensures
        spec_to_typst_range(t, spec_from_typst_range(t, a, b)) == (a, b),
{
    lemma_monaco_round_trip(t, a);
    lemma_monaco_round_trip(t, b);
    let mr = spec_from_typst_range(t, a, b);
    match (offset_to_coordinate(t, a), offset_to_coordinate(t, b)) {
        (Some(begin), Some(end)) => {
            assert(mr.begin_line_number as int == begin.0 + 1);
            assert(mr.begin_column as int == begin.1 + 1);
            assert(mr.end_line_number as int == end.0 + 1);
            assert(mr.end_column as int == end.1 + 1);
            assert(spec_to_zero_based(begin.0 + 1) == begin.0);
            assert(spec_to_zero_based(begin.1 + 1) == begin.1);
            assert(spec_to_zero_based(end.0 + 1) == end.0);
            assert(spec_to_zero_based(end.1 + 1) == end.1);
            assert(coordinate_to_offset(t, begin.0, begin.1) == Some(a));
            assert(coordinate_to_offset(t, end.0, end.1) == Some(b));
        },
        _ => {
            assert(false);
        },
    }
}

} // verus!
