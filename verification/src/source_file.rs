//! One editable source buffer: a stable identifier, a text body, and a
//! lazily materialized byte view of the body's UTF-8 encoding.
use vstd::prelude::*;
use vstd::string::*;
use vstd::utf8::*;
use crate::position::{byte_to_char_index, char_at_byte, has_boundary, lemma_byte_pos_mono};
use crate::store::FileId;

verus! {

/// A source buffer. The byte view is computed at most once per text state and
/// is discarded whenever the text changes.
#[derive(Debug)]
pub struct SourceFile {
    /// The identifier under which the buffer is addressed.
    pub id: FileId,
    /// The text body; edited only through [`SourceFile::edit_bytes`].
    pub source: String,
    /// Cached byte view; `None` until asked for, dropped on every edit.
    pub bytes: Option<Vec<u8>>,
}

impl SourceFile {
    /// The buffer's text body.
    pub open spec fn text(self) -> Seq<char> {
        self.source@
    }

    /// The byte view, when materialized, is the UTF-8 encoding of the text.
    pub open spec fn wf(self) -> bool {
        self.bytes matches Some(b) ==> b@ == encode_utf8(self.source@)
    }

    /// Creates a buffer with the given identifier and text; the byte view is
    /// left unmaterialized.
    pub fn new(id: FileId, text: String) -> (r: Self)
        ensures
            r.wf(),
            r.id@ == id@,
            r.text() == text@,
            r.bytes is None,
    {
        SourceFile { id, source: text, bytes: None }
    }

    /// A copy of the buffer's text body.
    pub fn source(&self) -> (r: String)
        ensures
            r@ == self.text(),
    {
        self.source.clone()
    }

    /// Borrow of the text body, for translation and navigation.
    pub fn source_str(&self) -> (r: &str)
        ensures
            r@ == self.text(),
    {
        self.source.as_str()
    }

    /// The UTF-8 encoding of the text body, materialized on first use and
    /// cached until the next edit.
    pub fn bytes(&mut self) -> (r: Vec<u8>)
        requires
            old(self).wf(),
        ensures
            final(self).wf(),
            final(self).id@ == old(self).id@,
            final(self).text() == old(self).text(),
            r@ == encode_utf8(final(self).text()),
    {
        if self.bytes.is_none() {
            let v = self.source.as_str().as_bytes_vec();
            self.bytes = Some(v);
        }
        match &self.bytes {
            Some(b) => {
                let r = b.clone();
                proof {
                    assert(r@ =~= b@);
                }
                r
            },
            None => Vec::new(),
        }
    }

    /// Duplicate of the buffer; the byte view is recomputed on demand.
    pub fn duplicate(&self) -> (r: Self)
        ensures
            r.wf(),
            r.id@ == self.id@,
            r.text() == self.text(),
    {
        SourceFile { id: self.id.clone(), source: self.source.clone(), bytes: None }
    }

    /// Replaces the byte range `start..end` of the text body with
    /// `replacement`, invalidating the byte view. Returns `true` and applies
    /// the splice exactly when both offsets are character boundaries in
    /// order; otherwise leaves the buffer unchanged and returns `false`.
    pub fn edit_bytes(&mut self, start: usize, end: usize, replacement: &str) -> (r: bool)
        requires
            old(self).wf(),
        ensures
            final(self).wf(),
            final(self).id@ == old(self).id@,
            r <==> (has_boundary(old(self).text(), start as int) && has_boundary(
                old(self).text(),
                end as int,
            ) && start <= end),
            r ==> {
                let t = old(self).text();
                let cs = char_at_byte(t, start as int);
                let ce = char_at_byte(t, end as int);
                final(self).text() == t.subrange(0, cs) + replacement@ + t.subrange(
                    ce,
                    t.len() as int,
                )
            },
            !r ==> *final(self) == *old(self),
    {
        let ghost t = self.source@;
        if start > end {
            return false;
        }
        let cs = match byte_to_char_index(self.source.as_str(), start) {
            Some(ci) => ci,
            None => {
                return false;
            },
        };
        let ce = match byte_to_char_index(self.source.as_str(), end) {
            Some(ci) => ci,
            None => {
                return false;
            },
        };
        proof {
            if ce < cs {
                lemma_byte_pos_mono(t, ce as int, cs as int);
            }
        }
        let n = self.source.as_str().unicode_len();
        let pre = self.source.as_str().substring_char(0, cs);
        let post = self.source.as_str().substring_char(ce, n);
        let mut out = String::from_str(pre);
        out.append(replacement);
        out.append(post);
        proof {
            assert(out@ =~= t.subrange(0, cs as int) + replacement@ + t.subrange(
                ce as int,
                t.len() as int,
            ));
        }
        self.source = out;
        self.bytes = None;
        true
    }
}

} // verus!
