//! Keyed storage of source buffers: file identifiers and the source store.
use vstd::prelude::*;
use vstd::string::*;
use vstd::pervasive::VecAdditionalExecFns;
use crate::package::{PackageView, TypstCorePackage};
use crate::position::{char_at_byte, has_boundary};
use crate::source_file::SourceFile;

verus! {

/// Mathematical view of a file identifier.
pub ghost struct FileIdView {
    pub package: Option<PackageView>,
    pub vpath: Seq<char>,
}

/// Stable key addressing one source buffer: an optional package scope and a
/// rooted virtual path within that scope. Equality is structural.
#[derive(Debug)]
pub struct FileId {
    pub package: Option<TypstCorePackage>,
    pub vpath: String,
}

impl View for FileId {
    type V = FileIdView;

    open spec fn view(&self) -> FileIdView {
        FileIdView {
            package: match self.package {
                Some(p) => Some(p@),
                None => None,
            },
            vpath: self.vpath@,
        }
    }
}

impl FileId {
    /// Creates an identifier from its package scope and virtual path.
    pub fn new(package: Option<TypstCorePackage>, vpath: String) -> (r: Self)
        ensures
            r@ == (FileIdView {
                package: match package {
                    Some(p) => Some(p@),
                    None => None,
                },
                vpath: vpath@,
            }),
    {
        FileId { package, vpath }
    }
}

impl Clone for FileId {
    fn clone(&self) -> (r: Self)
        ensures
            r@ == self@,
    {
        FileId {
            package: match &self.package {
                Some(p) => Some(p.clone()),
                None => None,
            },
            vpath: self.vpath.clone(),
        }
    }
}

impl PartialEq for FileId {
    fn eq(&self, other: &Self) -> (r: bool) {
        let package_eq = match (&self.package, &other.package) {
            (Some(a), Some(b)) => a == b,
            (None, None) => true,
            _ => false,
        };
        package_eq && self.vpath == other.vpath
    }
}

impl vstd::std_specs::cmp::PartialEqSpecImpl for FileId {
    open spec fn obeys_eq_spec() -> bool {
        true
    }

    open spec fn eq_spec(&self, other: &Self) -> bool {
        self@ == other@
    }
}

/// The map that a sequence of buffers represents; later entries shadow
/// earlier ones with the same identifier (a well-formed store has no such
/// duplicates).
pub open spec fn map_of(s: Seq<SourceFile>) -> Map<FileIdView, SourceFile>
    decreases s.len(),
{
    if s.len() == 0 {
        Map::empty()
    } else {
        map_of(s.drop_last()).insert(s.last().id@, s.last())
    }
}

/// Agnostic storage of source buffers keyed by [`FileId`]. The store does
/// not interpret package semantics.
pub struct SourceStore {
    /// The buffers, with pairwise distinct identifiers; mutated only through
    /// the store's own methods.
    pub files: Vec<SourceFile>,
}

impl View for SourceStore {
    type V = Map<FileIdView, SourceFile>;

    open spec fn view(&self) -> Map<FileIdView, SourceFile> {
        map_of(self.files@)
    }
}

/// No two buffers share an identifier, and every buffer is well formed.
pub open spec fn entries_wf(s: Seq<SourceFile>) -> bool {
    &&& forall|i: int, j: int| 0 <= i < j < s.len() ==> s[i].id@ != s[j].id@
    &&& forall|i: int| 0 <= i < s.len() ==> (#[trigger] s[i]).wf()
}

/// In a duplicate-free sequence, the represented map holds exactly the
/// entries of the sequence.
pub proof fn lemma_map_of_entries(s: Seq<SourceFile>)
    requires
        entries_wf(s),
    ensures
        forall|k: FileIdView| #[trigger]
            map_of(s).contains_key(k) <==> exists|i: int| 0 <= i < s.len() && s[i].id@ == k,
        forall|i: int|
            0 <= i < s.len() ==> map_of(s).contains_key(#[trigger] s[i].id@) && map_of(s)[s[i].id@]
                == s[i],
    decreases s.len(),
{
    if s.len() > 0 {
        lemma_map_of_entries(s.drop_last());
        assert forall|k: FileIdView| #[trigger]
            map_of(s).contains_key(k) implies exists|i: int|
            0 <= i < s.len() && s[i].id@ == k by {
            if k == s.last().id@ {
                assert(s[s.len() - 1].id@ == k);
            } else {
                assert(map_of(s.drop_last()).contains_key(k));
                let i = choose|i: int| 0 <= i < s.drop_last().len() && s.drop_last()[i].id@ == k;
                assert(s.drop_last()[i] == s[i]);
                assert(0 <= i < s.len() && s[i].id@ == k);
            }
        }
        assert forall|i: int| 0 <= i < s.len() implies map_of(s).contains_key(
            #[trigger] s[i].id@,
        ) && map_of(s)[s[i].id@] == s[i] by {
            if i < s.len() - 1 {
                assert(s.drop_last()[i] == s[i]);
                assert(s[i].id@ != s.last().id@);
            }
        }
    }
}

/// Every value held by the represented map of a well-formed sequence is a
/// well-formed buffer whose own identifier is its key.
pub proof fn lemma_map_of_wf(s: Seq<SourceFile>)
    requires
        entries_wf(s),
    ensures
        forall|k: FileIdView| #[trigger]
            map_of(s).contains_key(k) ==> map_of(s)[k].wf() && map_of(s)[k].id@ == k,
{
    lemma_map_of_entries(s);
    assert forall|k: FileIdView| #[trigger] map_of(s).contains_key(k) implies map_of(s)[k].wf()
        && map_of(s)[k].id@ == k by {
        let i = choose|i: int| 0 <= i < s.len() && s[i].id@ == k;
        assert(s[i].wf());
    }
}

/// Replacing the entry at `i` updates the represented map at its key.
proof fn lemma_map_of_update(s: Seq<SourceFile>, i: int, f: SourceFile)
    requires
        entries_wf(s),
        0 <= i < s.len(),
        s[i].id@ == f.id@,
    ensures
        map_of(s.update(i, f)) =~= map_of(s).insert(f.id@, f),
    decreases s.len(),
{
    let t = s.update(i, f);
    if i == s.len() - 1 {
        assert(t.drop_last() =~= s.drop_last());
    } else {
        assert(t.drop_last() =~= s.drop_last().update(i, f));
        assert(s.drop_last()[i] == s[i]);
        lemma_map_of_update(s.drop_last(), i, f);
        assert(t.last() == s.last());
        assert(f.id@ != s.last().id@);
    }
}

/// Removing the entry at `i` removes its key from the represented map.
proof fn lemma_map_of_remove(s: Seq<SourceFile>, i: int)
    requires
        entries_wf(s),
        0 <= i < s.len(),
    ensures
        map_of(s.remove(i)) =~= map_of(s).remove(s[i].id@),
    decreases s.len(),
{
    lemma_map_of_entries(s);
    if i == s.len() - 1 {
        assert(s.remove(i) =~= s.drop_last());
        lemma_map_of_entries(s.drop_last());
        assert forall|k: FileIdView| map_of(s.drop_last()).contains_key(k) implies k
            != s[i].id@ by {
            let j = choose|j: int|
                0 <= j < s.drop_last().len() && s.drop_last()[j].id@ == k;
            assert(s[j].id@ == k);
        }
    } else {
        assert(s.remove(i).drop_last() =~= s.drop_last().remove(i));
        assert(s.remove(i).last() == s.last());
        assert(s.drop_last()[i] == s[i]);
        lemma_map_of_remove(s.drop_last(), i);
        assert(s[i].id@ != s.last().id@);
    }
}

impl SourceStore {
    /// All invariants of the store's entries hold.
    pub open spec fn wf(self) -> bool {
        entries_wf(self.files@)
    }

    /// An empty store.
    pub fn new() -> (r: Self)
        ensures
            r.wf(),
            r@ == Map::<FileIdView, SourceFile>::empty(),
    {
        SourceStore { files: Vec::new() }
    }

    /// Index of the entry with the given identifier, if any.
    fn index_of(&self, id: &FileId) -> (r: Option<usize>)
        requires
            self.wf(),
        ensures
            r matches Some(i) ==> i < self.files@.len() && self.files@[i as int].id@ == id@,
            r is None ==> forall|i: int| 0 <= i < self.files@.len() ==> self.files@[i].id@ != id@,
    {
        let mut i: usize = 0;
        let n = self.files.len();
        while i < n
            invariant
                n == self.files@.len(),
                0 <= i <= n,
                forall|j: int| 0 <= j < i ==> self.files@[j].id@ != id@,
            decreases n - i,
        {
            if &self.files[i].id == id {
                return Some(i);
            }
            i = i + 1;
        }
        None
    }

    /// True when the store holds a buffer under the given identifier.
    pub fn contains(&self, id: &FileId) -> (r: bool)
        requires
            self.wf(),
        ensures
            r == self@.contains_key(id@),
    {
        proof {
            lemma_map_of_entries(self.files@);
        }
        self.index_of(id).is_some()
    }

    /// Inserts a buffer, overwriting (never duplicating) any existing entry
    /// with the same identifier.
    pub fn insert(&mut self, file: SourceFile)
        requires
            old(self).wf(),
            file.wf(),
        ensures
            final(self).wf(),
            final(self)@ == old(self)@.insert(file.id@, file),
    {
        proof {
            lemma_map_of_entries(self.files@);
        }
        match self.index_of(&file.id) {
            Some(i) => {
                proof {
                    lemma_map_of_update(self.files@, i as int, file);
                }
                self.files.set(i, file);
            },
            None => {
                proof {
                    assert(self.files@.push(file).drop_last() =~= self.files@);
                }
                self.files.push(file);
            },
        }
    }

    /// Removes the buffer with the given identifier, if present.
    pub fn remove(&mut self, id: &FileId)
        requires
            old(self).wf(),
        ensures
            final(self).wf(),
            final(self)@ == old(self)@.remove(id@),
    {
        proof {
            lemma_map_of_entries(self.files@);
        }
        match self.index_of(id) {
            Some(i) => {
                proof {
                    lemma_map_of_remove(self.files@, i as int);
                    assert(forall|a: int, b: int|
                        0 <= a < b < self.files@.remove(i as int).len()
                            ==> self.files@.remove(i as int)[a].id@ != self.files@.remove(
                            i as int,
                        )[b].id@);
                }
                self.files.remove(i);
            },
            None => {
                proof {
                    assert(self@ =~= self@.remove(id@));
                }
            },
        }
    }

    /// Borrow of the buffer with the given identifier.
    pub fn get(&self, id: &FileId) -> (r: Option<&SourceFile>)
        requires
            self.wf(),
        ensures
            r matches Some(f) ==> self@.contains_key(id@) && *f == self@[id@],
            r is None ==> !self@.contains_key(id@),
    {
        proof {
            lemma_map_of_entries(self.files@);
        }
        match self.index_of(id) {
            Some(i) => Some(&self.files[i]),
            None => None,
        }
    }

    /// Splices the byte range `start..end` of the buffer addressed by `id`,
    /// exactly as [`SourceFile::edit_bytes`] does. Returns `None` when no
    /// buffer has that identifier, otherwise whether the edit applied.
    pub fn edit_bytes(&mut self, id: &FileId, start: usize, end: usize, replacement: &str) -> (r:
        Option<bool>)
        requires
            old(self).wf(),
        ensures
            final(self).wf(),
            r is None ==> !old(self)@.contains_key(id@) && final(self)@ == old(self)@,
            r is Some ==> old(self)@.contains_key(id@),
            r matches Some(applied) ==> {
                let t = old(self)@[id@].text();
                &&& applied <==> (has_boundary(t, start as int) && has_boundary(t, end as int)
                    && start <= end)
                &&& applied ==> {
                    let cs = char_at_byte(t, start as int);
                    let ce = char_at_byte(t, end as int);
                    &&& final(self)@.contains_key(id@)
                    &&& final(self)@[id@].id@ == id@
                    &&& final(self)@[id@].text() == t.subrange(0, cs) + replacement@
                        + t.subrange(ce, t.len() as int)
                    &&& final(self)@ == old(self)@.insert(id@, final(self)@[id@])
                }
                &&& !applied ==> final(self)@ == old(self)@
            },
    {
        proof {
            lemma_map_of_entries(self.files@);
        }
        let ghost s0 = self.files@;
        match self.index_of(id) {
            Some(i) => {
                proof {
                    lemma_map_of_remove(s0, i as int);
                }
                let mut f = self.files.remove(i);
                let applied = f.edit_bytes(start, end, replacement);
                proof {
                    assert(self.files@.push(f).drop_last() =~= self.files@);
                }
                self.files.push(f);
                proof {
                    assert(self@ =~= map_of(s0).insert(id@, self.files@.last()));
                    if !applied {
                        assert(self@ =~= map_of(s0));
                    }
                }
                Some(applied)
            },
            None => None,
        }
    }
}

} // verus!
