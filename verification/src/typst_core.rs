//! The bridge core: source management, the compilation root, and the
//! package-resolution cache.
//!
//! Network I/O cannot happen here; resolution is a two-step protocol. A
//! lookup that needs an unresolved package answers with the URL to fetch
//! ([`Retrieval::FetchRequired`]); the host fetches those bytes and hands
//! them to [`TypstCore::install_package`], after which the same lookup is
//! served from the store with no further fetch.
use vstd::prelude::*;
use vstd::string::*;
use vstd::utf8::{decode_utf8, valid_utf8};
use crate::archive::{
    gunzip, gunzip_of, gunzip_ok, lossy_of, parse_tar, tar_entries, utf8_lossy, utf8_strict,
    TarEntryView,
};
use crate::error::{FileErrorKind, PackageErrorKind, TypstCoreError};
use crate::package::{package_url, spec_package_url, PackageView, TypstCorePackage};
use crate::position::{char_at_byte, has_boundary};
use crate::range::{spec_to_typst_range, MonacoRange};
use crate::source_file::SourceFile;
use crate::store::{FileId, FileIdView, SourceStore};

verus! {

/// The identifier under which an archive entry of package `p` is stored:
/// scoped to `p`, at the entry's path decoded as UTF-8.
pub open spec fn entry_id(p: PackageView, e: TarEntryView) -> FileIdView {
    FileIdView { package: Some(p), vpath: decode_utf8(e.path) }
}

/// True when every entry path of the archive decodes as UTF-8.
pub open spec fn all_paths_decode(es: Seq<TarEntryView>) -> bool {
    forall|i: int| 0 <= i < es.len() ==> valid_utf8(#[trigger] es[i].path)
}

/// True when the identifier is not scoped to package `p`.
pub open spec fn outside_pkg(k: FileIdView, p: PackageView) -> bool {
    match k.package {
        Some(q) => q != p,
        None => true,
    }
}

/// Every buffer outside package `p` is the same in `b` as in `a`.
pub open spec fn others_preserved(
    a: Map<FileIdView, SourceFile>,
    b: Map<FileIdView, SourceFile>,
    p: PackageView,
) -> bool {
    forall|k: FileIdView|
        outside_pkg(k, p) ==> ((#[trigger] b.contains_key(k)) == a.contains_key(k) && (
        a.contains_key(k) ==> b[k] == a[k]))
}

/// Index of the last entry below `bound` whose decoded identifier is `k`,
/// or a negative value when there is none.
pub open spec fn last_entry_for(
    p: PackageView,
    es: Seq<TarEntryView>,
    k: FileIdView,
    bound: int,
) -> int
    decreases bound,
{
    if bound <= 0 {
        -1
    } else if entry_id(p, es[bound - 1]) == k {
        bound - 1
    } else {
        last_entry_for(p, es, k, bound - 1)
    }
}

/// Entry `q` of the archive of package `p` is stored in `mp`: its decoded
/// identifier maps to a buffer holding the contents of the last entry
/// (below `bound`) that shares that identifier — later entries overwrite
/// earlier ones.
pub open spec fn entry_stored(
    mp: Map<FileIdView, SourceFile>,
    p: PackageView,
    es: Seq<TarEntryView>,
    q: int,
    bound: int,
) -> bool {
    let k = entry_id(p, es[q]);
    let j = last_entry_for(p, es, k, bound);
    &&& mp.contains_key(k)
    &&& mp[k].id@ == k
    &&& 0 <= j < bound
    &&& mp[k].text() == lossy_of(es[j].data)
}

/// Every identifier scoped to package `p` that `cur` holds either was held
/// before the installation began or is the decoded identifier of one of the
/// first `bound` archive entries: installing strays no keys into the
/// package's scope.
pub open spec fn pkg_keys_bounded(
    pre: Map<FileIdView, SourceFile>,
    cur: Map<FileIdView, SourceFile>,
    p: PackageView,
    es: Seq<TarEntryView>,
    bound: int,
) -> bool {
    forall|k: FileIdView|
        !outside_pkg(k, p) && (#[trigger] cur.contains_key(k)) ==> (pre.contains_key(k)
            || exists|j: int| 0 <= j < bound && entry_id(p, #[trigger] es[j]) == k)
}

/// Inserting the buffer of entry `m` preserves everything outside the
/// package, extends the stored-entry property to `m + 1`, and adds no key
/// beyond that entry's identifier.
proof fn lemma_install_step(
    pre_map: Map<FileIdView, SourceFile>,
    a: Map<FileIdView, SourceFile>,
    b: Map<FileIdView, SourceFile>,
    p: PackageView,
    es: Seq<TarEntryView>,
    m: int,
    m_next: int,
    f: SourceFile,
)
    requires
        m_next == m + 1,
        0 <= m < es.len(),
        f.id@ == entry_id(p, es[m]),
        f.text() == lossy_of(es[m].data),
        b == a.insert(f.id@, f),
        others_preserved(pre_map, a, p),
        forall|q: int| 0 <= q < m ==> entry_stored(a, p, es, q, m),
        pkg_keys_bounded(pre_map, a, p, es, m),
    ensures
        others_preserved(pre_map, b, p),
        forall|q: int| 0 <= q < m_next ==> entry_stored(b, p, es, q, m_next),
        pkg_keys_bounded(pre_map, b, p, es, m_next),
{
    assert forall|k: FileIdView|
        outside_pkg(k, p) implies ((#[trigger] b.contains_key(k)) == pre_map.contains_key(k)
        && (pre_map.contains_key(k) ==> b[k] == pre_map[k])) by {
        assert(k != f.id@);
        assert(b.contains_key(k) == a.contains_key(k));
        if a.contains_key(k) {
            assert(b[k] == a[k]);
        }
    }
    assert forall|q: int| 0 <= q < m_next implies entry_stored(b, p, es, q, m_next) by {
        let k = entry_id(p, es[q]);
        if k == f.id@ {
            assert(last_entry_for(p, es, k, m_next) == m);
            assert(b.contains_key(k) && b[k] == f);
            assert(b[k].text() == lossy_of(es[m].data));
        } else {
            assert(q < m);
            assert(entry_stored(a, p, es, q, m));
            assert(entry_id(p, es[m_next - 1]) != k);
            assert(last_entry_for(p, es, k, m_next) == last_entry_for(p, es, k, m));
            assert(b.contains_key(k) && b[k] == a[k]);
        }
    }
    assert forall|k: FileIdView|
        !outside_pkg(k, p) && (#[trigger] b.contains_key(k)) implies (pre_map.contains_key(k)
        || exists|j: int| 0 <= j < m_next && entry_id(p, #[trigger] es[j]) == k) by {
        if k == f.id@ {
            assert(0 <= m < m_next && entry_id(p, es[m]) == k);
        } else {
            assert(a.contains_key(k));
        }
    }
}

/// Answer of a source lookup.
#[derive(Debug)]
pub enum Retrieval {
    /// The buffer, as stored.
    Found(SourceFile),
    /// The identifier is scoped to a package that is not resolved yet; the
    /// host must fetch this URL and install the result.
    FetchRequired(String),
    /// The lookup failed for good.
    Failed(FileErrorKind),
}

/// The bridge core: the shared source store, the designated root file, and
/// the set of resolved package identities. Package content is immutable for
/// the lifetime of the core: identities are recorded once and never evicted.
pub struct TypstCore {
    pub sources: SourceStore,
    pub root: Option<FileId>,
    pub packages: Vec<TypstCorePackage>,
}

impl TypstCore {
    /// The store's entries are well formed.
    pub open spec fn wf(self) -> bool {
        self.sources.wf()
    }

    /// True when the package was resolved earlier in this core's lifetime.
    pub open spec fn is_resolved(self, p: PackageView) -> bool {
        exists|i: int| 0 <= i < self.packages@.len() && self.packages@[i]@ == p
    }

    /// True when looking the identifier up must first fetch its package.
    pub open spec fn needs_fetch(self, id: FileIdView) -> bool {
        match id.package {
            Some(p) => !self.is_resolved(p),
            None => false,
        }
    }

    /// An empty core: no sources, no root, no resolved packages.
    pub fn construct() -> (r: Self)
        ensures
            r.wf(),
            r.sources@ == Map::<FileIdView, SourceFile>::empty(),
            r.root is None,
            r.packages@.len() == 0,
    {
        TypstCore { sources: SourceStore::new(), root: None, packages: Vec::new() }
    }

    /// True when the package identity was recorded as resolved.
    pub fn package_resolved(&self, p: &TypstCorePackage) -> (r: bool)
        ensures
            r == self.is_resolved(p@),
    {
        let mut i: usize = 0;
        let n = self.packages.len();
        while i < n
            invariant
                n == self.packages@.len(),
                0 <= i <= n,
                forall|j: int| 0 <= j < i ==> self.packages@[j]@ != p@,
            decreases n - i,
        {
            if &self.packages[i] == p {
                return true;
            }
            i = i + 1;
        }
        false
    }

    /// Registers a buffer for `path` outside any package, overwriting any
    /// previous buffer under the same path.
    pub fn add_source(&mut self, path: String, content: String)
        requires
            old(self).wf(),
        ensures
            final(self).wf(),
            final(self).root == old(self).root,
            final(self).packages == old(self).packages,
            ({
                let id = FileIdView { package: None, vpath: path@ };
                &&& final(self).sources@.contains_key(id)
                &&& final(self).sources@[id].text() == content@
                &&& final(self).sources@[id].id@ == id
                &&& final(self).sources@ == old(self).sources@.insert(
                    id,
                    final(self).sources@[id],
                )
            }),
    {
        let id = FileId::new(None, path);
        let source = SourceFile::new(id, content);
        self.sources.insert(source);
    }

    /// Drops the buffer stored for `path` outside any package, if any.
    pub fn remove_source(&mut self, path: String)
        requires
            old(self).wf(),
        ensures
            final(self).wf(),
            final(self).root == old(self).root,
            final(self).packages == old(self).packages,
            final(self).sources@ == old(self).sources@.remove(
                FileIdView { package: None, vpath: path@ },
            ),
    {
        let id = FileId::new(None, path);
        self.sources.remove(&id);
    }

    /// Designates the root (main) file of compilation. Fails, leaving the
    /// root as it was, exactly when no buffer is stored under `path`.
    pub fn set_root(&mut self, path: String) -> (r: Result<(), TypstCoreError>)
        requires
            old(self).wf(),
        ensures
            final(self).wf(),
            final(self).sources@ == old(self).sources@,
            final(self).packages == old(self).packages,
            ({
                let id = FileIdView { package: None, vpath: path@ };
                if old(self).sources@.contains_key(id) {
                    &&& r is Ok
                    &&& final(self).root matches Some(root) && root@ == id
                } else {
                    &&& r matches Err(e) && e matches TypstCoreError::DefaultError(m) && m@
                        == "Failed to set root, source not found for path: "@ + path@
                    &&& final(self).root == old(self).root
                }
            }),
    {
        let id = FileId::new(None, path);
        if self.sources.contains(&id) {
            self.root = Some(id);
            Ok(())
        } else {
            let mut m = String::from_str("Failed to set root, source not found for path: ");
            m.append(id.vpath.as_str());
            Err(TypstCoreError::DefaultError(m))
        }
    }

    /// The designated root file. Compiling with no root set is a
    /// precondition error, never a panic: this reports it.
    pub fn main_file(&self) -> (r: Result<FileId, TypstCoreError>)
        ensures
            self.root matches Some(root) ==> (r matches Ok(id) && id@ == root@),
            self.root is None ==> (r matches Err(e) && e
                matches TypstCoreError::DefaultError(m) && m@ == "Root path is not set"@),
    {
        match &self.root {
            Some(id) => Ok(id.clone()),
            None => Err(TypstCoreError::default_error("Root path is not set")),
        }
    }

    /// A copy of the text stored for `path` outside any package. Fails
    /// exactly when no buffer is stored under that path.
    pub fn get_source(&self, path: String) -> (r: Result<String, TypstCoreError>)
        requires
            self.wf(),
        ensures
            ({
                let id = FileIdView { package: None, vpath: path@ };
                if self.sources@.contains_key(id) {
                    r matches Ok(text) && text@ == self.sources@[id].text()
                } else {
                    r matches Err(e) && e matches TypstCoreError::DefaultError(m) && m@
                        == "Failed to get source, source not found for path: "@ + path@
                }
            }),
    {
        let id = FileId::new(None, path);
        match self.sources.get(&id) {
            Some(file) => Ok(file.source()),
            None => {
                let mut m = String::from_str(
                    "Failed to get source, source not found for path: ",
                );
                m.append(id.vpath.as_str());
                Err(TypstCoreError::DefaultError(m))
            },
        }
    }

    /// Stored buffer for `path` outside any package, for navigation.
    pub fn get_source_file(&self, path: String) -> (r: Option<&SourceFile>)
        requires
            self.wf(),
        ensures
            ({
                let id = FileIdView { package: None, vpath: path@ };
                match r {
                    Some(f) => self.sources@.contains_key(id) && *f == self.sources@[id],
                    None => !self.sources@.contains_key(id),
                }
            }),
    {
        let id = FileId::new(None, path);
        self.sources.get(&id)
    }

    /// Edits the buffer stored for `path`: resolves `monaco_range` against
    /// the buffer's current text, then splices `content` over the resolved
    /// byte range. An unknown path, or a resolved range that is not a
    /// forward pair of character boundaries, is a reportable error; the
    /// coordinate translation itself degrades silently to the empty range at
    /// offset zero when a corner does not resolve.
    pub fn edit_source(&mut self, path: String, content: String, monaco_range: MonacoRange) -> (r:
        Result<(), TypstCoreError>)
        requires
            old(self).wf(),
        ensures
            final(self).wf(),
            final(self).root == old(self).root,
            final(self).packages == old(self).packages,
            ({
                let id = FileIdView { package: None, vpath: path@ };
                if old(self).sources@.contains_key(id) {
                    let t = old(self).sources@[id].text();
                    let range = spec_to_typst_range(t, monaco_range);
                    let a = range.0;
                    let b = range.1;
                    if has_boundary(t, a) && has_boundary(t, b) && a <= b {
                        &&& r is Ok
                        &&& final(self).sources@.contains_key(id)
                        &&& final(self).sources@[id].text() == t.subrange(0, char_at_byte(t, a))
                            + content@ + t.subrange(char_at_byte(t, b), t.len() as int)
                        &&& final(self).sources@ == old(self).sources@.insert(
                            id,
                            final(self).sources@[id],
                        )
                    } else {
                        &&& r matches Err(e) && e matches TypstCoreError::DefaultError(m) && m@
                            == "Failed to edit source, invalid range"@
                        &&& final(self).sources@ == old(self).sources@
                    }
                } else {
                    &&& r matches Err(e) && e matches TypstCoreError::DefaultError(m) && m@
                        == "Failed to edit source, source not found for path: "@ + path@
                    &&& final(self).sources@ == old(self).sources@
                }
            }),
    {
        let id = FileId::new(None, path);
        let range = match self.sources.get(&id) {
            Some(file) => monaco_range.to_typst_range(file),
            None => {
                let mut m = String::from_str(
                    "Failed to edit source, source not found for path: ",
                );
                m.append(id.vpath.as_str());
                return Err(TypstCoreError::DefaultError(m));
            },
        };
        match self.sources.edit_bytes(&id, range.0, range.1, content.as_str()) {
            Some(true) => Ok(()),
            Some(false) => Err(TypstCoreError::default_error(
                "Failed to edit source, invalid range",
            )),
            None => Err(TypstCoreError::default_error(
                "Failed to edit source, source not found for path",
            )),
        }
    }

    /// Looks a buffer up by identifier. A plain identifier is served from
    /// the store or fails with `NotFound`. A package-scoped identifier asks
    /// the host to fetch the package archive exactly when the package is not
    /// resolved yet; a resolved package is served entirely from the store
    /// with no fetch.
    pub fn retrieve_source(&self, id: &FileId) -> (r: Retrieval)
        requires
            self.wf(),
        ensures
            (r is FetchRequired) <==> self.needs_fetch(id@),
            r matches Retrieval::FetchRequired(url) ==> match id@.package {
                Some(p) => url@ == spec_package_url(p),
                None => false,
            },
            !self.needs_fetch(id@) ==> {
                if self.sources@.contains_key(id@) {
                    r matches Retrieval::Found(f) && f.wf() && f.id@ == id@ && f.text()
                        == self.sources@[id@].text()
                } else {
                    r matches Retrieval::Failed(e) && e matches FileErrorKind::NotFound(p) && p@
                        == id.vpath@
                }
            },
    {
        proof {
            crate::store::lemma_map_of_wf(self.sources.files@);
        }
        if let Some(pkg) = &id.package {
            if !self.package_resolved(pkg) {
                return Retrieval::FetchRequired(package_url(pkg));
            }
        }
        match self.sources.get(id) {
            Some(file) => Retrieval::Found(file.duplicate()),
            None => Retrieval::Failed(FileErrorKind::NotFound(id.vpath.clone())),
        }
    }

    /// All effects of a successful archive installation for package `p` on
    /// a core whose state went from `pre` to `post`, given the archive's
    /// entries `es`: the package is resolved, everything outside its scope
    /// is untouched, and every entry is stored under its decoded path (the
    /// last entry winning a duplicated path).
    pub open spec fn installed(pre: Self, post: Self, p: PackageView, es: Seq<TarEntryView>)
        -> bool {
        &&& post.is_resolved(p)
        &&& forall|q: PackageView| q != p ==> post.is_resolved(q) == pre.is_resolved(q)
        &&& others_preserved(pre.sources@, post.sources@, p)
        &&& forall|i: int| 0 <= i < es.len() ==> entry_stored(post.sources@, p, es, i, es.len() as int)
        &&& pkg_keys_bounded(pre.sources@, post.sources@, p, es, es.len() as int)
    }

    /// Registers the regular-file entries of the decompressed archive `tar`
    /// as buffers scoped to `pkg`, overwriting (never duplicating) buffers
    /// already stored under the same identifiers, then records `pkg` as
    /// resolved. Succeeds exactly when the archive is well formed and every
    /// entry path decodes as UTF-8; any failure is `MalformedArchive` and
    /// leaves the core untouched.
    #[verifier::rlimit(100)]
    pub fn install_archive(&mut self, pkg: &TypstCorePackage, tar: &Vec<u8>) -> (r: Result<
        (),
        PackageErrorKind,
    >)
        requires
            old(self).wf(),
        ensures
            final(self).wf(),
            final(self).root == old(self).root,
            (r is Ok) <==> (tar_entries(tar@) matches Some(es) && all_paths_decode(es)),
            r is Err ==> *final(self) == *old(self) && (r matches Err(e) && e
                matches PackageErrorKind::MalformedArchive(_)),
            r is Ok ==> (tar_entries(tar@) matches Some(es) && Self::installed(
                *old(self),
                *final(self),
                pkg@,
                es,
            )),
    {
        let ghost pre = *self;
        let entries = match parse_tar(tar) {
            Ok(entries) => entries,
            Err(()) => {
                return Err(PackageErrorKind::MalformedArchive(None));
            },
        };
        let ghost es = match tar_entries(tar@) {
            Some(es) => es,
            None => Seq::empty(),
        };
        let n = entries.len();
        let mut files: Vec<SourceFile> = Vec::new();
        let mut i: usize = 0;
        while i < n
            invariant
                *self == *old(self),
                old(self).wf(),
                tar_entries(tar@) == Some(es),
                0 <= i <= n,
                n == entries@.len(),
                n == es.len(),
                forall|m: int| 0 <= m < n ==> entries@[m]@ == es[m],
                files@.len() == i,
                forall|m: int| 0 <= m < i ==> valid_utf8(#[trigger] es[m].path),
                forall|m: int|
                    0 <= m < i ==> {
                        &&& (#[trigger] files@[m]).wf()
                        &&& files@[m].id@ == entry_id(pkg@, es[m])
                        &&& files@[m].text() == lossy_of(es[m].data)
                    },
            decreases n - i,
        {
            let path_bytes = entries[i].path.clone();
            proof {
                assert(path_bytes@ =~= entries@[i as int].path@);
            }
            let path = match utf8_strict(path_bytes) {
                Some(path) => path,
                None => {
                    proof {
                        assert(0 <= (i as int) < es.len() && !valid_utf8(es[i as int].path));
                        assert(!all_paths_decode(es));
                    }
                    return Err(PackageErrorKind::MalformedArchive(None));
                },
            };
            let content = utf8_lossy(&entries[i].data);
            let id = FileId::new(Some(pkg.clone()), path);
            files.push(SourceFile::new(id, content));
            i = i + 1;
        }
        let mut m: usize = 0;
        while m < n
            invariant
                pre == *old(self),
                pre.wf(),
                0 <= m <= n,
                n == es.len(),
                files@.len() == n,
                self.wf(),
                self.root == pre.root,
                self.packages == pre.packages,
                forall|q: int| 0 <= q < n ==> valid_utf8(#[trigger] es[q].path),
                forall|q: int|
                    0 <= q < n ==> {
                        &&& (#[trigger] files@[q]).wf()
                        &&& files@[q].id@ == entry_id(pkg@, es[q])
                        &&& files@[q].text() == lossy_of(es[q].data)
                    },
                others_preserved(pre.sources@, self.sources@, pkg@),
                forall|q: int| 0 <= q < m ==> entry_stored(self.sources@, pkg@, es, q, m as int),
                pkg_keys_bounded(pre.sources@, self.sources@, pkg@, es, m as int),
            decreases n - m,
        {
            let ghost before = *self;
            let file = files[m].duplicate();
            let ghost fsnap = file;
            self.sources.insert(file);
            proof {
                lemma_install_step(
                    pre.sources@,
                    before.sources@,
                    self.sources@,
                    pkg@,
                    es,
                    m as int,
                    m + 1,
                    fsnap,
                );
            }
            m = m + 1;
        }
        self.packages.push(pkg.clone());
        proof {
            assert(all_paths_decode(es));
            assert(self.packages@.last()@ == pkg@);
            assert(self.is_resolved(pkg@));
            assert forall|q: PackageView| q != pkg@ implies self.is_resolved(q)
                == pre.is_resolved(q) by {
                if pre.is_resolved(q) {
                    let w = choose|w: int| 0 <= w < pre.packages@.len() && pre.packages@[w]@ == q;
                    assert(self.packages@[w]@ == q);
                }
                if self.is_resolved(q) {
                    let w = choose|w: int|
                        0 <= w < self.packages@.len() && self.packages@[w]@ == q;
                    assert(w < pre.packages@.len());
                    assert(pre.packages@[w]@ == q);
                }
            }
        }
        Ok(())
    }

    /// Installs the fetched archive of `pkg`. Succeeds exactly when the
    /// fetch result is non-empty, decompresses as a gzip stream, and yields
    /// a well-formed archive whose entry paths all decode as UTF-8; the
    /// decompressed archive's entries are then registered as by
    /// [`TypstCore::install_archive`]. An empty fetch result is a network
    /// failure, anything else that fails is a malformed archive, and any
    /// failure leaves the core untouched.
    pub fn install_package(&mut self, pkg: &TypstCorePackage, data: &Vec<u8>) -> (r: Result<
        (),
        PackageErrorKind,
    >)
        requires
            old(self).wf(),
        ensures
            final(self).wf(),
            final(self).root == old(self).root,
            (r is Ok) <==> (data@.len() > 0 && gunzip_ok(data@) && (tar_entries(
                gunzip_of(data@),
            ) matches Some(es) && all_paths_decode(es))),
            r matches Err(e) ==> *final(self) == *old(self) && (if data@.len() == 0 {
                e matches PackageErrorKind::NetworkFailed(None)
            } else {
                e matches PackageErrorKind::MalformedArchive(_)
            }),
            r is Ok ==> (tar_entries(gunzip_of(data@)) matches Some(es) && Self::installed(
                *old(self),
                *final(self),
                pkg@,
                es,
            )),
    {
        if data.len() == 0 {
            return Err(PackageErrorKind::NetworkFailed(None));
        }
        let tar = match gunzip(data) {
            Ok(tar) => tar,
            Err(()) => {
                return Err(PackageErrorKind::MalformedArchive(None));
            },
        };
        self.install_archive(pkg, &tar)
    }

    /// A package already recorded as resolved never asks for a fetch again:
    /// any lookup scoped to it is served from the store alone.
    pub proof fn lemma_resolved_never_fetches(self, id: FileIdView)
        requires
            id.package matches Some(p) && self.is_resolved(p),
        ensures
            !self.needs_fetch(id),
    {
    }

    /// Resolving the same package identity twice performs at most one
    /// fetch: once an installation has succeeded, no lookup scoped to that
    /// package ever requires a fetch again, so the second resolution is
    /// served entirely from the previously extracted buffers.
    pub proof fn lemma_install_then_cached(
        pre: Self,
        post: Self,
        p: PackageView,
        es: Seq<TarEntryView>,
        id: FileIdView,
    )
        requires
            Self::installed(pre, post, p, es),
            id.package == Some(p),
        ensures
            !post.needs_fetch(id),
    {
    }
}

} // verus!
