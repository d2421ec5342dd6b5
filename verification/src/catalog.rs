//! The file catalog: the in-memory authoritative record of every indexed
//! file, keyed by path.
//!
//! The catalog is the single owner of filesystem-derived truth: at most
//! one live record per path, identifiers assigned once at first
//! successful index and never reused after deletion, every summary
//! derived from its record's content.

use vstd::prelude::*;

use crate::text::{make_summary, spec_lower, spec_summary, to_ascii_lowercase};
use crate::types::{Embedding, FileInfo};

verus! {

/// Whether `path` lies strictly inside `folder`: the folder is a proper
/// prefix and a path separator follows it.
pub open spec fn spec_path_under(folder: Seq<char>, path: Seq<char>) -> bool {
    &&& folder.len() < path.len()
    &&& path.subrange(0, folder.len() as int) == folder
    &&& path[folder.len() as int] == '/'
}

/// Whether `path` names a file inside the folder `folder`.
pub fn path_under(folder: &String, path: &String) -> (r: bool)
    ensures
        r == spec_path_under(folder@, path@),
{
    let flen = folder.as_str().unicode_len();
    let plen = path.as_str().unicode_len();
    if flen >= plen {
        return false;
    }
    if path.as_str().get_char(flen) != '/' {
        return false;
    }
    let mut i: usize = 0;
    while i < flen
        invariant
            i <= flen,
            flen == folder@.len(),
            flen < plen == path@.len(),
            forall|j: int| 0 <= j < i ==> path@[j] == folder@[j],
        decreases flen - i,
    {
        if path.as_str().get_char(i) != folder.as_str().get_char(i) {
            assert(path@.subrange(0, flen as int)[i as int] != folder@[i as int]);
            return false;
        }
        i = i + 1;
    }
    proof {
        assert(path@.subrange(0, flen as int) =~= folder@);
    }
    true
}

/// The in-memory record of every indexed file.
pub struct FileCatalog {
    /// The live records; paths and identifiers are unique across it.
    pub records: Vec<FileInfo>,
    /// The identifier the next first-time index of a path receives;
    /// strictly above every identifier ever assigned.
    pub next_id: u64,
}

impl FileCatalog {
    /// The catalog invariant: unique paths, unique identifiers all below
    /// `next_id`, and each record well-formed.
    pub open spec fn wf(&self) -> bool {
        &&& forall|i: int, j: int|
            0 <= i < j < self.records@.len() ==> self.records@[i].path@ != self.records@[j].path@
        &&& forall|i: int, j: int|
            0 <= i < j < self.records@.len() ==> self.records@[i].id != self.records@[j].id
        &&& forall|i: int| 0 <= i < self.records@.len() ==> self.records@[i].id < self.next_id
        &&& forall|i: int| 0 <= i < self.records@.len() ==> (#[trigger] self.records@[i]).wf()
    }

    /// Whether some live record has this path.
    pub open spec fn contains_path(&self, path: Seq<char>) -> bool {
        exists|i: int| 0 <= i < self.records@.len() && self.records@[i].path@ == path
    }

    /// The index of the record with this path, when one exists.
    pub closed spec fn idx_of(&self, path: Seq<char>) -> int {
        choose|i: int| 0 <= i < self.records@.len() && self.records@[i].path@ == path
    }

    /// The live record at this path, if any: the catalog's map view.
    pub open spec fn lookup(&self, path: Seq<char>) -> Option<FileInfo> {
        if self.contains_path(path) {
            Some(self.records@[self.idx_of(path)])
        } else {
            None
        }
    }

    /// In a well-formed catalog the record at index `i` is exactly what
    /// `lookup` returns for its path.
    pub proof fn lemma_lookup_at(&self, i: int)
        requires
            self.wf(),
            0 <= i < self.records@.len(),
        ensures
            self.idx_of(self.records@[i].path@) == i,
            self.lookup(self.records@[i].path@) == Some(self.records@[i]),
    {
        let p = self.records@[i].path@;
        assert(self.contains_path(p));
        let j = self.idx_of(p);
        assert(0 <= j < self.records@.len() && self.records@[j].path@ == p);
        if i < j {
            assert(self.records@[i].path@ != self.records@[j].path@);
        } else if j < i {
            assert(self.records@[j].path@ != self.records@[i].path@);
        }
    }

    /// Whether some live record has this identifier.
    pub open spec fn contains_id(&self, id: u64) -> bool {
        exists|i: int| 0 <= i < self.records@.len() && self.records@[i].id == id
    }

    /// The index of the record with this identifier, when one exists.
    pub closed spec fn id_idx(&self, id: u64) -> int {
        choose|i: int| 0 <= i < self.records@.len() && self.records@[i].id == id
    }

    /// The live record with this identifier, if any.
    pub open spec fn lookup_id(&self, id: u64) -> Option<FileInfo> {
        if self.contains_id(id) {
            Some(self.records@[self.id_idx(id)])
        } else {
            None
        }
    }

    /// In a well-formed catalog the record at index `i` is exactly what
    /// `lookup_id` returns for its identifier.
    pub proof fn lemma_lookup_id_at(&self, i: int)
        requires
            self.wf(),
            0 <= i < self.records@.len(),
        ensures
            self.id_idx(self.records@[i].id) == i,
            self.lookup_id(self.records@[i].id) == Some(self.records@[i]),
    {
        let id = self.records@[i].id;
        assert(self.contains_id(id));
        let j = self.id_idx(id);
        if i < j {
            assert(self.records@[i].id != self.records@[j].id);
        } else if j < i {
            assert(self.records@[j].id != self.records@[i].id);
        }
    }

    /// What `lookup_id` returns carries the identifier it was asked
    /// for.
    pub proof fn lemma_lookup_id_is_id(&self, id: u64)
        requires
            self.contains_id(id),
        ensures
            self.lookup_id(id) is Some,
            self.lookup_id(id)->Some_0.id == id,
    {
        let i = self.id_idx(id);
        assert(0 <= i < self.records@.len() && self.records@[i].id == id);
    }

    /// The live record with identifier `id`, if any. A query hit whose
    /// identifier no longer resolves here has been deleted concurrently
    /// and is dropped from results.
    pub fn get_by_id(&self, id: u64) -> (r: Option<&FileInfo>)
        requires
            self.wf(),
        ensures
            match r {
                Some(rec) => self.lookup_id(id) == Some(*rec),
                None => self.lookup_id(id) is None,
            },
    {
        let n = self.records.len();
        let mut i: usize = 0;
        while i < n
            invariant
                i <= n,
                n == self.records@.len(),
                self.wf(),
                forall|j: int| 0 <= j < i ==> self.records@[j].id != id,
            decreases n - i,
        {
            if self.records[i].id == id {
                proof {
                    self.lemma_lookup_id_at(i as int);
                }
                return Some(&self.records[i]);
            }
            i = i + 1;
        }
        None
    }

    /// An empty catalog, with identifiers starting at zero.
    pub fn new() -> (r: FileCatalog)
        ensures
            r.wf(),
            r.records@.len() == 0,
            r.next_id == 0,
            forall|q: Seq<char>| r.lookup(q) is None,
    {
        FileCatalog { records: Vec::new(), next_id: 0 }
    }

    /// Number of live records.
    pub fn len(&self) -> (n: usize)
        ensures
            n == self.records@.len(),
    {
        self.records.len()
    }

    /// The index holding `path`, or `None` when no record has it.
    fn find_index(&self, path: &String) -> (r: Option<usize>)
        requires
            self.wf(),
        ensures
            match r {
                Some(i) => {
                    &&& i < self.records@.len()
                    &&& self.records@[i as int].path@ == path@
                    &&& self.idx_of(path@) == i as int
                    &&& self.lookup(path@) == Some(self.records@[i as int])
                },
                None => !self.contains_path(path@),
            },
    {
        let n = self.records.len();
        let mut i: usize = 0;
        while i < n
            invariant
                i <= n,
                n == self.records@.len(),
                self.wf(),
                forall|j: int| 0 <= j < i ==> self.records@[j].path@ != path@,
            decreases n - i,
        {
            if self.records[i].path == *path {
                proof {
                    self.lemma_lookup_at(i as int);
                }
                return Some(i);
            }
            i = i + 1;
        }
        None
    }

    /// The live record at `path`, if any.
    pub fn get(&self, path: &String) -> (r: Option<&FileInfo>)
        requires
            self.wf(),
        ensures
            match r {
                Some(rec) => self.lookup(path@) == Some(*rec),
                None => self.lookup(path@) is None,
            },
    {
        match self.find_index(path) {
            Some(i) => Some(&self.records[i]),
            None => None,
        }
    }

    /// Inserts or replaces the record at `path` with freshly extracted
    /// content and its embedding. A path already present keeps its
    /// identifier; a new path receives the next fresh one. The record's
    /// summary is derived from the given content, its file type is the
    /// given extension lowercased, and its embedding is set.
    /// Returns the record's identifier.
    pub fn upsert(
        &mut self,
        path: String,
        name: String,
        file_type: String,
        content: String,
        modified: i64,
        embedding: Embedding,
    ) -> (id: u64)
        requires
            old(self).wf(),
            old(self).next_id < u64::MAX,
            embedding.wf(),
        ensures
            final(self).wf(),
            final(self).contains_path(path@),
            ({
                let rec = final(self).lookup(path@)->Some_0;
                &&& rec.id == id
                &&& rec.name == name
                &&& rec.path == path
                &&& rec.file_type@ == spec_lower(file_type@)
                &&& rec.summary@ == spec_summary(content@)
                &&& rec.content == content
                &&& rec.modified == modified
                &&& rec.embedding == Some(embedding)
            }),
            forall|q: Seq<char>| q != path@ ==> final(self).lookup(q) == old(self).lookup(q),
            old(self).contains_path(path@) ==> {
                &&& id == old(self).lookup(path@)->Some_0.id
                &&& final(self).next_id == old(self).next_id
            },
            !old(self).contains_path(path@) ==> {
                &&& id == old(self).next_id
                &&& final(self).next_id == old(self).next_id + 1
            },
    {
        let summary = make_summary(content.as_str());
        let file_type = to_ascii_lowercase(file_type.as_str());
        match self.find_index(&path) {
            Some(i) => {
                let id = self.records[i].id;
                let rec = FileInfo {
                    id,
                    name,
                    path,
                    file_type,
                    summary,
                    content,
                    modified,
                    embedding: Some(embedding),
                };
                let ghost old_records = self.records@;
                self.records.set(i, rec);
                proof {
                    let s = self.records@;
                    assert(forall|j: int| 0 <= j < s.len() && j != i ==> s[j] == old_records[j]);
                    assert(self.wf());
                    self.lemma_lookup_at(i as int);
                    assert forall|q: Seq<char>| q != old_records[i as int].path@ implies self.lookup(
                        q,
                    ) == old(self).lookup(q) by {
                        if old(self).contains_path(q) {
                            let k = old(self).idx_of(q);
                            assert(old_records[k].path@ == q);
                            assert(k != i);
                            assert(s[k] == old_records[k]);
                            self.lemma_lookup_at(k);
                            old(self).lemma_lookup_at(k);
                        } else {
                            assert(forall|j: int|
                                0 <= j < s.len() ==> s[j].path@ != q) by {
                                assert(forall|j: int|
                                    0 <= j < old_records.len() ==> old_records[j].path@ != q);
                            }
                            assert(!self.contains_path(q));
                        }
                    }
                }
                id
            },
            None => {
                let id = self.next_id;
                let rec = FileInfo {
                    id,
                    name,
                    path,
                    file_type,
                    summary,
                    content,
                    modified,
                    embedding: Some(embedding),
                };
                let ghost old_records = self.records@;
                self.records.push(rec);
                self.next_id = self.next_id + 1;
                proof {
                    let s = self.records@;
                    let n = old_records.len() as int;
                    assert(s == old_records.push(rec));
                    assert(forall|j: int| 0 <= j < n ==> s[j] == old_records[j]);
                    assert(s[n] == rec);
                    assert(self.wf());
                    self.lemma_lookup_at(n);
                    assert forall|q: Seq<char>| q != rec.path@ implies self.lookup(q) == old(
                        self,
                    ).lookup(q) by {
                        if old(self).contains_path(q) {
                            let k = old(self).idx_of(q);
                            assert(old_records[k].path@ == q);
                            assert(s[k] == old_records[k]);
                            self.lemma_lookup_at(k);
                            old(self).lemma_lookup_at(k);
                        } else {
                            assert(forall|j: int| 0 <= j < s.len() ==> s[j].path@ != q) by {
                                assert(forall|j: int|
                                    0 <= j < n ==> old_records[j].path@ != q);
                                assert(s[n].path@ != q);
                            }
                            assert(!self.contains_path(q));
                        }
                    }
                }
                id
            },
        }
    }

    /// Removes the record at index `i`, keeping every other record's
    /// lookup unchanged.
    fn remove_at(&mut self, i: usize) -> (rec: FileInfo)
        requires
            old(self).wf(),
            i < old(self).records@.len(),
        ensures
            final(self).wf(),
            rec == old(self).records@[i as int],
            final(self).records@ == old(self).records@.remove(i as int),
            final(self).next_id == old(self).next_id,
            !final(self).contains_path(rec.path@),
            final(self).lookup(rec.path@) is None,
            forall|q: Seq<char>| q != rec.path@ ==> final(self).lookup(q) == old(self).lookup(q),
    {
        let ghost old_records = self.records@;
        let rec = self.records.remove(i);
        proof {
            old_records.remove_ensures(i as int);
            let s = self.records@;
            assert(s == old_records.remove(i as int));
            assert(forall|j: int| 0 <= j < i ==> s[j] == old_records[j]);
            assert(forall|j: int|
                i <= j < s.len() ==> s[j] == old_records[j + 1]);
            assert(self.wf());
            assert forall|j: int| 0 <= j < s.len() implies s[j].path@ != rec.path@ by {
                if j < i {
                    assert(old_records[j].path@ != old_records[i as int].path@);
                } else {
                    assert(old_records[j + 1].path@ != old_records[i as int].path@);
                }
            }
            assert(!self.contains_path(rec.path@));
            assert forall|q: Seq<char>| q != rec.path@ implies self.lookup(q) == old(self).lookup(
                q,
            ) by {
                if old(self).contains_path(q) {
                    let k = old(self).idx_of(q);
                    assert(old_records[k].path@ == q);
                    assert(k != i);
                    let k2: int = if k < i {
                        k
                    } else {
                        k - 1
                    };
                    assert(s[k2] == old_records[k]);
                    self.lemma_lookup_at(k2);
                    old(self).lemma_lookup_at(k);
                } else {
                    assert forall|j: int| 0 <= j < s.len() implies s[j].path@ != q by {
                        if j < i {
                            assert(old_records[j].path@ != q);
                        } else {
                            assert(old_records[j + 1].path@ != q);
                        }
                    }
                    assert(!self.contains_path(q));
                }
            }
        }
        rec
    }

    /// Removes the record at `path`, if any, returning its identifier.
    /// Removing an absent path changes nothing and returns `None`:
    /// deletion is idempotent.
    pub fn remove_path(&mut self, path: &String) -> (r: Option<u64>)
        requires
            old(self).wf(),
        ensures
            final(self).wf(),
            final(self).next_id == old(self).next_id,
            final(self).lookup(path@) is None,
            forall|q: Seq<char>| q != path@ ==> final(self).lookup(q) == old(self).lookup(q),
            match r {
                Some(id) => old(self).lookup(path@) is Some && old(self).lookup(
                    path@,
                )->Some_0.id == id,
                None => old(self).lookup(path@) is None,
            },
    {
        match self.find_index(path) {
            Some(i) => {
                let rec = self.remove_at(i);
                Some(rec.id)
            },
            None => None,
        }
    }

    /// The index of some record whose path lies under `folder`, or
    /// `None` when no record does.
    fn find_under(&self, folder: &String) -> (r: Option<usize>)
        ensures
            match r {
                Some(i) => i < self.records@.len() && spec_path_under(
                    folder@,
                    self.records@[i as int].path@,
                ),
                None => forall|j: int|
                    0 <= j < self.records@.len() ==> !spec_path_under(
                        folder@,
                        self.records@[j].path@,
                    ),
            },
    {
        let n = self.records.len();
        let mut i: usize = 0;
        while i < n
            invariant
                i <= n,
                n == self.records@.len(),
                forall|j: int| 0 <= j < i ==> !spec_path_under(folder@, self.records@[j].path@),
            decreases n - i,
        {
            if path_under(folder, &self.records[i].path) {
                return Some(i);
            }
            i = i + 1;
        }
        None
    }

    /// Removes every record whose path lies under `folder`; every other
    /// record's lookup is unchanged. Returns how many were removed.
    pub fn remove_under(&mut self, folder: &String) -> (n: usize)
        requires
            old(self).wf(),
        ensures
            final(self).wf(),
            final(self).next_id == old(self).next_id,
            forall|q: Seq<char>|
                final(self).lookup(q) == (if spec_path_under(folder@, q) {
                    None::<FileInfo>
                } else {
                    old(self).lookup(q)
                }),
            n == old(self).records@.len() - final(self).records@.len(),
    {
        let ghost orig = *self;
        let start_len = self.records.len();
        loop
            invariant
                orig == *old(self),
                start_len == orig.records@.len(),
                self.records@.len() <= start_len,
                self.wf(),
                self.next_id == orig.next_id,
                forall|q: Seq<char>|
                    !spec_path_under(folder@, q) ==> self.lookup(q) == orig.lookup(q),
                forall|q: Seq<char>|
                    spec_path_under(folder@, q) && orig.lookup(q) is None ==> self.lookup(
                        q,
                    ) is None,
                forall|q: Seq<char>|
                    spec_path_under(folder@, q) && self.contains_path(q) ==> orig.lookup(q)
                        == self.lookup(q),
            decreases self.records@.len(),
        {
            let hit = self.find_under(folder);
            match hit {
                Some(i) => {
                    proof {
                        self.lemma_lookup_at(i as int);
                    }
                    let rec = self.remove_at(i);
                    proof {
                        assert(spec_path_under(folder@, rec.path@));
                    }
                },
                None => {
                    proof {
                        assert forall|q: Seq<char>|
                            spec_path_under(folder@, q) implies self.lookup(q) is None by {
                            if self.contains_path(q) {
                                let k = self.idx_of(q);
                                assert(self.records@[k].path@ == q);
                                assert(!spec_path_under(folder@, self.records@[k].path@));
                            }
                        }
                    }
                    let n_now = self.records.len();
                    return start_len - n_now;
                },
            }
        }
    }
}

} // verus!
