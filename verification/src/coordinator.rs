//! The indexing coordinator: turns tasks into catalog and vector-store
//! mutations while keeping at most one indexing operation in flight per
//! path.
//!
//! Supersede policy: when a task arrives for a path that already has one
//! running, exactly one superseding task is queued behind it and any
//! task arriving in between overwrites that queue slot. The running
//! task's result is still committed when it completes, then the queued
//! task runs; commits for one path therefore land in submission order,
//! and the last submitted task determines the final state.

use vstd::prelude::*;

use crate::catalog::{path_under, spec_path_under, FileCatalog};
use crate::errors::AppError;
use crate::text::{spec_lower, spec_summary};
use crate::types::{Embedding, FileInfo, IndexTask, TaskKind};

verus! {

/// The in-flight entry for one path: the task being run and the single
/// queued superseding task, if any.
pub struct Inflight {
    pub path: String,
    pub running: TaskKind,
    pub pending: Option<TaskKind>,
}

/// What the caller must do with a task it submitted.
pub enum SubmitAction {
    /// The path was idle: run the task now.
    Start,
    /// The path already has a running task: the submission was queued
    /// as its single superseding task and must not be run yet.
    Queued,
}

/// How one finished task left its path.
pub enum TaskOutcome {
    /// Extraction and embedding succeeded; commit this record.
    Indexed {
        name: String,
        file_type: String,
        content: String,
        modified: i64,
        embedding: Embedding,
    },
    /// The task was a deletion; drop the record.
    Removed,
    /// The file's type is unsupported; nothing to commit, not an error.
    Skipped,
    /// Extraction or embedding failed; nothing is committed and any
    /// prior record stays.
    Failed(AppError),
}

/// The vector-store mutation a commit asks the caller to perform.
pub enum StoreAction {
    /// Upsert this record's vector under its identifier.
    Upsert { id: u64 },
    /// Delete the vector stored under this identifier.
    Delete { id: u64 },
}

/// What applying an outcome does to the catalog: the record at `path`
/// after the commit, and that no other path is touched.
pub open spec fn outcome_applied(
    pre: FileCatalog,
    post: FileCatalog,
    path: Seq<char>,
    outcome: TaskOutcome,
) -> bool {
    match outcome {
        TaskOutcome::Indexed { name, file_type, content, modified, embedding } => {
            &&& post.lookup(path) is Some
            &&& ({
                let rec = post.lookup(path)->Some_0;
                &&& rec.path@ == path
                &&& rec.name == name
                &&& rec.file_type@ == spec_lower(file_type@)
                &&& rec.content == content
                &&& rec.summary@ == spec_summary(content@)
                &&& rec.modified == modified
                &&& rec.embedding == Some(embedding)
            })
            &&& forall|q: Seq<char>| q != path ==> post.lookup(q) == pre.lookup(q)
        },
        TaskOutcome::Removed => {
            &&& post.lookup(path) is None
            &&& forall|q: Seq<char>| q != path ==> post.lookup(q) == pre.lookup(q)
        },
        TaskOutcome::Skipped => post == pre,
        TaskOutcome::Failed(_) => post == pre,
    }
}

/// The record state a terminal outcome implies for its path.
pub open spec fn implied_record_ok(rec: Option<FileInfo>, outcome: TaskOutcome) -> bool {
    match outcome {
        TaskOutcome::Indexed { name, file_type, content, modified, embedding } => {
            &&& rec is Some
            &&& rec->Some_0.name == name
            &&& rec->Some_0.content == content
            &&& rec->Some_0.summary@ == spec_summary(content@)
            &&& rec->Some_0.embedding == Some(embedding)
        },
        TaskOutcome::Removed => rec is None,
        TaskOutcome::Skipped => true,
        TaskOutcome::Failed(_) => true,
    }
}

/// Applies one finished task's outcome to the catalog and names the
/// vector-store mutation that keeps the store in lock-step.
///
/// An `Indexed` outcome upserts the record (the path keeps its
/// identifier if it had one) and asks for a store upsert; `Removed`
/// drops the record, idempotently, and asks for a store delete exactly
/// when a record existed; `Skipped` and `Failed` commit nothing.
pub fn apply_outcome(catalog: &mut FileCatalog, path: &String, outcome: TaskOutcome) -> (r: Option<
    StoreAction,
>)
    requires
        old(catalog).wf(),
        old(catalog).next_id < u64::MAX,
        (outcome matches TaskOutcome::Indexed { embedding, .. } ==> embedding.wf()),
    ensures
        final(catalog).wf(),
        outcome_applied(*old(catalog), *final(catalog), path@, outcome),
        implied_record_ok(final(catalog).lookup(path@), outcome),
        (outcome matches TaskOutcome::Indexed { .. } && !old(catalog).contains_path(path@))
            ==> final(catalog).next_id == old(catalog).next_id + 1,
        (outcome matches TaskOutcome::Indexed { .. } && old(catalog).contains_path(path@))
            ==> final(catalog).next_id == old(catalog).next_id,
        !(outcome matches TaskOutcome::Indexed { .. }) ==> final(catalog).next_id == old(
            catalog,
        ).next_id,
        match outcome {
            TaskOutcome::Indexed { .. } => {
                &&& r == Some(
                    StoreAction::Upsert { id: final(catalog).lookup(path@)->Some_0.id },
                )
                &&& (old(catalog).contains_path(path@) ==> final(catalog).lookup(
                    path@,
                )->Some_0.id == old(catalog).lookup(path@)->Some_0.id)
                &&& (!old(catalog).contains_path(path@) ==> final(catalog).lookup(
                    path@,
                )->Some_0.id == old(catalog).next_id)
            },
            TaskOutcome::Removed => match r {
                Some(a) => a == (StoreAction::Delete {
                    id: old(catalog).lookup(path@)->Some_0.id,
                }) && old(catalog).lookup(path@) is Some,
                None => old(catalog).lookup(path@) is None,
            },
            TaskOutcome::Skipped => r is None,
            TaskOutcome::Failed(_) => r is None,
        },
{
    match outcome {
        TaskOutcome::Indexed { name, file_type, content, modified, embedding } => {
            let id = catalog.upsert(path.clone(), name, file_type, content, modified, embedding);
            Some(StoreAction::Upsert { id })
        },
        TaskOutcome::Removed => {
            match catalog.remove_path(path) {
                Some(id) => Some(StoreAction::Delete { id }),
                None => None,
            }
        },
        TaskOutcome::Skipped => None,
        TaskOutcome::Failed(_) => None,
    }
}

/// Once two tasks for the same path have both resolved, in submission
/// order, the catalog's record for that path is the one the later
/// task's outcome implies — never the earlier one's, whatever it was.
pub proof fn lemma_later_task_wins(
    c0: FileCatalog,
    c1: FileCatalog,
    c2: FileCatalog,
    path: Seq<char>,
    first: TaskOutcome,
    second: TaskOutcome,
)
    requires
        outcome_applied(c0, c1, path, first),
        outcome_applied(c1, c2, path, second),
    ensures
        implied_record_ok(c2.lookup(path), second),
        (second matches TaskOutcome::Skipped) || (second matches TaskOutcome::Failed(_))
            ==> implied_record_ok(c2.lookup(path), first),
{
}

/// Deleting a path and then indexing it again with new content leaves a
/// record whose content and embedding are exactly the new ones: a stale
/// vector can never survive a re-add.
pub proof fn lemma_reindex_fresh_embedding(
    c0: FileCatalog,
    c1: FileCatalog,
    c2: FileCatalog,
    path: Seq<char>,
    name: String,
    file_type: String,
    content: String,
    modified: i64,
    embedding: Embedding,
)
    requires
        outcome_applied(c0, c1, path, TaskOutcome::Removed),
        outcome_applied(
            c1,
            c2,
            path,
            TaskOutcome::Indexed { name, file_type, content, modified, embedding },
        ),
    ensures
        c2.lookup(path) is Some,
        c2.lookup(path)->Some_0.content == content,
        c2.lookup(path)->Some_0.embedding == Some(embedding),
        c2.lookup(path)->Some_0.summary@ == spec_summary(content@),
{
}

/// The coordinator's in-flight table: at most one entry, and so at most
/// one running task, per path.
pub struct Coordinator {
    pub inflight: Vec<Inflight>,
}

impl Coordinator {
    /// The single-flight invariant: entry paths are unique.
    pub open spec fn wf(&self) -> bool {
        forall|i: int, j: int|
            0 <= i < j < self.inflight@.len() ==> self.inflight@[i].path@ != self.inflight@[j].path@
    }

    /// Whether a task for this path is currently running.
    pub open spec fn is_inflight(&self, path: Seq<char>) -> bool {
        exists|i: int| 0 <= i < self.inflight@.len() && self.inflight@[i].path@ == path
    }

    /// The index of the entry for this path, when one exists.
    pub closed spec fn inflight_idx(&self, path: Seq<char>) -> int {
        choose|i: int| 0 <= i < self.inflight@.len() && self.inflight@[i].path@ == path
    }

    /// The entry for this path, if any: the table's map view.
    pub open spec fn entry(&self, path: Seq<char>) -> Option<Inflight> {
        if self.is_inflight(path) {
            Some(self.inflight@[self.inflight_idx(path)])
        } else {
            None
        }
    }

    /// In a well-formed table the entry at index `i` is exactly what
    /// `entry` returns for its path.
    pub proof fn lemma_entry_at(&self, i: int)
        requires
            self.wf(),
            0 <= i < self.inflight@.len(),
        ensures
            self.inflight_idx(self.inflight@[i].path@) == i,
            self.entry(self.inflight@[i].path@) == Some(self.inflight@[i]),
    {
        let p = self.inflight@[i].path@;
        assert(self.is_inflight(p));
        let j = self.inflight_idx(p);
        if i < j {
            assert(self.inflight@[i].path@ != self.inflight@[j].path@);
        } else if j < i {
            assert(self.inflight@[j].path@ != self.inflight@[i].path@);
        }
    }

    /// A coordinator with nothing in flight.
    pub fn new() -> (r: Coordinator)
        ensures
            r.wf(),
            r.inflight@.len() == 0,
            forall|q: Seq<char>| r.entry(q) is None,
    {
        Coordinator { inflight: Vec::new() }
    }

    /// The index of the entry for `path`, or `None`.
    fn find_entry(&self, path: &String) -> (r: Option<usize>)
        requires
            self.wf(),
        ensures
            match r {
                Some(i) => {
                    &&& i < self.inflight@.len()
                    &&& self.inflight@[i as int].path@ == path@
                    &&& self.inflight_idx(path@) == i as int
                    &&& self.entry(path@) == Some(self.inflight@[i as int])
                },
                None => !self.is_inflight(path@),
            },
    {
        let n = self.inflight.len();
        let mut i: usize = 0;
        while i < n
            invariant
                i <= n,
                n == self.inflight@.len(),
                self.wf(),
                forall|j: int| 0 <= j < i ==> self.inflight@[j].path@ != path@,
            decreases n - i,
        {
            if self.inflight[i].path == *path {
                proof {
                    self.lemma_entry_at(i as int);
                }
                return Some(i);
            }
            i = i + 1;
        }
        None
    }

    /// Accepts one task. An idle path starts running it; a busy path
    /// queues it as the single superseding task, overwriting whatever
    /// superseded task was queued before — only the latest submission
    /// survives the wait.
    pub fn submit(&mut self, task: &IndexTask) -> (a: SubmitAction)
        requires
            old(self).wf(),
        ensures
            final(self).wf(),
            match a {
                SubmitAction::Start => {
                    &&& !old(self).is_inflight(task.path@)
                    &&& final(self).entry(task.path@) == Some(
                        Inflight { path: task.path, running: task.kind, pending: None },
                    )
                },
                SubmitAction::Queued => {
                    &&& old(self).is_inflight(task.path@)
                    &&& final(self).entry(task.path@) == Some(
                        Inflight {
                            path: old(self).entry(task.path@)->Some_0.path,
                            running: old(self).entry(task.path@)->Some_0.running,
                            pending: Some(task.kind),
                        },
                    )
                },
            },
            forall|q: Seq<char>| q != task.path@ ==> final(self).entry(q) == old(self).entry(q),
    {
        match self.find_entry(&task.path) {
            Some(i) => {
                let running = self.inflight[i].running;
                let ent = Inflight {
                    path: self.inflight[i].path.clone(),
                    running,
                    pending: Some(task.kind),
                };
                let ghost old_tbl = self.inflight@;
                self.inflight.set(i, ent);
                proof {
                    let s = self.inflight@;
                    assert(forall|j: int| 0 <= j < s.len() && j != i ==> s[j] == old_tbl[j]);
                    assert(s[i as int].path@ == old_tbl[i as int].path@);
                    assert(self.wf());
                    self.lemma_entry_at(i as int);
                    assert forall|q: Seq<char>| q != task.path@ implies self.entry(q) == old(
                        self,
                    ).entry(q) by {
                        if old(self).is_inflight(q) {
                            let k = old(self).inflight_idx(q);
                            assert(old_tbl[k].path@ == q);
                            assert(k != i);
                            self.lemma_entry_at(k);
                            old(self).lemma_entry_at(k);
                        } else {
                            assert(forall|j: int| 0 <= j < s.len() ==> s[j].path@ != q);
                            assert(!self.is_inflight(q));
                        }
                    }
                }
                SubmitAction::Queued
            },
            None => {
                let ent = Inflight { path: task.path.clone(), running: task.kind, pending: None };
                let ghost old_tbl = self.inflight@;
                self.inflight.push(ent);
                proof {
                    let s = self.inflight@;
                    let n = old_tbl.len() as int;
                    assert(forall|j: int| 0 <= j < n ==> s[j] == old_tbl[j]);
                    assert(self.wf());
                    self.lemma_entry_at(n);
                    assert forall|q: Seq<char>| q != task.path@ implies self.entry(q) == old(
                        self,
                    ).entry(q) by {
                        if old(self).is_inflight(q) {
                            let k = old(self).inflight_idx(q);
                            assert(old_tbl[k].path@ == q);
                            self.lemma_entry_at(k);
                            old(self).lemma_entry_at(k);
                        } else {
                            assert(forall|j: int| 0 <= j < s.len() ==> s[j].path@ != q);
                            assert(!self.is_inflight(q));
                        }
                    }
                }
                SubmitAction::Start
            },
        }
    }

    /// Records that the running task for `path` finished. When a
    /// superseding task was queued it becomes the running task and is
    /// returned so the caller runs it; otherwise the path goes idle.
    /// Completion of a path with nothing in flight changes nothing.
    pub fn complete(&mut self, path: &String) -> (next: Option<IndexTask>)
        requires
            old(self).wf(),
        ensures
            final(self).wf(),
            forall|q: Seq<char>| q != path@ ==> final(self).entry(q) == old(self).entry(q),
            match old(self).entry(path@) {
                None => next is None && final(self).entry(path@) is None && *final(self) == *old(
                    self,
                ),
                Some(ent) => match ent.pending {
                    None => next is None && final(self).entry(path@) is None,
                    Some(k) => {
                        &&& next == Some(IndexTask { path: ent.path, kind: k })
                        &&& final(self).entry(path@) == Some(
                            Inflight { path: ent.path, running: k, pending: None },
                        )
                    },
                },
            },
    {
        match self.find_entry(path) {
            None => None,
            Some(i) => {
                let pending = self.inflight[i].pending;
                match pending {
                    None => {
                        let ghost old_tbl = self.inflight@;
                        let _ = self.inflight.remove(i);
                        proof {
                            old_tbl.remove_ensures(i as int);
                            let s = self.inflight@;
                            assert(forall|j: int| 0 <= j < i ==> s[j] == old_tbl[j]);
                            assert(forall|j: int|
                                i <= j < s.len() ==> s[j] == old_tbl[j + 1]);
                            assert(self.wf());
                            assert forall|j: int| 0 <= j < s.len() implies s[j].path@
                                != path@ by {
                                if j < i {
                                    assert(old_tbl[j].path@ != old_tbl[i as int].path@);
                                } else {
                                    assert(old_tbl[j + 1].path@ != old_tbl[i as int].path@);
                                }
                            }
                            assert(!self.is_inflight(path@));
                            assert forall|q: Seq<char>| q != path@ implies self.entry(q) == old(
                                self,
                            ).entry(q) by {
                                if old(self).is_inflight(q) {
                                    let k = old(self).inflight_idx(q);
                                    assert(old_tbl[k].path@ == q);
                                    assert(k != i);
                                    let k2: int = if k < i {
                                        k
                                    } else {
                                        k - 1
                                    };
                                    assert(s[k2] == old_tbl[k]);
                                    self.lemma_entry_at(k2);
                                    old(self).lemma_entry_at(k);
                                } else {
                                    assert forall|j: int| 0 <= j < s.len() implies s[j].path@
                                        != q by {
                                        if j < i {
                                            assert(old_tbl[j].path@ != q);
                                        } else {
                                            assert(old_tbl[j + 1].path@ != q);
                                        }
                                    }
                                    assert(!self.is_inflight(q));
                                }
                            }
                        }
                        None
                    },
                    Some(k) => {
                        let next_path = self.inflight[i].path.clone();
                        let ent = Inflight { path: next_path.clone(), running: k, pending: None };
                        let ghost old_tbl = self.inflight@;
                        self.inflight.set(i, ent);
                        proof {
                            let s = self.inflight@;
                            assert(forall|j: int|
                                0 <= j < s.len() && j != i ==> s[j] == old_tbl[j]);
                            assert(s[i as int].path@ == old_tbl[i as int].path@);
                            assert(self.wf());
                            self.lemma_entry_at(i as int);
                            assert forall|q: Seq<char>| q != path@ implies self.entry(q) == old(
                                self,
                            ).entry(q) by {
                                if old(self).is_inflight(q) {
                                    let kk = old(self).inflight_idx(q);
                                    assert(old_tbl[kk].path@ == q);
                                    assert(kk != i);
                                    self.lemma_entry_at(kk);
                                    old(self).lemma_entry_at(kk);
                                } else {
                                    assert(forall|j: int| 0 <= j < s.len() ==> s[j].path@ != q);
                                    assert(!self.is_inflight(q));
                                }
                            }
                        }
                        Some(IndexTask { path: next_path, kind: k })
                    },
                }
            },
        }
    }
    /// Cancels the not-yet-started superseding tasks queued for paths
    /// under a removed folder: their queue slots are cleared, while the
    /// tasks already running are left to finish. Entries for other
    /// paths are untouched.
    pub fn cancel_under(&mut self, folder: &String)
        requires
            old(self).wf(),
        ensures
            final(self).wf(),
            final(self).inflight@.len() == old(self).inflight@.len(),
            forall|i: int|
                0 <= i < old(self).inflight@.len() ==> {
                    let oe = old(self).inflight@[i];
                    let ne = #[trigger] final(self).inflight@[i];
                    &&& ne.path == oe.path
                    &&& ne.running == oe.running
                    &&& ne.pending == (if spec_path_under(folder@, oe.path@) {
                        None::<TaskKind>
                    } else {
                        oe.pending
                    })
                },
    {
        let n = self.inflight.len();
        let mut i: usize = 0;
        while i < n
            invariant
                i <= n,
                n == self.inflight@.len() == old(self).inflight@.len(),
                forall|t: int|
                    i <= t < n ==> #[trigger] self.inflight@[t] == old(self).inflight@[t],
                forall|t: int|
                    0 <= t < i ==> {
                        let oe = old(self).inflight@[t];
                        let ne = #[trigger] self.inflight@[t];
                        &&& ne.path == oe.path
                        &&& ne.running == oe.running
                        &&& ne.pending == (if spec_path_under(folder@, oe.path@) {
                            None::<TaskKind>
                        } else {
                            oe.pending
                        })
                    },
                self.wf(),
            decreases n - i,
        {
            if path_under(folder, &self.inflight[i].path) {
                self.inflight[i].pending = None;
            }
            i = i + 1;
        }
    }
}

} // verus!
