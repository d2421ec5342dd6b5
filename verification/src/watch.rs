//! The watch pump's state: the set of watched folders and the collapse
//! of rapid event bursts.
//!
//! The native watcher hands events in; the logic here keeps the folder
//! set free of duplicates and collapses multiple rapid events for one
//! path to the latest one, so a burst of saves costs one re-index.

use vstd::prelude::*;

use crate::catalog::{path_under, spec_path_under};
use crate::types::FileEvent;

verus! {

/// The set of folders being watched. Adding is idempotent; removing a
/// folder that was never added succeeds as a no-op.
pub struct WatchedFolders {
    pub folders: Vec<String>,
}

impl WatchedFolders {
    /// The set invariant: no folder appears twice.
    pub open spec fn wf(&self) -> bool {
        forall|i: int, j: int|
            0 <= i < j < self.folders@.len() ==> self.folders@[i]@ != self.folders@[j]@
    }

    /// Whether this folder is being watched.
    pub open spec fn contains_folder(&self, folder: Seq<char>) -> bool {
        exists|i: int| 0 <= i < self.folders@.len() && self.folders@[i]@ == folder
    }

    /// An empty folder set.
    pub fn new() -> (r: WatchedFolders)
        ensures
            r.wf(),
            r.folders@.len() == 0,
            forall|q: Seq<char>| !r.contains_folder(q),
    {
        WatchedFolders { folders: Vec::new() }
    }

    /// The index of this folder, or `None` when it is not watched.
    fn find_folder(&self, folder: &String) -> (r: Option<usize>)
        ensures
            match r {
                Some(i) => i < self.folders@.len() && self.folders@[i as int]@ == folder@,
                None => !self.contains_folder(folder@),
            },
    {
        let n = self.folders.len();
        let mut i: usize = 0;
        while i < n
            invariant
                i <= n,
                n == self.folders@.len(),
                forall|j: int| 0 <= j < i ==> self.folders@[j]@ != folder@,
            decreases n - i,
        {
            if self.folders[i] == *folder {
                return Some(i);
            }
            i = i + 1;
        }
        None
    }

    /// Whether this folder is being watched.
    pub fn contains(&self, folder: &String) -> (r: bool)
        ensures
            r == self.contains_folder(folder@),
    {
        self.find_folder(folder).is_some()
    }

    /// Starts watching a folder. Adding one already watched changes
    /// nothing; the return value says whether the set grew, so the
    /// caller knows whether a native watch must be installed.
    pub fn add_folder(&mut self, folder: String) -> (added: bool)
        requires
            old(self).wf(),
        ensures
            final(self).wf(),
            final(self).contains_folder(folder@),
            added == !old(self).contains_folder(folder@),
            added ==> final(self).folders@ == old(self).folders@.push(folder),
            !added ==> *final(self) == *old(self),
            forall|q: Seq<char>|
                final(self).contains_folder(q) == (old(self).contains_folder(q) || q == folder@),
    {
        match self.find_folder(&folder) {
            Some(i) => {
                proof {
                    assert(self.contains_folder(folder@));
                }
                false
            },
            None => {
                let ghost old_fs = self.folders@;
                self.folders.push(folder);
                proof {
                    let s = self.folders@;
                    let n = old_fs.len() as int;
                    assert(forall|j: int| 0 <= j < n ==> s[j] == old_fs[j]);
                    assert(s[n]@ == folder@);
                    assert(self.wf());
                    assert(self.contains_folder(folder@));
                    assert forall|q: Seq<char>|
                        self.contains_folder(q) == (old(self).contains_folder(q) || q
                            == folder@) by {
                        if old(self).contains_folder(q) {
                            let k = choose|k: int| 0 <= k < n && old_fs[k]@ == q;
                            assert(s[k]@ == q);
                        }
                        if self.contains_folder(q) {
                            let k = choose|k: int| 0 <= k < s.len() && s[k]@ == q;
                            if k < n {
                                assert(old_fs[k]@ == q);
                            }
                        }
                    }
                }
                true
            },
        }
    }

    /// Stops watching a folder. Removing one that was never added is a
    /// no-op success: the set is simply unchanged and `removed` is
    /// false. Never an error.
    pub fn remove_folder(&mut self, folder: &String) -> (removed: bool)
        requires
            old(self).wf(),
        ensures
            final(self).wf(),
            !final(self).contains_folder(folder@),
            removed == old(self).contains_folder(folder@),
            !removed ==> *final(self) == *old(self),
            removed ==> (exists|i: int|
                0 <= i < old(self).folders@.len() && old(self).folders@[i]@ == folder@
                    && final(self).folders@ == old(self).folders@.remove(i)),
            forall|q: Seq<char>|
                q != folder@ ==> final(self).contains_folder(q) == old(self).contains_folder(q),
    {
        match self.find_folder(folder) {
            Some(i) => {
                let ghost old_fs = self.folders@;
                let _ = self.folders.remove(i);
                proof {
                    assert(0 <= i < old_fs.len() && old_fs[i as int]@ == folder@ && self.folders@
                        == old_fs.remove(i as int));
                    old_fs.remove_ensures(i as int);
                    let s = self.folders@;
                    assert(forall|j: int| 0 <= j < i ==> s[j] == old_fs[j]);
                    assert(forall|j: int| i <= j < s.len() ==> s[j] == old_fs[j + 1]);
                    assert(self.wf());
                    assert(old_fs[i as int]@ == folder@);
                    assert forall|j: int| 0 <= j < s.len() implies s[j]@ != folder@ by {
                        if j < i {
                            assert(old_fs[j]@ != old_fs[i as int]@);
                        } else {
                            assert(old_fs[j + 1]@ != old_fs[i as int]@);
                        }
                    }
                    assert(!self.contains_folder(folder@));
                    assert(old(self).contains_folder(folder@));
                    assert forall|q: Seq<char>| q != folder@ implies self.contains_folder(q) == old(
                        self,
                    ).contains_folder(q) by {
                        if old(self).contains_folder(q) {
                            let k = choose|k: int| 0 <= k < old_fs.len() && old_fs[k]@ == q;
                            assert(k != i);
                            let k2: int = if k < i {
                                k
                            } else {
                                k - 1
                            };
                            assert(s[k2]@ == q);
                        }
                        if self.contains_folder(q) {
                            let k = choose|k: int| 0 <= k < s.len() && s[k]@ == q;
                            if k < i {
                                assert(old_fs[k]@ == q);
                            } else {
                                assert(old_fs[k + 1]@ == q);
                            }
                        }
                    }
                }
                true
            },
            None => false,
        }
    }

    /// Whether some watched folder covers this path.
    pub open spec fn spec_covers(&self, path: Seq<char>) -> bool {
        exists|i: int|
            0 <= i < self.folders@.len() && spec_path_under(self.folders@[i]@, path)
    }

    /// Whether a file at this path falls under any watched folder; an
    /// event for an uncovered path — one whose folder was removed, or
    /// was never added — queues no task.
    pub fn covers(&self, path: &String) -> (r: bool)
        ensures
            r == self.spec_covers(path@),
    {
        let n = self.folders.len();
        let mut i: usize = 0;
        while i < n
            invariant
                i <= n,
                n == self.folders@.len(),
                forall|j: int| 0 <= j < i ==> !spec_path_under(self.folders@[j]@, path@),
            decreases n - i,
        {
            if path_under(&self.folders[i], path) {
                return true;
            }
            i = i + 1;
        }
        false
    }

    /// How many folders are watched.
    pub fn len(&self) -> (n: usize)
        ensures
            n == self.folders@.len(),
    {
        self.folders.len()
    }
}

/// One step of burst collapse: a path already seen has its event
/// replaced in place by the newer one; a new path is appended.
pub open spec fn spec_coalesce_step(acc: Seq<FileEvent>, e: FileEvent) -> Seq<FileEvent> {
    if exists|i: int| 0 <= i < acc.len() && acc[i].spec_path() == e.spec_path() {
        acc.update(choose|i: int| 0 <= i < acc.len() && acc[i].spec_path() == e.spec_path(), e)
    } else {
        acc.push(e)
    }
}

/// The burst of events collapsed to one event per path, last-write-wins:
/// for each path the surviving event is the last one the burst held.
pub open spec fn spec_coalesce(events: Seq<FileEvent>) -> Seq<FileEvent>
    decreases events.len(),
{
    if events.len() == 0 {
        Seq::<FileEvent>::empty()
    } else {
        spec_coalesce_step(spec_coalesce(events.drop_last()), events.last())
    }
}

/// No path appears twice in a collapsed burst.
pub open spec fn spec_paths_unique(s: Seq<FileEvent>) -> bool {
    forall|i: int, j: int| 0 <= i < j < s.len() ==> s[i].spec_path() != s[j].spec_path()
}

proof fn lemma_coalesce_step_unique(acc: Seq<FileEvent>, e: FileEvent)
    requires
        spec_paths_unique(acc),
    ensures
        spec_paths_unique(spec_coalesce_step(acc, e)),
{
    let s = spec_coalesce_step(acc, e);
    if exists|i: int| 0 <= i < acc.len() && acc[i].spec_path() == e.spec_path() {
        let i = choose|i: int| 0 <= i < acc.len() && acc[i].spec_path() == e.spec_path();
        assert forall|a: int, b: int| 0 <= a < b < s.len() implies s[a].spec_path()
            != s[b].spec_path() by {
            if a != i && b != i {
                assert(s[a] == acc[a] && s[b] == acc[b]);
            } else if a == i {
                assert(s[b] == acc[b]);
                assert(acc[i].spec_path() == e.spec_path());
            } else {
                assert(s[a] == acc[a]);
                assert(acc[i].spec_path() == e.spec_path());
            }
        }
    } else {
        assert forall|a: int, b: int| 0 <= a < b < s.len() implies s[a].spec_path()
            != s[b].spec_path() by {
            if b == acc.len() as int {
                assert(s[a] == acc[a]);
                assert(!(exists|i: int|
                    0 <= i < acc.len() && acc[i].spec_path() == e.spec_path()));
            } else {
                assert(s[a] == acc[a] && s[b] == acc[b]);
            }
        }
    }
}

/// The last event a burst holds for a path.
pub open spec fn spec_last_event_for(events: Seq<FileEvent>, p: Seq<char>) -> FileEvent
    recommends
        exists|i: int| 0 <= i < events.len() && events[i].spec_path() == p,
    decreases events.len(),
{
    if events.len() == 0 {
        events[0]
    } else if events.last().spec_path() == p {
        events.last()
    } else {
        spec_last_event_for(events.drop_last(), p)
    }
}

/// Last write wins: for every path a burst mentions, the collapsed
/// burst holds the last event the burst held for that path.
pub proof fn lemma_coalesce_last_wins(events: Seq<FileEvent>, p: Seq<char>)
    requires
        exists|i: int| 0 <= i < events.len() && events[i].spec_path() == p,
    ensures
        spec_coalesce(events).contains(spec_last_event_for(events, p)),
    decreases events.len(),
{
    let out = spec_coalesce(events);
    let acc = spec_coalesce(events.drop_last());
    let e = events.last();
    if e.spec_path() == p {
        if exists|i: int| 0 <= i < acc.len() && acc[i].spec_path() == e.spec_path() {
            let i = choose|i: int| 0 <= i < acc.len() && acc[i].spec_path() == e.spec_path();
            assert(out[i] == e);
        } else {
            assert(out.last() == e);
        }
    } else {
        let w = choose|i: int| 0 <= i < events.len() && events[i].spec_path() == p;
        assert(events[w].spec_path() == p);
        assert(w < events.len() - 1);
        assert(events.drop_last()[w] == events[w]);
        lemma_coalesce_last_wins(events.drop_last(), p);
        let last = spec_last_event_for(events.drop_last(), p);
        let j = choose|j: int| 0 <= j < acc.len() && acc[j] == last;
        assert(last.spec_path() == p) by {
            lemma_last_event_path(events.drop_last(), p);
        }
        if exists|i: int| 0 <= i < acc.len() && acc[i].spec_path() == e.spec_path() {
            let i = choose|i: int| 0 <= i < acc.len() && acc[i].spec_path() == e.spec_path();
            assert(i != j);
            assert(out[j] == last);
        } else {
            assert(out[j] == last);
        }
    }
}

/// Nothing is invented and nothing stale survives: every event in a
/// collapsed burst is exactly the last event the burst held for its
/// path, and its path was in the burst.
pub proof fn lemma_coalesce_elements(events: Seq<FileEvent>, j: int)
    requires
        0 <= j < spec_coalesce(events).len(),
    ensures
        ({
            let kept = spec_coalesce(events)[j];
            &&& exists|i: int| 0 <= i < events.len() && events[i].spec_path() == kept.spec_path()
            &&& kept == spec_last_event_for(events, kept.spec_path())
        }),
    decreases events.len(),
{
    let out = spec_coalesce(events);
    let acc = spec_coalesce(events.drop_last());
    let e = events.last();
    let kept = out[j];
    lemma_coalesce_unique(events.drop_last());
    if exists|i: int| 0 <= i < acc.len() && acc[i].spec_path() == e.spec_path() {
        let i = choose|i: int| 0 <= i < acc.len() && acc[i].spec_path() == e.spec_path();
        if j == i {
            assert(kept == e);
            assert(events[events.len() - 1].spec_path() == kept.spec_path());
        } else {
            assert(kept == acc[j]);
            lemma_coalesce_elements(events.drop_last(), j);
            let w = choose|w: int|
                0 <= w < events.drop_last().len() && events.drop_last()[w].spec_path()
                    == kept.spec_path();
            assert(events[w] == events.drop_last()[w]);
            assert(acc[j].spec_path() != acc[i].spec_path());
            assert(kept.spec_path() != e.spec_path());
            assert(spec_last_event_for(events, kept.spec_path()) == spec_last_event_for(
                events.drop_last(),
                kept.spec_path(),
            ));
        }
    } else {
        if j == acc.len() as int {
            assert(kept == e);
            assert(events[events.len() - 1].spec_path() == kept.spec_path());
        } else {
            assert(kept == acc[j]);
            lemma_coalesce_elements(events.drop_last(), j);
            let w = choose|w: int|
                0 <= w < events.drop_last().len() && events.drop_last()[w].spec_path()
                    == kept.spec_path();
            assert(events[w] == events.drop_last()[w]);
            assert(kept.spec_path() != e.spec_path());
            assert(spec_last_event_for(events, kept.spec_path()) == spec_last_event_for(
                events.drop_last(),
                kept.spec_path(),
            ));
        }
    }
}

/// The last event for a path is about that path.
proof fn lemma_last_event_path(events: Seq<FileEvent>, p: Seq<char>)
    requires
        exists|i: int| 0 <= i < events.len() && events[i].spec_path() == p,
    ensures
        spec_last_event_for(events, p).spec_path() == p,
    decreases events.len(),
{
    if events.last().spec_path() == p {
    } else {
        let w = choose|i: int| 0 <= i < events.len() && events[i].spec_path() == p;
        assert(events.drop_last()[w] == events[w]);
        lemma_last_event_path(events.drop_last(), p);
    }
}

/// Collapsed bursts have one event per path.
pub proof fn lemma_coalesce_unique(events: Seq<FileEvent>)
    ensures
        spec_paths_unique(spec_coalesce(events)),
    decreases events.len(),
{
    if events.len() == 0 {
    } else {
        lemma_coalesce_unique(events.drop_last());
        lemma_coalesce_step_unique(spec_coalesce(events.drop_last()), events.last());
    }
}

/// The path a watch event is about.
pub fn event_path(e: &FileEvent) -> (p: &String)
    ensures
        p@ == e.spec_path(),
{
    match e {
        FileEvent::Created(p) => p,
        FileEvent::Modified(p) => p,
        FileEvent::Deleted(p) => p,
    }
}

/// The index of the event about the same path as `e`, if one is there.
fn find_same_path(out: &Vec<FileEvent>, e: &FileEvent) -> (r: Option<usize>)
    ensures
        match r {
            Some(i) => i < out@.len() && out@[i as int].spec_path() == e.spec_path(),
            None => forall|j: int| 0 <= j < out@.len() ==> out@[j].spec_path() != e.spec_path(),
        },
{
    let n = out.len();
    let mut i: usize = 0;
    while i < n
        invariant
            i <= n,
            n == out@.len(),
            forall|j: int| 0 <= j < i ==> out@[j].spec_path() != e.spec_path(),
        decreases n - i,
    {
        if *event_path(&out[i]) == *event_path(e) {
            return Some(i);
        }
        i = i + 1;
    }
    None
}

/// Collapses a burst of watch events to at most one per path, keeping
/// for each path only the last event that arrived for it.
pub fn coalesce_events(events: Vec<FileEvent>) -> (r: Vec<FileEvent>)
    ensures
        r@ == spec_coalesce(events@),
        spec_paths_unique(r@),
{
    let mut rest = events;
    let ghost all = rest@;
    let ghost mut done = Seq::<FileEvent>::empty();
    let mut out: Vec<FileEvent> = Vec::new();
    while rest.len() > 0
        invariant
            all == events@,
            all =~= done + rest@,
            out@ == spec_coalesce(done),
            spec_paths_unique(out@),
        decreases rest@.len(),
    {
        let ghost rest_before = rest@;
        let e = rest.remove(0);
        proof {
            rest_before.remove_ensures(0);
            assert(rest_before =~= seq![e] + rest@);
            assert(done + rest_before =~= done.push(e) + rest@);
        }
        let ghost done_next = done.push(e);
        let found = find_same_path(&out, &e);
        let ghost out_before = out@;
        match found {
            Some(j) => {
                proof {
                    assert(exists|k: int|
                        0 <= k < out_before.len() && out_before[k].spec_path() == e.spec_path());
                    let k = choose|k: int|
                        0 <= k < out_before.len() && out_before[k].spec_path() == e.spec_path();
                    if k < j {
                        assert(out_before[k].spec_path() != out_before[j as int].spec_path());
                    } else if j < k {
                        assert(out_before[j as int].spec_path() != out_before[k].spec_path());
                    }
                    assert(k == j as int);
                }
                out.set(j, e);
                proof {
                    assert(done_next.drop_last() =~= done);
                    assert(done_next.last() == e);
                    assert(out@ == spec_coalesce_step(out_before, e));
                    assert(out@ == spec_coalesce(done_next));
                    lemma_coalesce_unique(done_next);
                }
            },
            None => {
                out.push(e);
                proof {
                    assert(!(exists|k: int|
                        0 <= k < out_before.len() && out_before[k].spec_path()
                            == e.spec_path()));
                    assert(done_next.drop_last() =~= done);
                    assert(done_next.last() == e);
                    assert(out@ == spec_coalesce_step(out_before, e));
                    assert(out@ == spec_coalesce(done_next));
                    lemma_coalesce_unique(done_next);
                }
            },
        }
        proof {
            done = done_next;
        }
    }
    proof {
        assert(done =~= all);
        assert(spec_coalesce(done) == spec_coalesce(events@));
    }
    out
}

} // verus!
