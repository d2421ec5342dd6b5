//! Batch folder indexing: which walked files become tasks, and the
//! aggregate statistics reported when a batch resolves.
//!
//! The filesystem walk itself is an outside step; it hands in the list
//! of file paths it found. One `Create` task is submitted per supported
//! file, and one aggregate summary is emitted once all of a batch's
//! tasks resolve: every walked file is counted, indexed and failed
//! files are counted separately, and skipped unsupported files are
//! neither indexed nor failures.

use vstd::prelude::*;

use crate::text::{extension_of, is_supported_file_type, spec_extension, spec_is_supported,
    spec_lower};
use crate::types::{IndexStats, IndexTask, TaskKind};

verus! {

/// Whether a walked file takes part in indexing at all.
pub open spec fn spec_should_index(path: Seq<char>) -> bool {
    spec_is_supported(spec_lower(spec_extension(path)))
}

/// Whether this file's extension is in the supported set; unsupported
/// files are skipped silently.
pub fn should_index(path: &String) -> (r: bool)
    ensures
        r == spec_should_index(path@),
{
    let ext = extension_of(path.as_str());
    is_supported_file_type(ext.as_str())
}

/// The `Create` tasks a batch submits: one per supported file, in walk
/// order; unsupported files submit nothing.
pub open spec fn spec_plan_batch(files: Seq<String>) -> Seq<IndexTask>
    decreases files.len(),
{
    if files.len() == 0 {
        Seq::<IndexTask>::empty()
    } else {
        let rest = spec_plan_batch(files.drop_first());
        if spec_should_index(files[0]@) {
            seq![IndexTask { path: files[0], kind: TaskKind::Create }] + rest
        } else {
            rest
        }
    }
}

/// Plans one folder batch: turns the walked file list into the tasks to
/// submit, skipping unsupported files.
pub fn plan_batch(files: &Vec<String>) -> (r: Vec<IndexTask>)
    ensures
        r@ == spec_plan_batch(files@),
{
    let n = files.len();
    let mut out: Vec<IndexTask> = Vec::new();
    let mut i: usize = n;
    while i > 0
        invariant
            i <= n,
            n == files@.len(),
            out@ == spec_plan_batch(files@.skip(i as int)),
        decreases i,
    {
        i = i - 1;
        let ghost pre = out@;
        proof {
            let tail = files@.skip(i as int);
            assert(tail.drop_first() =~= files@.skip(i + 1));
            assert(tail[0] == files@[i as int]);
        }
        if should_index(&files[i]) {
            let task = IndexTask { path: files[i].clone(), kind: TaskKind::Create };
            out.insert(0, task);
            proof {
                assert(out@ =~= seq![task] + pre);
            }
        }
    }
    proof {
        assert(files@.skip(0) =~= files@);
    }
    out
}

/// How one file of a batch resolved.
#[derive(Clone, Copy)]
pub enum FileOutcome {
    /// Extracted, embedded and committed.
    Indexed,
    /// Unsupported type; skipped, counted in the total only.
    Skipped,
    /// Extraction or embedding failed; counted as a failure.
    Failed,
}

/// How many of a batch's outcomes are `Indexed`.
pub open spec fn spec_count_indexed(s: Seq<FileOutcome>) -> int
    decreases s.len(),
{
    if s.len() == 0 {
        0
    } else {
        spec_count_indexed(s.drop_last()) + if s.last() is Indexed {
            1int
        } else {
            0int
        }
    }
}

/// How many of a batch's outcomes are `Failed`.
pub open spec fn spec_count_failed(s: Seq<FileOutcome>) -> int
    decreases s.len(),
{
    if s.len() == 0 {
        0
    } else {
        spec_count_failed(s.drop_last()) + if s.last() is Failed {
            1int
        } else {
            0int
        }
    }
}

/// Counts never exceed the batch size.
pub proof fn lemma_counts_bounded(s: Seq<FileOutcome>)
    ensures
        0 <= spec_count_indexed(s) <= s.len(),
        0 <= spec_count_failed(s) <= s.len(),
        spec_count_indexed(s) + spec_count_failed(s) <= s.len(),
    decreases s.len(),
{
    if s.len() == 0 {
    } else {
        lemma_counts_bounded(s.drop_last());
    }
}

/// The aggregate progress summary a folder batch emits once all its
/// tasks resolve: every walked file counted, indexed and failed files
/// counted from their outcomes, skipped files in neither count.
pub fn batch_stats(outcomes: &Vec<FileOutcome>) -> (r: IndexStats)
    ensures
        r.total_files == outcomes@.len(),
        r.indexed_files == spec_count_indexed(outcomes@),
        r.failed_files == spec_count_failed(outcomes@),
        r.total_chunks == 0,
        r.index_size_bytes == 0,
{
    let n = outcomes.len();
    let mut indexed: usize = 0;
    let mut failed: usize = 0;
    let mut i: usize = 0;
    while i < n
        invariant
            i <= n,
            n == outcomes@.len(),
            indexed == spec_count_indexed(outcomes@.subrange(0, i as int)),
            failed == spec_count_failed(outcomes@.subrange(0, i as int)),
            indexed + failed <= i,
        decreases n - i,
    {
        proof {
            let pre = outcomes@.subrange(0, i as int);
            let nxt = outcomes@.subrange(0, i + 1);
            assert(nxt.drop_last() =~= pre);
            assert(nxt.last() == outcomes@[i as int]);
        }
        match outcomes[i] {
            FileOutcome::Indexed => {
                indexed = indexed + 1;
            },
            FileOutcome::Failed => {
                failed = failed + 1;
            },
            FileOutcome::Skipped => {
            },
        }
        i = i + 1;
    }
    proof {
        assert(outcomes@.subrange(0, n as int) =~= outcomes@);
    }
    IndexStats {
        total_files: n,
        indexed_files: indexed,
        failed_files: failed,
        total_chunks: 0,
        index_size_bytes: 0,
    }
}

} // verus!
