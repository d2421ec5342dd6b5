//! The query coordinator's logic: the result limit rules and the
//! resolution of vector-store hits against the catalog.
//!
//! The embedding of the query text and the vector-store round trip are
//! outside calls; their results come in as plain ranked hits. Resolution
//! attaches each live record's current summary view and silently drops
//! hits whose identifier no longer resolves — a record deleted while
//! the query was in flight never reaches the client.

use vstd::prelude::*;

use crate::catalog::FileCatalog;
use crate::types::{FileInfo, ScoredId, SearchHit, SearchResult, SCORE_SCALE};

verus! {

/// Largest number of results a single search may return, whatever the
/// caller asked for.
pub const MAX_SEARCH_LIMIT: usize = 100;

/// Number of results returned when the caller gives no limit, or a
/// non-positive one.
pub const DEFAULT_SEARCH_LIMIT: usize = 20;

/// What `effective_limit` returns, as a mathematical function.
pub open spec fn spec_effective_limit(requested: Option<usize>) -> usize {
    match requested {
        None => DEFAULT_SEARCH_LIMIT,
        Some(n) => {
            if n == 0 {
                DEFAULT_SEARCH_LIMIT
            } else if n > MAX_SEARCH_LIMIT {
                MAX_SEARCH_LIMIT
            } else {
                n
            }
        },
    }
}

/// The search limit actually used for a request: a missing or zero
/// limit falls back to the default, and anything above the cap is
/// clamped.
pub fn effective_limit(requested: Option<usize>) -> (r: usize)
    ensures
        r == spec_effective_limit(requested),
        1 <= r <= MAX_SEARCH_LIMIT,
{
    match requested {
        None => DEFAULT_SEARCH_LIMIT,
        Some(n) => {
            if n == 0 {
                DEFAULT_SEARCH_LIMIT
            } else if n > MAX_SEARCH_LIMIT {
                MAX_SEARCH_LIMIT
            } else {
                n
            }
        },
    }
}

/// The summary view of one resolved record, paired with its score.
pub open spec fn spec_hit_of(rec: FileInfo, score_milli: i64) -> SearchHit {
    SearchHit {
        id: rec.id,
        name: rec.name,
        path: rec.path,
        file_type: rec.file_type,
        summary: rec.summary,
        modified: rec.modified,
        score_milli,
    }
}

/// Ranked hits resolved against the catalog, in order: each hit whose
/// identifier is live becomes that record's summary view with the hit's
/// score; a hit whose identifier is gone is dropped.
pub open spec fn spec_resolve(c: FileCatalog, hits: Seq<ScoredId>) -> Seq<SearchHit>
    decreases hits.len(),
{
    if hits.len() == 0 {
        Seq::<SearchHit>::empty()
    } else {
        let rest = spec_resolve(c, hits.drop_first());
        match c.lookup_id(hits[0].id) {
            Some(rec) => seq![spec_hit_of(rec, hits[0].score_milli)] + rest,
            None => rest,
        }
    }
}

/// The first `n` elements of a sequence, or all of it when shorter.
pub open spec fn spec_take<A>(s: Seq<A>, n: int) -> Seq<A> {
    if s.len() <= n {
        s
    } else {
        s.subrange(0, n)
    }
}

/// A hit whose identifier is live in the catalog is never dropped by
/// resolution: its record's summary view, with the hit's score, is in
/// the resolved results.
pub proof fn lemma_resolve_keeps_live_hits(c: FileCatalog, hits: Seq<ScoredId>, k: int)
    requires
        0 <= k < hits.len(),
        c.lookup_id(hits[k].id) is Some,
    ensures
        spec_resolve(c, hits).contains(
            spec_hit_of(c.lookup_id(hits[k].id)->Some_0, hits[k].score_milli),
        ),
    decreases hits.len(),
{
    let r = spec_resolve(c, hits);
    let rest = spec_resolve(c, hits.drop_first());
    if k == 0 {
        let rec = c.lookup_id(hits[0].id)->Some_0;
        assert(r[0] == spec_hit_of(rec, hits[0].score_milli));
    } else {
        lemma_resolve_keeps_live_hits(c, hits.drop_first(), k - 1);
        assert(hits.drop_first()[k - 1] == hits[k]);
        let h = spec_hit_of(c.lookup_id(hits[k].id)->Some_0, hits[k].score_milli);
        let m = choose|m: int| 0 <= m < rest.len() && rest[m] == h;
        match c.lookup_id(hits[0].id) {
            Some(rec0) => {
                assert(r[m + 1] == h);
            },
            None => {
                assert(r[m] == h);
            },
        }
    }
}

/// Every resolved hit's identifier is live in the catalog: a record
/// deleted before resolution never appears in results.
pub proof fn lemma_resolve_only_live_hits(c: FileCatalog, hits: Seq<ScoredId>)
    ensures
        forall|m: int|
            0 <= m < spec_resolve(c, hits).len() ==> {
                let h = #[trigger] spec_resolve(c, hits)[m];
                c.lookup_id(h.id) is Some && h == spec_hit_of(
                    c.lookup_id(h.id)->Some_0,
                    h.score_milli,
                )
            },
    decreases hits.len(),
{
    if hits.len() == 0 {
    } else {
        lemma_resolve_only_live_hits(c, hits.drop_first());
        let r = spec_resolve(c, hits);
        let rest = spec_resolve(c, hits.drop_first());
        assert forall|m: int| 0 <= m < r.len() implies {
            let h = #[trigger] r[m];
            c.lookup_id(h.id) is Some && h == spec_hit_of(
                c.lookup_id(h.id)->Some_0,
                h.score_milli,
            )
        } by {
            match c.lookup_id(hits[0].id) {
                Some(rec) => {
                    if m == 0 {
                        c.lemma_lookup_id_is_id(hits[0].id);
                        assert(r[0] == spec_hit_of(rec, hits[0].score_milli));
                        assert(rec.id == hits[0].id);
                    } else {
                        assert(r[m] == rest[m - 1]);
                    }
                },
                None => {
                    assert(r[m] == rest[m]);
                },
            }
        }
    }
}

/// Whether every hit's score lies in the cosine range, scaled: within
/// `[-SCORE_SCALE, SCORE_SCALE]`. The vector store promises this of
/// what it returns; callers hand hits in under it, and results carry
/// it.
pub open spec fn spec_scores_in_range(hits: Seq<ScoredId>) -> bool {
    forall|i: int|
        0 <= i < hits.len() ==> -(SCORE_SCALE as int) <= (#[trigger] hits[i]).score_milli
            <= SCORE_SCALE as int
}

/// Resolution invents no scores: under in-range hits, every resolved
/// result's score lies in the same cosine range.
pub proof fn lemma_resolve_scores_in_range(c: FileCatalog, hits: Seq<ScoredId>)
    requires
        spec_scores_in_range(hits),
    ensures
        forall|m: int|
            0 <= m < spec_resolve(c, hits).len() ==> -(SCORE_SCALE as int) <= (
            #[trigger] spec_resolve(c, hits)[m]).score_milli <= SCORE_SCALE as int,
    decreases hits.len(),
{
    if hits.len() == 0 {
    } else {
        let tail = hits.drop_first();
        assert(spec_scores_in_range(tail)) by {
            assert(forall|i: int| 0 <= i < tail.len() ==> tail[i] == hits[i + 1]);
        }
        lemma_resolve_scores_in_range(c, tail);
        let r = spec_resolve(c, hits);
        let rest = spec_resolve(c, tail);
        match c.lookup_id(hits[0].id) {
            Some(rec) => {
                assert(r[0] == spec_hit_of(rec, hits[0].score_milli));
                assert(forall|m: int| 1 <= m < r.len() ==> r[m] == rest[m - 1]);
            },
            None => {
                assert(r == rest);
            },
        }
    }
}

/// Whether ranked hits come highest score first.
pub open spec fn spec_scores_desc(hits: Seq<ScoredId>) -> bool {
    forall|i: int, j: int|
        0 <= i < j < hits.len() ==> hits[i].score_milli >= hits[j].score_milli
}

/// Whether resolved results come highest score first.
pub open spec fn spec_results_desc(r: Seq<SearchHit>) -> bool {
    forall|i: int, j: int| 0 <= i < j < r.len() ==> r[i].score_milli >= r[j].score_milli
}

/// Resolution keeps the store's ranking: hits handed in by descending
/// score resolve to results in descending score, whatever records were
/// dropped in between.
pub proof fn lemma_resolve_keeps_ranking(c: FileCatalog, hits: Seq<ScoredId>)
    requires
        spec_scores_desc(hits),
    ensures
        spec_results_desc(spec_resolve(c, hits)),
        hits.len() > 0 ==> forall|m: int|
            0 <= m < spec_resolve(c, hits).len() ==> (#[trigger] spec_resolve(c, hits)[m]).score_milli
                <= hits[0].score_milli,
    decreases hits.len(),
{
    if hits.len() == 0 {
    } else {
        let tail = hits.drop_first();
        assert(spec_scores_desc(tail)) by {
            assert(forall|i: int| 0 <= i < tail.len() ==> tail[i] == hits[i + 1]);
        }
        lemma_resolve_keeps_ranking(c, tail);
        let r = spec_resolve(c, hits);
        let rest = spec_resolve(c, tail);
        match c.lookup_id(hits[0].id) {
            Some(rec) => {
                assert(r[0] == spec_hit_of(rec, hits[0].score_milli));
                assert(forall|m: int| 1 <= m < r.len() ==> r[m] == rest[m - 1]);
                assert forall|m: int| 1 <= m < r.len() implies r[m].score_milli
                    <= hits[0].score_milli by {
                    assert(r[m] == rest[m - 1]);
                    if tail.len() > 0 {
                        assert(rest[m - 1].score_milli <= tail[0].score_milli);
                        assert(tail[0] == hits[1]);
                    }
                }
            },
            None => {
                assert(r == rest);
                if tail.len() > 0 {
                    assert(forall|m: int|
                        0 <= m < r.len() ==> (#[trigger] r[m]).score_milli <= tail[0].score_milli);
                    assert(tail[0] == hits[1]);
                }
            },
        }
    }
}

/// The summary view of one live record, with a hit's score attached.
fn hit_of(rec: &FileInfo, score_milli: i64) -> (h: SearchHit)
    ensures
        h == spec_hit_of(*rec, score_milli),
{
    SearchHit {
        id: rec.id,
        name: rec.name.clone(),
        path: rec.path.clone(),
        file_type: rec.file_type.clone(),
        summary: rec.summary.clone(),
        modified: rec.modified,
        score_milli,
    }
}

/// Resolves ranked vector-store hits against the catalog, in order,
/// dropping hits whose identifier is no longer live, and keeps at most
/// `limit` results.
pub fn resolve_hits(catalog: &FileCatalog, hits: &Vec<ScoredId>, limit: usize) -> (r: Vec<
    SearchHit,
>)
    requires
        catalog.wf(),
        spec_scores_in_range(hits@),
    ensures
        r@ == spec_take(spec_resolve(*catalog, hits@), limit as int),
        r@.len() <= limit,
        forall|m: int|
            0 <= m < r@.len() ==> -(SCORE_SCALE as int) <= (#[trigger] r@[m]).score_milli
                <= SCORE_SCALE as int,
{
    proof {
        lemma_resolve_scores_in_range(*catalog, hits@);
    }
    let n = hits.len();
    let mut out: Vec<SearchHit> = Vec::new();
    let mut i: usize = n;
    while i > 0
        invariant
            i <= n,
            n == hits@.len(),
            catalog.wf(),
            out@ == spec_resolve(*catalog, hits@.skip(i as int)),
        decreases i,
    {
        i = i - 1;
        let h = hits[i];
        let ghost pre = out@;
        match catalog.get_by_id(h.id) {
            Some(rec) => {
                let hit = hit_of(rec, h.score_milli);
                out.insert(0, hit);
                proof {
                    let tail = hits@.skip(i as int);
                    assert(tail.drop_first() =~= hits@.skip(i + 1));
                    assert(tail[0] == hits@[i as int]);
                    assert(out@ =~= seq![hit] + pre);
                }
            },
            None => {
                proof {
                    let tail = hits@.skip(i as int);
                    assert(tail.drop_first() =~= hits@.skip(i + 1));
                    assert(tail[0] == hits@[i as int]);
                }
            },
        }
    }
    proof {
        assert(hits@.skip(0) =~= hits@);
    }
    out.truncate(limit);
    out
}

/// Builds the reply to one search request from the ranked hits the
/// vector store returned: hits resolved in order against the catalog,
/// at most the effective limit of them, with the elapsed time attached.
pub fn assemble_search_result(
    catalog: &FileCatalog,
    hits: &Vec<ScoredId>,
    requested: Option<usize>,
    query_time_ms: u64,
) -> (r: SearchResult)
    requires
        catalog.wf(),
        spec_scores_in_range(hits@),
    ensures
        r.files@ == spec_take(
            spec_resolve(*catalog, hits@),
            spec_effective_limit(requested) as int,
        ),
        r.files@.len() <= spec_effective_limit(requested),
        r.files@.len() <= MAX_SEARCH_LIMIT,
        r.total == r.files@.len(),
        r.query_time_ms == query_time_ms,
        spec_scores_desc(hits@) ==> spec_results_desc(r.files@),
        forall|m: int|
            0 <= m < r.files@.len() ==> -(SCORE_SCALE as int) <= (
            #[trigger] r.files@[m]).score_milli <= SCORE_SCALE as int,
{
    let limit = effective_limit(requested);
    let files = resolve_hits(catalog, hits, limit);
    let total = files.len();
    proof {
        if spec_scores_desc(hits@) {
            lemma_resolve_keeps_ranking(*catalog, hits@);
            let full = spec_resolve(*catalog, hits@);
            assert(forall|i: int|
                0 <= i < files@.len() ==> files@[i] == full[i]);
        }
    }
    SearchResult { files, total, query_time_ms }
}

} // verus!
