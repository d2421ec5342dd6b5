// The indexing pipeline: catalog commits, single-flight coordination,
// folder batches, the watched-folder set and event coalescing.

use file_search::batch::{batch_stats, plan_batch, should_index, FileOutcome};
use file_search::catalog::{path_under, FileCatalog};
use file_search::coordinator::{
    apply_outcome, Coordinator, StoreAction, SubmitAction, TaskOutcome,
};
use file_search::query::assemble_search_result;
use file_search::types::{
    event_to_task, Embedding, FileEvent, IndexTask, ScoredId, TaskKind, VECTOR_SIZE,
};
use file_search::watch::{coalesce_events, event_path, WatchedFolders};

fn embedding_of(seed: i64) -> Embedding {
    let mut values = Vec::new();
    for i in 0..VECTOR_SIZE {
        values.push(seed * 1000 + i as i64);
    }
    Embedding::new(values).expect("dimension matches")
}

fn indexed(content: &str, seed: i64) -> TaskOutcome {
    TaskOutcome::Indexed {
        name: "a.txt".to_string(),
        file_type: "txt".to_string(),
        content: content.to_string(),
        modified: 5,
        embedding: embedding_of(seed),
    }
}

#[test]
fn upsert_keeps_id_and_remove_is_idempotent() {
    let mut c = FileCatalog::new();
    let path = "/d/a.txt".to_string();
    let id1 = c.upsert(
        path.clone(),
        "a.txt".to_string(),
        "txt".to_string(),
        "one".to_string(),
        1,
        embedding_of(1),
    );
    let id2 = c.upsert(
        path.clone(),
        "a.txt".to_string(),
        "txt".to_string(),
        "two".to_string(),
        2,
        embedding_of(2),
    );
    assert_eq!(id1, id2);
    assert_eq!(c.len(), 1);
    assert_eq!(c.get(&path).unwrap().content, "two");
    assert_eq!(c.remove_path(&path), Some(id1));
    assert_eq!(c.remove_path(&path), None);
    assert_eq!(c.len(), 0);
}

#[test]
fn committed_file_type_is_the_lowercased_extension() {
    let mut c = FileCatalog::new();
    let path = "/d/REPORT.TXT".to_string();
    c.upsert(
        path.clone(),
        "REPORT.TXT".to_string(),
        "TXT".to_string(),
        "body".to_string(),
        1,
        embedding_of(1),
    );
    assert_eq!(c.get(&path).unwrap().file_type, "txt");
}

#[test]
fn ids_are_never_reused_after_deletion() {
    let mut c = FileCatalog::new();
    let path = "/d/a.txt".to_string();
    let id1 = c.upsert(
        path.clone(),
        "a.txt".to_string(),
        "txt".to_string(),
        "one".to_string(),
        1,
        embedding_of(1),
    );
    c.remove_path(&path);
    let id2 = c.upsert(
        path.clone(),
        "a.txt".to_string(),
        "txt".to_string(),
        "two".to_string(),
        2,
        embedding_of(2),
    );
    assert_ne!(id1, id2);
}

#[test]
fn delete_then_readd_carries_only_the_new_embedding() {
    let mut c = FileCatalog::new();
    let path = "/d/a.txt".to_string();
    apply_outcome(&mut c, &path, indexed("old words", 1));
    apply_outcome(&mut c, &path, TaskOutcome::Removed);
    assert!(c.get(&path).is_none());
    apply_outcome(&mut c, &path, indexed("new words", 9));
    let rec = c.get(&path).unwrap();
    assert_eq!(rec.content, "new words");
    let expected = embedding_of(9);
    assert_eq!(rec.embedding.as_ref().unwrap().values, expected.values);
}

#[test]
fn apply_outcome_names_the_store_mutation() {
    let mut c = FileCatalog::new();
    let path = "/d/a.txt".to_string();
    let act = apply_outcome(&mut c, &path, indexed("words", 1));
    let id = c.get(&path).unwrap().id;
    assert!(matches!(act, Some(StoreAction::Upsert { id: u }) if u == id));
    let act = apply_outcome(&mut c, &path, TaskOutcome::Skipped);
    assert!(act.is_none());
    let act = apply_outcome(&mut c, &path, TaskOutcome::Removed);
    assert!(matches!(act, Some(StoreAction::Delete { id: u }) if u == id));
    let act = apply_outcome(&mut c, &path, TaskOutcome::Removed);
    assert!(act.is_none());
}

#[test]
fn later_task_wins_for_one_path() {
    // Two tasks for the same path, committed in submission order: the
    // catalog ends in the state the second implies.
    let mut c = FileCatalog::new();
    let path = "/d/a.txt".to_string();
    apply_outcome(&mut c, &path, indexed("first version", 1));
    apply_outcome(&mut c, &path, indexed("second version", 2));
    let rec = c.get(&path).unwrap();
    assert_eq!(rec.content, "second version");
    assert_eq!(rec.embedding.as_ref().unwrap().values, embedding_of(2).values);

    apply_outcome(&mut c, &path, TaskOutcome::Removed);
    assert!(c.get(&path).is_none());
}

#[test]
fn coordinator_runs_one_task_per_path() {
    let mut co = Coordinator::new();
    let t1 = IndexTask { path: "/d/a.txt".to_string(), kind: TaskKind::Create };
    let t2 = IndexTask { path: "/d/a.txt".to_string(), kind: TaskKind::Modify };
    let other = IndexTask { path: "/d/b.txt".to_string(), kind: TaskKind::Create };
    assert!(matches!(co.submit(&t1), SubmitAction::Start));
    assert!(matches!(co.submit(&t2), SubmitAction::Queued));
    assert!(matches!(co.submit(&other), SubmitAction::Start));
}

#[test]
fn superseded_tasks_collapse_to_the_latest() {
    let mut co = Coordinator::new();
    let path = "/d/a.txt".to_string();
    let t1 = IndexTask { path: path.clone(), kind: TaskKind::Create };
    let t2 = IndexTask { path: path.clone(), kind: TaskKind::Modify };
    let t3 = IndexTask { path: path.clone(), kind: TaskKind::Delete };
    assert!(matches!(co.submit(&t1), SubmitAction::Start));
    assert!(matches!(co.submit(&t2), SubmitAction::Queued));
    assert!(matches!(co.submit(&t3), SubmitAction::Queued));
    // Only the latest queued task survives; it runs after the first
    // completes.
    let next = co.complete(&path).expect("a superseding task is queued");
    assert_eq!(next.path, path);
    assert!(matches!(next.kind, TaskKind::Delete));
    assert!(co.complete(&path).is_none());
    // The path is idle again.
    assert!(matches!(co.submit(&t1), SubmitAction::Start));
}

#[test]
fn completing_an_idle_path_is_a_no_op() {
    let mut co = Coordinator::new();
    assert!(co.complete(&"/never/ran.txt".to_string()).is_none());
}

#[test]
fn cancel_under_clears_queued_tasks_only() {
    let mut co = Coordinator::new();
    let inside = IndexTask { path: "/docs/a.txt".to_string(), kind: TaskKind::Create };
    let inside2 = IndexTask { path: "/docs/a.txt".to_string(), kind: TaskKind::Modify };
    let outside = IndexTask { path: "/other/b.txt".to_string(), kind: TaskKind::Create };
    let outside2 = IndexTask { path: "/other/b.txt".to_string(), kind: TaskKind::Modify };
    co.submit(&inside);
    co.submit(&inside2);
    co.submit(&outside);
    co.submit(&outside2);
    co.cancel_under(&"/docs".to_string());
    // The queued superseder under /docs is gone; the running task
    // finishes and nothing follows it.
    assert!(co.complete(&inside.path).is_none());
    // Paths outside the folder keep their queued task.
    let next = co.complete(&outside.path).expect("still queued");
    assert!(matches!(next.kind, TaskKind::Modify));
}

#[test]
fn plan_batch_submits_only_supported_files() {
    let files = vec![
        "/docs/a.txt".to_string(),
        "/docs/b.bin".to_string(),
        "/docs/c.md".to_string(),
    ];
    let tasks = plan_batch(&files);
    assert_eq!(tasks.len(), 2);
    assert_eq!(tasks[0].path, "/docs/a.txt");
    assert!(matches!(tasks[0].kind, TaskKind::Create));
    assert_eq!(tasks[1].path, "/docs/c.md");
}

#[test]
fn folder_batch_stats_count_walked_indexed_and_failed() {
    // A folder with a supported a.txt and an unsupported b.bin: two
    // files walked, one indexed, none failed.
    let outcomes = vec![FileOutcome::Indexed, FileOutcome::Skipped];
    let stats = batch_stats(&outcomes);
    assert_eq!(stats.total_files, 2);
    assert_eq!(stats.indexed_files, 1);
    assert_eq!(stats.failed_files, 0);
    assert_eq!(stats.total_chunks, 0);
    assert_eq!(stats.index_size_bytes, 0);
}

#[test]
fn failed_extractions_are_counted_but_do_not_abort() {
    let outcomes = vec![
        FileOutcome::Indexed,
        FileOutcome::Failed,
        FileOutcome::Indexed,
        FileOutcome::Skipped,
    ];
    let stats = batch_stats(&outcomes);
    assert_eq!(stats.total_files, 4);
    assert_eq!(stats.indexed_files, 2);
    assert_eq!(stats.failed_files, 1);
}

#[test]
fn folder_scenario_indexes_supported_files_only() {
    // A folder holding a.txt ("hello world") and b.bin (unsupported):
    // the batch indexes one of two files with no failures, the text
    // file is searchable with a positive score, and the binary never
    // appears anywhere.
    let files = vec!["/docs/a.txt".to_string(), "/docs/b.bin".to_string()];
    let tasks = plan_batch(&files);
    assert_eq!(tasks.len(), 1);
    let mut catalog = FileCatalog::new();
    let mut outcomes = Vec::new();
    for task in &tasks {
        apply_outcome(
            &mut catalog,
            &task.path,
            TaskOutcome::Indexed {
                name: "a.txt".to_string(),
                file_type: "txt".to_string(),
                content: "hello world".to_string(),
                modified: 1,
                embedding: embedding_of(1),
            },
        );
        outcomes.push(FileOutcome::Indexed);
    }
    for f in &files {
        if !should_index(f) {
            outcomes.push(FileOutcome::Skipped);
        }
    }
    let stats = batch_stats(&outcomes);
    assert_eq!(stats.total_files, 2);
    assert_eq!(stats.indexed_files, 1);
    assert_eq!(stats.failed_files, 0);

    let id = catalog.get(&"/docs/a.txt".to_string()).unwrap().id;
    let hits = vec![ScoredId { id, score_milli: 640 }];
    let r = assemble_search_result(&catalog, &hits, None, 1);
    assert_eq!(r.files.len(), 1);
    assert_eq!(r.files[0].path, "/docs/a.txt");
    assert!(r.files[0].score_milli > 0);
    for h in &r.files {
        assert_ne!(h.path, "/docs/b.bin");
    }
}

#[test]
fn adding_a_watched_folder_is_idempotent() {
    let mut w = WatchedFolders::new();
    assert!(w.add_folder("/docs".to_string()));
    assert!(!w.add_folder("/docs".to_string()));
    assert_eq!(w.len(), 1);
    assert!(w.contains(&"/docs".to_string()));
}

#[test]
fn removing_a_never_added_folder_is_a_no_op_success() {
    let mut w = WatchedFolders::new();
    w.add_folder("/docs".to_string());
    let removed = w.remove_folder(&"/never".to_string());
    assert!(!removed);
    assert_eq!(w.len(), 1);
    assert!(w.contains(&"/docs".to_string()));
}

#[test]
fn removing_a_watched_folder_forgets_it() {
    let mut w = WatchedFolders::new();
    w.add_folder("/docs".to_string());
    w.add_folder("/other".to_string());
    assert!(w.remove_folder(&"/docs".to_string()));
    assert!(!w.contains(&"/docs".to_string()));
    assert!(w.contains(&"/other".to_string()));
}

#[test]
fn removal_keeps_the_other_folders_in_order() {
    let mut w = WatchedFolders::new();
    w.add_folder("/a".to_string());
    w.add_folder("/b".to_string());
    w.add_folder("/c".to_string());
    assert!(w.remove_folder(&"/b".to_string()));
    assert_eq!(w.folders, vec!["/a".to_string(), "/c".to_string()]);
}

#[test]
fn remove_under_tears_down_nested_records_only() {
    let mut c = FileCatalog::new();
    for path in ["/docs/a.txt", "/docs/sub/b.txt", "/other/c.txt", "/docsx/d.txt"] {
        c.upsert(
            path.to_string(),
            "f".to_string(),
            "txt".to_string(),
            "t".to_string(),
            1,
            embedding_of(1),
        );
    }
    let removed = c.remove_under(&"/docs".to_string());
    assert_eq!(removed, 2);
    assert!(c.get(&"/docs/a.txt".to_string()).is_none());
    assert!(c.get(&"/docs/sub/b.txt".to_string()).is_none());
    assert!(c.get(&"/other/c.txt".to_string()).is_some());
    // A folder name that merely shares a prefix is not nested.
    assert!(c.get(&"/docsx/d.txt".to_string()).is_some());
}

#[test]
fn coverage_follows_the_watched_folder_set() {
    let mut w = WatchedFolders::new();
    w.add_folder("/docs".to_string());
    assert!(w.covers(&"/docs/a.txt".to_string()));
    assert!(!w.covers(&"/other/a.txt".to_string()));
    w.remove_folder(&"/docs".to_string());
    assert!(!w.covers(&"/docs/a.txt".to_string()));
}

#[test]
fn path_under_requires_a_separator() {
    assert!(path_under(&"/docs".to_string(), &"/docs/a.txt".to_string()));
    assert!(!path_under(&"/docs".to_string(), &"/docsx/a.txt".to_string()));
    assert!(!path_under(&"/docs".to_string(), &"/docs".to_string()));
    assert!(!path_under(&"/docs".to_string(), &"/other/a.txt".to_string()));
}

#[test]
fn events_map_to_tasks() {
    let t = event_to_task(&FileEvent::Created("/d/a.txt".to_string()));
    assert_eq!(t.path, "/d/a.txt");
    assert!(matches!(t.kind, TaskKind::Create));
    let t = event_to_task(&FileEvent::Deleted("/d/a.txt".to_string()));
    assert!(matches!(t.kind, TaskKind::Delete));
}

#[test]
fn bursts_collapse_to_the_latest_event_per_path() {
    let burst = vec![
        FileEvent::Created("/d/a.txt".to_string()),
        FileEvent::Modified("/d/a.txt".to_string()),
        FileEvent::Created("/d/b.txt".to_string()),
        FileEvent::Deleted("/d/a.txt".to_string()),
    ];
    let out = coalesce_events(burst);
    assert_eq!(out.len(), 2);
    assert!(matches!(&out[0], FileEvent::Deleted(p) if p.as_str() == "/d/a.txt"));
    assert!(matches!(&out[1], FileEvent::Created(p) if p.as_str() == "/d/b.txt"));
}

#[test]
fn coalescing_an_empty_burst_is_empty() {
    let out = coalesce_events(Vec::new());
    assert!(out.is_empty());
    let e = FileEvent::Modified("/x".to_string());
    assert_eq!(event_path(&e).as_str(), "/x");
}
