// Summaries, extensions, supported types, limits and hit resolution.

use file_search::batch::should_index;
use file_search::catalog::FileCatalog;
use file_search::query::{assemble_search_result, effective_limit, resolve_hits};
use file_search::text::{
    extension_of, extractor_for, is_supported_file_type, make_summary, to_ascii_lowercase,
    ExtractorKind,
};
use file_search::types::{Embedding, ScoredId, VECTOR_SIZE};

fn embedding_of(seed: i64) -> Embedding {
    let mut values = Vec::new();
    for i in 0..VECTOR_SIZE {
        values.push(seed + i as i64);
    }
    Embedding::new(values).expect("dimension matches")
}

#[test]
fn summary_short_content_is_verbatim() {
    let s = make_summary("hello world");
    assert_eq!(s, "hello world");
}

#[test]
fn summary_exactly_at_limit_is_verbatim() {
    let content: String = "x".repeat(200);
    let s = make_summary(&content);
    assert_eq!(s, content);
    assert_eq!(s.chars().count(), 200);
}

#[test]
fn summary_long_content_is_truncated_with_ellipsis() {
    let content: String = "a".repeat(500);
    let s = make_summary(&content);
    assert_eq!(s.chars().count(), 203);
    assert!(s.ends_with("..."));
    assert_eq!(&s[..200], &content[..200]);
}

#[test]
fn summary_never_exceeds_bound() {
    for n in [0usize, 1, 199, 200, 201, 250, 1000] {
        let content: String = "y".repeat(n);
        let s = make_summary(&content);
        assert!(s.chars().count() <= 203);
    }
}

#[test]
fn extension_is_after_last_dot_of_file_name() {
    assert_eq!(extension_of("/docs/a.txt"), "txt");
    assert_eq!(extension_of("/docs/archive.tar.gz"), "gz");
    assert_eq!(extension_of("relative.md"), "md");
}

#[test]
fn extension_empty_when_absent() {
    assert_eq!(extension_of("/docs/noext"), "");
    assert_eq!(extension_of("/docs/.hidden"), "");
    assert_eq!(extension_of("/dotted.dir/plain"), "");
}

#[test]
fn lowercasing_is_ascii_only() {
    assert_eq!(to_ascii_lowercase("TxT"), "txt");
    assert_eq!(to_ascii_lowercase("MiXeD123"), "mixed123");
}

#[test]
fn supported_types_match_case_insensitively() {
    assert!(is_supported_file_type("txt"));
    assert!(is_supported_file_type("TXT"));
    assert!(is_supported_file_type("Md"));
    assert!(is_supported_file_type("pdf"));
    assert!(is_supported_file_type("docx"));
    assert!(!is_supported_file_type("bin"));
    assert!(!is_supported_file_type(""));
    assert!(!is_supported_file_type("exe"));
}

#[test]
fn extractor_dispatch_follows_extension() {
    assert!(matches!(extractor_for("pdf"), Some(ExtractorKind::Pdf)));
    assert!(matches!(extractor_for("DOCX"), Some(ExtractorKind::Docx)));
    assert!(matches!(extractor_for("rs"), Some(ExtractorKind::PlainText)));
    assert!(matches!(extractor_for("bin"), None));
}

#[test]
fn should_index_reads_the_path_extension() {
    assert!(should_index(&"/docs/a.txt".to_string()));
    assert!(!should_index(&"/docs/b.bin".to_string()));
    assert!(!should_index(&"/docs/noext".to_string()));
}

#[test]
fn effective_limit_defaults_and_caps() {
    assert_eq!(effective_limit(None), 20);
    assert_eq!(effective_limit(Some(0)), 20);
    assert_eq!(effective_limit(Some(5)), 5);
    assert_eq!(effective_limit(Some(100)), 100);
    assert_eq!(effective_limit(Some(500)), 100);
}

#[test]
fn embedding_dimension_is_enforced() {
    assert!(Embedding::new(vec![0; VECTOR_SIZE]).is_some());
    assert!(Embedding::new(vec![0; VECTOR_SIZE - 1]).is_none());
    assert!(Embedding::new(Vec::new()).is_none());
}

fn catalog_with(names: &[(&str, &str)]) -> FileCatalog {
    let mut c = FileCatalog::new();
    for (path, content) in names {
        c.upsert(
            path.to_string(),
            path.rsplit('/').next().unwrap().to_string(),
            "txt".to_string(),
            content.to_string(),
            7,
            embedding_of(1),
        );
    }
    c
}

#[test]
fn resolve_attaches_current_records_in_order() {
    let c = catalog_with(&[("/d/a.txt", "alpha"), ("/d/b.txt", "beta")]);
    let id_a = c.get(&"/d/a.txt".to_string()).unwrap().id;
    let id_b = c.get(&"/d/b.txt".to_string()).unwrap().id;
    let hits = vec![
        ScoredId { id: id_b, score_milli: 900 },
        ScoredId { id: id_a, score_milli: 400 },
    ];
    let r = resolve_hits(&c, &hits, 10);
    assert_eq!(r.len(), 2);
    assert_eq!(r[0].id, id_b);
    assert_eq!(r[0].path, "/d/b.txt");
    assert_eq!(r[0].score_milli, 900);
    assert_eq!(r[1].id, id_a);
    assert_eq!(r[1].summary, "alpha");
}

#[test]
fn resolve_drops_deleted_ids() {
    let mut c = catalog_with(&[("/d/a.txt", "alpha"), ("/d/b.txt", "beta")]);
    let id_a = c.get(&"/d/a.txt".to_string()).unwrap().id;
    let id_b = c.get(&"/d/b.txt".to_string()).unwrap().id;
    c.remove_path(&"/d/a.txt".to_string());
    let hits = vec![
        ScoredId { id: id_a, score_milli: 900 },
        ScoredId { id: id_b, score_milli: 500 },
    ];
    let r = resolve_hits(&c, &hits, 10);
    assert_eq!(r.len(), 1);
    assert_eq!(r[0].id, id_b);
}

#[test]
fn resolve_respects_limit() {
    let c = catalog_with(&[("/d/a.txt", "alpha"), ("/d/b.txt", "beta"), ("/d/c.txt", "gamma")]);
    let mut hits = Vec::new();
    for rec in &c.records {
        hits.push(ScoredId { id: rec.id, score_milli: 100 });
    }
    let r = resolve_hits(&c, &hits, 2);
    assert_eq!(r.len(), 2);
}

#[test]
fn search_result_is_capped_by_effective_limit() {
    let mut c = FileCatalog::new();
    let mut hits = Vec::new();
    for i in 0..30 {
        let path = format!("/d/f{}.txt", i);
        let id = c.upsert(
            path.clone(),
            format!("f{}.txt", i),
            "txt".to_string(),
            "text".to_string(),
            1,
            embedding_of(0),
        );
        hits.push(ScoredId { id, score_milli: 1000 - i as i64 });
    }
    let default_limit = assemble_search_result(&c, &hits, Some(0), 3);
    assert!(default_limit.files.len() <= 20);
    assert_eq!(default_limit.files.len(), 20);
    assert_eq!(default_limit.total, 20);
    assert_eq!(default_limit.query_time_ms, 3);
    let capped = assemble_search_result(&c, &hits, Some(500), 4);
    assert!(capped.files.len() <= 100);
    assert_eq!(capped.files.len(), 30);
    let five = assemble_search_result(&c, &hits, Some(5), 5);
    assert_eq!(five.files.len(), 5);
    assert_eq!(five.files[0].score_milli, 1000);
}

#[test]
fn indexed_file_is_found_with_positive_score() {
    let mut c = FileCatalog::new();
    let id = c.upsert(
        "/docs/a.txt".to_string(),
        "a.txt".to_string(),
        "txt".to_string(),
        "hello world".to_string(),
        1,
        embedding_of(3),
    );
    let hits = vec![ScoredId { id, score_milli: 730 }];
    let r = assemble_search_result(&c, &hits, None, 1);
    assert_eq!(r.files.len(), 1);
    assert_eq!(r.files[0].id, id);
    assert_eq!(r.files[0].summary, "hello world");
    assert!(r.files[0].score_milli > 0);
}
