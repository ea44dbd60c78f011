use sphinx_ultra::builder::{build_dependency_graph, document_name, should_descend, SphinxBuilder};
use sphinx_ultra::cache::PersistedEntry;
use sphinx_ultra::config::BuildConfig;
use sphinx_ultra::document::{Document, DocumentContent, RstContent, RstNode};
use sphinx_ultra::error::{BuildError, WarningType};
use sphinx_ultra::validate::{check_references, extract_toctree_references, NamedDocument};

fn rst(path: &str, toctree: Option<&str>) -> Document {
    let mut d = Document::new_at(path.to_string(), String::new(), 100);
    let mut ast = vec![RstNode::Title { text: "T".to_string(), level: 1, line: 1 }];
    if let Some(body) = toctree {
        ast.push(RstNode::Directive {
            name: "toctree".to_string(),
            args: vec![],
            options: vec![],
            content: body.to_string(),
            line: 3,
        });
    }
    d.content = DocumentContent::RestructuredText(RstContent { raw: String::new(), ast, directives: vec![] });
    d
}

fn builder() -> SphinxBuilder {
    SphinxBuilder::new(BuildConfig::default(), "/src".to_string(), "/out".to_string(), 4)
}

#[test]
fn orphan_is_reported_and_listed_page_is_not() {
    let docs = vec![
        rst("/src/index.rst", Some(":maxdepth: 2\n\nguide\n")),
        rst("/src/guide.rst", None),
        rst("/src/orphan.rst", None),
    ];
    let mut b = builder();
    b.validate_documents(&docs);
    let stats = b.build_stats(docs.len(), 0, 0);
    assert_eq!(stats.warnings, 1);
    let w = &stats.warning_details[0];
    assert_eq!(w.file, "/src/orphan.rst");
    assert!(w.message.contains("included in any toctree"));
    assert_eq!(w.warning_type, WarningType::OrphanedDocument);
    assert!(stats.warning_details.iter().all(|w| w.file != "/src/guide.rst"));
}

#[test]
fn missing_navigation_target_is_reported_once() {
    let docs = vec![rst("/src/index.rst", Some("missing-page\n"))];
    let mut b = builder();
    b.validate_documents(&docs);
    let stats = b.build_stats(1, 0, 0);
    assert_eq!(stats.warnings, 1);
    assert_eq!(stats.warning_details[0].file, "/src/index.rst");
    assert!(stats.warning_details[0].message.contains("missing-page"));
    assert_eq!(
        stats.warning_details[0].message,
        "toctree contains reference to nonexisting document 'missing-page'"
    );
}

#[test]
fn navigation_target_resolves_to_index_child_and_reaches_descendants() {
    let docs = vec![
        rst("/src/index.rst", Some("api\n")),
        rst("/src/api/index.rst", None),
        rst("/src/api/deep/page.rst", None),
    ];
    let mut b = builder();
    b.validate_documents(&docs);
    assert_eq!(b.build_stats(3, 0, 0).warnings, 0);
}

#[test]
fn duplicate_dangling_targets_count_once() {
    let named = vec![NamedDocument {
        source_path: "i.rst".to_string(),
        name: "index".to_string(),
        references: vec!["x".to_string(), "x".to_string(), "y".to_string()],
    }];
    let ws = check_references(&named, "index");
    assert_eq!(ws.len(), 2);
    assert!(ws[0].message.contains("'x'"));
    assert!(ws[1].message.contains("'y'"));
}

#[test]
fn toctree_lines_skip_options_comments_and_blanks() {
    let d = rst("/src/index.rst", Some("  :maxdepth: 1\n.. hidden\n\n  intro\r\n  usage/setup  \n"));
    assert_eq!(extract_toctree_references(&d), Some(vec!["intro".to_string(), "usage/setup".to_string()]));
    assert_eq!(extract_toctree_references(&rst("/src/a.rst", None)), None);
}

#[test]
fn document_names_and_output_paths() {
    assert_eq!(document_name("/src", "/src/guide/intro.rst"), "guide/intro");
    assert_eq!(document_name("/src", "/elsewhere/x.md"), "/elsewhere/x");
    let b = builder();
    assert_eq!(b.get_output_path("/src/guide/intro.rst").unwrap(), "/out/guide/intro.html");
    assert!(matches!(b.get_output_path("/other/a.rst"), Err(BuildError::InvalidFormat(_))));
}

#[test]
fn discovery_skips_hidden_and_build_directories() {
    assert!(!should_descend("/src/.git"));
    assert!(!should_descend("/src/_build"));
    assert!(!should_descend("/src/__pycache__"));
    assert!(should_descend("/src/guide"));
    let b = builder();
    assert!(!b.descends_into("/out"));
    assert!(b.descends_into("/src/guide"));
    assert!(!b.descends_into("/src/.hidden"));
}

#[test]
fn dependency_graph_has_no_edges() {
    let files = vec!["a.rst".to_string(), "b.md".to_string()];
    let g = build_dependency_graph(&files);
    assert_eq!(g.len(), 2);
    assert_eq!(g[1].0, "b.md");
    assert!(g.iter().all(|(_, deps)| deps.is_empty()));
}

#[test]
fn builder_settings() {
    let mut b = builder();
    assert_eq!(b.parallel_jobs(), 4);
    b.set_parallel_jobs(2);
    assert_eq!(b.parallel_jobs(), 2);
    assert!(!b.incremental());
    b.enable_incremental();
    assert!(b.incremental());
    assert!(!b.should_fail_on_warning());
    assert!(b.cache().cache_dir().ends_with(".sphinx-ultra-cache"));
}

#[test]
fn second_incremental_build_is_all_cache_hits() {
    let files = ["/src/index.rst", "/src/guide.rst"];
    let hash = |p: &str| format!("fp-{}", p);
    let mut first = builder();
    first.enable_incremental();
    let mut reparsed = 0;
    for f in files {
        if first.cached_document_at(f, &hash(f), 100, 1000).is_none() {
            reparsed += 1;
            first.record_document_at(f, rst(f, None), hash(f), 1000);
        }
    }
    assert_eq!(reparsed, 2);
    let records: Vec<Option<PersistedEntry>> = files
        .iter()
        .map(|f| Some(PersistedEntry { entry: first.cache().entry(f).unwrap(), current_hash: Some(hash(f)) }))
        .collect();

    let mut second = builder();
    second.enable_incremental();
    second.cache_mut().load_entries_at(records, 2000);
    let mut reparsed = 0;
    let mut processed = 0;
    for f in files {
        processed += 1;
        if second.cached_document_at(f, &hash(f), 100, 2000).is_none() {
            reparsed += 1;
        }
    }
    let stats = second.build_stats(processed, 0, 0);
    assert_eq!(reparsed, 0);
    assert_eq!(stats.cache_hits, stats.files_processed);
    assert_eq!(stats.files_skipped, stats.files_processed);
}

#[test]
fn cache_is_not_consulted_outside_incremental_mode() {
    let mut b = builder();
    b.record_document_at("/src/a.rst", rst("/src/a.rst", None), "h".to_string(), 0);
    assert!(b.cache().entry("/src/a.rst").is_none());
    assert!(b.cached_document_at("/src/a.rst", "h", 0, 0).is_none());
    assert_eq!(b.cache().miss_count(), 0);
}

#[test]
fn older_cached_document_is_not_used() {
    let mut b = builder();
    b.enable_incremental();
    b.record_document_at("/src/a.rst", rst("/src/a.rst", None), "h".to_string(), 0);
    // the cached document says its source was modified at 100
    assert!(b.cached_document_at("/src/a.rst", "h", 101, 0).is_none());
    assert!(b.cached_document_at("/src/a.rst", "h", 100, 0).is_some());
}
