use graph_store::document::Document;
use graph_store::query::{collect_batch, decimal_text, QueryKey, QueryLoader, QueryLoaderError, QueryResult, RawRow};
use std::collections::hash_map::DefaultHasher;
use std::hash::{Hash, Hasher};

fn key(pk: &str, labels: &[&str]) -> QueryKey {
    QueryKey::new(pk.to_string(), labels.iter().map(|l| l.to_string()).collect())
}

fn hash_of(k: &QueryKey) -> u64 {
    let mut h = DefaultHasher::new();
    k.hash(&mut h);
    h.finish()
}

fn row(pk: &str, sk: &str, labels: Option<&[&str]>) -> RawRow {
    RawRow {
        pk: pk.to_string(),
        sk: sk.to_string(),
        relation_names: labels.map(|l| l.iter().map(|s| s.to_string()).collect()),
        attributes: Document::new(),
    }
}

#[test]
fn query_key_ignores_label_order() {
    let a = key("User#1", &["b", "a"]);
    let b = key("User#1", &["a", "b"]);
    assert_eq!(a, b);
    assert_eq!(hash_of(&a), hash_of(&b));
    assert_eq!(a.edges(), &vec!["a".to_string(), "b".to_string()]);
}

#[test]
fn query_key_drops_repeated_labels() {
    let a = key("User#1", &["a", "b", "a"]);
    assert_eq!(a, key("User#1", &["b", "a"]));
    assert_eq!(a.edges().len(), 2);
    assert_ne!(key("User#1", &["a"]), key("User#2", &["a"]));
}

#[test]
fn plan_without_labels_reads_the_partition() {
    let p = key("anything", &[]).plan().unwrap();
    assert_eq!(p.partition, "anything");
    assert_eq!(p.node_type, None);
    assert!(p.labels.is_empty());
}

#[test]
fn plan_with_labels_filters_by_type_and_labels() {
    let p = key("User#1", &["wrote", "liked"]).plan().unwrap();
    assert_eq!(p.partition, "User#1");
    assert_eq!(p.node_type, Some("User".to_string()));
    assert_eq!(p.labels, vec!["liked".to_string(), "wrote".to_string()]);
}

#[test]
fn plan_with_labels_needs_a_node_id() {
    assert_eq!(key("not-a-node", &["wrote"]).plan(), Err(QueryLoaderError::UnknownError));
    let loader = QueryLoader::new("records".to_string(), "__pk".to_string());
    let keys = vec![key("User#1", &[]), key("oops", &["a"])];
    assert_eq!(loader.plans(&keys), Err(QueryLoaderError::UnknownError));
    let keys = vec![key("User#1", &[]), key("User#2", &["a"])];
    assert_eq!(loader.plans(&keys).unwrap().len(), 2);
}

#[test]
fn rows_are_gathered_by_root_id() {
    let rows = vec![
        row("User#1", "Post#1", Some(&["wrote", "liked"])),
        row("User#1", "User#1", None),
        row("__C#email#a", "__C#email#a", None),
        row("User#1", "Post#2", Some(&["wrote"])),
        row("bogus", "User#1", None),
        row("User#1", "__C#email#a", None),
    ];
    let r = QueryResult::assemble(rows);
    assert_eq!(r.len(), 2);
    assert_eq!(r.root_ids(), &vec!["User#1".to_string(), "__C#email#a".to_string()]);
    assert_eq!(r.node("User#1"), Some(1));
    assert_eq!(r.row(1).sk, "User#1");
    assert_eq!(r.edges("User#1", "wrote"), vec![0, 3]);
    assert_eq!(r.edges("User#1", "liked"), vec![0]);
    assert!(r.edges("User#1", "other").is_empty());
    assert!(r.constraints("User#1").is_empty());
    assert_eq!(r.constraints("__C#email#a"), vec![2]);
    assert_eq!(r.node("__C#email#a"), None);
    assert_eq!(r.node("bogus"), None);
}

#[test]
fn later_node_row_replaces_earlier() {
    let r = QueryResult::assemble(vec![row("User#1", "User#1", None), row("User#1", "User#1", None)]);
    assert_eq!(r.len(), 1);
    assert_eq!(r.node("User#1"), Some(1));
}

#[test]
fn batch_has_one_entry_per_key() {
    let keys = vec![key("User#1", &[]), key("User#2", &["wrote"]), key("User#3", &[])];
    let scans = vec![
        Some(vec![row("User#1", "User#1", None)]),
        Some(vec![row("User#2", "Post#9", Some(&["wrote"]))]),
        Some(vec![]),
    ];
    let out = collect_batch(keys.clone(), scans).unwrap();
    assert_eq!(out.len(), 3);
    for (i, (k, _)) in out.iter().enumerate() {
        assert_eq!(k, &keys[i]);
    }
    assert_eq!(out[0].1.node("User#1"), Some(0));
    assert_eq!(out[1].1.edges("User#2", "wrote"), vec![0]);
    assert_eq!(out[2].1.len(), 0);
}

#[test]
fn failed_scan_fails_the_batch() {
    let loader = QueryLoader::new("records".to_string(), "__pk".to_string());
    let keys = vec![key("User#1", &[]), key("User#2", &[])];
    let r = loader.finish(keys, vec![Some(vec![]), None]);
    assert!(matches!(r, Err(QueryLoaderError::QueryError)));
}

#[test]
fn filter_expression_for_labels() {
    let p = key("User#1", &["wrote", "liked"]).plan().unwrap();
    assert_eq!(
        p.filter_expression(),
        Some(
            "begins_with(#type, :type) OR  contains(#relationname, :relation0) OR  contains(#relationname, :relation1)"
                .to_string()
        )
    );
    let values = p.expression_values();
    assert_eq!(values.len(), 4);
    assert_eq!(values[0], (":pk".to_string(), "User#1".to_string()));
    assert_eq!(values[1], (":relation0".to_string(), "liked".to_string()));
    assert_eq!(values[2], (":relation1".to_string(), "wrote".to_string()));
    assert_eq!(values[3], (":type".to_string(), "User".to_string()));
}

#[test]
fn no_filter_without_labels() {
    let p = key("User#1", &[]).plan().unwrap();
    assert_eq!(p.filter_expression(), None);
    assert_eq!(p.expression_values(), vec![(":pk".to_string(), "User#1".to_string())]);
}

#[test]
fn decimal_text_of_numbers() {
    assert_eq!(decimal_text(0), "0");
    assert_eq!(decimal_text(7), "7");
    assert_eq!(decimal_text(10), "10");
    assert_eq!(decimal_text(305), "305");
    assert_eq!(decimal_text(usize::MAX), usize::MAX.to_string());
}

#[test]
fn keys_are_chunked_in_order() {
    let keys: Vec<QueryKey> = (0..23).map(|i| key(&format!("User#{}", i), &[])).collect();
    let chunks = graph_store::query::chunk_keys(keys.clone(), 10);
    assert_eq!(chunks.iter().map(|c| c.len()).collect::<Vec<_>>(), vec![10, 10, 3]);
    assert_eq!(chunks.concat(), keys);
    assert!(graph_store::query::chunk_keys(vec![], 10).is_empty());
}

#[test]
fn scan_names_and_key_condition() {
    let loader = QueryLoader::new("records".to_string(), "__gsi1pk".to_string());
    assert_eq!(loader.key_condition(), "#pk = :pk");
    let with_labels = key("User#1", &["wrote"]).plan().unwrap();
    assert_eq!(
        loader.expression_names(&with_labels),
        vec![
            ("#pk".to_string(), "__gsi1pk".to_string()),
            ("#relationname".to_string(), "__relation_names".to_string()),
            ("#type".to_string(), "__type".to_string()),
        ]
    );
    let without = key("User#1", &[]).plan().unwrap();
    assert_eq!(loader.expression_names(&without), vec![("#pk".to_string(), "__gsi1pk".to_string())]);
}
