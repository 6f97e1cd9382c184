use graph_store::document::{AttrValue, Document};

#[test]
fn later_insert_wins_and_remove_clears() {
    let mut d = Document::new();
    d.insert("a".to_string(), AttrValue::S("1".to_string()));
    d.insert("b".to_string(), AttrValue::N("2".to_string()));
    d.insert("a".to_string(), AttrValue::S("3".to_string()));
    assert!(matches!(d.get("a"), Some(AttrValue::S(s)) if s == "3"));
    assert!(matches!(d.get("b"), Some(AttrValue::N(s)) if s == "2"));
    d.remove("a");
    assert!(d.get("a").is_none());
    assert!(d.get("b").is_some());
    d.remove("missing");
    assert!(d.get("b").is_some());
}
