use graph_store::ids::{classify, ConstraintID, NodeID, RowKind, ID};

#[test]
fn node_id_round_trip() {
    let id = NodeID::new("User".to_string(), "01GZ8Y".to_string());
    let key = id.to_string();
    assert_eq!(key, "User#01GZ8Y");
    let back = NodeID::parse(&key).unwrap();
    assert_eq!(back, id);
    assert_eq!(back.ty(), "User");
    assert_eq!(back.value(), "01GZ8Y");
}

#[test]
fn node_id_value_may_hold_separator() {
    let id = NodeID::new("Post".to_string(), "a#b".to_string());
    assert_eq!(NodeID::parse(&id.to_string()), Some(id));
}

#[test]
fn malformed_node_ids() {
    assert_eq!(NodeID::parse("User"), None);
    assert_eq!(NodeID::parse("#1"), None);
    assert_eq!(NodeID::parse("User#"), None);
    assert_eq!(NodeID::parse("__C#email#x"), None);
}

#[test]
fn constraint_id_round_trip() {
    let id = ConstraintID::new("email".to_string(), "ada@example.com".to_string());
    let key = id.to_string();
    assert_eq!(key, "__C#email#ada@example.com");
    let back = ConstraintID::parse(&key).unwrap();
    assert_eq!(back, id);
    assert_eq!(back.field(), "email");
    assert_eq!(back.value(), "ada@example.com");
}

#[test]
fn malformed_constraint_ids() {
    assert_eq!(ConstraintID::parse("User#1"), None);
    assert_eq!(ConstraintID::parse("__C#email"), None);
    assert_eq!(ConstraintID::parse("__C##x"), None);
    assert_eq!(ConstraintID::parse("__C#email#"), None);
}

#[test]
fn classify_key_pairs() {
    assert_eq!(classify("User#1", "User#1"), RowKind::Node);
    assert_eq!(classify("User#1", "Post#1"), RowKind::Relation);
    assert_eq!(classify("__C#email#a", "__C#email#a"), RowKind::Constraint);
    assert_eq!(classify("User#1", "__C#email#a"), RowKind::Unrecognized);
    assert_eq!(classify("nonsense", "User#1"), RowKind::Unrecognized);
}

#[test]
fn id_reads_either_kind() {
    assert!(matches!(ID::parse("User#1"), Some(ID::NodeID(n)) if n.ty() == "User"));
    assert!(matches!(ID::parse("__C#email#a"), Some(ID::ConstraintID(c)) if c.field() == "email"));
    assert_eq!(ID::parse("plain"), None);
}
