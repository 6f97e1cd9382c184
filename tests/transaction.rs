use graph_store::document::{AttrValue, Document};
use graph_store::record::{SqlValue, Timestamp, CREATED_AT, PK, RELATION_NAMES, SK, TYPE, UPDATED_AT};
use graph_store::transaction::{
    changes_to_transaction, merge_changes, Compiled, Constraint, DeleteAllRelationsInternalInput,
    DeleteMultipleRelationsInternalInput, DeleteNodeInternalInput, DeleteRelationInternalInput,
    InsertNodeConstraintInternalInput, InsertNodeInternalInput, InsertRelationInternalInput,
    InsertUniqueConstraint, InternalChanges, InternalNodeChanges, InternalNodeConstraintChanges,
    InternalRelationChanges, OperationKind, ToTransactionError, UpdateNodeConstraintInternalInput,
    UpdateNodeInternalInput, UpdateRelation, UpdateRelationInternalInput, UpdateUniqueConstraint,
};

fn text(v: &SqlValue) -> &str {
    match v {
        SqlValue::String(s) => s.as_str(),
        other => panic!("expected a string, got {:?}", other),
    }
}

fn doc(v: &SqlValue) -> &Document {
    match v {
        SqlValue::Document(d) => d,
        other => panic!("expected a document, got {:?}", other),
    }
}

fn attr_text<'a>(d: &'a Document, name: &str) -> Option<&'a str> {
    match d.get(name) {
        Some(AttrValue::S(s)) => Some(s.as_str()),
        _ => None,
    }
}

fn document_of(pairs: &[(&str, &str)]) -> Document {
    let mut d = Document::new();
    for (k, v) in pairs {
        d.insert(k.to_string(), AttrValue::S(v.to_string()));
    }
    d
}

fn insert_node(ty: &str, id: &str, d: Document) -> InternalChanges {
    InternalChanges::Node(InternalNodeChanges::Insert(InsertNodeInternalInput {
        id: id.to_string(),
        ty: ty.to_string(),
        user_defined_item: d,
    }))
}

fn update_node(d: Document) -> InternalChanges {
    InternalChanges::Node(InternalNodeChanges::Update(UpdateNodeInternalInput {
        id: "1".to_string(),
        ty: "User".to_string(),
        user_defined_item: d,
    }))
}

fn compile(c: InternalChanges, pk: &str, sk: &str, now: &Timestamp) -> Compiled {
    assert!(c.key_fits(pk));
    c.to_transaction(pk.to_string(), sk.to_string(), now)
}

#[test]
fn timestamp_text_is_rfc3339_with_millis() {
    let now = Timestamp::now();
    let t = now.text();
    assert_eq!(t.len(), 24);
    assert!(t.ends_with('Z'));
    assert_eq!(&t[10..11], "T");
    assert!(now.millis() > 0);
}

#[test]
fn insert_node_scenario() {
    let now = Timestamp::now();
    let c = compile(insert_node("User", "01H2X", document_of(&[("name", "Ada")])), "ignored", "ignored", &now);
    assert!(c.text.starts_with("INSERT INTO records"));
    assert_eq!(c.values.len(), 11);
    assert_eq!(text(&c.values[0]), "User#01H2X");
    assert_eq!(text(&c.values[1]), "User#01H2X");
    assert_eq!(text(&c.values[2]), "User");
    assert_eq!(text(&c.values[3]), text(&c.values[4]));
    assert_eq!(text(&c.values[3]), now.text());
    assert_eq!(text(&c.values[5]), "User");
    assert_eq!(text(&c.values[6]), "User#01H2X");
    assert_eq!(text(&c.values[7]), "User#01H2X");
    assert_eq!(text(&c.values[8]), "User#01H2X");
    let d = doc(&c.values[10]);
    assert_eq!(attr_text(d, "name"), Some("Ada"));
    assert_eq!(attr_text(d, PK), Some("User#01H2X"));
    assert_eq!(attr_text(d, SK), Some("User#01H2X"));
    assert_eq!(attr_text(d, TYPE), Some("User"));
    assert_eq!(attr_text(d, CREATED_AT), attr_text(d, UPDATED_AT));
    assert!(c.marker.is_none());
}

#[test]
fn insert_node_keys_ignore_document() {
    let now = Timestamp::now();
    let a = compile(insert_node("Post", "7", document_of(&[("title", "x")])), "", "", &now);
    let b = compile(insert_node("Post", "7", document_of(&[("body", "y"), ("title", "z")])), "", "", &now);
    for i in [0usize, 1, 5, 6, 7, 8] {
        assert_eq!(text(&a.values[i]), text(&b.values[i]));
    }
}

#[test]
fn update_node_keeps_keys() {
    let now = Timestamp::now();
    let c = compile(update_node(document_of(&[("name", "Grace")])), "User#1", "User#1", &now);
    assert_eq!(
        c.text,
        "UPDATE records SET document = json_patch(document, ?), updated_at = ? WHERE pk = ? AND sk = ?"
    );
    assert_eq!(c.values.len(), 4);
    let d = doc(&c.values[0]);
    assert_eq!(attr_text(d, "name"), Some("Grace"));
    assert_eq!(attr_text(d, UPDATED_AT), Some(now.text()));
    assert!(d.get(CREATED_AT).is_none());
    assert_eq!(text(&c.values[1]), now.text());
    assert_eq!(text(&c.values[2]), "User#1");
    assert_eq!(text(&c.values[3]), "User#1");
}

#[test]
fn delete_node_is_by_identity() {
    let now = Timestamp::now();
    let c = compile(
        InternalChanges::Node(InternalNodeChanges::Delete(DeleteNodeInternalInput {
            id: "1".to_string(),
            ty: "User".to_string(),
        })),
        "User#1",
        "User#1",
        &now,
    );
    assert_eq!(c.text, "DELETE FROM records WHERE pk = ? AND sk = ?");
    assert_eq!(c.values.len(), 2);
    assert_eq!(text(&c.values[0]), "User#1");
}

fn insert_relation(labels: &[&str]) -> InternalChanges {
    InternalChanges::Relation(InternalRelationChanges::Insert(InsertRelationInternalInput {
        fields: Document::new(),
        relation_names: labels.iter().map(|l| l.to_string()).collect(),
        from_ty: "User".to_string(),
        to_ty: "Post".to_string(),
    }))
}

#[test]
fn insert_relation_labels_and_indexes() {
    let now = Timestamp::now();
    let c = compile(insert_relation(&["b", "a"]), "User#1", "Post#1", &now);
    assert!(c.text.ends_with("json_insert_all(relation_names, ?, ?)"));
    assert_eq!(c.values.len(), 13);
    assert_eq!(text(&c.values[0]), "User#1");
    assert_eq!(text(&c.values[1]), "Post#1");
    assert_eq!(text(&c.values[2]), "Post");
    assert_eq!(text(&c.values[5]), "User");
    assert_eq!(text(&c.values[6]), "User#1");
    assert_eq!(text(&c.values[7]), "Post#1");
    assert_eq!(text(&c.values[8]), "User#1");
    match &c.values[9] {
        SqlValue::Strings(v) => assert_eq!(v, &vec!["b".to_string(), "a".to_string()]),
        other => panic!("{:?}", other),
    }
    let d = doc(&c.values[10]);
    assert!(matches!(d.get(RELATION_NAMES), Some(AttrValue::SS(v)) if v.len() == 2));
    let mut added = vec![text(&c.values[11]), text(&c.values[12])];
    added.sort();
    assert_eq!(added, vec!["a", "b"]);
}

#[test]
fn update_relation_splits_label_changes() {
    let now = Timestamp::now();
    let c = compile(
        InternalChanges::Relation(InternalRelationChanges::Update(UpdateRelationInternalInput {
            user_defined_item: Document::new(),
            relation_names: vec![UpdateRelation::Add("c".to_string()), UpdateRelation::Remove("a".to_string())],
        })),
        "User#1",
        "Post#1",
        &now,
    );
    assert_eq!(
        c.text,
        "UPDATE records SET relation_names = json_insert_all(json_remove_all(relation_names, ?), ?), document = json_patch(document, ?), updated_at = ? WHERE pk = ? AND sk = ?"
    );
    assert_eq!(c.values.len(), 6);
    assert_eq!(text(&c.values[0]), "a");
    assert_eq!(text(&c.values[1]), "c");
    assert_eq!(text(&c.values[3]), now.text());
    assert_eq!(text(&c.values[4]), "User#1");
    assert_eq!(text(&c.values[5]), "Post#1");
}

#[test]
fn insert_then_delete_label_scenario() {
    let now = Timestamp::now();
    let insert = compile(insert_relation(&["wrote"]), "User#1", "Post#1", &now);
    let delete = compile(
        InternalChanges::Relation(InternalRelationChanges::Delete(DeleteRelationInternalInput::Multiple(
            DeleteMultipleRelationsInternalInput { relation_names: vec!["wrote".to_string()] },
        ))),
        "User#1",
        "Post#1",
        &now,
    );
    assert!(insert.text.starts_with("INSERT INTO records"));
    assert_eq!(text(&insert.values[11]), "wrote");
    assert!(delete.text.starts_with("UPDATE records SET relation_names = json_remove_all(relation_names, ?)"));
    assert!(!delete.text.contains("DELETE"));
    assert_eq!(delete.values.len(), 5);
    assert_eq!(text(&delete.values[0]), "wrote");
    assert_eq!(attr_text(doc(&delete.values[1]), UPDATED_AT), Some(now.text()));
    assert_eq!(text(&delete.values[3]), "User#1");
    assert_eq!(text(&delete.values[4]), "Post#1");
}

#[test]
fn delete_all_relations_is_by_identity() {
    let now = Timestamp::now();
    let c = compile(
        InternalChanges::Relation(InternalRelationChanges::Delete(DeleteRelationInternalInput::All(
            DeleteAllRelationsInternalInput {},
        ))),
        "User#1",
        "Post#1",
        &now,
    );
    assert_eq!(c.text, "DELETE FROM records WHERE pk = ? AND sk = ?");
    assert_eq!(text(&c.values[1]), "Post#1");
}

#[test]
fn insert_unique_constraint_marks_field_and_value() {
    let now = Timestamp::now();
    let c = compile(
        InternalChanges::NodeConstraints(InternalNodeConstraintChanges::Insert(
            InsertNodeConstraintInternalInput::Unique(InsertUniqueConstraint {
                target: "User#1".to_string(),
                user_defined_item: Document::new(),
            }),
        )),
        "__C#email#ada@example.com",
        "__C#email#ada@example.com",
        &now,
    );
    assert!(c.text.starts_with("INSERT INTO records"));
    assert!(matches!(c.values[2], SqlValue::Null));
    assert!(matches!(c.values[5], SqlValue::Null));
    assert!(matches!(c.values[6], SqlValue::Null));
    assert_eq!(text(&c.values[7]), "User#1");
    assert_eq!(text(&c.values[8]), "__C#email#ada@example.com");
    assert_eq!(
        c.marker,
        Some(OperationKind::Constraint(Constraint::Unique {
            value: "ada@example.com".to_string(),
            field: "email".to_string(),
        }))
    );
}

#[test]
fn constraint_changes_need_a_constraint_key() {
    let insert = InternalChanges::NodeConstraints(InternalNodeConstraintChanges::Insert(
        InsertNodeConstraintInternalInput::Unique(InsertUniqueConstraint {
            target: "User#1".to_string(),
            user_defined_item: Document::new(),
        }),
    ));
    assert!(!insert.key_fits("User#1"));
    assert!(!insert.key_fits("__C#email"));
    assert!(insert.key_fits("__C#email#a"));
    let update = InternalChanges::NodeConstraints(InternalNodeConstraintChanges::Update(
        UpdateNodeConstraintInternalInput::Unique(UpdateUniqueConstraint {
            target: "User#2".to_string(),
            user_defined_item: Document::new(),
        }),
    ));
    assert!(!update.key_fits("__C#email"));
    assert!(update_node(Document::new()).key_fits("anything"));
}

#[test]
fn constraint_document_keys_are_the_constraint_id() {
    let now = Timestamp::now();
    let c = compile(
        InternalChanges::NodeConstraints(InternalNodeConstraintChanges::Insert(
            InsertNodeConstraintInternalInput::Unique(InsertUniqueConstraint {
                target: "User#1".to_string(),
                user_defined_item: Document::new(),
            }),
        )),
        "__C#email#a",
        "x",
        &now,
    );
    assert_eq!(text(&c.values[0]), "__C#email#a");
    assert_eq!(text(&c.values[1]), "x");
    let d = doc(&c.values[10]);
    assert_eq!(attr_text(d, PK), Some("__C#email#a"));
    assert_eq!(attr_text(d, SK), Some("__C#email#a"));
    assert_eq!(attr_text(d, "__gsi2pk"), Some("User#1"));
}

#[test]
fn update_unique_constraint_moves_the_inverted_index() {
    let now = Timestamp::now();
    let mut item = Document::new();
    item.insert("__gsi1pk".to_string(), AttrValue::S("User".to_string()));
    let c = compile(
        InternalChanges::NodeConstraints(InternalNodeConstraintChanges::Update(
            UpdateNodeConstraintInternalInput::Unique(UpdateUniqueConstraint {
                target: "User#2".to_string(),
                user_defined_item: item,
            }),
        )),
        "__C#email#a",
        "__C#email#a",
        &now,
    );
    let d = doc(&c.values[0]);
    assert_eq!(attr_text(d, "__gsi2pk"), Some("User#2"));
    assert_eq!(attr_text(d, "__gsi2sk"), Some("__C#email#a"));
    assert!(d.get("__gsi1pk").is_none());
    assert!(d.get("__gsi1sk").is_none());
    assert!(c.marker.is_none());
}

#[test]
fn merging_two_node_updates_takes_the_later() {
    let now = Timestamp::now();
    let merged = changes_to_transaction(
        vec![update_node(document_of(&[("name", "Ada")])), update_node(document_of(&[("name", "Grace")]))],
        "User#1".to_string(),
        "User#1".to_string(),
        &now,
    )
    .unwrap();
    let direct = compile(update_node(document_of(&[("name", "Grace")])), "User#1", "User#1", &now);
    assert_eq!(merged.text, direct.text);
    assert_eq!(attr_text(doc(&merged.values[0]), "name"), Some("Grace"));
    for i in 1..4 {
        assert_eq!(text(&merged.values[i]), text(&direct.values[i]));
    }
}

#[test]
fn merging_no_changes_is_a_contract_violation() {
    assert!(matches!(merge_changes(vec![]), Err(ToTransactionError::ContractViolation)));
    let now = Timestamp::now();
    let r = changes_to_transaction(vec![], "User#1".to_string(), "User#1".to_string(), &now);
    assert!(matches!(r, Err(ToTransactionError::ContractViolation)));
}

#[test]
fn conflicting_changes_fail_the_merge() {
    let r = merge_changes(vec![insert_node("User", "1", Document::new()), update_node(Document::new())]);
    assert!(matches!(r, Err(ToTransactionError::Unknown)));
    let r = merge_changes(vec![update_node(Document::new())]);
    assert!(matches!(r, Ok(InternalChanges::Node(InternalNodeChanges::Update(_)))));
}

#[test]
fn relation_label_attribute_is_always_the_engines() {
    let now = Timestamp::now();
    let mut fields = Document::new();
    fields.insert(RELATION_NAMES.to_string(), AttrValue::S("x".to_string()));
    fields.insert(PK.to_string(), AttrValue::S("forged".to_string()));
    let c = compile(
        InternalChanges::Relation(InternalRelationChanges::Insert(InsertRelationInternalInput {
            fields,
            relation_names: vec![],
            from_ty: "User".to_string(),
            to_ty: "Post".to_string(),
        })),
        "User#1",
        "Post#1",
        &now,
    );
    let d = doc(&c.values[10]);
    assert!(matches!(d.get(RELATION_NAMES), Some(AttrValue::SS(v)) if v.is_empty()));
    assert_eq!(attr_text(d, PK), Some("User#1"));
    assert_eq!(c.values.len(), 11);
    assert!(c.text.ends_with("json_insert_all(relation_names)"));
}
