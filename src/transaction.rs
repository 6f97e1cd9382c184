//! The transaction compiler: one statement for each typed change to one item,
//! and the merger that collapses several changes to one item into one.
use vstd::prelude::*;
use crate::document::{AttrValue, AttrView, Document, strings_view};
use crate::ids::{ConstraintID, NodeID, NodeIdView, constraint_of};
use crate::record::{
    CREATED_AT, INVERTED_INDEX_PK, RELATION_NAMES, INVERTED_INDEX_SK, TYPE, ItemView, PK, Record, Row, SK, SqlValue,
    TYPE_INDEX_PK, TYPE_INDEX_SK, Timestamp, TimestampView, UPDATED_AT, copy_strings, project,
};
use crate::statement::{Sql, SqlView, StoredView, apply, statement_text, kind_of, bound_values};
use crate::record::values_view;

verus! {

/// Why a change did not compile.
#[derive(Clone, Copy, Debug, PartialEq, Eq)]
pub enum ToTransactionError {
    /// The caller broke the compiler's contract: a malformed constraint id,
    /// or no change to compile.
    ContractViolation,
    /// Two changes to one item could not be merged.
    Unknown,
}

/// A uniqueness constraint that a statement establishes.
#[derive(Clone, Debug, PartialEq, Eq)]
pub enum Constraint {
    Unique { value: String, field: String },
}

/// What the orchestrator learns of a statement besides its text and values.
#[derive(Clone, Debug, PartialEq, Eq)]
pub enum OperationKind {
    Constraint(Constraint),
}

/// A compiled change: the statement text, its bound values, and the marker
/// for the orchestrator.
pub struct Compiled {
    pub text: String,
    pub values: Vec<SqlValue>,
    pub marker: Option<OperationKind>,
}

/// A structured statement with its marker.
pub struct Planned {
    pub sql: Sql,
    pub marker: Option<OperationKind>,
}

/// The document of an update: the new attributes with the time of the change.
pub open spec fn touch_document(d: Map<Seq<char>, AttrView>, now: TimestampView) -> Map<
    Seq<char>,
    AttrView,
> {
    d.insert(UPDATED_AT@, AttrView::S(now.text))
}

fn touch(d: &mut Document, now: &Timestamp)
    ensures
        final(d)@ == touch_document(old(d)@, now@),
{
    d.insert(String::from_str(UPDATED_AT), AttrValue::S(String::from_str(now.text())));
}

// ----- nodes -----

/// A node to create: its type, its id value, and its attributes.
pub struct InsertNodeInternalInput {
    pub id: String,
    pub ty: String,
    pub user_defined_item: Document,
}

/// New attributes for a node.
pub struct UpdateNodeInternalInput {
    pub id: String,
    pub ty: String,
    pub user_defined_item: Document,
}

/// A node to delete.
pub struct DeleteNodeInternalInput {
    pub id: String,
    pub ty: String,
}

pub enum InternalNodeChanges {
    Insert(InsertNodeInternalInput),
    Update(UpdateNodeInternalInput),
    Delete(DeleteNodeInternalInput),
}

/// The record of a new node: it is its own partition, the type index lists
/// it under its type, and the inverted index points at itself.
pub open spec fn node_record(ty: Seq<char>, id: Seq<char>, d: Map<Seq<char>, AttrView>, now: TimestampView) -> ItemView {
    let key = (NodeIdView { ty: ty, value: id }).key();
    ItemView {
        pk: key,
        sk: key,
        entity_type: Some(ty),
        created_at: now,
        updated_at: now,
        relation_names: Seq::empty(),
        gsi1pk: Some(ty),
        gsi1sk: Some(key),
        gsi2pk: Some(key),
        gsi2sk: Some(key),
        document: d,
    }
}

pub open spec fn insert_node_sql(i: InsertNodeInternalInput, now: TimestampView) -> SqlView {
    SqlView::Insert(project(node_record(i.ty@, i.id@, i.user_defined_item@, now)))
}

pub open spec fn update_sql(
    d: Map<Seq<char>, AttrView>,
    pk: Seq<char>,
    sk: Seq<char>,
    now: TimestampView,
) -> SqlView {
    SqlView::Update { pk, sk, document: touch_document(d, now), updated_at: now }
}

impl InsertNodeInternalInput {
    pub fn to_sql(self, now: &Timestamp) -> (r: Sql)
        ensures
            r@ == insert_node_sql(self, now@),
    {
        let InsertNodeInternalInput { id, ty, user_defined_item } = self;
        let id = NodeID::new(ty, id);
        let key = id.to_string();
        let ty = String::from_str(id.ty());
        let record = Record {
            pk: key.clone(),
            sk: key.clone(),
            entity_type: Some(ty.clone()),
            created_at: now.duplicate(),
            updated_at: now.duplicate(),
            relation_names: Vec::new(),
            gsi1pk: Some(ty),
            gsi1sk: Some(key.clone()),
            gsi2pk: Some(key.clone()),
            gsi2sk: Some(key),
            document: user_defined_item,
        };
        assert(record@.relation_names =~= Seq::<Seq<char>>::empty());
        Sql::Insert(Row::from_record(record))
    }
}

impl UpdateNodeInternalInput {
    pub fn to_sql(self, pk: String, sk: String, now: &Timestamp) -> (r: Sql)
        ensures
            r@ == update_sql(self.user_defined_item@, pk@, sk@, now@),
    {
        let mut document = self.user_defined_item;
        touch(&mut document, now);
        Sql::Update { pk, sk, document, updated_at: now.duplicate() }
    }
}

pub open spec fn delete_sql(pk: Seq<char>, sk: Seq<char>) -> SqlView {
    SqlView::DeleteByIds { pk, sk }
}

fn delete_by_ids(pk: String, sk: String) -> (r: Sql)
    ensures
        r@ == delete_sql(pk@, sk@),
{
    Sql::DeleteByIds { pk, sk }
}

// ----- relations -----

/// A relation row to create, or labels to add to it: the attributes, the
/// labels, and the types at both ends.
pub struct InsertRelationInternalInput {
    pub fields: Document,
    pub relation_names: Vec<String>,
    pub from_ty: String,
    pub to_ty: String,
}

/// The whole relation row is deleted.
pub struct DeleteAllRelationsInternalInput {}

/// Labels to take off a relation row.
pub struct DeleteMultipleRelationsInternalInput {
    pub relation_names: Vec<String>,
}

pub enum DeleteRelationInternalInput {
    All(DeleteAllRelationsInternalInput),
    Multiple(DeleteMultipleRelationsInternalInput),
}

/// One step of a change of labels.
#[derive(Clone, Debug, PartialEq, Eq)]
pub enum UpdateRelation {
    Add(String),
    Remove(String),
}

/// New attributes and a change of labels for a relation row.
pub struct UpdateRelationInternalInput {
    pub user_defined_item: Document,
    pub relation_names: Vec<UpdateRelation>,
}

pub enum InternalRelationChanges {
    Insert(InsertRelationInternalInput),
    Update(UpdateRelationInternalInput),
    Delete(DeleteRelationInternalInput),
}

/// The labels that a change removes, in order.
pub open spec fn removed_labels(d: Seq<UpdateRelation>) -> Seq<Seq<char>>
    decreases d.len(),
{
    if d.len() == 0 {
        Seq::empty()
    } else {
        removed_labels(d.drop_last()) + match d.last() {
            UpdateRelation::Remove(l) => seq![l@],
            UpdateRelation::Add(_) => Seq::empty(),
        }
    }
}

/// The labels that a change adds, in order.
pub open spec fn added_labels(d: Seq<UpdateRelation>) -> Seq<Seq<char>>
    decreases d.len(),
{
    if d.len() == 0 {
        Seq::empty()
    } else {
        added_labels(d.drop_last()) + match d.last() {
            UpdateRelation::Add(l) => seq![l@],
            UpdateRelation::Remove(_) => Seq::empty(),
        }
    }
}

/// Relies on itertools' `Itertools::partition_map`: each item goes to the
/// left or the right list as the closure says, in the order of the input.
#[verifier::external_body]
fn split_label_changes(d: Vec<UpdateRelation>) -> (r: (Vec<String>, Vec<String>))
    ensures
        strings_view(r.0@) == removed_labels(d@),
        strings_view(r.1@) == added_labels(d@),
{
    itertools::Itertools::partition_map(
        d.into_iter(),
        |c| match c {
            UpdateRelation::Remove(l) => itertools::Either::Left(l),
            UpdateRelation::Add(l) => itertools::Either::Right(l),
        },
    )
}

/// The record of a relation row: keyed by (source, target), listed in the
/// type index under the source type, and found from the target through the
/// inverted index.
pub open spec fn relation_record(i: InsertRelationInternalInput, pk: Seq<char>, sk: Seq<char>, now: TimestampView) -> ItemView {
    ItemView {
        pk: pk,
        sk: sk,
        entity_type: Some(i.to_ty@),
        created_at: now,
        updated_at: now,
        relation_names: strings_view(i.relation_names@),
        gsi1pk: Some(i.from_ty@),
        gsi1sk: Some(pk),
        gsi2pk: Some(sk),
        gsi2sk: Some(pk),
        document: i.fields@,
    }
}

/// The row of a relation: the record projected, with the label set always
/// written as an attribute, an empty one included, so that no field of the
/// caller's stands in for it.
pub open spec fn relation_row(
    i: InsertRelationInternalInput,
    pk: Seq<char>,
    sk: Seq<char>,
    now: TimestampView,
) -> ItemView {
    let r = project(relation_record(i, pk, sk, now));
    ItemView {
        document: r.document.insert(RELATION_NAMES@, AttrView::SS(strings_view(i.relation_names@))),
        ..r
    }
}

pub open spec fn insert_relation_sql(
    i: InsertRelationInternalInput,
    pk: Seq<char>,
    sk: Seq<char>,
    now: TimestampView,
) -> SqlView {
    SqlView::InsertRelation(relation_row(i, pk, sk, now), strings_view(i.relation_names@))
}

pub open spec fn delete_relations_sql(
    i: DeleteMultipleRelationsInternalInput,
    pk: Seq<char>,
    sk: Seq<char>,
    now: TimestampView,
) -> SqlView {
    SqlView::DeleteRelations {
        pk,
        sk,
        to_remove: strings_view(i.relation_names@),
        document: touch_document(Map::empty(), now),
        updated_at: now,
    }
}

pub open spec fn update_relation_sql(
    i: UpdateRelationInternalInput,
    pk: Seq<char>,
    sk: Seq<char>,
    now: TimestampView,
) -> SqlView {
    SqlView::UpdateWithRelations {
        pk,
        sk,
        to_remove: removed_labels(i.relation_names@),
        to_add: added_labels(i.relation_names@),
        document: touch_document(i.user_defined_item@, now),
        updated_at: now,
    }
}

impl InsertRelationInternalInput {
    pub fn to_sql(self, pk: String, sk: String, now: &Timestamp) -> (r: Sql)
        ensures
            r@ == insert_relation_sql(self, pk@, sk@, now@),
    {
        let labels = copy_strings(&self.relation_names);
        let stored_labels = copy_strings(&self.relation_names);
        let record = Record {
            pk: pk.clone(),
            sk: sk.clone(),
            entity_type: Some(self.to_ty),
            created_at: now.duplicate(),
            updated_at: now.duplicate(),
            relation_names: self.relation_names,
            gsi1pk: Some(self.from_ty),
            gsi1sk: Some(pk.clone()),
            gsi2pk: Some(sk),
            gsi2sk: Some(pk),
            document: self.fields,
        };
        let mut row = Row::from_record(record);
        row.set_attribute(String::from_str(RELATION_NAMES), AttrValue::SS(stored_labels));
        Sql::InsertRelation(row, labels)
    }
}

impl DeleteMultipleRelationsInternalInput {
    pub fn to_sql(self, pk: String, sk: String, now: &Timestamp) -> (r: Sql)
        ensures
            r@ == delete_relations_sql(self, pk@, sk@, now@),
    {
        let mut document = Document::new();
        touch(&mut document, now);
        Sql::DeleteRelations {
            pk,
            sk,
            to_remove: self.relation_names,
            document,
            updated_at: now.duplicate(),
        }
    }
}

impl UpdateRelationInternalInput {
    pub fn to_sql(self, pk: String, sk: String, now: &Timestamp) -> (r: Sql)
        ensures
            r@ == update_relation_sql(self, pk@, sk@, now@),
    {
        let (to_remove, to_add) = split_label_changes(self.relation_names);
        let mut document = self.user_defined_item;
        touch(&mut document, now);
        Sql::UpdateWithRelations { pk, sk, to_remove, to_add, document, updated_at: now.duplicate() }
    }
}

// ----- uniqueness constraints -----

/// Reserves the (field, value) pair that the partition key names for the
/// node `target`.
pub struct InsertUniqueConstraint {
    pub target: String,
    pub user_defined_item: Document,
}

/// Points a reserved (field, value) pair at the node `target`.
pub struct UpdateUniqueConstraint {
    pub target: String,
    pub user_defined_item: Document,
}

/// Releases a reserved (field, value) pair.
pub struct DeleteUnitNodeConstraintInput {}

pub enum InsertNodeConstraintInternalInput {
    Unique(InsertUniqueConstraint),
}

pub enum UpdateNodeConstraintInternalInput {
    Unique(UpdateUniqueConstraint),
}

pub enum DeleteNodeConstraintInternalInput {
    Unit(DeleteUnitNodeConstraintInput),
}

pub enum InternalNodeConstraintChanges {
    Insert(InsertNodeConstraintInternalInput),
    Update(UpdateNodeConstraintInternalInput),
    Delete(DeleteNodeConstraintInternalInput),
}

/// The record of a constraint: no type and no type index; the inverted index
/// points at the protected node.
pub open spec fn constraint_record(
    target: Seq<char>,
    d: Map<Seq<char>, AttrView>,
    pk: Seq<char>,
    sk: Seq<char>,
    now: TimestampView,
) -> ItemView {
    ItemView {
        pk: pk,
        sk: sk,
        entity_type: None,
        created_at: now,
        updated_at: now,
        relation_names: Seq::empty(),
        gsi1pk: None,
        gsi1sk: None,
        gsi2pk: Some(target),
        gsi2sk: Some(pk),
        document: d,
    }
}

/// The marker of a uniqueness constraint on `pk`.
pub open spec fn unique_marker(m: Option<OperationKind>, pk: Seq<char>) -> bool {
    match m {
        Some(OperationKind::Constraint(Constraint::Unique { value, field })) => constraint_of(pk)
            == Some(crate::ids::ConstraintIdView { field: field@, value: value@ }),
        None => false,
    }
}

/// The document of a constraint that moves to another node: its keys and
/// times, the inverted index on the node, and no type index.
pub open spec fn moved_constraint_document(
    target: Seq<char>,
    d: Map<Seq<char>, AttrView>,
    pk: Seq<char>,
    now: TimestampView,
) -> Map<Seq<char>, AttrView> {
    d.insert(PK@, AttrView::S(pk)).insert(SK@, AttrView::S(pk)).insert(
        CREATED_AT@,
        AttrView::S(now.text),
    ).insert(UPDATED_AT@, AttrView::S(now.text)).insert(INVERTED_INDEX_PK@, AttrView::S(target)).insert(
        INVERTED_INDEX_SK@,
        AttrView::S(pk),
    ).remove(TYPE_INDEX_PK@).remove(TYPE_INDEX_SK@)
}

/// The row of a new constraint: the record projected, with the constraint id
/// as the document's sort key whatever the item's sort key.
pub open spec fn constraint_row(
    target: Seq<char>,
    d: Map<Seq<char>, AttrView>,
    pk: Seq<char>,
    sk: Seq<char>,
    now: TimestampView,
) -> ItemView {
    let r = project(constraint_record(target, d, pk, sk, now));
    ItemView { document: r.document.insert(SK@, AttrView::S(pk)), ..r }
}

impl InsertUniqueConstraint {
    /// The statement that reserves the pair that `pk` names; `pk` is always a
    /// constraint id that the engine wrote.
    pub fn to_sql(self, pk: String, sk: String, now: &Timestamp) -> (r: Planned)
        requires
            constraint_of(pk@) is Some,
        ensures
            r.sql@ == SqlView::Insert(
                constraint_row(self.target@, self.user_defined_item@, pk@, sk@, now@),
            ),
            unique_marker(r.marker, pk@),
    {
        let id = ConstraintID::parse(pk.as_str()).unwrap();
        let marker = OperationKind::Constraint(
            Constraint::Unique {
                value: String::from_str(id.value()),
                field: String::from_str(id.field()),
            },
        );
        let record = Record {
            pk: pk.clone(),
            sk,
            entity_type: None,
            created_at: now.duplicate(),
            updated_at: now.duplicate(),
            relation_names: Vec::new(),
            gsi1pk: None,
            gsi1sk: None,
            gsi2pk: Some(self.target),
            gsi2sk: Some(pk.clone()),
            document: self.user_defined_item,
        };
        assert(record@.relation_names =~= Seq::<Seq<char>>::empty());
        let mut row = Row::from_record(record);
        row.set_attribute(String::from_str(SK), AttrValue::S(pk));
        Planned { sql: Sql::Insert(row), marker: Some(marker) }
    }
}

impl UpdateUniqueConstraint {
    /// The statement that points the pair that `pk` names at another node;
    /// `pk` is always a constraint id that the engine wrote.
    pub fn to_sql(self, pk: String, sk: String, now: &Timestamp) -> (r: Sql)
        requires
            constraint_of(pk@) is Some,
        ensures
            r@ == (SqlView::Update {
                pk: pk@,
                sk: sk@,
                document: moved_constraint_document(self.target@, self.user_defined_item@, pk@, now@),
                updated_at: now@,
            }),
    {
        let mut d = self.user_defined_item;
        d.insert(String::from_str(PK), AttrValue::S(pk.clone()));
        d.insert(String::from_str(SK), AttrValue::S(pk.clone()));
        d.insert(String::from_str(CREATED_AT), AttrValue::S(String::from_str(now.text())));
        d.insert(String::from_str(UPDATED_AT), AttrValue::S(String::from_str(now.text())));
        d.insert(String::from_str(INVERTED_INDEX_PK), AttrValue::S(self.target));
        d.insert(String::from_str(INVERTED_INDEX_SK), AttrValue::S(pk.clone()));
        d.remove(TYPE_INDEX_PK);
        d.remove(TYPE_INDEX_SK);
        Sql::Update { pk, sk, document: d, updated_at: now.duplicate() }
    }
}

// ----- dispatch -----

/// One change to one item.
pub enum InternalChanges {
    Node(InternalNodeChanges),
    Relation(InternalRelationChanges),
    NodeConstraints(InternalNodeConstraintChanges),
}

/// Whether the item key suits the change: a change to a uniqueness
/// constraint, other than its deletion, is keyed by a constraint id, which
/// the engine always writes itself.
pub open spec fn key_fits(c: InternalChanges, pk: Seq<char>) -> bool {
    match c {
        InternalChanges::NodeConstraints(InternalNodeConstraintChanges::Insert(_)) => constraint_of(
            pk,
        ) is Some,
        InternalChanges::NodeConstraints(InternalNodeConstraintChanges::Update(_)) => constraint_of(
            pk,
        ) is Some,
        _ => true,
    }
}

/// The statement for a change.
pub open spec fn planned_sql(
    c: InternalChanges,
    pk: Seq<char>,
    sk: Seq<char>,
    now: TimestampView,
) -> SqlView {
    match c {
        InternalChanges::Node(InternalNodeChanges::Insert(i)) => insert_node_sql(i, now),
        InternalChanges::Node(InternalNodeChanges::Update(u)) => update_sql(
            u.user_defined_item@,
            pk,
            sk,
            now,
        ),
        InternalChanges::Node(InternalNodeChanges::Delete(_)) => delete_sql(pk, sk),
        InternalChanges::Relation(InternalRelationChanges::Insert(i)) => insert_relation_sql(
            i,
            pk,
            sk,
            now,
        ),
        InternalChanges::Relation(InternalRelationChanges::Update(u)) => update_relation_sql(
            u,
            pk,
            sk,
            now,
        ),
        InternalChanges::Relation(
            InternalRelationChanges::Delete(DeleteRelationInternalInput::All(_)),
        ) => delete_sql(pk, sk),
        InternalChanges::Relation(
            InternalRelationChanges::Delete(DeleteRelationInternalInput::Multiple(m)),
        ) => delete_relations_sql(m, pk, sk, now),
        InternalChanges::NodeConstraints(
            InternalNodeConstraintChanges::Insert(InsertNodeConstraintInternalInput::Unique(i)),
        ) => SqlView::Insert(constraint_row(i.target@, i.user_defined_item@, pk, sk, now)),
        InternalChanges::NodeConstraints(
            InternalNodeConstraintChanges::Update(UpdateNodeConstraintInternalInput::Unique(u)),
        ) => SqlView::Update {
            pk,
            sk,
            document: moved_constraint_document(u.target@, u.user_defined_item@, pk, now),
            updated_at: now,
        },
        InternalChanges::NodeConstraints(InternalNodeConstraintChanges::Delete(_)) => delete_sql(
            pk,
            sk,
        ),
    }
}

/// Whether a change reserves a (field, value) pair.
pub open spec fn reserves_value(c: InternalChanges) -> bool {
    c matches InternalChanges::NodeConstraints(InternalNodeConstraintChanges::Insert(_))
}

/// The marker of a change: a reservation names its (field, value) pair,
/// every other change has none.
pub open spec fn marker_ok(c: InternalChanges, m: Option<OperationKind>, pk: Seq<char>) -> bool {
    if reserves_value(c) {
        unique_marker(m, pk)
    } else {
        m is None
    }
}

impl InternalChanges {
    /// Whether the item key suits the change.
    pub fn key_fits(&self, pk: &str) -> (r: bool)
        ensures
            r == key_fits(*self, pk@),
    {
        match self {
            InternalChanges::NodeConstraints(InternalNodeConstraintChanges::Insert(_))
            | InternalChanges::NodeConstraints(InternalNodeConstraintChanges::Update(_)) => {
                ConstraintID::parse(pk).is_some()
            },
            _ => true,
        }
    }

    /// The statement for the change on the item `(pk, sk)` at the time `now`.
    pub fn to_sql(self, pk: String, sk: String, now: &Timestamp) -> (r: Planned)
        requires
            key_fits(self, pk@),
        ensures
            r.sql@ == planned_sql(self, pk@, sk@, now@),
            marker_ok(self, r.marker, pk@),
    {
        let sql = match self {
            InternalChanges::Node(InternalNodeChanges::Insert(i)) => i.to_sql(now),
            InternalChanges::Node(InternalNodeChanges::Update(u)) => u.to_sql(pk, sk, now),
            InternalChanges::Node(InternalNodeChanges::Delete(_)) => delete_by_ids(pk, sk),
            InternalChanges::Relation(InternalRelationChanges::Insert(i)) => i.to_sql(pk, sk, now),
            InternalChanges::Relation(InternalRelationChanges::Update(u)) => u.to_sql(pk, sk, now),
            InternalChanges::Relation(
                InternalRelationChanges::Delete(DeleteRelationInternalInput::All(_)),
            ) => delete_by_ids(pk, sk),
            InternalChanges::Relation(
                InternalRelationChanges::Delete(DeleteRelationInternalInput::Multiple(m)),
            ) => m.to_sql(pk, sk, now),
            InternalChanges::NodeConstraints(
                InternalNodeConstraintChanges::Insert(InsertNodeConstraintInternalInput::Unique(i)),
            ) => {
                return i.to_sql(pk, sk, now);
            },
            InternalChanges::NodeConstraints(
                InternalNodeConstraintChanges::Update(UpdateNodeConstraintInternalInput::Unique(u)),
            ) => u.to_sql(pk, sk, now),
            InternalChanges::NodeConstraints(InternalNodeConstraintChanges::Delete(_)) => delete_by_ids(
                pk,
                sk,
            ),
        };
        Planned { sql, marker: None }
    }

    /// Compiles the change on the item `(pk, sk)` at the time `now` into a
    /// statement text, its bound values, and the marker for the orchestrator.
    pub fn to_transaction(self, pk: String, sk: String, now: &Timestamp) -> (r: Compiled)
        requires
            key_fits(self, pk@),
        ensures
            r.text@ == statement_text(kind_of(planned_sql(self, pk@, sk@, now@))),
            values_view(r.values@) == bound_values(planned_sql(self, pk@, sk@, now@)),
            marker_ok(self, r.marker, pk@),
    {
        let Planned { sql, marker } = self.to_sql(pk, sk, now);
        let statement = sql.compile();
        Compiled { text: statement.text, values: statement.values, marker }
    }
}

// ----- merging -----

/// The one change that two changes to one item make together: the later of
/// two updates of one kind. No other pair merges.
pub open spec fn merged(a: InternalChanges, b: InternalChanges) -> Option<InternalChanges> {
    match (a, b) {
        (
            InternalChanges::Node(InternalNodeChanges::Update(_)),
            InternalChanges::Node(InternalNodeChanges::Update(_)),
        ) => Some(b),
        (
            InternalChanges::NodeConstraints(InternalNodeConstraintChanges::Update(_)),
            InternalChanges::NodeConstraints(InternalNodeConstraintChanges::Update(_)),
        ) => Some(b),
        _ => None,
    }
}

/// The left fold of `merged` over `rest`, from `acc`; `None` once a pair
/// does not merge.
pub open spec fn fold_changes(acc: InternalChanges, rest: Seq<InternalChanges>) -> Option<
    InternalChanges,
>
    decreases rest.len(),
{
    if rest.len() == 0 {
        Some(acc)
    } else {
        match merged(acc, rest[0]) {
            Some(m) => fold_changes(m, rest.drop_first()),
            None => None,
        }
    }
}

impl InternalChanges {
    /// Merges a later change to the same item into this one.
    pub fn with(self, other: InternalChanges) -> (r: Result<InternalChanges, ToTransactionError>)
        ensures
            match merged(self, other) {
                Some(m) => r == Ok::<_, ToTransactionError>(m),
                None => r == Err::<InternalChanges, _>(ToTransactionError::Unknown),
            },
    {
        match (self, other) {
            (
                InternalChanges::Node(InternalNodeChanges::Update(_)),
                InternalChanges::Node(InternalNodeChanges::Update(b)),
            ) => Ok(InternalChanges::Node(InternalNodeChanges::Update(b))),
            (
                InternalChanges::NodeConstraints(InternalNodeConstraintChanges::Update(_)),
                InternalChanges::NodeConstraints(InternalNodeConstraintChanges::Update(b)),
            ) => Ok(InternalChanges::NodeConstraints(InternalNodeConstraintChanges::Update(b))),
            _ => Err(ToTransactionError::Unknown),
        }
    }
}

/// Collapses the changes to one item into one change: an empty list breaks
/// the contract, and any pair that does not merge fails the whole list.
pub fn merge_changes(changes: Vec<InternalChanges>) -> (r: Result<InternalChanges, ToTransactionError>)
    ensures
        changes@.len() == 0 ==> r == Err::<InternalChanges, _>(ToTransactionError::ContractViolation),
        changes@.len() > 0 ==> match fold_changes(changes@[0], changes@.drop_first()) {
            Some(m) => r == Ok::<_, ToTransactionError>(m),
            None => r == Err::<InternalChanges, _>(ToTransactionError::Unknown),
        },
{
    let mut rest = changes;
    if rest.len() == 0 {
        return Err(ToTransactionError::ContractViolation);
    }
    let mut acc = rest.remove(0);
    assert(rest@ =~= changes@.drop_first());
    while rest.len() > 0
        invariant
            changes@.len() > 0,
            fold_changes(acc, rest@) == fold_changes(changes@[0], changes@.drop_first()),
        decreases rest@.len(),
    {
        let ghost before = rest@;
        let next = rest.remove(0);
        assert(rest@ =~= before.drop_first());
        match acc.with(next) {
            Ok(m) => {
                acc = m;
            },
            Err(e) => {
                return Err(e);
            },
        }
    }
    Ok(acc)
}

/// What the fold of merges gives is one of the changes it folds.
proof fn lemma_fold_picks_a_change(acc: InternalChanges, rest: Seq<InternalChanges>)
    ensures
        fold_changes(acc, rest) matches Some(m) ==> m == acc || rest.contains(m),
    decreases rest.len(),
{
    if rest.len() > 0 {
        if let Some(m) = merged(acc, rest[0]) {
            lemma_fold_picks_a_change(m, rest.drop_first());
            if let Some(f) = fold_changes(m, rest.drop_first()) {
                if rest.drop_first().contains(f) {
                    let i = choose|i: int| 0 <= i < rest.drop_first().len() && rest.drop_first()[i] == f;
                    assert(rest[i + 1] == f);
                }
                assert(m == rest[0]);
            }
        }
    }
}

/// Compiles all the changes to one item into one statement: they are merged
/// first, then the one change is compiled.
pub fn changes_to_transaction(
    changes: Vec<InternalChanges>,
    pk: String,
    sk: String,
    now: &Timestamp,
) -> (r: Result<Compiled, ToTransactionError>)
    requires
        forall|i: int| 0 <= i < changes@.len() ==> key_fits(#[trigger] changes@[i], pk@),
    ensures
        changes@.len() == 0 ==> r == Err::<Compiled, _>(ToTransactionError::ContractViolation),
        changes@.len() > 0 ==> match fold_changes(changes@[0], changes@.drop_first()) {
            None => r == Err::<Compiled, _>(ToTransactionError::Unknown),
            Some(m) => r is Ok && r->Ok_0.text@ == statement_text(
                kind_of(planned_sql(m, pk@, sk@, now@)),
            ) && values_view(r->Ok_0.values@) == bound_values(planned_sql(m, pk@, sk@, now@))
                && marker_ok(m, r->Ok_0.marker, pk@),
        },
{
    proof {
        if changes@.len() > 0 {
            lemma_fold_picks_a_change(changes@[0], changes@.drop_first());
            if let Some(m) = fold_changes(changes@[0], changes@.drop_first()) {
                if m != changes@[0] {
                    let i = choose|i: int|
                        0 <= i < changes@.drop_first().len() && changes@.drop_first()[i] == m;
                    assert(changes@[i + 1] == m);
                }
            }
        }
    }
    match merge_changes(changes) {
        Ok(change) => Ok(change.to_transaction(pk, sk, now)),
        Err(e) => Err(e),
    }
}

// ----- laws -----

/// The keys and index key pairs of a new node follow from its type and id
/// alone: neither the document nor the time changes them.
pub proof fn lemma_node_keys_follow_from_id(
    a: InsertNodeInternalInput,
    b: InsertNodeInternalInput,
    now_a: TimestampView,
    now_b: TimestampView,
)
    requires
        a.ty@ == b.ty@,
        a.id@ == b.id@,
    ensures
        ({
            let ra = node_record(a.ty@, a.id@, a.user_defined_item@, now_a);
            let rb = node_record(b.ty@, b.id@, b.user_defined_item@, now_b);
            ra.pk == rb.pk && ra.sk == rb.sk && ra.gsi1pk == rb.gsi1pk && ra.gsi1sk == rb.gsi1sk
                && ra.gsi2pk == rb.gsi2pk && ra.gsi2sk == rb.gsi2sk
        }),
        insert_node_sql(a, now_a) matches SqlView::Insert(row) && row.pk == row.sk,
{
}

/// An update of a node leaves its keys, its creation time and its index key
/// pairs as they were, and its time of change does not go back while the
/// clock does not.
pub proof fn lemma_update_node_keeps_identity(
    u: UpdateNodeInternalInput,
    cur: StoredView,
    now: TimestampView,
)
    requires
        now.millis >= cur.updated_at,
    ensures
        ({
            let next = apply(update_sql(u.user_defined_item@, cur.pk, cur.sk, now), Some(cur));
            next is Some && next->0.pk == cur.pk && next->0.sk == cur.sk && next->0.created_at
                == cur.created_at && next->0.updated_at >= cur.updated_at && next->0.gsi1pk
                == cur.gsi1pk && next->0.gsi1sk == cur.gsi1sk && next->0.gsi2pk == cur.gsi2pk
                && next->0.gsi2sk == cur.gsi2sk
        }),
{
}

/// A new relation row carries exactly the set of the given labels, whatever
/// their order, and the type index lists it under the source type.
pub proof fn lemma_insert_relation_labels(
    i: InsertRelationInternalInput,
    pk: Seq<char>,
    sk: Seq<char>,
    now: TimestampView,
)
    ensures
        ({
            let next = apply(insert_relation_sql(i, pk, sk, now), None);
            next is Some && next->0.labels == strings_view(i.relation_names@).to_set()
                && next->0.gsi1pk == Some(i.from_ty@) && next->0.gsi2pk == Some(sk)
        }),
{
}

/// An update of a relation row removes the labels to remove, then adds the
/// labels to add.
pub proof fn lemma_update_relation_labels(
    u: UpdateRelationInternalInput,
    cur: StoredView,
    now: TimestampView,
)
    ensures
        ({
            let next = apply(update_relation_sql(u, cur.pk, cur.sk, now), Some(cur));
            next is Some && next->0.labels == (cur.labels - removed_labels(
                u.relation_names@,
            ).to_set()) + added_labels(u.relation_names@).to_set()
        }),
{
}

/// Merging two updates of a node gives the later one, and so the same
/// statement and the same stored item as the later update alone.
pub proof fn lemma_merge_node_updates(
    a: UpdateNodeInternalInput,
    b: UpdateNodeInternalInput,
    pk: Seq<char>,
    sk: Seq<char>,
    now: TimestampView,
    cur: Option<StoredView>,
)
    ensures
        ({
            let ca = InternalChanges::Node(InternalNodeChanges::Update(a));
            let cb = InternalChanges::Node(InternalNodeChanges::Update(b));
            let m = fold_changes(ca, seq![cb]);
            m == Some(cb) && planned_sql(m->0, pk, sk, now) == update_sql(
                b.user_defined_item@,
                pk,
                sk,
                now,
            ) && apply(planned_sql(m->0, pk, sk, now), cur) == apply(
                update_sql(b.user_defined_item@, pk, sk, now),
                cur,
            )
        }),
{
    let ca = InternalChanges::Node(InternalNodeChanges::Update(a));
    let cb = InternalChanges::Node(InternalNodeChanges::Update(b));
    assert(seq![cb].drop_first() =~= Seq::<InternalChanges>::empty());
    assert(seq![cb][0] == cb);
    assert(merged(ca, cb) == Some(cb));
    assert(fold_changes(cb, Seq::<InternalChanges>::empty()) == Some(cb));
    assert(fold_changes(ca, seq![cb]) == Some(cb));
}

/// Once a label is inserted on a relation row and then deleted through the
/// removal of labels, the row no longer carries it, and the row remains.
pub proof fn lemma_delete_inserted_label(
    i: InsertRelationInternalInput,
    d: DeleteMultipleRelationsInternalInput,
    label: Seq<char>,
    pk: Seq<char>,
    sk: Seq<char>,
    t1: TimestampView,
    t2: TimestampView,
    cur: Option<StoredView>,
)
    requires
        strings_view(d.relation_names@).contains(label),
    ensures
        ({
            let after = apply(
                delete_relations_sql(d, pk, sk, t2),
                apply(insert_relation_sql(i, pk, sk, t1), cur),
            );
            after is Some && !after->0.labels.contains(label)
        }),
{
}

/// A new constraint row carries the constraint id as both document keys,
/// whatever its sort key, and its inverted index points at the protected node.
pub proof fn lemma_constraint_row_keys(
    target: Seq<char>,
    d: Map<Seq<char>, AttrView>,
    pk: Seq<char>,
    sk: Seq<char>,
    now: TimestampView,
)
    ensures
        ({
            let w = constraint_row(target, d, pk, sk, now);
            w.pk == pk && w.sk == sk && w.entity_type is None && w.gsi1pk is None && w.gsi1sk is None
                && w.gsi2pk == Some(target) && w.gsi2sk == Some(pk) && w.created_at == w.updated_at
                && w.document[PK@] == AttrView::S(pk) && w.document[SK@] == AttrView::S(pk)
                && w.document[INVERTED_INDEX_PK@] == AttrView::S(target)
        }),
{
    reveal_strlit("__pk");
    reveal_strlit("__sk");
    reveal_strlit("__type");
    reveal_strlit("__created_at");
    reveal_strlit("__updated_at");
    reveal_strlit("__gsi1pk");
    reveal_strlit("__gsi1sk");
    reveal_strlit("__gsi2pk");
    reveal_strlit("__gsi2sk");
    reveal_strlit("__relation_names");
    assert(PK@ != SK@) by { assert(PK@[2] != SK@[2]); }
    assert(PK@ != CREATED_AT@) by { assert(PK@.len() != CREATED_AT@.len()); }
    assert(PK@ != UPDATED_AT@) by { assert(PK@.len() != UPDATED_AT@.len()); }
    assert(PK@ != INVERTED_INDEX_PK@) by { assert(PK@.len() != INVERTED_INDEX_PK@.len()); }
    assert(PK@ != INVERTED_INDEX_SK@) by { assert(PK@.len() != INVERTED_INDEX_SK@.len()); }
    assert(INVERTED_INDEX_PK@ != INVERTED_INDEX_SK@) by { assert(INVERTED_INDEX_PK@[6] != INVERTED_INDEX_SK@[6]); }
    assert(INVERTED_INDEX_PK@ != SK@) by { assert(INVERTED_INDEX_PK@.len() != SK@.len()); }
}

/// A new relation row carries its labels as the label attribute, even when
/// there are none, and the engine's keys and index pairs in its document,
/// whatever fields the caller gave.
pub proof fn lemma_relation_row_attributes(
    i: InsertRelationInternalInput,
    pk: Seq<char>,
    sk: Seq<char>,
    now: TimestampView,
)
    ensures
        ({
            let w = relation_row(i, pk, sk, now);
            w.pk == pk && w.sk == sk && w.entity_type == Some(i.to_ty@) && w.gsi1pk == Some(i.from_ty@)
                && w.gsi1sk == Some(pk) && w.gsi2pk == Some(sk) && w.gsi2sk == Some(pk)
                && w.created_at == w.updated_at && w.document[RELATION_NAMES@] == AttrView::SS(
                strings_view(i.relation_names@),
            ) && w.document[PK@] == AttrView::S(pk) && w.document[SK@] == AttrView::S(sk)
                && w.document[TYPE_INDEX_PK@] == AttrView::S(i.from_ty@)
                && w.document[INVERTED_INDEX_PK@] == AttrView::S(sk)
        }),
{
    reveal_strlit("__pk");
    reveal_strlit("__sk");
    reveal_strlit("__type");
    reveal_strlit("__created_at");
    reveal_strlit("__updated_at");
    reveal_strlit("__gsi1pk");
    reveal_strlit("__gsi1sk");
    reveal_strlit("__gsi2pk");
    reveal_strlit("__gsi2sk");
    reveal_strlit("__relation_names");
    assert(PK@ != SK@) by { assert(PK@[2] != SK@[2]); }
    assert(PK@.len() == 4 && SK@.len() == 4 && TYPE_INDEX_PK@.len() == 8 && INVERTED_INDEX_PK@.len() == 8);
    assert(TYPE_INDEX_PK@ != TYPE_INDEX_SK@) by { assert(TYPE_INDEX_PK@[6] != TYPE_INDEX_SK@[6]); }
    assert(TYPE_INDEX_PK@ != INVERTED_INDEX_PK@) by { assert(TYPE_INDEX_PK@[5] != INVERTED_INDEX_PK@[5]); }
    assert(TYPE_INDEX_PK@ != INVERTED_INDEX_SK@) by { assert(TYPE_INDEX_PK@[5] != INVERTED_INDEX_SK@[5]); }
    assert(INVERTED_INDEX_PK@ != INVERTED_INDEX_SK@) by { assert(INVERTED_INDEX_PK@[6] != INVERTED_INDEX_SK@[6]); }
    assert(RELATION_NAMES@.len() == 16);
    assert(CREATED_AT@.len() == 12 && UPDATED_AT@.len() == 12 && TYPE@.len() == 6 && TYPE_INDEX_SK@.len() == 8
        && INVERTED_INDEX_SK@.len() == 8);
}

} // verus!
