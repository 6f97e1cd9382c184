//! Statements: what each one writes, the text and bound values it compiles
//! to, and what it does to the stored item it addresses.
use vstd::prelude::*;
use crate::document::{AttrView, Document, strings_view};
use crate::record::{
    ItemView, Row, SqlValue, SqlValueView, Timestamp, TimestampView, row_values, values_view,
};

verus! {

/// One statement on one item. The label lists are the variadic parts: a
/// statement has one placeholder per label.
pub enum Sql {
    /// Writes a new row.
    Insert(Row),
    /// Sets attributes of the document and the time of the change.
    Update { pk: String, sk: String, document: Document, updated_at: Timestamp },
    /// Deletes the item with this key.
    DeleteByIds { pk: String, sk: String },
    /// Writes a relation row, or adds the labels to the one that is there.
    InsertRelation(Row, Vec<String>),
    /// Removes labels from a relation row and sets attributes and the time.
    DeleteRelations {
        pk: String,
        sk: String,
        to_remove: Vec<String>,
        document: Document,
        updated_at: Timestamp,
    },
    /// Removes labels, then adds labels, and sets attributes and the time.
    UpdateWithRelations {
        pk: String,
        sk: String,
        to_remove: Vec<String>,
        to_add: Vec<String>,
        document: Document,
        updated_at: Timestamp,
    },
}

pub enum SqlView {
    Insert(ItemView),
    Update { pk: Seq<char>, sk: Seq<char>, document: Map<Seq<char>, AttrView>, updated_at: TimestampView },
    DeleteByIds { pk: Seq<char>, sk: Seq<char> },
    InsertRelation(ItemView, Seq<Seq<char>>),
    DeleteRelations {
        pk: Seq<char>,
        sk: Seq<char>,
        to_remove: Seq<Seq<char>>,
        document: Map<Seq<char>, AttrView>,
        updated_at: TimestampView,
    },
    UpdateWithRelations {
        pk: Seq<char>,
        sk: Seq<char>,
        to_remove: Seq<Seq<char>>,
        to_add: Seq<Seq<char>>,
        document: Map<Seq<char>, AttrView>,
        updated_at: TimestampView,
    },
}

impl View for Sql {
    type V = SqlView;

    open spec fn view(&self) -> SqlView {
        match self {
            Sql::Insert(row) => SqlView::Insert(row@),
            Sql::Update { pk, sk, document, updated_at } => SqlView::Update {
                pk: pk@,
                sk: sk@,
                document: document@,
                updated_at: updated_at@,
            },
            Sql::DeleteByIds { pk, sk } => SqlView::DeleteByIds { pk: pk@, sk: sk@ },
            Sql::InsertRelation(row, labels) => SqlView::InsertRelation(row@, strings_view(labels@)),
            Sql::DeleteRelations { pk, sk, to_remove, document, updated_at } => SqlView::DeleteRelations {
                pk: pk@,
                sk: sk@,
                to_remove: strings_view(to_remove@),
                document: document@,
                updated_at: updated_at@,
            },
            Sql::UpdateWithRelations { pk, sk, to_remove, to_add, document, updated_at } =>
                SqlView::UpdateWithRelations {
                pk: pk@,
                sk: sk@,
                to_remove: strings_view(to_remove@),
                to_add: strings_view(to_add@),
                document: document@,
                updated_at: updated_at@,
            },
        }
    }
}

/// The kind of a statement with the number of labels in each variadic part.
#[derive(Clone, Copy, Debug, PartialEq, Eq)]
pub enum SqlKind {
    Insert,
    Update,
    DeleteByIds,
    InsertRelation(usize),
    DeleteRelations(usize),
    UpdateWithRelations(usize, usize),
}

pub open spec fn kind_of(s: SqlView) -> SqlKind {
    match s {
        SqlView::Insert(_) => SqlKind::Insert,
        SqlView::Update { .. } => SqlKind::Update,
        SqlView::DeleteByIds { .. } => SqlKind::DeleteByIds,
        SqlView::InsertRelation(_, l) => SqlKind::InsertRelation(l.len() as usize),
        SqlView::DeleteRelations { to_remove, .. } => SqlKind::DeleteRelations(
            to_remove.len() as usize,
        ),
        SqlView::UpdateWithRelations { to_remove, to_add, .. } => SqlKind::UpdateWithRelations(
            to_remove.len() as usize,
            to_add.len() as usize,
        ),
    }
}

/// A compiled statement: its text and the values of its placeholders.
pub struct Statement {
    pub text: String,
    pub values: Vec<SqlValue>,
}

pub open spec fn labels_values(l: Seq<Seq<char>>) -> Seq<SqlValueView> {
    l.map_values(|s: Seq<char>| SqlValueView::String(s))
}

pub open spec fn tail_values(
    document: Map<Seq<char>, AttrView>,
    updated_at: TimestampView,
    pk: Seq<char>,
    sk: Seq<char>,
) -> Seq<SqlValueView> {
    seq![
        SqlValueView::Document(document),
        SqlValueView::String(updated_at.text),
        SqlValueView::String(pk),
        SqlValueView::String(sk),
    ]
}

/// The bound values of a statement, in placeholder order.
pub open spec fn bound_values(s: SqlView) -> Seq<SqlValueView> {
    match s {
        SqlView::Insert(row) => row_values(row),
        SqlView::Update { pk, sk, document, updated_at } => tail_values(document, updated_at, pk, sk),
        SqlView::DeleteByIds { pk, sk } => seq![SqlValueView::String(pk), SqlValueView::String(sk)],
        SqlView::InsertRelation(row, labels) => row_values(row) + labels_values(labels),
        SqlView::DeleteRelations { pk, sk, to_remove, document, updated_at } => labels_values(
            to_remove,
        ) + tail_values(document, updated_at, pk, sk),
        SqlView::UpdateWithRelations { pk, sk, to_remove, to_add, document, updated_at } =>
            labels_values(to_remove) + labels_values(to_add) + tail_values(
            document,
            updated_at,
            pk,
            sk,
        ),
    }
}

pub open spec fn slots(n: nat) -> Seq<char>
    decreases n,
{
    if n == 0 {
        Seq::empty()
    } else {
        slots((n - 1) as nat) + ", ?"@
    }
}

pub open spec fn insert_text() -> Seq<char> {
    "INSERT INTO records (pk, sk, entity_type, created_at, updated_at, gsi1pk, gsi1sk, gsi2pk, gsi2sk, relation_names, document) VALUES (?, ?, ?, ?, ?, ?, ?, ?, ?, ?, ?)"@
}

pub open spec fn set_tail_text() -> Seq<char> {
    "document = json_patch(document, ?), updated_at = ? WHERE pk = ? AND sk = ?"@
}

/// The text of a statement of the given kind.
pub open spec fn statement_text(k: SqlKind) -> Seq<char> {
    match k {
        SqlKind::Insert => insert_text(),
        SqlKind::Update => "UPDATE records SET "@ + set_tail_text(),
        SqlKind::DeleteByIds => "DELETE FROM records WHERE pk = ? AND sk = ?"@,
        SqlKind::InsertRelation(n) => insert_text()
            + " ON CONFLICT (pk, sk) DO UPDATE SET relation_names = json_insert_all(relation_names"@
            + slots(n as nat) + ")"@,
        SqlKind::DeleteRelations(n) => "UPDATE records SET relation_names = json_remove_all(relation_names"@
            + slots(n as nat) + "), "@ + set_tail_text(),
        SqlKind::UpdateWithRelations(r, a) =>
            "UPDATE records SET relation_names = json_insert_all(json_remove_all(relation_names"@
            + slots(r as nat) + ")"@ + slots(a as nat) + "), "@ + set_tail_text(),
    }
}

fn append_slots(text: &mut String, n: usize)
    ensures
        final(text)@ == old(text)@ + slots(n as nat),
{
    let mut i: usize = 0;
    while i < n
        invariant
            i <= n,
            text@ == old(text)@ + slots(i as nat),
        decreases n - i,
    {
        text.append(", ?");
        i = i + 1;
        assert(text@ =~= old(text)@ + slots(i as nat));
    }
}

/// The text of a statement of the given kind.
pub fn compile_text(k: SqlKind) -> (r: String)
    ensures
        r@ == statement_text(k),
{
    match k {
        SqlKind::Insert => String::from_str(
            "INSERT INTO records (pk, sk, entity_type, created_at, updated_at, gsi1pk, gsi1sk, gsi2pk, gsi2sk, relation_names, document) VALUES (?, ?, ?, ?, ?, ?, ?, ?, ?, ?, ?)",
        ),
        SqlKind::Update => {
            let mut t = String::from_str("UPDATE records SET ");
            t.append("document = json_patch(document, ?), updated_at = ? WHERE pk = ? AND sk = ?");
            t
        },
        SqlKind::DeleteByIds => String::from_str("DELETE FROM records WHERE pk = ? AND sk = ?"),
        SqlKind::InsertRelation(n) => {
            let mut t = String::from_str(
                "INSERT INTO records (pk, sk, entity_type, created_at, updated_at, gsi1pk, gsi1sk, gsi2pk, gsi2sk, relation_names, document) VALUES (?, ?, ?, ?, ?, ?, ?, ?, ?, ?, ?)",
            );
            t.append(" ON CONFLICT (pk, sk) DO UPDATE SET relation_names = json_insert_all(relation_names");
            append_slots(&mut t, n);
            t.append(")");
            t
        },
        SqlKind::DeleteRelations(n) => {
            let mut t = String::from_str("UPDATE records SET relation_names = json_remove_all(relation_names");
            append_slots(&mut t, n);
            t.append("), ");
            t.append("document = json_patch(document, ?), updated_at = ? WHERE pk = ? AND sk = ?");
            t
        },
        SqlKind::UpdateWithRelations(r, a) => {
            let mut t = String::from_str(
                "UPDATE records SET relation_names = json_insert_all(json_remove_all(relation_names",
            );
            append_slots(&mut t, r);
            t.append(")");
            append_slots(&mut t, a);
            t.append("), ");
            t.append("document = json_patch(document, ?), updated_at = ? WHERE pk = ? AND sk = ?");
            t
        },
    }
}

fn push_labels(values: &mut Vec<SqlValue>, labels: Vec<String>)
    ensures
        values_view(final(values)@) == values_view(old(values)@) + labels_values(strings_view(labels@)),
{
    let ghost start = values@.len();
    let mut i: usize = 0;
    while i < labels.len()
        invariant
            i <= labels@.len(),
            values@.len() == start + i,
            start == old(values)@.len(),
            forall|j: int| 0 <= j < start ==> values@[j] == old(values)@[j],
            forall|j: int| 0 <= j < i ==> values@[start + j]@ == SqlValueView::String(labels@[j]@),
        decreases labels@.len() - i,
    {
        values.push(SqlValue::String(labels[i].clone()));
        i = i + 1;
    }
    assert(values_view(values@) =~= values_view(old(values)@) + labels_values(strings_view(labels@)));
}

fn push_tail(values: &mut Vec<SqlValue>, document: Document, updated_at: Timestamp, pk: String, sk: String)
    ensures
        values_view(final(values)@) == values_view(old(values)@) + tail_values(
            document@,
            updated_at@,
            pk@,
            sk@,
        ),
{
    let text = String::from_str(updated_at.text());
    values.push(SqlValue::Document(document));
    values.push(SqlValue::String(text));
    values.push(SqlValue::String(pk));
    values.push(SqlValue::String(sk));
    assert(values_view(values@) =~= values_view(old(values)@) + tail_values(
        document@,
        updated_at@,
        pk@,
        sk@,
    ));
}

impl Sql {
    pub fn kind(&self) -> (r: SqlKind)
        ensures
            r == kind_of(self@),
    {
        match self {
            Sql::Insert(_) => SqlKind::Insert,
            Sql::Update { .. } => SqlKind::Update,
            Sql::DeleteByIds { .. } => SqlKind::DeleteByIds,
            Sql::InsertRelation(_, labels) => SqlKind::InsertRelation(labels.len()),
            Sql::DeleteRelations { to_remove, .. } => SqlKind::DeleteRelations(to_remove.len()),
            Sql::UpdateWithRelations { to_remove, to_add, .. } => SqlKind::UpdateWithRelations(
                to_remove.len(),
                to_add.len(),
            ),
        }
    }

    /// Compiles the statement into its text and bound values.
    pub fn compile(self) -> (r: Statement)
        ensures
            r.text@ == statement_text(kind_of(self@)),
            values_view(r.values@) == bound_values(self@),
    {
        let text = compile_text(self.kind());
        let mut values: Vec<SqlValue> = Vec::new();
        match self {
            Sql::Insert(row) => {
                values = row.into_values();
            },
            Sql::Update { pk, sk, document, updated_at } => {
                push_tail(&mut values, document, updated_at, pk, sk);
                assert(values_view(values@) =~= bound_values(self@));
            },
            Sql::DeleteByIds { pk, sk } => {
                values.push(SqlValue::String(pk));
                values.push(SqlValue::String(sk));
                assert(values_view(values@) =~= bound_values(self@));
            },
            Sql::InsertRelation(row, labels) => {
                values = row.into_values();
                push_labels(&mut values, labels);
            },
            Sql::DeleteRelations { pk, sk, to_remove, document, updated_at } => {
                push_labels(&mut values, to_remove);
                push_tail(&mut values, document, updated_at, pk, sk);
                assert(values_view(values@) =~= bound_values(self@));
            },
            Sql::UpdateWithRelations { pk, sk, to_remove, to_add, document, updated_at } => {
                push_labels(&mut values, to_remove);
                push_labels(&mut values, to_add);
                push_tail(&mut values, document, updated_at, pk, sk);
                assert(values_view(values@) =~= bound_values(self@));
            },
        }
        Statement { text, values }
    }
}

/// What the store holds of one item.
pub struct StoredView {
    pub pk: Seq<char>,
    pub sk: Seq<char>,
    pub entity_type: Option<Seq<char>>,
    pub created_at: int,
    pub updated_at: int,
    pub gsi1pk: Option<Seq<char>>,
    pub gsi1sk: Option<Seq<char>>,
    pub gsi2pk: Option<Seq<char>>,
    pub gsi2sk: Option<Seq<char>>,
    pub labels: Set<Seq<char>>,
    pub document: Map<Seq<char>, AttrView>,
}

/// What the store holds once it has written a row.
pub open spec fn stored(r: ItemView) -> StoredView {
    StoredView {
        pk: r.pk,
        sk: r.sk,
        entity_type: r.entity_type,
        created_at: r.created_at.millis,
        updated_at: r.updated_at.millis,
        gsi1pk: r.gsi1pk,
        gsi1sk: r.gsi1sk,
        gsi2pk: r.gsi2pk,
        gsi2sk: r.gsi2sk,
        labels: r.relation_names.to_set(),
        document: r.document,
    }
}

/// An item after its labels are replaced and its document and time of
/// change are updated.
pub open spec fn touched(
    c: StoredView,
    labels: Set<Seq<char>>,
    document: Map<Seq<char>, AttrView>,
    updated_at: TimestampView,
) -> StoredView {
    StoredView {
        labels: labels,
        document: c.document.union_prefer_right(document),
        updated_at: updated_at.millis,
        ..c
    }
}

/// What a statement does to the item it addresses, `None` standing for no
/// item. A relation row whose labels are all removed stays in the store.
pub open spec fn apply(s: SqlView, cur: Option<StoredView>) -> Option<StoredView> {
    match s {
        SqlView::Insert(row) => Some(stored(row)),
        SqlView::Update { document, updated_at, .. } => match cur {
            Some(c) => Some(touched(c, c.labels, document, updated_at)),
            None => None,
        },
        SqlView::DeleteByIds { .. } => None,
        SqlView::InsertRelation(row, labels) => match cur {
            Some(c) => Some(StoredView { labels: c.labels + labels.to_set(), ..c }),
            None => Some(StoredView { labels: labels.to_set(), ..stored(row) }),
        },
        SqlView::DeleteRelations { to_remove, document, updated_at, .. } => match cur {
            Some(c) => Some(touched(c, c.labels - to_remove.to_set(), document, updated_at)),
            None => None,
        },
        SqlView::UpdateWithRelations { to_remove, to_add, document, updated_at, .. } => match cur {
            Some(c) => Some(
                touched(c, (c.labels - to_remove.to_set()) + to_add.to_set(), document, updated_at),
            ),
            None => None,
        },
    }
}

} // verus!
