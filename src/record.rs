//! Records, their projection into stored rows, and the values a row binds.
use vstd::prelude::*;
use crate::document::{AttrValue, AttrView, Document, strings_view};

verus! {

/// Attribute that repeats the partition key in the document.
pub const PK: &'static str = "__pk";
/// Attribute that repeats the sort key in the document.
pub const SK: &'static str = "__sk";
/// Attribute with the entity type.
pub const TYPE: &'static str = "__type";
/// Attribute with the creation time.
pub const CREATED_AT: &'static str = "__created_at";
/// Attribute with the time of the last change.
pub const UPDATED_AT: &'static str = "__updated_at";
/// Partition key of the type index.
pub const TYPE_INDEX_PK: &'static str = "__gsi1pk";
/// Sort key of the type index.
pub const TYPE_INDEX_SK: &'static str = "__gsi1sk";
/// Partition key of the inverted index.
pub const INVERTED_INDEX_PK: &'static str = "__gsi2pk";
/// Sort key of the inverted index.
pub const INVERTED_INDEX_SK: &'static str = "__gsi2sk";
/// Attribute with the labels of a relation row.
pub const RELATION_NAMES: &'static str = "__relation_names";

/// The RFC 3339 text, with milliseconds and a `Z` offset, of an instant given
/// in milliseconds since the Unix epoch.
pub uninterp spec fn rfc3339_millis_of(millis: int) -> Seq<char>;

/// Relies on chrono's `Utc::now` for the current instant, on
/// `DateTime::timestamp_millis` for its milliseconds since the epoch, and on
/// `DateTime::to_rfc3339_opts(SecondsFormat::Millis, true)` for its text; both
/// read the instant to the millisecond, so the text follows from the number.
#[verifier::external_body]
fn utc_now() -> (r: (i64, String))
    ensures
        r.1@ == rfc3339_millis_of(r.0 as int),
{
    let now = chrono::Utc::now();
    (now.timestamp_millis(), now.to_rfc3339_opts(chrono::SecondsFormat::Millis, true))
}

pub struct TimestampView {
    pub millis: int,
    pub text: Seq<char>,
}

/// An instant, to the millisecond, with its RFC 3339 text.
#[derive(Clone, Debug, PartialEq, Eq)]
pub struct Timestamp {
    millis: i64,
    text: String,
}

impl View for Timestamp {
    type V = TimestampView;

    closed spec fn view(&self) -> TimestampView {
        TimestampView { millis: self.millis as int, text: self.text@ }
    }
}

impl Timestamp {
    /// The current instant.
    pub fn now() -> (r: Timestamp)
        ensures
            r@.text == rfc3339_millis_of(r@.millis),
    {
        let (millis, text) = utc_now();
        Timestamp { millis, text }
    }

    pub fn millis(&self) -> (r: i64)
        ensures
            r as int == self@.millis,
    {
        self.millis
    }

    pub fn text(&self) -> (r: &str)
        ensures
            r@ == self@.text,
    {
        self.text.as_str()
    }

    pub fn duplicate(&self) -> (r: Timestamp)
        ensures
            r@ == self@,
    {
        Timestamp { millis: self.millis, text: self.text.clone() }
    }
}

/// A copy of a list of strings.
pub fn copy_strings(v: &Vec<String>) -> (r: Vec<String>)
    ensures
        r@ == v@,
{
    let mut r: Vec<String> = Vec::new();
    let mut i: usize = 0;
    while i < v.len()
        invariant
            i <= v@.len(),
            r@ == v@.subrange(0, i as int),
        decreases v@.len() - i,
    {
        r.push(v[i].clone());
        i = i + 1;
        assert(r@ =~= v@.subrange(0, i as int));
    }
    assert(v@.subrange(0, v@.len() as int) =~= v@);
    r
}

pub open spec fn opt_view(o: Option<String>) -> Option<Seq<char>> {
    match o {
        Some(s) => Some(s@),
        None => None,
    }
}

/// The content of a record or of a stored row.
pub struct ItemView {
    pub pk: Seq<char>,
    pub sk: Seq<char>,
    pub entity_type: Option<Seq<char>>,
    pub created_at: TimestampView,
    pub updated_at: TimestampView,
    pub relation_names: Seq<Seq<char>>,
    pub gsi1pk: Option<Seq<char>>,
    pub gsi1sk: Option<Seq<char>>,
    pub gsi2pk: Option<Seq<char>>,
    pub gsi2sk: Option<Seq<char>>,
    pub document: Map<Seq<char>, AttrView>,
}

/// One item of the table: its primary key, type, timestamps, the key pairs
/// of the type index (`gsi1`) and of the inverted index (`gsi2`), the labels
/// of a relation row, and the open document.
#[derive(Clone, Debug)]
pub struct Record {
    pub pk: String,
    pub sk: String,
    pub entity_type: Option<String>,
    pub created_at: Timestamp,
    pub updated_at: Timestamp,
    pub relation_names: Vec<String>,
    pub gsi1pk: Option<String>,
    pub gsi1sk: Option<String>,
    pub gsi2pk: Option<String>,
    pub gsi2sk: Option<String>,
    pub document: Document,
}

impl View for Record {
    type V = ItemView;

    open spec fn view(&self) -> ItemView {
        ItemView {
            pk: self.pk@,
            sk: self.sk@,
            entity_type: opt_view(self.entity_type),
            created_at: self.created_at@,
            updated_at: self.updated_at@,
            relation_names: strings_view(self.relation_names@),
            gsi1pk: opt_view(self.gsi1pk),
            gsi1sk: opt_view(self.gsi1sk),
            gsi2pk: opt_view(self.gsi2pk),
            gsi2sk: opt_view(self.gsi2sk),
            document: self.document@,
        }
    }
}

pub open spec fn insert_opt(
    d: Map<Seq<char>, AttrView>,
    name: Seq<char>,
    v: Option<Seq<char>>,
) -> Map<Seq<char>, AttrView> {
    match v {
        Some(s) => d.insert(name, AttrView::S(s)),
        None => d,
    }
}

/// The document of a record with its keys, type, timestamps, index key
/// pairs and labels written in as attributes.
pub open spec fn stored_document(r: ItemView) -> Map<Seq<char>, AttrView> {
    let d = r.document.insert(PK@, AttrView::S(r.pk)).insert(SK@, AttrView::S(r.sk));
    let d = insert_opt(d, TYPE@, r.entity_type);
    let d = d.insert(CREATED_AT@, AttrView::S(r.created_at.text)).insert(
        UPDATED_AT@,
        AttrView::S(r.updated_at.text),
    );
    let d = insert_opt(d, TYPE_INDEX_PK@, r.gsi1pk);
    let d = insert_opt(d, TYPE_INDEX_SK@, r.gsi1sk);
    let d = insert_opt(d, INVERTED_INDEX_PK@, r.gsi2pk);
    let d = insert_opt(d, INVERTED_INDEX_SK@, r.gsi2sk);
    if r.relation_names.len() > 0 {
        d.insert(RELATION_NAMES@, AttrView::SS(r.relation_names))
    } else {
        d
    }
}

/// The row that stores a record.
pub open spec fn project(r: ItemView) -> ItemView {
    ItemView { document: stored_document(r), ..r }
}

fn insert_optional(d: &mut Document, name: &str, v: &Option<String>)
    ensures
        final(d)@ == insert_opt(old(d)@, name@, opt_view(*v)),
{
    match v {
        Some(s) => d.insert(String::from_str(name), AttrValue::S(s.clone())),
        None => {},
    }
}

/// A value bound to a statement placeholder.
#[derive(Clone, Debug)]
pub enum SqlValue {
    String(String),
    Null,
    Strings(Vec<String>),
    Document(Document),
}

pub enum SqlValueView {
    String(Seq<char>),
    Null,
    Strings(Seq<Seq<char>>),
    Document(Map<Seq<char>, AttrView>),
}

impl View for SqlValue {
    type V = SqlValueView;

    open spec fn view(&self) -> SqlValueView {
        match self {
            SqlValue::String(s) => SqlValueView::String(s@),
            SqlValue::Null => SqlValueView::Null,
            SqlValue::Strings(v) => SqlValueView::Strings(strings_view(v@)),
            SqlValue::Document(d) => SqlValueView::Document(d@),
        }
    }
}

pub open spec fn values_view(v: Seq<SqlValue>) -> Seq<SqlValueView> {
    v.map_values(|x: SqlValue| x@)
}

pub open spec fn opt_value(o: Option<Seq<char>>) -> SqlValueView {
    match o {
        Some(s) => SqlValueView::String(s),
        None => SqlValueView::Null,
    }
}

/// The values a row binds, in column order.
pub open spec fn row_values(r: ItemView) -> Seq<SqlValueView> {
    seq![
        SqlValueView::String(r.pk),
        SqlValueView::String(r.sk),
        opt_value(r.entity_type),
        SqlValueView::String(r.created_at.text),
        SqlValueView::String(r.updated_at.text),
        opt_value(r.gsi1pk),
        opt_value(r.gsi1sk),
        opt_value(r.gsi2pk),
        opt_value(r.gsi2sk),
        SqlValueView::Strings(r.relation_names),
        SqlValueView::Document(r.document),
    ]
}

fn optional_value(o: Option<String>) -> (r: SqlValue)
    ensures
        r@ == opt_value(opt_view(o)),
{
    match o {
        Some(s) => SqlValue::String(s),
        None => SqlValue::Null,
    }
}

/// A record as the store holds it: the same columns, and a document that
/// carries them as attributes.
#[derive(Clone, Debug)]
pub struct Row {
    record: Record,
}

impl View for Row {
    type V = ItemView;

    closed spec fn view(&self) -> ItemView {
        self.record@
    }
}

impl Row {
    /// Projects a record into its row; every record has one.
    pub fn from_record(record: Record) -> (r: Row)
        ensures
            r@ == project(record@),
    {
        let mut record = record;
        let mut d = Document::new();
        std::mem::swap(&mut d, &mut record.document);
        d.insert(String::from_str(PK), AttrValue::S(record.pk.clone()));
        d.insert(String::from_str(SK), AttrValue::S(record.sk.clone()));
        insert_optional(&mut d, TYPE, &record.entity_type);
        d.insert(String::from_str(CREATED_AT), AttrValue::S(record.created_at.text.clone()));
        d.insert(String::from_str(UPDATED_AT), AttrValue::S(record.updated_at.text.clone()));
        insert_optional(&mut d, TYPE_INDEX_PK, &record.gsi1pk);
        insert_optional(&mut d, TYPE_INDEX_SK, &record.gsi1sk);
        insert_optional(&mut d, INVERTED_INDEX_PK, &record.gsi2pk);
        insert_optional(&mut d, INVERTED_INDEX_SK, &record.gsi2sk);
        if record.relation_names.len() > 0 {
            d.insert(String::from_str(RELATION_NAMES), AttrValue::SS(copy_strings(&record.relation_names)));
        }
        record.document = d;
        Row { record }
    }

    /// The values the row binds, in column order.
    pub fn into_values(self) -> (r: Vec<SqlValue>)
        ensures
            values_view(r@) == row_values(self@),
    {
        let Record {
            pk,
            sk,
            entity_type,
            created_at,
            updated_at,
            relation_names,
            gsi1pk,
            gsi1sk,
            gsi2pk,
            gsi2sk,
            document,
        } = self.record;
        let mut r: Vec<SqlValue> = Vec::new();
        r.push(SqlValue::String(pk));
        r.push(SqlValue::String(sk));
        r.push(optional_value(entity_type));
        r.push(SqlValue::String(created_at.text));
        r.push(SqlValue::String(updated_at.text));
        r.push(optional_value(gsi1pk));
        r.push(optional_value(gsi1sk));
        r.push(optional_value(gsi2pk));
        r.push(optional_value(gsi2sk));
        r.push(SqlValue::Strings(relation_names));
        r.push(SqlValue::Document(document));
        assert(values_view(r@) =~= row_values(self@));
        r
    }

    /// Sets one attribute of the row's document.
    pub fn set_attribute(&mut self, name: String, value: AttrValue)
        ensures
            final(self)@ == (ItemView { document: old(self)@.document.insert(name@, value@), ..old(self)@ }),
    {
        self.record.document.insert(name, value);
    }

    pub fn record(&self) -> (r: &Record)
        ensures
            r@ == self@,
    {
        &self.record
    }
}

} // verus!
