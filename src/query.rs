//! The keyed query loader: normalised query keys, the shape of the scan for
//! each key, and the assembly of scanned rows into per-id fragments.
use vstd::prelude::*;
use crate::document::{Document, strings_view};
use crate::ids::{NodeID, RowKind, classify, node_of, row_kind};
use crate::record::{RELATION_NAMES, TYPE};
use indexmap::IndexMap;

verus! {

/// The order of `String`: lexicographic by characters, a prefix first.
pub open spec fn lex_lt(a: Seq<char>, b: Seq<char>) -> bool
    decreases a.len(),
{
    if a.len() == 0 {
        b.len() > 0
    } else if b.len() == 0 {
        false
    } else if a[0] == b[0] {
        lex_lt(a.drop_first(), b.drop_first())
    } else {
        (a[0] as u32) < (b[0] as u32)
    }
}

pub open spec fn sorted(s: Seq<Seq<char>>) -> bool {
    forall|i: int, j: int| 0 <= i < j < s.len() ==> !lex_lt(s[j], s[i])
}

pub open spec fn strictly_sorted(s: Seq<Seq<char>>) -> bool {
    forall|i: int, j: int| 0 <= i < j < s.len() ==> lex_lt(s[i], s[j])
}

proof fn lemma_lex_irreflexive(a: Seq<char>)
    ensures
        !lex_lt(a, a),
    decreases a.len(),
{
    if a.len() > 0 {
        lemma_lex_irreflexive(a.drop_first());
    }
}

proof fn lemma_lex_transitive(a: Seq<char>, b: Seq<char>, c: Seq<char>)
    requires
        lex_lt(a, b),
        lex_lt(b, c),
    ensures
        lex_lt(a, c),
    decreases a.len(),
{
    if a.len() > 0 && b.len() > 0 && c.len() > 0 {
        if a[0] == b[0] && b[0] == c[0] {
            lemma_lex_transitive(a.drop_first(), b.drop_first(), c.drop_first());
        }
    }
}

/// Two strictly sorted lists of the same labels are the same list.
pub proof fn lemma_strictly_sorted_unique(x: Seq<Seq<char>>, y: Seq<Seq<char>>)
    requires
        strictly_sorted(x),
        strictly_sorted(y),
        x.to_set() == y.to_set(),
    ensures
        x == y,
    decreases x.len() + y.len(),
{
    if x.len() == 0 || y.len() == 0 {
        if x.len() > 0 {
            assert(x.to_set().contains(x[0]));
        }
        if y.len() > 0 {
            assert(y.to_set().contains(y[0]));
        }
        assert(x =~= y);
    } else {
        assert(x.to_set().contains(x[0]));
        assert(y.to_set().contains(y[0]));
        let j = choose|j: int| 0 <= j < y.len() && y[j] == x[0];
        let k = choose|k: int| 0 <= k < x.len() && x[k] == y[0];
        if j > 0 {
            assert(lex_lt(y[0], y[j]));
            if k > 0 {
                assert(lex_lt(x[0], x[k]));
                lemma_lex_transitive(y[0], x[0], y[0]);
                lemma_lex_irreflexive(y[0]);
            } else {
                lemma_lex_irreflexive(y[0]);
            }
        }
        assert(x[0] == y[0]);
        let xt = x.drop_first();
        let yt = y.drop_first();
        assert forall|e: Seq<char>| xt.to_set().contains(e) implies yt.to_set().contains(e) by {
            let a = choose|a: int| 0 <= a < xt.len() && xt[a] == e;
            assert(x.to_set().contains(e));
            let b = choose|b: int| 0 <= b < y.len() && y[b] == e;
            if b == 0 {
                assert(lex_lt(x[0], x[a + 1]));
                lemma_lex_irreflexive(e);
            }
            assert(yt[b - 1] == e);
        }
        assert forall|e: Seq<char>| yt.to_set().contains(e) implies xt.to_set().contains(e) by {
            let a = choose|a: int| 0 <= a < yt.len() && yt[a] == e;
            assert(y.to_set().contains(e));
            let b = choose|b: int| 0 <= b < x.len() && x[b] == e;
            if b == 0 {
                assert(lex_lt(y[0], y[a + 1]));
                lemma_lex_irreflexive(e);
            }
            assert(xt[b - 1] == e);
        }
        assert(xt.to_set() =~= yt.to_set());
        lemma_strictly_sorted_unique(xt, yt);
        assert(x =~= seq![x[0]] + xt);
        assert(y =~= seq![y[0]] + yt);
    }
}

/// Relies on `slice::sort` for `String`: the same strings, ordered by
/// `String`'s `Ord`, which compares the UTF-8 bytes lexicographically, an
/// order that agrees with the code points of the characters.
#[verifier::external_body]
fn sort_strings(v: &mut Vec<String>)
    ensures
        strings_view(final(v)@).to_set() == strings_view(old(v)@).to_set(),
        sorted(strings_view(final(v)@)),
{
    v.sort();
}

/// Relies on `Vec::dedup`: of each run of equal strings one is kept, so on a
/// sorted list each string stays once and the order is kept.
#[verifier::external_body]
fn dedup_strings(v: &mut Vec<String>)
    requires
        sorted(strings_view(old(v)@)),
    ensures
        strings_view(final(v)@).to_set() == strings_view(old(v)@).to_set(),
        strictly_sorted(strings_view(final(v)@)),
{
    v.dedup();
}

pub struct QueryKeyView {
    pub pk: Seq<char>,
    pub edges: Seq<Seq<char>>,
}

/// Whether `k` is the normalised key of a root id and a label list: the
/// labels sorted, each once.
pub open spec fn is_key_of(k: QueryKeyView, pk: Seq<char>, labels: Seq<Seq<char>>) -> bool {
    k.pk == pk && strictly_sorted(k.edges) && k.edges.to_set() == labels.to_set()
}

/// A lookup: a root id and the labels of the relations to fetch with it; no
/// labels fetch the whole partition.
#[derive(Clone, Debug, PartialEq, Eq, Hash)]
pub struct QueryKey {
    pk: String,
    edges: Vec<String>,
}

impl View for QueryKey {
    type V = QueryKeyView;

    closed spec fn view(&self) -> QueryKeyView {
        QueryKeyView { pk: self.pk@, edges: strings_view(self.edges@) }
    }
}

impl QueryKey {
    /// The key of a root id and a label list, whose order and repetitions do
    /// not count.
    pub fn new(pk: String, edges: Vec<String>) -> (r: QueryKey)
        ensures
            is_key_of(r@, pk@, strings_view(edges@)),
    {
        let mut edges = edges;
        sort_strings(&mut edges);
        dedup_strings(&mut edges);
        QueryKey { pk, edges }
    }

    pub fn pk(&self) -> (r: &str)
        ensures
            r@ == self@.pk,
    {
        self.pk.as_str()
    }

    pub fn edges(&self) -> (r: &Vec<String>)
        ensures
            strings_view(r@) == self@.edges,
    {
        &self.edges
    }

    /// A copy of the key.
    pub fn duplicate(&self) -> (r: QueryKey)
        ensures
            r@ == self@,
    {
        QueryKey { pk: self.pk.clone(), edges: crate::record::copy_strings(&self.edges) }
    }

    /// Whether two keys are the same key.
    pub fn same(&self, other: &QueryKey) -> (r: bool)
        ensures
            r == (self@ == other@),
    {
        if !self.pk.eq(&other.pk) {
            assert(self@.pk != other@.pk);
            return false;
        }
        if self.edges.len() != other.edges.len() {
            assert(self@.edges.len() != other@.edges.len());
            return false;
        }
        let mut i: usize = 0;
        while i < self.edges.len()
            invariant
                i <= self.edges@.len(),
                self.edges@.len() == other.edges@.len(),
                forall|j: int| 0 <= j < i ==> self.edges@[j]@ == other.edges@[j]@,
            decreases self.edges@.len() - i,
        {
            if !self.edges[i].eq(&other.edges[i]) {
                assert(self@.edges[i as int] != other@.edges[i as int]);
                return false;
            }
            i = i + 1;
        }
        assert(self@.edges =~= other@.edges);
        true
    }
}

/// Keys built from one root id and two label lists with the same labels, in
/// any order and with any repetitions, are the same key.
pub proof fn lemma_query_key_order_free(
    a: QueryKeyView,
    b: QueryKeyView,
    pk: Seq<char>,
    la: Seq<Seq<char>>,
    lb: Seq<Seq<char>>,
)
    requires
        is_key_of(a, pk, la),
        is_key_of(b, pk, lb),
        la.to_set() == lb.to_set(),
    ensures
        a == b,
{
    lemma_strictly_sorted_unique(a.edges, b.edges);
}

/// Why a lookup failed.
#[derive(Clone, Copy, Debug, PartialEq, Eq)]
pub enum QueryLoaderError {
    /// The key cannot be queried: its root id is not a node id.
    UnknownError,
    /// A scan failed.
    QueryError,
}

/// The scan for one key: every row of the partition, or, with labels, the
/// rows whose type begins with the node's type or that carry one of the
/// labels.
#[derive(Clone, Debug, PartialEq, Eq)]
pub struct QueryPlan {
    pub partition: String,
    pub node_type: Option<String>,
    pub labels: Vec<String>,
}

/// Whether a key can be queried: a key that asks for labels needs a node id
/// as its root, whose type the scan matches.
pub open spec fn plannable(k: QueryKeyView) -> bool {
    k.edges.len() == 0 || node_of(k.pk) is Some
}

/// Whether `p` is the scan for `k`: its partition, its labels, and the type
/// of its root where it asks for labels.
pub open spec fn is_plan_of(p: QueryPlan, k: QueryKeyView) -> bool {
    &&& p.partition@ == k.pk
    &&& strings_view(p.labels@) == k.edges
    &&& k.edges.len() == 0 ==> p.node_type is None
    &&& k.edges.len() > 0 ==> p.node_type is Some && p.node_type->0@ == node_of(k.pk)->0.ty
}

impl QueryKey {
    /// The scan for the key.
    pub fn plan(&self) -> (r: Result<QueryPlan, QueryLoaderError>)
        ensures
            plannable(self@) ==> r is Ok && is_plan_of(r->Ok_0, self@),
            !plannable(self@) ==> r == Err::<QueryPlan, _>(QueryLoaderError::UnknownError),
    {
        if self.edges.len() == 0 {
            let r = QueryPlan { partition: self.pk.clone(), node_type: None, labels: Vec::new() };
            assert(strings_view(r.labels@) =~= self@.edges);
            return Ok(r);
        }
        match NodeID::parse(self.pk.as_str()) {
            Some(id) => Ok(
                QueryPlan {
                    partition: self.pk.clone(),
                    node_type: Some(String::from_str(id.ty())),
                    labels: crate::record::copy_strings(&self.edges),
                },
            ),
            None => Err(QueryLoaderError::UnknownError),
        }
    }
}

/// The parts joined, with the separator between each two.
pub open spec fn joined(parts: Seq<Seq<char>>, sep: Seq<char>) -> Seq<char>
    decreases parts.len(),
{
    if parts.len() == 0 {
        Seq::empty()
    } else if parts.len() == 1 {
        parts[0]
    } else {
        joined(parts.drop_last(), sep) + sep + parts.last()
    }
}

/// Relies on itertools' `Itertools::join`: the items in order, with the
/// separator between each two, and nothing for no items.
#[verifier::external_body]
fn join_with(parts: &Vec<String>, sep: &str) -> (r: String)
    ensures
        r@ == joined(strings_view(parts@), sep@),
{
    itertools::Itertools::join(&mut parts.iter(), sep)
}

pub open spec fn digit(d: nat) -> char {
    if d == 0 { '0' } else if d == 1 { '1' } else if d == 2 { '2' } else if d == 3 { '3' } else if d == 4 {
        '4'
    } else if d == 5 { '5' } else if d == 6 { '6' } else if d == 7 { '7' } else if d == 8 { '8' } else {
        '9'
    }
}

/// The decimal digits of a number.
pub open spec fn decimal(n: nat) -> Seq<char>
    decreases n,
{
    if n < 10 {
        seq![digit(n)]
    } else {
        decimal(n / 10) + seq![digit(n % 10)]
    }
}

fn digit_text(d: usize) -> (r: &'static str)
    requires
        d < 10,
    ensures
        r@ == seq![digit(d as nat)],
{
    proof {
        reveal_strlit("0");
        reveal_strlit("1");
        reveal_strlit("2");
        reveal_strlit("3");
        reveal_strlit("4");
        reveal_strlit("5");
        reveal_strlit("6");
        reveal_strlit("7");
        reveal_strlit("8");
        reveal_strlit("9");
    }
    if d == 0 {
        "0"
    } else if d == 1 {
        "1"
    } else if d == 2 {
        "2"
    } else if d == 3 {
        "3"
    } else if d == 4 {
        "4"
    } else if d == 5 {
        "5"
    } else if d == 6 {
        "6"
    } else if d == 7 {
        "7"
    } else if d == 8 {
        "8"
    } else {
        "9"
    }
}

/// The decimal text of a number.
pub fn decimal_text(n: usize) -> (r: String)
    ensures
        r@ == decimal(n as nat),
    decreases n,
{
    if n < 10 {
        String::from_str(digit_text(n))
    } else {
        let mut r = decimal_text(n / 10);
        r.append(digit_text(n % 10));
        r
    }
}

/// The condition on one requested label.
pub open spec fn label_condition(i: nat) -> Seq<char> {
    " contains(#relationname, :relation"@ + decimal(i) + ")"@
}

/// The conditions on the first `n` requested labels.
pub open spec fn label_conditions(n: nat) -> Seq<Seq<char>>
    decreases n,
{
    if n == 0 {
        Seq::empty()
    } else {
        label_conditions((n - 1) as nat).push(label_condition((n - 1) as nat))
    }
}

/// The filter of a scan for `n` labels: the node's type or any of the labels.
pub open spec fn filter_text(n: nat) -> Seq<char> {
    "begins_with(#type, :type) OR "@ + joined(label_conditions(n), " OR "@)
}

/// The name of the placeholder of a requested label.
pub open spec fn label_placeholder(i: nat) -> Seq<char> {
    ":relation"@ + decimal(i)
}

impl QueryPlan {
    /// The filter of the scan, which has one only where labels are requested.
    pub fn filter_expression(&self) -> (r: Option<String>)
        ensures
            self.labels@.len() == 0 ==> r is None,
            self.labels@.len() > 0 ==> r is Some && r->0@ == filter_text(self.labels@.len()),
    {
        if self.labels.len() == 0 {
            return None;
        }
        let mut parts: Vec<String> = Vec::new();
        let mut i: usize = 0;
        while i < self.labels.len()
            invariant
                i <= self.labels@.len(),
                strings_view(parts@) == label_conditions(i as nat),
            decreases self.labels@.len() - i,
        {
            let mut c = String::from_str(" contains(#relationname, :relation");
            c.append(decimal_text(i).as_str());
            c.append(")");
            parts.push(c);
            i = i + 1;
            assert(strings_view(parts@) =~= label_conditions(i as nat));
        }
        let mut r = String::from_str("begins_with(#type, :type) OR ");
        r.append(join_with(&parts, " OR ").as_str());
        Some(r)
    }

    /// The values of the placeholders of the scan: the partition, and, where
    /// labels are requested, the node type and each label.
    pub fn expression_values(&self) -> (r: Vec<(String, String)>)
        ensures
            r@.len() == if self.labels@.len() > 0 && self.node_type is Some {
                self.labels@.len() + 2
            } else {
                1
            },
            r@[0].0@ == ":pk"@ && r@[0].1@ == self.partition@,
            self.labels@.len() > 0 && self.node_type is Some ==> (forall|i: int|
                #![trigger r@[i + 1]]
                0 <= i < self.labels@.len() ==> r@[i + 1].0@ == label_placeholder(i as nat)
                    && r@[i + 1].1@ == self.labels@[i]@) && r@[self.labels@.len() as int + 1].0@ == ":type"@
                && r@[self.labels@.len() as int + 1].1@ == self.node_type->0@,
    {
        let mut r: Vec<(String, String)> = Vec::new();
        r.push((String::from_str(":pk"), self.partition.clone()));
        match &self.node_type {
            Some(ty) => {
                if self.labels.len() > 0 {
                    let mut i: usize = 0;
                    while i < self.labels.len()
                        invariant
                            i <= self.labels@.len(),
                            r@.len() == i + 1,
                            r@[0].0@ == ":pk"@ && r@[0].1@ == self.partition@,
                            forall|j: int|
                                #![trigger r@[j + 1]]
                                0 <= j < i ==> r@[j + 1].0@ == label_placeholder(j as nat)
                                    && r@[j + 1].1@ == self.labels@[j]@,
                        decreases self.labels@.len() - i,
                    {
                        let mut name = String::from_str(":relation");
                        name.append(decimal_text(i).as_str());
                        assert(name@ == label_placeholder(i as nat));
                        let ghost before = r@;
                        let label = self.labels[i].clone();
                        assert(label@ == self.labels@[i as int]@);
                        r.push((name, label));
                        assert(r@[i as int + 1].0@ == label_placeholder(i as nat));
                        assert(r@[i as int + 1].1@ == self.labels@[i as int]@);
                        assert forall|j: int| 0 <= j < i implies #[trigger] r@[j + 1] == before[j + 1] by {}
                        i = i + 1;
                    }
                    let ghost before = r@;
                    r.push((String::from_str(":type"), ty.clone()));
                    assert forall|j: int| 0 <= j < self.labels@.len() implies #[trigger] r@[j + 1] == before[j + 1] by {}
                }
            },
            None => {},
        }
        r
    }
}

/// A row as a scan returns it: its key pair, its labels if it has any, and
/// all its attributes.
#[derive(Clone, Debug)]
pub struct RawRow {
    pub pk: String,
    pub sk: String,
    pub relation_names: Option<Vec<String>>,
    pub attributes: Document,
}

pub open spec fn row_labels(r: RawRow) -> Seq<Seq<char>> {
    match r.relation_names {
        Some(v) => strings_view(v@),
        None => Seq::empty(),
    }
}

/// What is known of one root id, by the positions of its rows in the scan:
/// its own row, its constraint rows, and its relation rows by label.
pub struct SlotView {
    pub node: Option<int>,
    pub constraints: Seq<int>,
    pub edges: Map<Seq<char>, Seq<int>>,
}

pub open spec fn empty_slot() -> SlotView {
    SlotView { node: None, constraints: Seq::empty(), edges: Map::empty() }
}

/// The rows filed under a label; none where the label has no group.
pub open spec fn group_of(e: Map<Seq<char>, Seq<int>>, l: Seq<char>) -> Seq<int> {
    if e.contains_key(l) {
        e[l]
    } else {
        Seq::empty()
    }
}

/// The groups after the row at position `i` is filed under each label.
pub open spec fn add_labels(e: Map<Seq<char>, Seq<int>>, labels: Seq<Seq<char>>, i: int) -> Map<
    Seq<char>,
    Seq<int>,
>
    decreases labels.len(),
{
    if labels.len() == 0 {
        e
    } else {
        let e2 = add_labels(e, labels.drop_last(), i);
        e2.insert(labels.last(), group_of(e2, labels.last()).push(i))
    }
}

/// A slot after the row at position `i`: a node row replaces the node, a
/// constraint row is appended, and a relation row is filed under each label.
pub open spec fn add_row(s: SlotView, k: RowKind, i: int, labels: Seq<Seq<char>>) -> SlotView {
    match k {
        RowKind::Node => SlotView { node: Some(i), ..s },
        RowKind::Constraint => SlotView { constraints: s.constraints.push(i), ..s },
        RowKind::Relation => SlotView { edges: add_labels(s.edges, labels, i), ..s },
        RowKind::Unrecognized => s,
    }
}

/// The fragments that the rows make, by root id; a row whose keys are of no
/// known shape is left out.
pub open spec fn assembled(rows: Seq<RawRow>) -> Map<Seq<char>, SlotView>
    decreases rows.len(),
{
    if rows.len() == 0 {
        Map::empty()
    } else {
        let m = assembled(rows.drop_last());
        let r = rows.last();
        let k = row_kind(r.pk@, r.sk@);
        if k == RowKind::Unrecognized {
            m
        } else {
            let s = if m.contains_key(r.pk@) {
                m[r.pk@]
            } else {
                empty_slot()
            };
            m.insert(r.pk@, add_row(s, k, rows.len() - 1, row_labels(r)))
        }
    }
}

#[verifier::external_type_specification]
#[verifier::external_body]
#[verifier::reject_recursive_types(K)]
#[verifier::reject_recursive_types(V)]
#[verifier::reject_recursive_types(S)]
pub struct ExIndexMap<K, V, S>(indexmap::IndexMap<K, V, S>);

/// What an index from ids to positions holds.
pub uninterp spec fn index_contents(m: IndexMap<String, usize>) -> Map<Seq<char>, usize>;

/// Relies on `IndexMap::new`: a map with no entries.
#[verifier::external_body]
fn index_new() -> (r: IndexMap<String, usize>)
    ensures
        index_contents(r).dom().len() == 0 && index_contents(r).dom().finite(),
{
    IndexMap::new()
}

/// Relies on `IndexMap::get`: the value stored under the key, if any.
#[verifier::external_body]
fn index_get(m: &IndexMap<String, usize>, k: &str) -> (r: Option<usize>)
    ensures
        r == (if index_contents(*m).contains_key(k@) {
            Some(index_contents(*m)[k@])
        } else {
            None
        }),
{
    m.get(k).copied()
}

/// Relies on `IndexMap::insert`: the key now maps to the value.
#[verifier::external_body]
fn index_insert(m: &mut IndexMap<String, usize>, k: String, v: usize)
    ensures
        index_contents(*final(m)) == index_contents(*old(m)).insert(k@, v),
{
    m.insert(k, v);
}

pub open spec fn usizes_view(v: Seq<usize>) -> Seq<int> {
    v.map_values(|x: usize| x as int)
}

/// The relation rows of one root id, grouped by label.
pub struct LabelGroups {
    index: IndexMap<String, usize>,
    groups: Vec<Vec<usize>>,
}

impl View for LabelGroups {
    type V = Map<Seq<char>, Seq<int>>;

    closed spec fn view(&self) -> Map<Seq<char>, Seq<int>> {
        Map::new(
            |l: Seq<char>| index_contents(self.index).contains_key(l),
            |l: Seq<char>| usizes_view(self.groups@[index_contents(self.index)[l] as int]@),
        )
    }
}

impl LabelGroups {
    pub closed spec fn wf(&self) -> bool {
        &&& forall|l: Seq<char>| #[trigger]
            index_contents(self.index).contains_key(l) ==> index_contents(self.index)[l]
                < self.groups@.len()
        &&& forall|a: Seq<char>, b: Seq<char>|
            #![trigger index_contents(self.index)[a], index_contents(self.index)[b]]
            index_contents(self.index).contains_key(a) && index_contents(self.index).contains_key(b)
                && a != b ==> index_contents(self.index)[a] != index_contents(self.index)[b]
    }

    pub fn new() -> (r: LabelGroups)
        ensures
            r.wf(),
            r@ == Map::<Seq<char>, Seq<int>>::empty(),
    {
        let r = LabelGroups { index: index_new(), groups: Vec::new() };
        assert(r@ =~= Map::<Seq<char>, Seq<int>>::empty());
        r
    }

    /// Files the row at position `i` under a label.
    pub fn add(&mut self, label: &String, i: usize)
        requires
            old(self).wf(),
        ensures
            final(self).wf(),
            final(self)@ == old(self)@.insert(label@, group_of(old(self)@, label@).push(i as int)),
    {
        let ghost before = self@;
        let ghost groups0 = self.groups@;
        let ghost index0 = self.index;
        match index_get(&self.index, label.as_str()) {
            Some(g) => {
                self.groups[g].push(i);
                proof {
                    assert(usizes_view(self.groups@[g as int]@) =~= usizes_view(groups0[g as int]@).push(
                        i as int,
                    ));
                    assert forall|l: Seq<char>| #[trigger] self@.contains_key(l) && l != label@ implies self@[l]
                        == before[l] by {
                        assert(index_contents(self.index)[l] != g);
                    }
                    assert(self@ =~= before.insert(label@, group_of(before, label@).push(i as int)));
                }
            },
            None => {
                let g = self.groups.len();
                let mut group: Vec<usize> = Vec::new();
                group.push(i);
                self.groups.push(group);
                index_insert(&mut self.index, label.clone(), g);
                proof {
                    assert(usizes_view(self.groups@[g as int]@) =~= seq![i as int]);
                    assert(group_of(before, label@) =~= Seq::<int>::empty());
                    assert forall|l: Seq<char>| #[trigger] self@.contains_key(l) && l != label@ implies self@[l]
                        == before[l] by {
                        assert(index_contents(index0).contains_key(l));
                        assert(self.groups@[index_contents(self.index)[l] as int] == groups0[index_contents(
                            index0,
                        )[l] as int]);
                    }
                    assert(self@ =~= before.insert(label@, group_of(before, label@).push(i as int)));
                }
            },
        }
    }

    /// The positions of the rows filed under a label, in order.
    pub fn rows(&self, label: &str) -> (r: Vec<usize>)
        requires
            self.wf(),
        ensures
            usizes_view(r@) == group_of(self@, label@),
    {
        match index_get(&self.index, label) {
            Some(g) => {
                let c = &self.groups[g];
                let mut r: Vec<usize> = Vec::new();
                let mut j: usize = 0;
                while j < c.len()
                    invariant
                        j <= c@.len(),
                        r@ == c@.subrange(0, j as int),
                    decreases c@.len() - j,
                {
                    r.push(c[j]);
                    j = j + 1;
                    assert(r@ =~= c@.subrange(0, j as int));
                }
                assert(c@.subrange(0, c@.len() as int) =~= c@);
                r
            },
            None => {
                assert(usizes_view(Seq::<usize>::empty()) =~= Seq::<int>::empty());
                Vec::new()
            },
        }
    }
}

pub open spec fn slot_of(
    nodes: Seq<Option<usize>>,
    constraints: Seq<Vec<usize>>,
    edges: Seq<LabelGroups>,
    s: int,
) -> SlotView {
    SlotView {
        node: match nodes[s] {
            Some(i) => Some(i as int),
            None => None,
        },
        constraints: usizes_view(constraints[s]@),
        edges: edges[s]@,
    }
}

/// The rows of one scan, gathered by the root id that each row belongs to.
pub struct QueryResult {
    rows: Vec<RawRow>,
    ids: Vec<String>,
    index: IndexMap<String, usize>,
    nodes: Vec<Option<usize>>,
    constraints: Vec<Vec<usize>>,
    edges: Vec<LabelGroups>,
}

impl QueryResult {
    pub closed spec fn slot(&self, s: int) -> SlotView {
        slot_of(self.nodes@, self.constraints@, self.edges@, s)
    }

    /// The scanned rows, in the order of the scan.
    pub closed spec fn rows(&self) -> Seq<RawRow> {
        self.rows@
    }

    /// The root ids, in the order of their first row.
    pub closed spec fn ids(&self) -> Seq<Seq<char>> {
        strings_view(self.ids@)
    }

    /// The fragment of each root id.
    pub closed spec fn slots(&self) -> Map<Seq<char>, SlotView> {
        Map::new(
            |k: Seq<char>| index_contents(self.index).contains_key(k),
            |k: Seq<char>| self.slot(index_contents(self.index)[k] as int),
        )
    }

    pub closed spec fn wf(&self) -> bool {
        let n = self.ids@.len();
        &&& self.nodes@.len() == n
        &&& self.constraints@.len() == n
        &&& self.edges@.len() == n
        &&& forall|s: int| 0 <= s < n ==> (#[trigger] self.edges@[s]).wf()
        &&& forall|k: Seq<char>| #[trigger]
            index_contents(self.index).contains_key(k) ==> index_contents(self.index)[k] < n
                && self.ids@[index_contents(self.index)[k] as int]@ == k
        &&& forall|s: int| 0 <= s < n ==> index_contents(self.index).contains_key(
            #[trigger] self.ids@[s]@,
        )
    }

    /// Gathers the rows of one scan.
    pub fn assemble(rows: Vec<RawRow>) -> (r: QueryResult)
        ensures
            r.wf(),
            r.rows() == rows@,
            r.slots() == assembled(rows@),
    {
        let mut r = QueryResult {
            rows: Vec::new(),
            ids: Vec::new(),
            index: index_new(),
            nodes: Vec::new(),
            constraints: Vec::new(),
            edges: Vec::new(),
        };
        assert(r.slots() =~= assembled(Seq::<RawRow>::empty()));
        let mut i: usize = 0;
        while i < rows.len()
            invariant
                i <= rows@.len(),
                r.wf(),
                r.rows@.len() == 0,
                r.slots() == assembled(rows@.subrange(0, i as int)),
            decreases rows@.len() - i,
        {
            let ghost pre = r.slots();
            let ghost prefix = rows@.subrange(0, i as int);
            proof {
                assert(rows@.subrange(0, i + 1).drop_last() =~= prefix);
                assert(rows@.subrange(0, i + 1).last() == rows@[i as int]);
            }
            let kind = classify(rows[i].pk.as_str(), rows[i].sk.as_str());
            if kind != RowKind::Unrecognized {
                let ghost k = rows@[i as int].pk@;
                let s = match index_get(&r.index, rows[i].pk.as_str()) {
                    Some(s) => s,
                    None => {
                        let s = r.ids.len();
                        r.ids.push(rows[i].pk.clone());
                        r.nodes.push(None);
                        r.constraints.push(Vec::new());
                        r.edges.push(LabelGroups::new());
                        index_insert(&mut r.index, rows[i].pk.clone(), s);
                        proof {
                            assert(usizes_view(r.constraints@[s as int]@) =~= Seq::<int>::empty());
                            assert forall|t: int| 0 <= t < r.ids@.len() implies (#[trigger] r.edges@[t]).wf() by {}
                            assert(r.slot(s as int) == empty_slot());
                            assert forall|k2: Seq<char>| #[trigger]
                                index_contents(r.index).contains_key(k2) && k2 != k implies r.slot(
                                index_contents(r.index)[k2] as int,
                            ) == pre[k2] by {}
                        }
                        s
                    },
                };
                let ghost mid = r.slots();
                let ghost ids0 = r.ids@;
                let ghost nodes0 = r.nodes@;
                let ghost constraints0 = r.constraints@;
                let ghost edges0 = r.edges@;
                let ghost index0 = r.index;
                proof {
                    assert(mid =~= pre.insert(k, if pre.contains_key(k) { pre[k] } else { empty_slot() }));
                    assert(index_contents(r.index)[k] == s);
                }
                if kind == RowKind::Node {
                    r.nodes.set(s, Some(i));
                } else if kind == RowKind::Constraint {
                    r.constraints[s].push(i);
                    proof {
                        assert(usizes_view(r.constraints@[s as int]@) =~= usizes_view(
                            constraints0[s as int]@,
                        ).push(i as int));
                    }
                } else {
                    match &rows[i].relation_names {
                        Some(labels) => {
                            let mut j: usize = 0;
                            while j < labels.len()
                                invariant
                                    j <= labels@.len(),
                                    s < r.edges@.len(),
                                    r.edges@.len() == edges0.len(),
                                    r.ids@ == ids0,
                                    r.nodes@ == nodes0,
                                    r.constraints@ == constraints0,
                                    r.index == index0,
                                    r.rows@.len() == 0,
                                    forall|t: int| 0 <= t < edges0.len() && t != s ==> r.edges@[t] == edges0[t],
                                    r.edges@[s as int].wf(),
                                    r.edges@[s as int]@ == add_labels(
                                        edges0[s as int]@,
                                        strings_view(labels@.subrange(0, j as int)),
                                        i as int,
                                    ),
                                decreases labels@.len() - j,
                            {
                                r.edges[s].add(&labels[j], i);
                                j = j + 1;
                                proof {
                                    assert(strings_view(labels@.subrange(0, j as int)).drop_last() =~= strings_view(
                                        labels@.subrange(0, j - 1),
                                    ));
                                    assert(strings_view(labels@.subrange(0, j as int)).last() == labels@[j - 1]@);
                                }
                            }
                            proof {
                                assert(labels@.subrange(0, labels@.len() as int) =~= labels@);
                            }
                        },
                        None => {
                            proof {
                                assert(add_labels(edges0[s as int]@, Seq::empty(), i as int) == edges0[s as int]@);
                            }
                        },
                    }
                }
                proof {
                    assert forall|t: int| 0 <= t < r.ids@.len() implies (#[trigger] r.edges@[t]).wf() by {
                        if t != s {
                            assert(r.edges@[t] == edges0[t]);
                        }
                    }
                    let target = assembled(rows@.subrange(0, i + 1));
                    assert(r.slot(s as int) == add_row(mid[k], kind, i as int, row_labels(rows@[i as int])));
                    assert(target == mid.insert(k, add_row(mid[k], kind, i as int, row_labels(rows@[i as int]))));
                    assert forall|k2: Seq<char>| #[trigger] target.contains_key(k2) implies r.slots()[k2]
                        == target[k2] by {
                        assert(mid.contains_key(k2));
                        if k2 != k {
                            let t = index_contents(r.index)[k2] as int;
                            assert(ids0[t]@ == k2);
                            assert(t != s);
                            assert(r.nodes@[t] == nodes0[t]);
                            assert(r.constraints@[t] == constraints0[t]);
                            assert(r.edges@[t] == edges0[t]);
                            assert(mid[k2] == slot_of(nodes0, constraints0, edges0, t));
                        }
                    }
                    assert(r.slots() =~= target);
                }
            } else {
                proof {
                    assert(assembled(rows@.subrange(0, i + 1)) == pre);
                }
            }
            i = i + 1;
        }
        assert(rows@.subrange(0, rows@.len() as int) =~= rows@);
        r.rows = rows;
        r
    }
}

impl QueryResult {
    /// The number of root ids with rows.
    pub fn len(&self) -> (r: usize)
        ensures
            r == self.ids().len(),
    {
        self.ids.len()
    }

    /// The root ids, in the order of their first row.
    pub fn root_ids(&self) -> (r: &Vec<String>)
        ensures
            strings_view(r@) == self.ids(),
    {
        &self.ids
    }

    /// The row at a position of the scan.
    pub fn row(&self, i: usize) -> (r: &RawRow)
        requires
            i < self.rows().len(),
        ensures
            *r == self.rows()[i as int],
    {
        &self.rows[i]
    }

    /// The position of the node's own row of a root id.
    pub fn node(&self, id: &str) -> (r: Option<usize>)
        requires
            self.wf(),
        ensures
            r == (if self.slots().contains_key(id@) {
                match self.slots()[id@].node {
                    Some(j) => Some(j as usize),
                    None => None,
                }
            } else {
                None
            }),
    {
        match index_get(&self.index, id) {
            Some(s) => self.nodes[s],
            None => None,
        }
    }

    /// The positions of the constraint rows of a root id.
    pub fn constraints(&self, id: &str) -> (r: Vec<usize>)
        requires
            self.wf(),
        ensures
            usizes_view(r@) == (if self.slots().contains_key(id@) {
                self.slots()[id@].constraints
            } else {
                Seq::empty()
            }),
    {
        match index_get(&self.index, id) {
            Some(s) => {
                let c = &self.constraints[s];
                let mut r: Vec<usize> = Vec::new();
                let mut j: usize = 0;
                while j < c.len()
                    invariant
                        j <= c@.len(),
                        r@ == c@.subrange(0, j as int),
                    decreases c@.len() - j,
                {
                    r.push(c[j]);
                    j = j + 1;
                    assert(r@ =~= c@.subrange(0, j as int));
                }
                assert(c@.subrange(0, c@.len() as int) =~= c@);
                r
            },
            None => {
                assert(usizes_view(Seq::<usize>::empty()) =~= Seq::<int>::empty());
                Vec::new()
            },
        }
    }

    /// The positions of the relation rows of a root id that carry a label.
    pub fn edges(&self, id: &str, label: &str) -> (r: Vec<usize>)
        requires
            self.wf(),
        ensures
            usizes_view(r@) == (if self.slots().contains_key(id@) {
                group_of(self.slots()[id@].edges, label@)
            } else {
                Seq::empty()
            }),
    {
        match index_get(&self.index, id) {
            Some(s) => self.edges[s].rows(label),
            None => {
                assert(usizes_view(Seq::<usize>::empty()) =~= Seq::<int>::empty());
                Vec::new()
            },
        }
    }
}

/// Answers a batch: each key with the fragments of its scan, `None` standing
/// for a failed scan, which fails the whole batch.
pub fn collect_batch(keys: Vec<QueryKey>, scans: Vec<Option<Vec<RawRow>>>) -> (r: Result<
    Vec<(QueryKey, QueryResult)>,
    QueryLoaderError,
>)
    requires
        keys@.len() == scans@.len(),
    ensures
        (exists|i: int| 0 <= i < scans@.len() && scans@[i] is None) ==> r == Err::<
            Vec<(QueryKey, QueryResult)>,
            _,
        >(QueryLoaderError::QueryError),
        (forall|i: int| 0 <= i < scans@.len() ==> scans@[i] is Some) ==> r is Ok && r->Ok_0@.len()
            == keys@.len() && forall|i: int|
            #![trigger r->Ok_0@[i]]
            0 <= i < keys@.len() ==> r->Ok_0@[i].0 == keys@[i] && r->Ok_0@[i].1.wf()
                && r->Ok_0@[i].1.rows() == scans@[i]->0@ && r->Ok_0@[i].1.slots() == assembled(
                scans@[i]->0@,
            ),
{
    let mut k: usize = 0;
    while k < scans.len()
        invariant
            k <= scans@.len(),
            forall|i: int| 0 <= i < k ==> scans@[i] is Some,
        decreases scans@.len() - k,
    {
        if scans[k].is_none() {
            return Err(QueryLoaderError::QueryError);
        }
        k = k + 1;
    }
    let mut keys = keys;
    let mut scans = scans;
    let ghost keys0 = keys@;
    let ghost scans0 = scans@;
    let mut out: Vec<(QueryKey, QueryResult)> = Vec::new();
    while keys.len() > 0
        invariant
            keys@.len() == scans@.len(),
            keys0.len() == scans0.len(),
            out@.len() + keys@.len() == keys0.len(),
            keys@ == keys0.subrange(out@.len() as int, keys0.len() as int),
            scans@ == scans0.subrange(out@.len() as int, scans0.len() as int),
            forall|i: int| 0 <= i < scans0.len() ==> scans0[i] is Some,
            forall|i: int|
                #![trigger out@[i]]
                0 <= i < out@.len() ==> out@[i].0 == keys0[i] && out@[i].1.wf()
                    && out@[i].1.rows() == scans0[i]->0@ && out@[i].1.slots() == assembled(
                    scans0[i]->0@,
                ),
        decreases keys@.len(),
    {
        let ghost n = out@.len();
        let ghost ks = keys@;
        let ghost ss = scans@;
        let key = keys.remove(0);
        let scan = scans.remove(0);
        assert(ks[0] == keys0[n as int]);
        assert(ss[0] == scans0[n as int]);
        let rows = match scan {
            Some(rows) => rows,
            None => Vec::new(),
        };
        let result = QueryResult::assemble(rows);
        let ghost prev = out@;
        out.push((key, result));
        assert(out@[n as int].0 == keys0[n as int]);
        assert(out@[n as int].1.slots() == assembled(scans0[n as int]->0@));
        assert(forall|i: int| 0 <= i < n ==> out@[i] == prev[i]);
        assert(keys@ =~= keys0.subrange(out@.len() as int, keys0.len() as int));
        assert(scans@ =~= scans0.subrange(out@.len() as int, scans0.len() as int));
    }
    Ok(out)
}

/// The loader of one logical request: the table it reads and the partition
/// attribute of the index it queries.
pub struct QueryLoader {
    pub table_name: String,
    pub partition_attribute: String,
}

impl QueryLoader {
    pub fn new(table_name: String, partition_attribute: String) -> (r: QueryLoader)
        ensures
            r.table_name@ == table_name@,
            r.partition_attribute@ == partition_attribute@,
    {
        QueryLoader { table_name, partition_attribute }
    }

    /// The scans for a batch; a key whose root id is not a node id but that
    /// asks for labels fails the batch.
    pub fn plans(&self, keys: &Vec<QueryKey>) -> (r: Result<Vec<QueryPlan>, QueryLoaderError>)
        ensures
            (forall|i: int| 0 <= i < keys@.len() ==> plannable(#[trigger] keys@[i]@)) ==> r is Ok,
            (exists|i: int| 0 <= i < keys@.len() && !plannable(#[trigger] keys@[i]@)) ==> r == Err::<
                Vec<QueryPlan>,
                _,
            >(QueryLoaderError::UnknownError),
            r is Ok ==> r->Ok_0@.len() == keys@.len() && forall|i: int|
                0 <= i < keys@.len() ==> is_plan_of(#[trigger] r->Ok_0@[i], keys@[i]@),
    {
        let mut out: Vec<QueryPlan> = Vec::new();
        let mut i: usize = 0;
        while i < keys.len()
            invariant
                i <= keys@.len(),
                out@.len() == i,
                forall|j: int| 0 <= j < i ==> plannable(#[trigger] keys@[j]@),
                forall|j: int| 0 <= j < i ==> is_plan_of(#[trigger] out@[j], keys@[j]@),
            decreases keys@.len() - i,
        {
            match keys[i].plan() {
                Ok(p) => {
                    out.push(p);
                },
                Err(e) => {
                    return Err(e);
                },
            }
            i = i + 1;
        }
        Ok(out)
    }

    /// The condition on the key of the index.
    pub fn key_condition(&self) -> (r: String)
        ensures
            r@ == "#pk = :pk"@,
    {
        String::from_str("#pk = :pk")
    }

    /// The attribute names that the expressions of a scan refer to: the
    /// partition attribute of the index, and, where labels are requested, the
    /// labels and the type.
    pub fn expression_names(&self, plan: &QueryPlan) -> (r: Vec<(String, String)>)
        ensures
            r@.len() == if plan.labels@.len() > 0 { 3nat } else { 1nat },
            r@[0].0@ == "#pk"@ && r@[0].1@ == self.partition_attribute@,
            plan.labels@.len() > 0 ==> r@[1].0@ == "#relationname"@ && r@[1].1@ == RELATION_NAMES@
                && r@[2].0@ == "#type"@ && r@[2].1@ == TYPE@,
    {
        let mut r: Vec<(String, String)> = Vec::new();
        r.push((String::from_str("#pk"), self.partition_attribute.clone()));
        if plan.labels.len() > 0 {
            r.push((String::from_str("#relationname"), String::from_str(RELATION_NAMES)));
            r.push((String::from_str("#type"), String::from_str(TYPE)));
        }
        r
    }

    /// The answers for a batch whose scans have run.
    pub fn finish(&self, keys: Vec<QueryKey>, scans: Vec<Option<Vec<RawRow>>>) -> (r: Result<
        Vec<(QueryKey, QueryResult)>,
        QueryLoaderError,
    >)
        requires
            keys@.len() == scans@.len(),
        ensures
            (exists|i: int| 0 <= i < scans@.len() && scans@[i] is None) ==> r == Err::<
                Vec<(QueryKey, QueryResult)>,
                _,
            >(QueryLoaderError::QueryError),
            (forall|i: int| 0 <= i < scans@.len() ==> scans@[i] is Some) ==> r is Ok
                && r->Ok_0@.len() == keys@.len() && forall|i: int|
                #![trigger r->Ok_0@[i]]
                0 <= i < keys@.len() ==> r->Ok_0@[i].0 == keys@[i] && r->Ok_0@[i].1.wf()
                    && r->Ok_0@[i].1.rows() == scans@[i]->0@ && r->Ok_0@[i].1.slots() == assembled(
                    scans@[i]->0@,
                ),
    {
        collect_batch(keys, scans)
    }
}

/// The keys of the chunks, in order.
pub open spec fn concat_chunks(c: Seq<Vec<QueryKey>>) -> Seq<QueryKey>
    decreases c.len(),
{
    if c.len() == 0 {
        Seq::empty()
    } else {
        concat_chunks(c.drop_last()) + c.last()@
    }
}

/// Splits keys into batches of `size`, in order; only the last batch may be
/// smaller.
pub fn chunk_keys(keys: Vec<QueryKey>, size: usize) -> (r: Vec<Vec<QueryKey>>)
    requires
        size > 0,
    ensures
        concat_chunks(r@) == keys@,
        forall|c: int| 0 <= c < r@.len() ==> 0 < #[trigger] r@[c]@.len() <= size,
        forall|c: int| 0 <= c < r@.len() - 1 ==> #[trigger] r@[c]@.len() == size,
{
    let ghost keys0 = keys@;
    let mut rest = keys;
    let mut out: Vec<Vec<QueryKey>> = Vec::new();
    while rest.len() > 0
        invariant
            size > 0,
            concat_chunks(out@) + rest@ == keys0,
            forall|c: int| 0 <= c < out@.len() ==> 0 < #[trigger] out@[c]@.len() <= size,
            forall|c: int| 0 <= c < out@.len() - 1 ==> #[trigger] out@[c]@.len() == size,
            rest@.len() > 0 ==> forall|c: int| 0 <= c < out@.len() ==> #[trigger] out@[c]@.len() == size,
        decreases rest@.len(),
    {
        let mut cur: Vec<QueryKey> = Vec::new();
        while cur.len() < size && rest.len() > 0
            invariant
                size > 0,
                cur@.len() <= size,
                concat_chunks(out@) + cur@ + rest@ == keys0,
                cur@.len() == 0 ==> rest@.len() > 0,
            decreases rest@.len(),
        {
            let ghost before = rest@;
            let k = rest.remove(0);
            cur.push(k);
            assert(concat_chunks(out@) + cur@ + rest@ =~= concat_chunks(out@) + (cur@.drop_last()
                + before));
        }
        let ghost prev = out@;
        out.push(cur);
        assert(out@.drop_last() =~= prev);
        assert(concat_chunks(out@) + rest@ =~= concat_chunks(prev) + cur@ + rest@);
        if rest.len() > 0 {
            assert(out@[out@.len() - 1]@.len() == size);
        }
        assert forall|c: int| 0 <= c < out@.len() implies 0 < #[trigger] out@[c]@.len() <= size by {
            if c < prev.len() {
                assert(out@[c] == prev[c]);
            }
        }
        assert forall|c: int| 0 <= c < out@.len() - 1 implies #[trigger] out@[c]@.len() == size by {
            assert(out@[c] == prev[c]);
        }
        if rest.len() > 0 {
            assert forall|c: int| 0 <= c < out@.len() implies #[trigger] out@[c]@.len() == size by {
                if c < prev.len() {
                    assert(out@[c] == prev[c]);
                }
            }
        }
    }
    assert(concat_chunks(out@) =~= keys0);
    out
}

} // verus!
