//! Typed identifiers and their primary-key string form.
//!
//! A node id `(type, value)` is written `type#value`; a constraint id
//! `(field, value)` is written `__C#field#value`. The node type and the field
//! hold no `#`, so the first separator of each part decides the split, and the
//! node type `__C` is reserved for constraints.
use vstd::prelude::*;

verus! {

/// The character that separates the parts of an identifier.
pub const SEPARATOR: char = '#';

pub open spec fn sep() -> Seq<char> {
    seq!['#']
}

/// The reserved leading part of a constraint id.
pub open spec fn constraint_tag() -> Seq<char> {
    seq!['_', '_', 'C']
}

pub open spec fn has_no_separator(s: Seq<char>) -> bool {
    forall|i: int| 0 <= i < s.len() ==> s[i] != '#'
}

/// Splitting a string around its first separator.
pub open spec fn split_first(s: Seq<char>, a: Seq<char>, b: Seq<char>) -> bool {
    has_no_separator(a) && s == a + sep() + b
}

/// The view of a node id: its type and its value.
pub struct NodeIdView {
    pub ty: Seq<char>,
    pub value: Seq<char>,
}

impl NodeIdView {
    pub open spec fn valid(self) -> bool {
        self.ty.len() > 0 && has_no_separator(self.ty) && self.ty != constraint_tag()
            && self.value.len() > 0
    }

    pub open spec fn key(self) -> Seq<char> {
        self.ty + sep() + self.value
    }
}

/// The view of a constraint id: the protected field and the protected value.
pub struct ConstraintIdView {
    pub field: Seq<char>,
    pub value: Seq<char>,
}

impl ConstraintIdView {
    pub open spec fn valid(self) -> bool {
        self.field.len() > 0 && has_no_separator(self.field) && self.value.len() > 0
    }

    pub open spec fn key(self) -> Seq<char> {
        constraint_tag() + sep() + self.field + sep() + self.value
    }
}

/// The split around the first separator is unique.
pub proof fn lemma_split_unique(a1: Seq<char>, b1: Seq<char>, a2: Seq<char>, b2: Seq<char>)
    requires
        has_no_separator(a1),
        has_no_separator(a2),
        a1 + sep() + b1 == a2 + sep() + b2,
    ensures
        a1 == a2,
        b1 == b2,
{
    let s = a1 + sep() + b1;
    if a1.len() < a2.len() {
        assert(s[a1.len() as int] == '#');
        assert(s[a1.len() as int] == a2[a1.len() as int]);
    } else if a2.len() < a1.len() {
        assert(s[a2.len() as int] == '#');
        assert(s[a2.len() as int] == a1[a2.len() as int]);
    }
    assert(a1 =~= s.subrange(0, a1.len() as int));
    assert(a2 =~= s.subrange(0, a2.len() as int));
    assert(b1 =~= s.subrange(a1.len() as int + 1, s.len() as int));
    assert(b2 =~= s.subrange(a2.len() as int + 1, s.len() as int));
}

/// A string around a separator holds a separator.
pub proof fn lemma_joined_has_separator(a: Seq<char>, b: Seq<char>)
    ensures
        !has_no_separator(a + sep() + b),
{
    assert((a + sep() + b)[a.len() as int] == '#');
}

/// Relies on str::split_once: the parts before and after the first separator.
#[verifier::external_body]
fn split_once_separator(s: &str) -> (r: Option<(String, String)>)
    ensures
        match r {
            Some((a, b)) => split_first(s@, a@, b@),
            None => has_no_separator(s@),
        },
{
    s.split_once(SEPARATOR).map(|(a, b)| (a.to_string(), b.to_string()))
}

fn is_constraint_tag(s: &String) -> (r: bool)
    ensures
        r == (s@ == constraint_tag()),
{
    let tag = String::from_str("__C");
    proof {
        reveal_strlit("__C");
    }
    assert(tag@ =~= constraint_tag());
    s.eq(&tag)
}


/// Whether `s` is the key of a valid node id.
pub open spec fn is_node_key(s: Seq<char>) -> bool {
    exists|id: NodeIdView| id.valid() && id.key() == s
}

/// Whether `s` is the key of a valid constraint id.
pub open spec fn is_constraint_key(s: Seq<char>) -> bool {
    exists|id: ConstraintIdView| id.valid() && id.key() == s
}

/// The node id whose key is `s`, if there is one.
pub open spec fn node_of(s: Seq<char>) -> Option<NodeIdView> {
    if is_node_key(s) {
        Some(choose|id: NodeIdView| id.valid() && id.key() == s)
    } else {
        None
    }
}

/// The constraint id whose key is `s`, if there is one.
pub open spec fn constraint_of(s: Seq<char>) -> Option<ConstraintIdView> {
    if is_constraint_key(s) {
        Some(choose|id: ConstraintIdView| id.valid() && id.key() == s)
    } else {
        None
    }
}

/// Two valid node ids with one key are the same id.
pub proof fn lemma_node_key_injective(a: NodeIdView, b: NodeIdView)
    requires
        a.valid(),
        b.valid(),
        a.key() == b.key(),
    ensures
        a == b,
{
    lemma_split_unique(a.ty, a.value, b.ty, b.value);
}

/// Two valid constraint ids with one key are the same id.
pub proof fn lemma_constraint_key_injective(a: ConstraintIdView, b: ConstraintIdView)
    requires
        a.valid(),
        b.valid(),
        a.key() == b.key(),
    ensures
        a == b,
{
    assert(a.key() == constraint_tag() + sep() + (a.field + sep() + a.value));
    assert(b.key() == constraint_tag() + sep() + (b.field + sep() + b.value));
    lemma_split_unique(constraint_tag(), a.field + sep() + a.value, constraint_tag(), b.field + sep() + b.value);
    lemma_split_unique(a.field, a.value, b.field, b.value);
}

/// No key is both a node key and a constraint key.
pub proof fn lemma_keys_disjoint(n: NodeIdView, c: ConstraintIdView)
    requires
        n.valid(),
        c.valid(),
    ensures
        n.key() != c.key(),
{
    if n.key() == c.key() {
        assert(c.key() == constraint_tag() + sep() + (c.field + sep() + c.value));
        lemma_split_unique(n.ty, n.value, constraint_tag(), c.field + sep() + c.value);
    }
}

/// The id of a node: its type and an opaque value.
#[derive(Clone, Debug, PartialEq, Eq, Hash)]
pub struct NodeID {
    ty: String,
    value: String,
}

impl View for NodeID {
    type V = NodeIdView;

    closed spec fn view(&self) -> NodeIdView {
        NodeIdView { ty: self.ty@, value: self.value@ }
    }
}

impl NodeID {
    pub fn new(ty: String, value: String) -> (r: NodeID)
        ensures
            r@ == (NodeIdView { ty: ty@, value: value@ }),
    {
        NodeID { ty, value }
    }

    pub fn ty(&self) -> (r: &str)
        ensures
            r@ == self@.ty,
    {
        self.ty.as_str()
    }

    pub fn value(&self) -> (r: &str)
        ensures
            r@ == self@.value,
    {
        self.value.as_str()
    }

    /// The primary-key string of the id.
    pub fn to_string(&self) -> (r: String)
        ensures
            r@ == self@.key(),
    {
        let mut r = self.ty.clone();
        r.append("#");
        r.append(self.value.as_str());
        proof {
            reveal_strlit("#");
        }
        assert(r@ =~= self@.key());
        r
    }

    /// Reads a node id back from its primary-key string.
    pub fn parse(s: &str) -> (r: Option<NodeID>)
        ensures
            r is Some ==> r->0@.valid() && r->0@.key() == s@,
            r is None ==> !is_node_key(s@),
            node_of(s@) == match r {
                Some(id) => Some(id@),
                None => None::<NodeIdView>,
            },
    {
        match split_once_separator(s) {
            None => {
                proof {
                    assert forall|id: NodeIdView| id.valid() implies id.key() != s@ by {
                        lemma_joined_has_separator(id.ty, id.value);
                    }
                }
                None
            },
            Some((ty, value)) => {
                if ty.as_str().is_empty() || is_constraint_tag(&ty) || value.as_str().is_empty() {
                    proof {
                        assert forall|id: NodeIdView| id.valid() implies id.key() != s@ by {
                            if id.key() == s@ {
                                lemma_split_unique(id.ty, id.value, ty@, value@);
                            }
                        }
                    }
                    None
                } else {
                    let r = NodeID { ty, value };
                    proof {
                        let c = choose|id: NodeIdView| id.valid() && id.key() == s@;
                        assert(r@.valid() && r@.key() == s@);
                        lemma_node_key_injective(c, r@);
                    }
                    Some(r)
                }
            },
        }
    }
}

/// The id of a uniqueness constraint: the protected field and value.
#[derive(Clone, Debug, PartialEq, Eq, Hash)]
pub struct ConstraintID {
    field: String,
    value: String,
}

impl View for ConstraintID {
    type V = ConstraintIdView;

    closed spec fn view(&self) -> ConstraintIdView {
        ConstraintIdView { field: self.field@, value: self.value@ }
    }
}

impl ConstraintID {
    pub fn new(field: String, value: String) -> (r: ConstraintID)
        ensures
            r@ == (ConstraintIdView { field: field@, value: value@ }),
    {
        ConstraintID { field, value }
    }

    pub fn field(&self) -> (r: &str)
        ensures
            r@ == self@.field,
    {
        self.field.as_str()
    }

    pub fn value(&self) -> (r: &str)
        ensures
            r@ == self@.value,
    {
        self.value.as_str()
    }

    /// The primary-key string of the id.
    pub fn to_string(&self) -> (r: String)
        ensures
            r@ == self@.key(),
    {
        let mut r = String::from_str("__C#");
        r.append(self.field.as_str());
        r.append("#");
        r.append(self.value.as_str());
        proof {
            reveal_strlit("__C#");
            reveal_strlit("#");
        }
        assert(r@ =~= self@.key());
        r
    }

    /// Reads a constraint id back from its primary-key string.
    pub fn parse(s: &str) -> (r: Option<ConstraintID>)
        ensures
            r is Some ==> r->0@.valid() && r->0@.key() == s@,
            r is None ==> !is_constraint_key(s@),
            constraint_of(s@) == match r {
                Some(id) => Some(id@),
                None => None::<ConstraintIdView>,
            },
    {
        match split_once_separator(s) {
            None => {
                proof {
                    assert forall|id: ConstraintIdView| id.valid() implies id.key() != s@ by {
                        assert(id.key() == constraint_tag() + sep() + (id.field + sep() + id.value));
                        lemma_joined_has_separator(constraint_tag(), id.field + sep() + id.value);
                    }
                }
                None
            },
            Some((tag, rest)) => {
                if !is_constraint_tag(&tag) {
                    proof {
                        assert forall|id: ConstraintIdView| id.valid() implies id.key() != s@ by {
                            assert(id.key() == constraint_tag() + sep() + (id.field + sep() + id.value));
                            if id.key() == s@ {
                                lemma_split_unique(constraint_tag(), id.field + sep() + id.value, tag@, rest@);
                            }
                        }
                    }
                    return None;
                }
                match split_once_separator(rest.as_str()) {
                    None => {
                        proof {
                            assert forall|id: ConstraintIdView| id.valid() implies id.key() != s@ by {
                                assert(id.key() == constraint_tag() + sep() + (id.field + sep() + id.value));
                                if id.key() == s@ {
                                    lemma_split_unique(constraint_tag(), id.field + sep() + id.value, tag@, rest@);
                                    lemma_joined_has_separator(id.field, id.value);
                                }
                            }
                        }
                        None
                    },
                    Some((field, value)) => {
                        if field.as_str().is_empty() || value.as_str().is_empty() {
                            proof {
                                assert forall|id: ConstraintIdView| id.valid() implies id.key() != s@ by {
                                    assert(id.key() == constraint_tag() + sep() + (id.field + sep() + id.value));
                                    if id.key() == s@ {
                                        lemma_split_unique(constraint_tag(), id.field + sep() + id.value, tag@, rest@);
                                        lemma_split_unique(id.field, id.value, field@, value@);
                                    }
                                }
                            }
                            None
                        } else {
                            let r = ConstraintID { field, value };
                            assert(s@ == constraint_tag() + sep() + (field@ + sep() + value@));
                            assert(r@.key() =~= s@);
                            proof {
                                let c = choose|id: ConstraintIdView| id.valid() && id.key() == s@;
                                lemma_constraint_key_injective(c, r@);
                            }
                            Some(r)
                        }
                    },
                }
            },
        }
    }
}

/// Serialising a valid node id and reading it back gives the same id.
pub proof fn lemma_node_id_round_trip(id: NodeIdView)
    requires
        id.valid(),
    ensures
        node_of(id.key()) == Some(id),
{
    assert(is_node_key(id.key()));
    let c = choose|c: NodeIdView| c.valid() && c.key() == id.key();
    lemma_node_key_injective(c, id);
}

/// Serialising a valid constraint id and reading it back gives the same id.
pub proof fn lemma_constraint_id_round_trip(id: ConstraintIdView)
    requires
        id.valid(),
    ensures
        constraint_of(id.key()) == Some(id),
{
    assert(is_constraint_key(id.key()));
    let c = choose|c: ConstraintIdView| c.valid() && c.key() == id.key();
    lemma_constraint_key_injective(c, id);
}

/// What a primary key pair of a stored row is, by the grammar of its two keys.
#[derive(Clone, Copy, Debug, PartialEq, Eq, Structural)]
pub enum RowKind {
    /// Both keys are one node id: the node's own row.
    Node,
    /// Both keys are node ids, different ones: a relation row.
    Relation,
    /// Both keys are constraint ids.
    Constraint,
    /// Anything else.
    Unrecognized,
}

pub open spec fn row_kind(pk: Seq<char>, sk: Seq<char>) -> RowKind {
    if is_node_key(pk) && is_node_key(sk) {
        if pk == sk {
            RowKind::Node
        } else {
            RowKind::Relation
        }
    } else if is_constraint_key(pk) && is_constraint_key(sk) {
        RowKind::Constraint
    } else {
        RowKind::Unrecognized
    }
}

/// No key is read both as a node id and as a constraint id.
proof fn lemma_kinds_exclusive(s: Seq<char>)
    ensures
        !(is_node_key(s) && is_constraint_key(s)),
{
    if is_node_key(s) && is_constraint_key(s) {
        let n = choose|n: NodeIdView| n.valid() && n.key() == s;
        let c = choose|c: ConstraintIdView| c.valid() && c.key() == s;
        lemma_keys_disjoint(n, c);
    }
}

/// A primary-key string read as whichever id it is.
#[derive(Clone, Debug, PartialEq, Eq, Hash)]
pub enum ID {
    NodeID(NodeID),
    ConstraintID(ConstraintID),
}

impl ID {
    /// Reads an id from a primary-key string; no string is both kinds.
    pub fn parse(s: &str) -> (r: Option<ID>)
        ensures
            match r {
                Some(ID::NodeID(n)) => node_of(s@) == Some(n@),
                Some(ID::ConstraintID(c)) => constraint_of(s@) == Some(c@),
                None => node_of(s@) is None && constraint_of(s@) is None,
            },
    {
        match ConstraintID::parse(s) {
            Some(c) => Some(ID::ConstraintID(c)),
            None => match NodeID::parse(s) {
                Some(n) => Some(ID::NodeID(n)),
                None => None,
            },
        }
    }
}

/// Classifies a primary key pair with no stored discriminator.
pub fn classify(pk: &str, sk: &str) -> (r: RowKind)
    ensures
        r == row_kind(pk@, sk@),
{
    let a = ID::parse(pk);
    let b = ID::parse(sk);
    proof {
        lemma_kinds_exclusive(pk@);
        lemma_kinds_exclusive(sk@);
    }
    match (a, b) {
        (Some(ID::NodeID(a)), Some(ID::NodeID(b))) => {
            if a.ty.eq(&b.ty) && a.value.eq(&b.value) {
                RowKind::Node
            } else {
                proof {
                    if pk@ == sk@ {
                        lemma_node_key_injective(a@, b@);
                    }
                }
                RowKind::Relation
            }
        },
        (Some(ID::ConstraintID(_)), Some(ID::ConstraintID(_))) => RowKind::Constraint,
        _ => RowKind::Unrecognized,
    }
}

} // verus!
