//! Attribute values and the open document of a record.
use vstd::prelude::*;

verus! {

/// One scalar or set attribute value in the store's native encoding.
#[derive(Clone, Debug)]
pub enum AttrValue {
    /// A string.
    S(String),
    /// A number, in its decimal text.
    N(String),
    /// A boolean.
    Bool(bool),
    /// The null value.
    Null,
    /// A set of strings.
    SS(Vec<String>),
    /// A set of numbers, each in its decimal text.
    NS(Vec<String>),
    /// Binary data.
    B(Vec<u8>),
}

/// The content of an attribute value.
pub enum AttrView {
    S(Seq<char>),
    N(Seq<char>),
    Bool(bool),
    Null,
    SS(Seq<Seq<char>>),
    NS(Seq<Seq<char>>),
    B(Seq<u8>),
}

pub open spec fn strings_view(v: Seq<String>) -> Seq<Seq<char>> {
    v.map_values(|s: String| s@)
}

impl View for AttrValue {
    type V = AttrView;

    open spec fn view(&self) -> AttrView {
        match self {
            AttrValue::S(s) => AttrView::S(s@),
            AttrValue::N(s) => AttrView::N(s@),
            AttrValue::Bool(b) => AttrView::Bool(*b),
            AttrValue::Null => AttrView::Null,
            AttrValue::SS(v) => AttrView::SS(strings_view(v@)),
            AttrValue::NS(v) => AttrView::NS(strings_view(v@)),
            AttrValue::B(v) => AttrView::B(v@),
        }
    }
}

/// The map that a sequence of writes leaves: a later entry for a name wins.
pub open spec fn entries_map(s: Seq<(String, AttrValue)>) -> Map<Seq<char>, AttrView>
    decreases s.len(),
{
    if s.len() == 0 {
        Map::empty()
    } else {
        entries_map(s.drop_last()).insert(s.last().0@, s.last().1@)
    }
}

/// Dropping one entry for `k` changes nothing of the map apart from `k`.
proof fn lemma_remove_entry(s: Seq<(String, AttrValue)>, i: int, k: Seq<char>)
    requires
        0 <= i < s.len(),
        s[i].0@ == k,
    ensures
        entries_map(s.remove(i)).remove(k) == entries_map(s).remove(k),
    decreases s.len(),
{
    let dl = s.drop_last();
    if i == s.len() - 1 {
        assert(s.remove(i) =~= dl);
        assert(entries_map(s).remove(k) =~= entries_map(dl).remove(k));
    } else {
        let r = s.remove(i);
        assert(r.drop_last() =~= dl.remove(i));
        assert(r.last() == s.last());
        lemma_remove_entry(dl, i, k);
        if s.last().0@ == k {
            assert(entries_map(r).remove(k) =~= entries_map(dl.remove(i)).remove(k));
            assert(entries_map(s).remove(k) =~= entries_map(dl).remove(k));
        } else {
            assert(entries_map(r).remove(k) =~= entries_map(dl.remove(i)).remove(k).insert(
                s.last().0@,
                s.last().1@,
            ));
            assert(entries_map(s).remove(k) =~= entries_map(dl).remove(k).insert(
                s.last().0@,
                s.last().1@,
            ));
        }
    }
}

/// A name that no entry carries is not in the map.
proof fn lemma_absent_name(s: Seq<(String, AttrValue)>, k: Seq<char>)
    requires
        forall|j: int| 0 <= j < s.len() ==> s[j].0@ != k,
    ensures
        !entries_map(s).contains_key(k),
    decreases s.len(),
{
    if s.len() > 0 {
        lemma_absent_name(s.drop_last(), k);
    }
}

/// The last entry for `k` gives its value in the map.
proof fn lemma_last_entry(s: Seq<(String, AttrValue)>, i: int, k: Seq<char>)
    requires
        0 <= i < s.len(),
        s[i].0@ == k,
        forall|j: int| i < j < s.len() ==> s[j].0@ != k,
    ensures
        entries_map(s).contains_key(k),
        entries_map(s)[k] == s[i].1@,
    decreases s.len(),
{
    if i < s.len() - 1 {
        lemma_last_entry(s.drop_last(), i, k);
    }
}

/// The open document of a record: attribute names to values.
#[derive(Clone, Debug)]
pub struct Document {
    entries: Vec<(String, AttrValue)>,
}

impl View for Document {
    type V = Map<Seq<char>, AttrView>;

    closed spec fn view(&self) -> Map<Seq<char>, AttrView> {
        entries_map(self.entries@)
    }
}

impl Document {
    pub fn new() -> (r: Document)
        ensures
            r@ == Map::<Seq<char>, AttrView>::empty(),
    {
        Document { entries: Vec::new() }
    }

    /// Sets the attribute `name`, replacing any earlier value.
    pub fn insert(&mut self, name: String, value: AttrValue)
        ensures
            final(self)@ == old(self)@.insert(name@, value@),
    {
        self.entries.push((name, value));
        assert(self.entries@.drop_last() =~= old(self).entries@);
    }

    /// Removes the attribute `name`, if it is there.
    pub fn remove(&mut self, name: &str)
        ensures
            final(self)@ == old(self)@.remove(name@),
    {
        let key = String::from_str(name);
        let mut i: usize = 0;
        while i < self.entries.len()
            invariant
                i <= self.entries@.len(),
                key@ == name@,
                entries_map(self.entries@).remove(name@) == entries_map(old(self).entries@).remove(
                    name@,
                ),
                forall|j: int| 0 <= j < i ==> self.entries@[j].0@ != name@,
            decreases self.entries@.len() - i,
        {
            if self.entries[i].0.eq(&key) {
                proof {
                    lemma_remove_entry(self.entries@, i as int, name@);
                }
                self.entries.remove(i);
            } else {
                i = i + 1;
            }
        }
        proof {
            lemma_absent_name(self.entries@, name@);
            assert(entries_map(self.entries@) =~= entries_map(self.entries@).remove(name@));
        }
    }

    /// The value of the attribute `name`.
    pub fn get(&self, name: &str) -> (r: Option<&AttrValue>)
        ensures
            r is Some <==> self@.contains_key(name@),
            r is Some ==> r->0@ == self@[name@],
    {
        let key = String::from_str(name);
        let mut i: usize = self.entries.len();
        while i > 0
            invariant
                i <= self.entries@.len(),
                key@ == name@,
                forall|j: int| i <= j < self.entries@.len() ==> self.entries@[j].0@ != name@,
            decreases i,
        {
            if self.entries[i - 1].0.eq(&key) {
                proof {
                    lemma_last_entry(self.entries@, i - 1, name@);
                }
                return Some(&self.entries[i - 1].1);
            }
            i = i - 1;
        }
        proof {
            lemma_absent_name(self.entries@, name@);
        }
        None
    }

    /// The entries in the order they were written; for a repeated name the
    /// last one holds.
    pub fn entries(&self) -> (r: &Vec<(String, AttrValue)>)
        ensures
            entries_map(r@) == self@,
    {
        &self.entries
    }
}

} // verus!
