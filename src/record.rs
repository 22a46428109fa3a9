use vstd::prelude::*;

verus! {

/// The value bound to `k` by the first entry of `s` whose key is `k`.
pub open spec fn assoc_lookup<K, V>(s: Seq<(K, V)>, k: K) -> Option<V>
    decreases s.len(),
{
    if s.len() == 0 {
        None
    } else if s[0].0 == k {
        Some(s[0].1)
    } else {
        assoc_lookup(s.drop_first(), k)
    }
}

/// Entry `i` is the first one with key `k`.
pub proof fn lemma_lookup_first<K, V>(s: Seq<(K, V)>, k: K, i: int)
    requires
        0 <= i < s.len(),
        s[i].0 == k,
        forall|j: int| 0 <= j < i ==> s[j].0 != k,
    ensures
        assoc_lookup(s, k) == Some(s[i].1),
    decreases i,
{
    if i > 0 {
        lemma_lookup_first(s.drop_first(), k, i - 1);
    }
}

/// No entry has key `k`.
pub proof fn lemma_lookup_absent<K, V>(s: Seq<(K, V)>, k: K)
    requires
        forall|j: int| 0 <= j < s.len() ==> s[j].0 != k,
    ensures
        assoc_lookup(s, k) is None,
    decreases s.len(),
{
    if s.len() > 0 {
        lemma_lookup_absent(s.drop_first(), k);
    }
}

/// Appending an entry with another key changes no lookup of `k`.
pub proof fn lemma_lookup_push_other<K, V>(s: Seq<(K, V)>, e: (K, V), k: K)
    requires
        e.0 != k,
    ensures
        assoc_lookup(s.push(e), k) == assoc_lookup(s, k),
    decreases s.len(),
{
    if s.len() > 0 {
        assert(s.push(e).drop_first() =~= s.drop_first().push(e));
        lemma_lookup_push_other(s.drop_first(), e, k);
    } else {
        assert(s.push(e).drop_first() =~= s);
    }
}

/// Replacing an entry by one with the same key changes no lookup of another key.
pub proof fn lemma_lookup_update_other<K, V>(s: Seq<(K, V)>, i: int, e: (K, V), k: K)
    requires
        0 <= i < s.len(),
        s[i].0 == e.0,
        e.0 != k,
    ensures
        assoc_lookup(s.update(i, e), k) == assoc_lookup(s, k),
    decreases i,
{
    if i > 0 {
        assert(s.update(i, e).drop_first() =~= s.drop_first().update(i - 1, e));
        lemma_lookup_update_other(s.drop_first(), i - 1, e, k);
    } else {
        assert(s.update(i, e).drop_first() =~= s.drop_first());
    }
}

/// A typed attribute value, as a key-value store holds it.
#[derive(Debug)]
pub enum AttrValue {
    S(String),
    N(String),
    Bool(bool),
    Null,
    Other,
}

/// What an attribute value holds.
pub enum AttrView {
    S(Seq<char>),
    N(Seq<char>),
    Bool(bool),
    Null,
    Other,
}

impl View for AttrValue {
    type V = AttrView;

    open spec fn view(&self) -> AttrView {
        match self {
            AttrValue::S(s) => AttrView::S(s@),
            AttrValue::N(s) => AttrView::N(s@),
            AttrValue::Bool(b) => AttrView::Bool(*b),
            AttrValue::Null => AttrView::Null,
            AttrValue::Other => AttrView::Other,
        }
    }
}

/// A stored record: attribute names bound to values.
#[derive(Debug)]
pub struct Record {
    fields: Vec<(String, AttrValue)>,
}

/// What a record holds, in the order its attributes were first set.
pub type RecordView = Seq<(Seq<char>, AttrView)>;

impl View for Record {
    type V = RecordView;

    closed spec fn view(&self) -> RecordView {
        self.fields@.map_values(|f: (String, AttrValue)| (f.0@, f.1@))
    }
}

impl Record {
    /// The attribute that `name` is bound to in a record with contents `r`.
    pub open spec fn attr(r: RecordView, name: Seq<char>) -> Option<AttrView> {
        assoc_lookup(r, name)
    }

    /// A record with no attribute.
    pub fn new() -> (r: Record)
        ensures
            r@ == Seq::<(Seq<char>, AttrView)>::empty(),
    {
        let r = Record { fields: Vec::new() };
        assert(r@ =~= Seq::<(Seq<char>, AttrView)>::empty());
        r
    }

    /// The attributes of the record, as name and value.
    pub fn into_fields(self) -> (r: Vec<(String, AttrValue)>)
        ensures
            r@.map_values(|f: (String, AttrValue)| (f.0@, f.1@)) == self@,
    {
        self.fields
    }

    /// The position of the first attribute named `name`, if any.
    fn find(&self, name: &String) -> (r: Option<usize>)
        ensures
            match r {
                Some(i) => {
                    &&& i < self@.len()
                    &&& self@[i as int].0 == name@
                    &&& forall|j: int| 0 <= j < i ==> #[trigger] self@[j].0 != name@
                },
                None => forall|j: int| 0 <= j < self@.len() ==> #[trigger] self@[j].0 != name@,
            },
    {
        let n = self.fields.len();
        let mut i: usize = 0;
        while i < n
            invariant
                n == self.fields.len(),
                0 <= i <= n,
                forall|j: int| 0 <= j < i ==> #[trigger] self@[j].0 != name@,
            decreases n - i,
        {
            if self.fields[i].0 == *name {
                return Some(i);
            }
            i += 1;
        }
        None
    }

    /// Binds `name` to `value`, replacing what `name` was bound to.
    pub fn insert(&mut self, name: String, value: AttrValue)
        ensures
            Record::attr(final(self)@, name@) == Some(value@),
            forall|k: Seq<char>|
                k != name@ ==> #[trigger] Record::attr(final(self)@, k) == Record::attr(
                    old(self)@,
                    k,
                ),
    {
        let ghost e = (name@, value@);
        let ghost s = self@;
        match self.find(&name) {
            Some(i) => {
                self.fields.set(i, (name, value));
                proof {
                    assert(self@ =~= s.update(i as int, e));
                    lemma_lookup_first(self@, e.0, i as int);
                    assert forall|k: Seq<char>| k != e.0 implies #[trigger] Record::attr(
                        self@,
                        k,
                    ) == Record::attr(s, k) by {
                        lemma_lookup_update_other(s, i as int, e, k);
                    }
                }
            },
            None => {
                self.fields.push((name, value));
                proof {
                    assert(self@ =~= s.push(e));
                    lemma_lookup_first(self@, e.0, s.len() as int);
                    assert forall|k: Seq<char>| k != e.0 implies #[trigger] Record::attr(
                        self@,
                        k,
                    ) == Record::attr(s, k) by {
                        lemma_lookup_push_other(s, e, k);
                    }
                }
            },
        }
    }

    /// The value that `name` is bound to, if any.
    pub fn get(&self, name: &String) -> (r: Option<&AttrValue>)
        ensures
            match r {
                Some(v) => Record::attr(self@, name@) == Some(v@),
                None => Record::attr(self@, name@) is None,
            },
    {
        match self.find(name) {
            Some(i) => {
                proof {
                    lemma_lookup_first(self@, name@, i as int);
                }
                Some(&self.fields[i].1)
            },
            None => {
                proof {
                    lemma_lookup_absent(self@, name@);
                }
                None
            },
        }
    }
}

} // verus!
