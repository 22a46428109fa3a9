use vstd::prelude::*;
use crate::codec::{
    encoded_attr, found_task, is_split, lemma_encode_decode, lemma_keys_distinct,
    required_field, required_item_value, split_task_id, task_opt_view, task_to_item, DDBError,
    RecordField,
};
use crate::record::{
    assoc_lookup, lemma_lookup_absent, lemma_lookup_first, lemma_lookup_push_other,
    lemma_lookup_update_other, Record, RecordView,
};
use crate::task::{Task, TaskView};

verus! {

/// The composite key of a stored record: owner and task id.
pub type TableKey = (Seq<char>, Seq<char>);

/// What a table holds: records under their keys, in the order the keys were
/// first written.
pub type TableView = Seq<(TableKey, RecordView)>;

/// The key of a record: its `pK` and `sK` strings, where it has both.
pub open spec fn key_of(r: RecordView) -> Option<TableKey> {
    match (required_field(r, RecordField::PartitionKey), required_field(r, RecordField::SortKey)) {
        (Ok(p), Ok(s)) => Some((p, s)),
        _ => None,
    }
}

/// The record stored under `k`.
pub open spec fn stored(t: TableView, k: TableKey) -> Option<RecordView> {
    assoc_lookup(t, k)
}

/// The key of a task.
pub open spec fn task_key(t: TaskView) -> TableKey {
    (t.owner_id, t.task_id)
}

/// `rec` is a record of task `t`.
pub open spec fn holds_task(rec: Option<RecordView>, t: TaskView) -> bool {
    rec matches Some(r) && forall|k: Seq<char>| #[trigger] Record::attr(r, k) == encoded_attr(t, k)
}

/// `after` is `before` with the record of task `t` written over its key.
pub open spec fn submitted(before: TableView, t: TaskView, after: TableView) -> bool {
    &&& holds_task(stored(after, task_key(t)), t)
    &&& forall|k: TableKey| k != task_key(t) ==> #[trigger] stored(after, k) == stored(before, k)
}

/// `r` is what fetching `id` from a table holding `t` yields.
pub open spec fn fetched(t: TableView, id: Seq<char>, r: Option<TaskView>) -> bool {
    forall|a: Seq<char>, b: Seq<char>|
        #[trigger] is_split(id, a, b) ==> r == found_task(stored(t, (a, b)))
}

/// A reliable key-value store held in memory: every write lands, and a
/// write replaces the whole record under its key.
pub struct MemTable {
    entries: Vec<(String, String, Record)>,
}

impl View for MemTable {
    type V = TableView;

    closed spec fn view(&self) -> TableView {
        self.entries@.map_values(|e: (String, String, Record)| ((e.0@, e.1@), e.2@))
    }
}

impl MemTable {
    /// A table with no record.
    pub fn new() -> (r: MemTable)
        ensures
            forall|k: TableKey| #[trigger] stored(r@, k) is None,
    {
        let r = MemTable { entries: Vec::new() };
        assert(r@ =~= Seq::<(TableKey, RecordView)>::empty());
        r
    }

    /// The position of the record under `(pk, sk)`, if any.
    fn find(&self, pk: &String, sk: &String) -> (r: Option<usize>)
        ensures
            match r {
                Some(i) => {
                    &&& i < self@.len()
                    &&& self@[i as int].0 == (pk@, sk@)
                    &&& forall|j: int| 0 <= j < i ==> #[trigger] self@[j].0 != (pk@, sk@)
                },
                None => forall|j: int|
                    0 <= j < self@.len() ==> #[trigger] self@[j].0 != (pk@, sk@),
            },
    {
        let n = self.entries.len();
        let mut i: usize = 0;
        while i < n
            invariant
                n == self.entries.len(),
                0 <= i <= n,
                forall|j: int| 0 <= j < i ==> #[trigger] self@[j].0 != (pk@, sk@),
            decreases n - i,
        {
            if self.entries[i].0 == *pk && self.entries[i].1 == *sk {
                return Some(i);
            }
            i += 1;
        }
        None
    }

    /// The record stored under `(pk, sk)`, if any.
    pub fn get_item(&self, pk: &String, sk: &String) -> (r: Option<&Record>)
        ensures
            match r {
                Some(x) => stored(self@, (pk@, sk@)) == Some(x@),
                None => stored(self@, (pk@, sk@)) is None,
            },
    {
        match self.find(pk, sk) {
            Some(i) => {
                proof {
                    lemma_lookup_first(self@, (pk@, sk@), i as int);
                }
                Some(&self.entries[i].2)
            },
            None => {
                proof {
                    lemma_lookup_absent(self@, (pk@, sk@));
                }
                None
            },
        }
    }

    /// Writes `item` over whatever is stored under its key; a record without
    /// string `pK` and `sK` fields is refused and nothing changes.
    pub fn put_item(&mut self, item: Record) -> (r: Result<(), DDBError>)
        ensures
            r is Err <==> key_of(item@) is None,
            r is Err ==> final(self)@ == old(self)@,
            key_of(item@) matches Some(key) ==> {
                &&& stored(final(self)@, key) == Some(item@)
                &&& forall|k: TableKey|
                    k != key ==> #[trigger] stored(final(self)@, k) == stored(old(self)@, k)
            },
    {
        let pk = match required_item_value(RecordField::PartitionKey, &item) {
            Ok(v) => v,
            Err(_) => return Err(DDBError),
        };
        let sk = match required_item_value(RecordField::SortKey, &item) {
            Ok(v) => v,
            Err(_) => return Err(DDBError),
        };
        let ghost e = ((pk@, sk@), item@);
        let ghost s = self@;
        match self.find(&pk, &sk) {
            Some(i) => {
                self.entries.set(i, (pk, sk, item));
                proof {
                    assert(self@ =~= s.update(i as int, e));
                    lemma_lookup_first(self@, e.0, i as int);
                    assert forall|k: TableKey| k != e.0 implies #[trigger] stored(self@, k)
                        == stored(s, k) by {
                        lemma_lookup_update_other(s, i as int, e, k);
                    }
                }
            },
            None => {
                self.entries.push((pk, sk, item));
                proof {
                    assert(self@ =~= s.push(e));
                    lemma_lookup_first(self@, e.0, s.len() as int);
                    assert forall|k: TableKey| k != e.0 implies #[trigger] stored(self@, k)
                        == stored(s, k) by {
                        lemma_lookup_push_other(s, e, k);
                    }
                }
            },
        }
        Ok(())
    }

    /// Stores a task under its key, replacing any earlier record there.
    pub fn submit(&mut self, task: Task) -> (r: Result<(), DDBError>)
        ensures
            r is Ok,
            submitted(old(self)@, task@, final(self)@),
    {
        let ghost t = task@;
        let item = task_to_item(task);
        proof {
            lemma_keys_distinct();
            assert(Record::attr(item@, RecordField::PartitionKey.key()) == encoded_attr(
                t,
                RecordField::PartitionKey.key(),
            ));
            assert(Record::attr(item@, RecordField::SortKey.key()) == encoded_attr(
                t,
                RecordField::SortKey.key(),
            ));
            assert(key_of(item@) == Some(task_key(t)));
        }
        self.put_item(item)
    }

    /// The task under an external id: nothing where no record is stored
    /// under its key or the record is no task.
    pub fn fetch(&self, id: &str) -> (r: Option<Task>)
        requires
            id@.contains('_'),
        ensures
            fetched(self@, id@, task_opt_view(r)),
    {
        let (owner_id, task_id) = match split_task_id(id) {
            Some(p) => p,
            None => return None,
        };
        match self.get_item(&owner_id, &task_id) {
            None => None,
            Some(item) => match crate::codec::item_to_task(item) {
                Ok(task) => Some(task),
                Err(_) => None,
            },
        }
    }
}

/// After a task is written, fetching its external id gives the task back,
/// provided its owner holds no delimiter.
pub proof fn lemma_submit_then_fetch(
    before: TableView,
    t: TaskView,
    after: TableView,
    r: Option<TaskView>,
)
    requires
        !t.owner_id.contains('_'),
        submitted(before, t, after),
        fetched(after, t.owner_id + seq!['_'] + t.task_id, r),
    ensures
        r == Some(t),
{
    let id = t.owner_id + seq!['_'] + t.task_id;
    assert(is_split(id, t.owner_id, t.task_id));
    let rec = stored(after, task_key(t))->Some_0;
    lemma_encode_decode(t, rec);
}

/// Fetching a key under which nothing is stored gives nothing.
pub proof fn lemma_fetch_absent(t: TableView, owner: Seq<char>, task: Seq<char>, r: Option<TaskView>)
    requires
        !owner.contains('_'),
        stored(t, (owner, task)) is None,
        fetched(t, owner + seq!['_'] + task, r),
    ensures
        r is None,
{
    assert(is_split(owner + seq!['_'] + task, owner, task));
}

} // verus!
