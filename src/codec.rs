use vstd::prelude::*;
use vstd::string::StringExecFns;
use crate::record::{AttrValue, AttrView, Record, RecordView};
use crate::task::{Task, TaskState, TaskView};

verus! {

/// The attributes under which a task is stored.
#[derive(Clone, Copy, Debug, PartialEq, Eq, Structural)]
pub enum RecordField {
    State,
    PartitionKey,
    SortKey,
    TaskType,
    SourceFile,
    ResultFile,
}

impl RecordField {
    /// The attribute name of the field.
    pub open spec fn key(self) -> Seq<char> {
        match self {
            RecordField::State => "state"@,
            RecordField::PartitionKey => "pK"@,
            RecordField::SortKey => "sK"@,
            RecordField::TaskType => "task_type"@,
            RecordField::SourceFile => "source_file"@,
            RecordField::ResultFile => "result_file"@,
        }
    }

    /// The attribute name of the field.
    pub fn name(&self) -> (r: String)
        ensures
            r@ == self.key(),
    {
        match self {
            RecordField::State => String::from_str("state"),
            RecordField::PartitionKey => String::from_str("pK"),
            RecordField::SortKey => String::from_str("sK"),
            RecordField::TaskType => String::from_str("task_type"),
            RecordField::SourceFile => String::from_str("source_file"),
            RecordField::ResultFile => String::from_str("result_file"),
        }
    }
}

/// The six attribute names are pairwise different.
pub proof fn lemma_keys_distinct()
    ensures
        forall|a: RecordField, b: RecordField| a.key() == b.key() ==> a == b,
{
    reveal_strlit("state");
    reveal_strlit("pK");
    reveal_strlit("sK");
    reveal_strlit("task_type");
    reveal_strlit("source_file");
    reveal_strlit("result_file");
    assert forall|a: RecordField, b: RecordField| a.key() == b.key() implies a == b by {
        if a != b {
            assert(a.key().len() != b.key().len() || a.key()[0] != b.key()[0]);
        }
    }
}

/// Why a stored record is not a task.
#[derive(Clone, Copy, Debug, PartialEq, Eq, Structural)]
pub enum DecodeError {
    /// The field is absent or not a string.
    MissingOrInvalidField(RecordField),
    /// The state field names no state.
    UnknownState,
}

/// A failure of the backing store, not further classified.
#[derive(Clone, Copy, Debug, PartialEq, Eq, Structural)]
pub struct DDBError;

/// An optional string field: absent, or a string; any other value is refused.
pub open spec fn optional_field(r: RecordView, f: RecordField) -> Result<
    Option<Seq<char>>,
    DecodeError,
> {
    match Record::attr(r, f.key()) {
        None => Ok(None),
        Some(AttrView::S(s)) => Ok(Some(s)),
        Some(_) => Err(DecodeError::MissingOrInvalidField(f)),
    }
}

/// A required string field.
pub open spec fn required_field(r: RecordView, f: RecordField) -> Result<Seq<char>, DecodeError> {
    match Record::attr(r, f.key()) {
        Some(AttrView::S(s)) => Ok(s),
        _ => Err(DecodeError::MissingOrInvalidField(f)),
    }
}

/// The task that a record holds. The checks run in this order, and the
/// first that fails gives the error: the state field, its token, the result
/// file, the owner, the task id, the type, the source file.
pub open spec fn decode_record(r: RecordView) -> Result<TaskView, DecodeError> {
    match required_field(r, RecordField::State) {
        Err(e) => Err(e),
        Ok(token) => match TaskState::from_token(token) {
            None => Err(DecodeError::UnknownState),
            Some(state) => match optional_field(r, RecordField::ResultFile) {
                Err(e) => Err(e),
                Ok(result_file) => match required_field(r, RecordField::PartitionKey) {
                    Err(e) => Err(e),
                    Ok(owner_id) => match required_field(r, RecordField::SortKey) {
                        Err(e) => Err(e),
                        Ok(task_id) => match required_field(r, RecordField::TaskType) {
                            Err(e) => Err(e),
                            Ok(task_type) => match required_field(r, RecordField::SourceFile) {
                                Err(e) => Err(e),
                                Ok(source_file) => Ok(
                                    TaskView {
                                        owner_id,
                                        task_id,
                                        task_type,
                                        state,
                                        source_file,
                                        result_file,
                                    },
                                ),
                            },
                        },
                    },
                },
            },
        },
    }
}

/// What the record of a task binds `k` to.
pub open spec fn encoded_attr(t: TaskView, k: Seq<char>) -> Option<AttrView> {
    if k == RecordField::PartitionKey.key() {
        Some(AttrView::S(t.owner_id))
    } else if k == RecordField::SortKey.key() {
        Some(AttrView::S(t.task_id))
    } else if k == RecordField::TaskType.key() {
        Some(AttrView::S(t.task_type))
    } else if k == RecordField::State.key() {
        Some(AttrView::S(t.state.token()))
    } else if k == RecordField::SourceFile.key() {
        Some(AttrView::S(t.source_file))
    } else if k == RecordField::ResultFile.key() {
        match t.result_file {
            Some(f) => Some(AttrView::S(f)),
            None => None,
        }
    } else {
        None
    }
}

/// What a lookup that found `rec`, or nothing, yields: the task in the
/// record; nothing where there was no record or it is no task.
pub open spec fn found_task(rec: Option<RecordView>) -> Option<TaskView> {
    match rec {
        None => None,
        Some(r) => match decode_record(r) {
            Ok(t) => Some(t),
            Err(_) => None,
        },
    }
}

/// What an optional task holds.
pub open spec fn task_opt_view(t: Option<Task>) -> Option<TaskView> {
    match t {
        Some(x) => Some(x@),
        None => None,
    }
}

/// The string under `key`, if the record has one; a value of another type
/// is refused.
fn item_value(key: RecordField, item: &Record) -> (r: Result<Option<String>, DecodeError>)
    ensures
        match r {
            Ok(Some(s)) => optional_field(item@, key) == Ok::<Option<Seq<char>>, DecodeError>(
                Some(s@),
            ),
            Ok(None) => optional_field(item@, key) == Ok::<Option<Seq<char>>, DecodeError>(None),
            Err(e) => optional_field(item@, key) == Err::<Option<Seq<char>>, DecodeError>(e),
        },
{
    let name = key.name();
    match item.get(&name) {
        Some(AttrValue::S(s)) => Ok(Some(s.clone())),
        Some(_) => Err(DecodeError::MissingOrInvalidField(key)),
        None => Ok(None),
    }
}

/// The string under `key`, which must be there.
pub(crate) fn required_item_value(key: RecordField, item: &Record) -> (r: Result<String, DecodeError>)
    ensures
        match r {
            Ok(s) => required_field(item@, key) == Ok::<Seq<char>, DecodeError>(s@),
            Err(e) => required_field(item@, key) == Err::<Seq<char>, DecodeError>(e),
        },
{
    match item_value(key, item) {
        Ok(Some(value)) => Ok(value),
        Ok(None) => Err(DecodeError::MissingOrInvalidField(key)),
        Err(e) => Err(e),
    }
}

/// Reads a task out of a stored record.
pub fn item_to_task(item: &Record) -> (r: Result<Task, DecodeError>)
    ensures
        match r {
            Ok(t) => decode_record(item@) == Ok::<TaskView, DecodeError>(t@),
            Err(e) => decode_record(item@) == Err::<TaskView, DecodeError>(e),
        },
{
    let token = match required_item_value(RecordField::State, item) {
        Ok(v) => v,
        Err(e) => return Err(e),
    };
    let state = match TaskState::parse(token.as_str()) {
        Ok(st) => st,
        Err(_) => return Err(DecodeError::UnknownState),
    };
    let result_file = match item_value(RecordField::ResultFile, item) {
        Ok(v) => v,
        Err(e) => return Err(e),
    };
    let owner_id = match required_item_value(RecordField::PartitionKey, item) {
        Ok(v) => v,
        Err(e) => return Err(e),
    };
    let task_id = match required_item_value(RecordField::SortKey, item) {
        Ok(v) => v,
        Err(e) => return Err(e),
    };
    let task_type = match required_item_value(RecordField::TaskType, item) {
        Ok(v) => v,
        Err(e) => return Err(e),
    };
    let source_file = match required_item_value(RecordField::SourceFile, item) {
        Ok(v) => v,
        Err(e) => return Err(e),
    };
    Ok(Task { owner_id, task_id, task_type, state, source_file, result_file })
}

/// The task that an exact-match query found: nothing where the query failed
/// or matched no record, or where the first record is no task.
pub fn task_from_query(items: Result<Vec<Record>, DDBError>) -> (r: Option<Task>)
    ensures
        task_opt_view(r) == match items {
            Err(_) => None,
            Ok(v) => if v@.len() == 0 {
                None
            } else {
                found_task(Some(v@[0]@))
            },
        },
{
    match items {
        Err(_) => None,
        Ok(v) => {
            if v.len() == 0 {
                None
            } else {
                match item_to_task(&v[0]) {
                    Ok(task) => Some(task),
                    Err(_) => None,
                }
            }
        },
    }
}

/// The record under which a task is stored: its five required fields as
/// strings, and the result file only when there is one.
pub fn task_to_item(task: Task) -> (r: Record)
    ensures
        forall|k: Seq<char>| #[trigger] Record::attr(r@, k) == encoded_attr(task@, k),
{
    let ghost t = task@;
    let mut item = Record::new();
    item.insert(RecordField::PartitionKey.name(), AttrValue::S(task.owner_id));
    item.insert(RecordField::SortKey.name(), AttrValue::S(task.task_id));
    item.insert(RecordField::TaskType.name(), AttrValue::S(task.task_type));
    item.insert(RecordField::State.name(), AttrValue::S(task.state.to_string()));
    item.insert(RecordField::SourceFile.name(), AttrValue::S(task.source_file));
    if let Some(result_file) = task.result_file {
        item.insert(RecordField::ResultFile.name(), AttrValue::S(result_file));
    }
    proof {
        lemma_keys_distinct();
    }
    item
}

/// A record without one of the five required fields is no task.
pub proof fn lemma_missing_required_field(r: RecordView, f: RecordField)
    requires
        f != RecordField::ResultFile,
        Record::attr(r, f.key()) is None,
    ensures
        decode_record(r) is Err,
{
}

/// A record that holds the five required fields as strings, with a valid
/// state token and no result file, is a task without a result file.
pub proof fn lemma_no_result_file(r: RecordView)
    requires
        forall|f: RecordField|
            f != RecordField::ResultFile ==> (#[trigger] Record::attr(r, f.key()) matches Some(
                AttrView::S(_),
            )),
        required_field(r, RecordField::State) matches Ok(tok) && TaskState::from_token(tok) is Some,
        Record::attr(r, RecordField::ResultFile.key()) is None,
    ensures
        decode_record(r) matches Ok(t) && t.result_file is None,
{
    assert(Record::attr(r, RecordField::PartitionKey.key()) matches Some(AttrView::S(_)));
    assert(Record::attr(r, RecordField::SortKey.key()) matches Some(AttrView::S(_)));
    assert(Record::attr(r, RecordField::TaskType.key()) matches Some(AttrView::S(_)));
    assert(Record::attr(r, RecordField::SourceFile.key()) matches Some(AttrView::S(_)));
}

/// A state field that names no state makes the record no task, whatever the
/// other fields hold.
pub proof fn lemma_unknown_state(r: RecordView, tok: Seq<char>)
    requires
        Record::attr(r, RecordField::State.key()) == Some(AttrView::S(tok)),
        TaskState::from_token(tok) is None,
    ensures
        decode_record(r) == Err::<TaskView, DecodeError>(DecodeError::UnknownState),
{
}

/// The record of a task reads back as that task.
pub proof fn lemma_encode_decode(t: TaskView, r: RecordView)
    requires
        forall|k: Seq<char>| #[trigger] Record::attr(r, k) == encoded_attr(t, k),
    ensures
        decode_record(r) == Ok::<TaskView, DecodeError>(t),
{
    lemma_keys_distinct();
    crate::task::lemma_state_round_trip(t.state);
    assert(Record::attr(r, RecordField::State.key()) == encoded_attr(t, RecordField::State.key()));
    assert(Record::attr(r, RecordField::ResultFile.key()) == encoded_attr(
        t,
        RecordField::ResultFile.key(),
    ));
    assert(Record::attr(r, RecordField::PartitionKey.key()) == encoded_attr(
        t,
        RecordField::PartitionKey.key(),
    ));
    assert(Record::attr(r, RecordField::SortKey.key()) == encoded_attr(
        t,
        RecordField::SortKey.key(),
    ));
    assert(Record::attr(r, RecordField::TaskType.key()) == encoded_attr(
        t,
        RecordField::TaskType.key(),
    ));
    assert(Record::attr(r, RecordField::SourceFile.key()) == encoded_attr(
        t,
        RecordField::SourceFile.key(),
    ));
    let d = decode_record(r);
    assert(d matches Ok(u) && u.result_file == t.result_file);
}

/// `id` is `owner`, the delimiter and `task`, where `owner` holds no delimiter:
/// the split at the first delimiter.
pub open spec fn is_split(id: Seq<char>, owner: Seq<char>, task: Seq<char>) -> bool {
    &&& id == owner + seq!['_'] + task
    &&& !owner.contains('_')
}

/// A string has at most one split at its first delimiter.
pub proof fn lemma_split_unique(id: Seq<char>, a: Seq<char>, b: Seq<char>, c: Seq<char>, d: Seq<char>)
    requires
        is_split(id, a, b),
        is_split(id, c, d),
    ensures
        a == c,
        b == d,
{
    if a.len() < c.len() {
        assert(id[a.len() as int] == '_');
        assert(c[a.len() as int] == id[a.len() as int]);
        assert(c.contains('_'));
    } else if c.len() < a.len() {
        assert(id[c.len() as int] == '_');
        assert(a[c.len() as int] == id[c.len() as int]);
        assert(a.contains('_'));
    }
    assert(a =~= id.subrange(0, a.len() as int));
    assert(c =~= id.subrange(0, c.len() as int));
    assert(b =~= id.subrange(a.len() as int + 1, id.len() as int));
    assert(d =~= id.subrange(c.len() as int + 1, id.len() as int));
}

/// Relies on str::split_once: it splits at the first occurrence of the
/// delimiter, and finds none in a string without it.
#[verifier::external_body]
fn split_once_underscore(s: &str) -> (r: Option<(String, String)>)
    ensures
        r is None <==> !s@.contains('_'),
        r matches Some(p) ==> is_split(s@, p.0@, p.1@),
{
    match s.split_once('_') {
        Some((a, b)) => Some((a.to_string(), b.to_string())),
        None => None,
    }
}

/// Splits an external task id into the owner and the task id, at the first
/// delimiter; an id without one has no split.
pub fn split_task_id(id: &str) -> (r: Option<(String, String)>)
    ensures
        r is None <==> !id@.contains('_'),
        r matches Some(p) ==> is_split(id@, p.0@, p.1@),
        forall|a: Seq<char>, b: Seq<char>|
            #[trigger] is_split(id@, a, b) ==> (r matches Some(p) && p.0@ == a && p.1@ == b),
{
    let r = split_once_underscore(id);
    proof {
        assert forall|a: Seq<char>, b: Seq<char>| #[trigger] is_split(id@, a, b) implies (
        r matches Some(p) && p.0@ == a && p.1@ == b) by {
            assert(id@[a.len() as int] == '_');
            assert(id@.contains('_'));
            let p = r->Some_0;
            lemma_split_unique(id@, a, b, p.0@, p.1@);
        }
    }
    r
}

/// The external id of a task: the owner, the delimiter and the task id.
pub fn external_id(task: &Task) -> (r: String)
    ensures
        r@ == task.owner_id@ + seq!['_'] + task.task_id@,
{
    proof {
        reveal_strlit("_");
    }
    task.owner_id.clone().concat("_").concat(task.task_id.as_str())
}

} // verus!
