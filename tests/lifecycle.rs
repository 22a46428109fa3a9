use task_store::codec::{
    external_id, item_to_task, split_task_id, task_from_query, task_to_item, DDBError,
    DecodeError, RecordField,
};
use task_store::record::{AttrValue, Record};
use task_store::table::MemTable;
use task_store::task::{Task, TaskState, UnknownState};

const STATES: [TaskState; 5] = [
    TaskState::Submitted,
    TaskState::Started,
    TaskState::Completed,
    TaskState::Failed,
    TaskState::Paused,
];

fn sample(state: TaskState, result_file: Option<&str>) -> Task {
    Task {
        owner_id: "u1".to_string(),
        task_id: "t1".to_string(),
        task_type: "convert".to_string(),
        state,
        source_file: "in.csv".to_string(),
        result_file: result_file.map(|s| s.to_string()),
    }
}

fn full_record(state: &str) -> Record {
    let mut r = Record::new();
    r.insert("pK".to_string(), AttrValue::S("u1".to_string()));
    r.insert("sK".to_string(), AttrValue::S("t1".to_string()));
    r.insert("task_type".to_string(), AttrValue::S("convert".to_string()));
    r.insert("state".to_string(), AttrValue::S(state.to_string()));
    r.insert("source_file".to_string(), AttrValue::S("in.csv".to_string()));
    r
}

fn record_without(name: &str) -> Record {
    let mut r = Record::new();
    for (k, v) in [
        ("pK", "u1"),
        ("sK", "t1"),
        ("task_type", "convert"),
        ("state", "Submitted"),
        ("source_file", "in.csv"),
    ] {
        if k != name {
            r.insert(k.to_string(), AttrValue::S(v.to_string()));
        }
    }
    r
}

#[test]
fn state_tokens_round_trip() {
    for st in STATES {
        assert_eq!(TaskState::parse(st.to_string().as_str()), Ok(st));
    }
}

#[test]
fn state_tokens_are_canonical() {
    assert_eq!(TaskState::Submitted.to_string(), "Submitted");
    assert_eq!(TaskState::Started.to_string(), "Started");
    assert_eq!(TaskState::Completed.to_string(), "Completed");
    assert_eq!(TaskState::Failed.to_string(), "Failed");
    assert_eq!(TaskState::Paused.to_string(), "Paused");
}

#[test]
fn parse_refuses_other_strings() {
    for s in ["", "submitted", "STARTED", "bogus", "Completed ", " Failed", "Pause"] {
        assert_eq!(TaskState::parse(s), Err(UnknownState));
    }
}

#[test]
fn decode_missing_required_field_fails() {
    let cases = [
        ("pK", RecordField::PartitionKey),
        ("sK", RecordField::SortKey),
        ("task_type", RecordField::TaskType),
        ("state", RecordField::State),
        ("source_file", RecordField::SourceFile),
    ];
    for (name, field) in cases {
        let r = record_without(name);
        assert_eq!(item_to_task(&r).err(), Some(DecodeError::MissingOrInvalidField(field)));
    }
}

#[test]
fn decode_without_result_file_gives_none() {
    let t = item_to_task(&full_record("Started")).ok().unwrap();
    assert_eq!(t, sample(TaskState::Started, None));
    assert_eq!(t.result_file, None);
}

#[test]
fn decode_with_result_file() {
    let mut r = full_record("Completed");
    r.insert("result_file".to_string(), AttrValue::S("out.csv".to_string()));
    let t = item_to_task(&r).ok().unwrap();
    assert_eq!(t, sample(TaskState::Completed, Some("out.csv")));
}

#[test]
fn decode_unknown_state_fails() {
    let r = full_record("bogus");
    assert_eq!(item_to_task(&r).err(), Some(DecodeError::UnknownState));
    let r = full_record("submitted");
    assert_eq!(item_to_task(&r).err(), Some(DecodeError::UnknownState));
}

#[test]
fn decode_wrong_type_fails() {
    let mut r = full_record("Submitted");
    r.insert("result_file".to_string(), AttrValue::Null);
    assert_eq!(
        item_to_task(&r).err(),
        Some(DecodeError::MissingOrInvalidField(RecordField::ResultFile))
    );
    let mut r = full_record("Submitted");
    r.insert("sK".to_string(), AttrValue::N("7".to_string()));
    assert_eq!(
        item_to_task(&r).err(),
        Some(DecodeError::MissingOrInvalidField(RecordField::SortKey))
    );
    let mut r = full_record("Submitted");
    r.insert("state".to_string(), AttrValue::Bool(true));
    assert_eq!(
        item_to_task(&r).err(),
        Some(DecodeError::MissingOrInvalidField(RecordField::State))
    );
}

#[test]
fn encode_writes_fields_and_omits_absent_result_file() {
    let r = task_to_item(sample(TaskState::Failed, None));
    assert!(matches!(r.get(&"pK".to_string()), Some(AttrValue::S(s)) if s == "u1"));
    assert!(matches!(r.get(&"sK".to_string()), Some(AttrValue::S(s)) if s == "t1"));
    assert!(matches!(r.get(&"task_type".to_string()), Some(AttrValue::S(s)) if s == "convert"));
    assert!(matches!(r.get(&"state".to_string()), Some(AttrValue::S(s)) if s == "Failed"));
    assert!(matches!(r.get(&"source_file".to_string()), Some(AttrValue::S(s)) if s == "in.csv"));
    assert!(r.get(&"result_file".to_string()).is_none());
    let r = task_to_item(sample(TaskState::Completed, Some("out.csv")));
    assert!(matches!(r.get(&"result_file".to_string()), Some(AttrValue::S(s)) if s == "out.csv"));
}

#[test]
fn encode_then_decode() {
    for st in STATES {
        for rf in [None, Some("out.csv"), Some("")] {
            let t = item_to_task(&task_to_item(sample(st, rf))).ok().unwrap();
            assert_eq!(t, sample(st, rf));
        }
    }
}

#[test]
fn record_insert_replaces() {
    let mut r = Record::new();
    assert!(r.get(&"a".to_string()).is_none());
    r.insert("a".to_string(), AttrValue::S("1".to_string()));
    r.insert("b".to_string(), AttrValue::S("2".to_string()));
    r.insert("a".to_string(), AttrValue::S("3".to_string()));
    assert!(matches!(r.get(&"a".to_string()), Some(AttrValue::S(s)) if s == "3"));
    assert!(matches!(r.get(&"b".to_string()), Some(AttrValue::S(s)) if s == "2"));
}

#[test]
fn split_at_first_delimiter() {
    assert_eq!(split_task_id("u1_t1"), Some(("u1".to_string(), "t1".to_string())));
    assert_eq!(split_task_id("a_b_c"), Some(("a".to_string(), "b_c".to_string())));
    assert_eq!(split_task_id("_x"), Some(("".to_string(), "x".to_string())));
    assert_eq!(split_task_id("abc"), None);
    assert_eq!(split_task_id(""), None);
}

#[test]
fn external_id_joins_parts() {
    assert_eq!(external_id(&sample(TaskState::Submitted, None)), "u1_t1");
}

#[test]
fn submit_then_fetch_and_overwrite() {
    let mut table = MemTable::new();
    assert_eq!(table.submit(sample(TaskState::Submitted, None)), Ok(()));
    let got = table.fetch("u1_t1").unwrap();
    assert_eq!(got, sample(TaskState::Submitted, None));
    assert_eq!(table.submit(sample(TaskState::Completed, Some("out.csv"))), Ok(()));
    let got = table.fetch("u1_t1").unwrap();
    assert_eq!(got, sample(TaskState::Completed, Some("out.csv")));
    assert_eq!(table.submit(sample(TaskState::Failed, None)), Ok(()));
    let got = table.fetch("u1_t1").unwrap();
    assert_eq!(got, sample(TaskState::Failed, None));
}

#[test]
fn fetch_before_submit_is_absent() {
    let table = MemTable::new();
    assert!(table.fetch("u1_t1").is_none());
}

#[test]
fn fetch_of_bogus_state_is_absent() {
    let mut table = MemTable::new();
    assert_eq!(table.put_item(full_record("bogus")), Ok(()));
    assert!(table.get_item(&"u1".to_string(), &"t1".to_string()).is_some());
    assert!(table.fetch("u1_t1").is_none());
}

#[test]
fn fetch_keeps_tasks_apart() {
    let mut table = MemTable::new();
    let mut other = sample(TaskState::Started, None);
    other.task_id = "t2".to_string();
    assert_eq!(table.submit(sample(TaskState::Submitted, None)), Ok(()));
    assert_eq!(table.submit(other), Ok(()));
    assert_eq!(table.fetch("u1_t1").unwrap().state, TaskState::Submitted);
    assert_eq!(table.fetch("u1_t2").unwrap().state, TaskState::Started);
    assert!(table.fetch("u2_t1").is_none());
}

#[test]
fn put_item_refuses_record_without_key() {
    let mut table = MemTable::new();
    assert_eq!(table.put_item(record_without("sK")), Err(DDBError));
    let mut r = full_record("Submitted");
    r.insert("pK".to_string(), AttrValue::N("1".to_string()));
    assert_eq!(table.put_item(r), Err(DDBError));
    assert!(table.fetch("u1_t1").is_none());
}

#[test]
fn query_outcomes() {
    assert!(task_from_query(Err(DDBError)).is_none());
    assert!(task_from_query(Ok(Vec::new())).is_none());
    assert!(task_from_query(Ok(vec![full_record("bogus")])).is_none());
    let t = task_from_query(Ok(vec![full_record("Paused"), full_record("bogus")])).unwrap();
    assert_eq!(t, sample(TaskState::Paused, None));
}

#[test]
fn record_gives_up_its_fields() {
    let mut r = Record::new();
    r.insert("a".to_string(), AttrValue::S("1".to_string()));
    r.insert("b".to_string(), AttrValue::Bool(false));
    r.insert("a".to_string(), AttrValue::S("3".to_string()));
    let fields = r.into_fields();
    assert_eq!(fields.len(), 2);
    assert_eq!(fields[0].0, "a");
    assert!(matches!(&fields[0].1, AttrValue::S(s) if s == "3"));
    assert_eq!(fields[1].0, "b");
    assert!(matches!(&fields[1].1, AttrValue::Bool(false)));
}
