use vstd::prelude::*;
use vstd::string::StringExecFns;

verus! {

/// The lifecycle state of a task.
#[derive(Clone, Copy, Debug, PartialEq, Eq, Structural)]
pub enum TaskState {
    Submitted,
    Started,
    Completed,
    Failed,
    Paused,
}

/// A token that names no state.
#[derive(Clone, Copy, Debug, PartialEq, Eq, Structural)]
pub struct UnknownState;

impl TaskState {
    /// The canonical token under which the state is stored.
    pub open spec fn token(self) -> Seq<char> {
        match self {
            TaskState::Submitted => "Submitted"@,
            TaskState::Started => "Started"@,
            TaskState::Completed => "Completed"@,
            TaskState::Failed => "Failed"@,
            TaskState::Paused => "Paused"@,
        }
    }

    /// The state whose canonical token is `s`, if any.
    pub open spec fn from_token(s: Seq<char>) -> Option<TaskState> {
        if s == "Submitted"@ {
            Some(TaskState::Submitted)
        } else if s == "Started"@ {
            Some(TaskState::Started)
        } else if s == "Completed"@ {
            Some(TaskState::Completed)
        } else if s == "Failed"@ {
            Some(TaskState::Failed)
        } else if s == "Paused"@ {
            Some(TaskState::Paused)
        } else {
            None
        }
    }

    /// The canonical token of the state.
    pub fn to_string(&self) -> (r: String)
        ensures
            r@ == self.token(),
    {
        match self {
            TaskState::Submitted => String::from_str("Submitted"),
            TaskState::Started => String::from_str("Started"),
            TaskState::Completed => String::from_str("Completed"),
            TaskState::Failed => String::from_str("Failed"),
            TaskState::Paused => String::from_str("Paused"),
        }
    }

    /// Reads a canonical token; any other string, a case variant or the
    /// empty string included, is refused.
    pub fn parse(s: &str) -> (r: Result<TaskState, UnknownState>)
        ensures
            r == (match TaskState::from_token(s@) {
                Some(st) => Ok::<TaskState, UnknownState>(st),
                None => Err(UnknownState),
            }),
            r is Ok ==> s@ == r->Ok_0.token(),
            r is Err <==> forall|st: TaskState| s@ != #[trigger] st.token(),
    {
        let t = String::from_str(s);
        let r = if t == String::from_str("Submitted") {
            Ok(TaskState::Submitted)
        } else if t == String::from_str("Started") {
            Ok(TaskState::Started)
        } else if t == String::from_str("Completed") {
            Ok(TaskState::Completed)
        } else if t == String::from_str("Failed") {
            Ok(TaskState::Failed)
        } else if t == String::from_str("Paused") {
            Ok(TaskState::Paused)
        } else {
            Err(UnknownState)
        };
        proof {
            lemma_tokens_distinct();
            if r is Err {
                assert forall|st: TaskState| s@ != #[trigger] st.token() by {
                    match st {
                        TaskState::Submitted => {},
                        TaskState::Started => {},
                        TaskState::Completed => {},
                        TaskState::Failed => {},
                        TaskState::Paused => {},
                    }
                }
            } else {
                assert(s@ == r->Ok_0.token());
            }
        }
        r
    }
}

/// A unit of asynchronous work, keyed by its owner and its id within the owner.
#[derive(Debug)]
pub struct Task {
    pub owner_id: String,
    pub task_id: String,
    pub task_type: String,
    pub state: TaskState,
    pub source_file: String,
    pub result_file: Option<String>,
}

/// What a task holds.
pub struct TaskView {
    pub owner_id: Seq<char>,
    pub task_id: Seq<char>,
    pub task_type: Seq<char>,
    pub state: TaskState,
    pub source_file: Seq<char>,
    pub result_file: Option<Seq<char>>,
}

impl View for Task {
    type V = TaskView;

    open spec fn view(&self) -> TaskView {
        TaskView {
            owner_id: self.owner_id@,
            task_id: self.task_id@,
            task_type: self.task_type@,
            state: self.state,
            source_file: self.source_file@,
            result_file: match self.result_file {
                Some(f) => Some(f@),
                None => None,
            },
        }
    }
}

impl PartialEq for Task {
    fn eq(&self, other: &Task) -> (r: bool) {
        let same_result = match (&self.result_file, &other.result_file) {
            (Some(a), Some(b)) => *a == *b,
            (None, None) => true,
            _ => false,
        };
        self.owner_id == other.owner_id && self.task_id == other.task_id && self.task_type
            == other.task_type && self.state == other.state && self.source_file
            == other.source_file && same_result
    }
}

impl vstd::std_specs::cmp::PartialEqSpecImpl for Task {
    open spec fn obeys_eq_spec() -> bool {
        true
    }

    open spec fn eq_spec(&self, other: &Task) -> bool {
        self@ == other@
    }
}

/// The five canonical tokens are pairwise different.
pub proof fn lemma_tokens_distinct()
    ensures
        forall|a: TaskState, b: TaskState| a.token() == b.token() ==> a == b,
{
    reveal_strlit("Submitted");
    reveal_strlit("Started");
    reveal_strlit("Completed");
    reveal_strlit("Failed");
    reveal_strlit("Paused");
    assert forall|a: TaskState, b: TaskState| a.token() == b.token() implies a == b by {
        if a != b {
            assert(a.token().len() != b.token().len() || a.token()[0] != b.token()[0]
                || a.token()[2] != b.token()[2]);
        }
    }
}

/// Reading the token of a state gives the state back.
pub proof fn lemma_state_round_trip(st: TaskState)
    ensures
        TaskState::from_token(st.token()) == Some(st),
{
    lemma_tokens_distinct();
    assert(TaskState::Submitted.token() == "Submitted"@);
    assert(TaskState::Started.token() == "Started"@);
    assert(TaskState::Completed.token() == "Completed"@);
    assert(TaskState::Failed.token() == "Failed"@);
    assert(TaskState::Paused.token() == "Paused"@);
}

/// A string that is the token of no state is read as no state.
pub proof fn lemma_parse_rejects_others(s: Seq<char>)
    requires
        forall|st: TaskState| s != #[trigger] st.token(),
    ensures
        TaskState::from_token(s) is None,
{
    assert(s != TaskState::Submitted.token());
    assert(s != TaskState::Started.token());
    assert(s != TaskState::Completed.token());
    assert(s != TaskState::Failed.token());
    assert(s != TaskState::Paused.token());
}

} // verus!
