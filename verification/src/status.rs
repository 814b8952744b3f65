use vstd::prelude::*;

verus! {

broadcast use vstd::string::group_string_axioms;

/// Where a document stands in its processing.
#[derive(Clone, Copy, Debug, PartialEq, Eq, Structural)]
pub enum ProcessingStatus {
    /// Created, nothing extracted yet.
    Pending,
    /// Text extracted and saved; chunks are being embedded and indexed.
    Processing,
    /// Every chunk is stored and indexed.
    Completed,
    /// Processing was given up.
    Failed,
}

impl ProcessingStatus {
    /// The name under which the status is stored and shown.
    pub open spec fn name(self) -> Seq<char> {
        match self {
            ProcessingStatus::Pending => "pending"@,
            ProcessingStatus::Processing => "processing"@,
            ProcessingStatus::Completed => "completed"@,
            ProcessingStatus::Failed => "failed"@,
        }
    }

    /// No transition leaves a terminal status.
    pub open spec fn is_terminal(self) -> bool {
        self == ProcessingStatus::Completed || self == ProcessingStatus::Failed
    }

    /// The transitions of a document: from pending to processing, and from
    /// processing to completed or failed.
    pub open spec fn allows(self, next: ProcessingStatus) -> bool {
        ||| self == ProcessingStatus::Pending && next == ProcessingStatus::Processing
        ||| self == ProcessingStatus::Processing && next == ProcessingStatus::Completed
        ||| self == ProcessingStatus::Processing && next == ProcessingStatus::Failed
    }

    /// The stored name of the status.
    pub fn as_str(self) -> (s: &'static str)
        ensures
            s@ == self.name(),
    {
        match self {
            ProcessingStatus::Pending => "pending",
            ProcessingStatus::Processing => "processing",
            ProcessingStatus::Completed => "completed",
            ProcessingStatus::Failed => "failed",
        }
    }

    /// Reads a stored name back. Succeeds exactly on the four names.
    pub fn parse(text: &str) -> (parsed: Option<ProcessingStatus>)
        ensures
            match parsed {
                Some(status) => text@ == status.name(),
                None => forall|status: ProcessingStatus| text@ != status.name(),
            },
    {
        let given = text.to_owned();
        if given == "pending".to_owned() {
            Some(ProcessingStatus::Pending)
        } else if given == "processing".to_owned() {
            Some(ProcessingStatus::Processing)
        } else if given == "completed".to_owned() {
            Some(ProcessingStatus::Completed)
        } else if given == "failed".to_owned() {
            Some(ProcessingStatus::Failed)
        } else {
            None
        }
    }

    /// Tells whether the status is final.
    pub fn terminal(self) -> (t: bool)
        ensures
            t == self.is_terminal(),
    {
        match self {
            ProcessingStatus::Completed => true,
            ProcessingStatus::Failed => true,
            _ => false,
        }
    }

    /// Moves to `next` where the transition exists, and refuses otherwise.
    pub fn advance(self, next: ProcessingStatus) -> (moved: Option<ProcessingStatus>)
        ensures
            moved == if self.allows(next) {
                Some(next)
            } else {
                None
            },
    {
        match (self, next) {
            (ProcessingStatus::Pending, ProcessingStatus::Processing) => Some(next),
            (ProcessingStatus::Processing, ProcessingStatus::Completed) => Some(next),
            (ProcessingStatus::Processing, ProcessingStatus::Failed) => Some(next),
            _ => None,
        }
    }
}

/// The four names differ, so a stored name stands for one status only.
pub proof fn lemma_names_are_distinct(a: ProcessingStatus, b: ProcessingStatus)
    requires
        a.name() == b.name(),
    ensures
        a == b,
{
    reveal_strlit("pending");
    reveal_strlit("processing");
    reveal_strlit("completed");
    reveal_strlit("failed");
    assert("pending"@.len() == 7);
    assert("processing"@.len() == 10);
    assert("completed"@.len() == 9);
    assert("failed"@.len() == 6);
}

/// A terminal status allows no transition, and every transition leads away
/// from where it starts.
pub proof fn lemma_terminal_is_final(from: ProcessingStatus, to: ProcessingStatus)
    ensures
        from.is_terminal() ==> !from.allows(to),
        from.allows(to) ==> from != to && to != ProcessingStatus::Pending,
{
}

} // verus!
