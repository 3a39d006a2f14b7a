use vstd::prelude::*;
use vstd::string::StringExecFns;

verus! {

/// The lifecycle status of a mission.
#[derive(Clone, Copy, Debug, PartialEq, Eq, Structural)]
pub enum MissionStatuses {
    Open,
    InProgress,
    Completed,
    Failed,
}

impl Default for MissionStatuses {
    fn default() -> (status: MissionStatuses)
        ensures
            status == MissionStatuses::Open,
    {
        MissionStatuses::Open
    }
}

impl MissionStatuses {
    /// The text under which the status is stored and shown.
    pub open spec fn label(self) -> Seq<char> {
        match self {
            MissionStatuses::Open => "Open"@,
            MissionStatuses::InProgress => "InProgress"@,
            MissionStatuses::Completed => "Completed"@,
            MissionStatuses::Failed => "Failed"@,
        }
    }

    /// A mission in this status accepts roster changes and may be started.
    pub open spec fn is_open_or_failed(self) -> bool {
        self == MissionStatuses::Open || self == MissionStatuses::Failed
    }

    /// No transition leaves this status.
    pub open spec fn is_terminal(self) -> bool {
        self == MissionStatuses::Completed
    }

    /// The transition table: `InProgress` follows `Open` and `Failed`;
    /// `Completed` and `Failed` follow `InProgress`; nothing follows
    /// `Completed`.
    pub open spec fn leads_to(self, to: MissionStatuses) -> bool {
        match self {
            MissionStatuses::Open => to == MissionStatuses::InProgress,
            MissionStatuses::Failed => to == MissionStatuses::InProgress,
            MissionStatuses::InProgress => to == MissionStatuses::Completed || to
                == MissionStatuses::Failed,
            MissionStatuses::Completed => false,
        }
    }

    /// The status whose label is `text`, if there is one.
    pub open spec fn from_label(text: Seq<char>) -> Option<MissionStatuses> {
        if text == MissionStatuses::Open.label() {
            Some(MissionStatuses::Open)
        } else if text == MissionStatuses::InProgress.label() {
            Some(MissionStatuses::InProgress)
        } else if text == MissionStatuses::Completed.label() {
            Some(MissionStatuses::Completed)
        } else if text == MissionStatuses::Failed.label() {
            Some(MissionStatuses::Failed)
        } else {
            None
        }
    }

    /// Renders the status as its label.
    pub fn to_string(&self) -> (text: String)
        ensures
            text@ == self.label(),
    {
        match self {
            MissionStatuses::Open => String::from_str("Open"),
            MissionStatuses::InProgress => String::from_str("InProgress"),
            MissionStatuses::Completed => String::from_str("Completed"),
            MissionStatuses::Failed => String::from_str("Failed"),
        }
    }

    /// Reads a stored label back. Any text that is not the label of one of the
    /// four statuses is rejected.
    pub fn try_from_str(text: &str) -> (status: Option<MissionStatuses>)
        ensures
            status == MissionStatuses::from_label(text@),
    {
        let owned = String::from_str(text);
        if owned == String::from_str("Open") {
            Some(MissionStatuses::Open)
        } else if owned == String::from_str("InProgress") {
            Some(MissionStatuses::InProgress)
        } else if owned == String::from_str("Completed") {
            Some(MissionStatuses::Completed)
        } else if owned == String::from_str("Failed") {
            Some(MissionStatuses::Failed)
        } else {
            None
        }
    }

    /// Whether the transition table has a transition from this status to
    /// `to`.
    pub fn can_become(&self, to: MissionStatuses) -> (allowed: bool)
        ensures
            allowed == self.leads_to(to),
    {
        match (self, to) {
            (MissionStatuses::Open, MissionStatuses::InProgress) => true,
            (MissionStatuses::Failed, MissionStatuses::InProgress) => true,
            (MissionStatuses::InProgress, MissionStatuses::Completed) => true,
            (MissionStatuses::InProgress, MissionStatuses::Failed) => true,
            _ => false,
        }
    }

    /// Whether roster changes and `start` are admitted in this status.
    pub fn accepts_roster_changes(&self) -> (open: bool)
        ensures
            open == self.is_open_or_failed(),
    {
        match self {
            MissionStatuses::Open => true,
            MissionStatuses::Failed => true,
            _ => false,
        }
    }
}

/// The four labels are pairwise distinct, so a label read back gives the
/// status that wrote it.
pub proof fn lemma_label_round_trip(status: MissionStatuses)
    ensures
        MissionStatuses::from_label(status.label()) == Some(status),
{
    reveal_strlit("Open");
    reveal_strlit("InProgress");
    reveal_strlit("Completed");
    reveal_strlit("Failed");
    assert("Open"@.len() == 4);
    assert("InProgress"@.len() == 10);
    assert("Completed"@.len() == 9);
    assert("Failed"@.len() == 6);
}

} // verus!
