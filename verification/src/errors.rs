use vstd::prelude::*;
use vstd::string::StringExecFns;
use crate::mission_statuses::MissionStatuses;
use crate::text::{decimal, decimal_text, signed, signed_text};

verus! {

/// Which rule kept a mission from changing its status.
#[derive(Clone, Copy, Debug, PartialEq, Eq, Structural)]
pub enum TransitionRefusal {
    /// The transition is not defined from the current status.
    WrongStatus,
    /// A mission cannot start without at least one crew member.
    NoCrew,
    /// The roster holds more than `max_crew` members.
    CrewOverLimit { max_crew: u32 },
}

/// Why an operation on a mission was refused. Every variant but
/// `PersistenceFailure` reports a broken rule: the same call on the same state
/// fails again, so callers must not retry it.
#[derive(Clone, Copy, Debug, PartialEq, Eq, Structural)]
pub enum MissionError {
    /// No mission with that id is visible (absent or soft-deleted).
    NotFound,
    /// The actor is not the chief of the mission; `chief_id` is. The actor
    /// asked for the status `requested`.
    Unauthorized { chief_id: i32, requested: MissionStatuses },
    /// The status `requested` is not open to a mission in the `current`
    /// status, for the `reason` given.
    InvalidStateTransition {
        current: MissionStatuses,
        requested: MissionStatuses,
        reason: TransitionRefusal,
    },
    /// The roster already holds `max_crew` members or more.
    CapacityExceeded { max_crew: u32 },
    /// The roster of a mission in the `current` status admits no newcomer.
    NotJoinable { current: MissionStatuses },
    /// The roster of a mission in the `current` status lets nobody go.
    NotLeavable { current: MissionStatuses },
    /// The brawler is already enrolled.
    DuplicateMembership,
    /// The brawler is not enrolled.
    NotAMember,
    /// The store itself failed.
    PersistenceFailure,
}

/// The verb of the transition that leads to `requested`.
pub open spec fn verb(requested: MissionStatuses) -> Seq<char> {
    match requested {
        MissionStatuses::InProgress => "start"@,
        MissionStatuses::Completed => "complete"@,
        MissionStatuses::Failed => "fail"@,
        MissionStatuses::Open => "reopen"@,
    }
}

fn verb_text(requested: MissionStatuses) -> (text: &'static str)
    ensures
        text@ == verb(requested),
{
    match requested {
        MissionStatuses::InProgress => "start",
        MissionStatuses::Completed => "complete",
        MissionStatuses::Failed => "fail",
        MissionStatuses::Open => "reopen",
    }
}

impl MissionError {
    /// A broken rule, as opposed to a failure of the store.
    pub open spec fn is_business_rule(self) -> bool {
        !(self is PersistenceFailure)
    }

    /// The reason in words: which rule was broken, and the state it was
    /// broken in.
    pub open spec fn reason(self) -> Seq<char> {
        match self {
            MissionError::NotFound => "Mission not found"@,
            MissionError::Unauthorized { chief_id, requested } => "Only the Chief (ID: "@
                + signed_text(chief_id as int) + ") can "@ + verb(requested) + " this mission"@,
            MissionError::InvalidStateTransition { current, requested, reason } => match reason {
                TransitionRefusal::WrongStatus => if requested == MissionStatuses::InProgress {
                    "Mission status must be 'Open' or 'Failed' to start (current: "@
                        + current.label() + ")"@
                } else {
                    "Mission must be 'InProgress' to "@ + verb(requested) + " (current: "@
                        + current.label() + ")"@
                },
                TransitionRefusal::NoCrew => "Mission must have at least one crew member to start"@,
                TransitionRefusal::CrewOverLimit { max_crew } =>
                    "Mission crew exceeds maximum limit of "@ + decimal_text(max_crew as int),
            },
            MissionError::CapacityExceeded { max_crew } => "Mission is full (maximum: "@
                + decimal_text(max_crew as int) + ")"@,
            MissionError::NotJoinable { current } => "Mission is not joinable (current: "@
                + current.label() + ")"@,
            MissionError::NotLeavable { current } => "Mission is not leavable (current: "@
                + current.label() + ")"@,
            MissionError::DuplicateMembership => "Brawler has already joined this mission"@,
            MissionError::NotAMember => "Brawler is not a member of this mission"@,
            MissionError::PersistenceFailure => "The mission store failed"@,
        }
    }

    /// Whether a caller may try the same call again. Only a failure of the
    /// store can be transient.
    pub fn is_retryable(&self) -> (retry: bool)
        ensures
            retry == !self.is_business_rule(),
    {
        match self {
            MissionError::PersistenceFailure => true,
            _ => false,
        }
    }

    /// Renders the reason for a reader.
    pub fn to_string(&self) -> (text: String)
        ensures
            text@ == self.reason(),
    {
        match self {
            MissionError::NotFound => String::from_str("Mission not found"),
            MissionError::Unauthorized { chief_id, requested } => {
                let mut text = String::from_str("Only the Chief (ID: ");
                let id = signed(*chief_id as i64);
                text.append(id.as_str());
                text.append(") can ");
                text.append(verb_text(*requested));
                text.append(" this mission");
                text
            },
            MissionError::InvalidStateTransition { current, requested, reason } => {
                match reason {
                    TransitionRefusal::WrongStatus => {
                        let label = current.to_string();
                        match requested {
                            MissionStatuses::InProgress => {
                                let mut text = String::from_str(
                                    "Mission status must be 'Open' or 'Failed' to start (current: ",
                                );
                                text.append(label.as_str());
                                text.append(")");
                                text
                            },
                            _ => {
                                let mut text = String::from_str("Mission must be 'InProgress' to ");
                                text.append(verb_text(*requested));
                                text.append(" (current: ");
                                text.append(label.as_str());
                                text.append(")");
                                text
                            },
                        }
                    },
                    TransitionRefusal::NoCrew => String::from_str(
                        "Mission must have at least one crew member to start",
                    ),
                    TransitionRefusal::CrewOverLimit { max_crew } => {
                        let mut text = String::from_str("Mission crew exceeds maximum limit of ");
                        let limit = decimal(*max_crew as u64);
                        text.append(limit.as_str());
                        text
                    },
                }
            },
            MissionError::CapacityExceeded { max_crew } => {
                let mut text = String::from_str("Mission is full (maximum: ");
                let limit = decimal(*max_crew as u64);
                text.append(limit.as_str());
                text.append(")");
                text
            },
            MissionError::NotJoinable { current } => {
                let mut text = String::from_str("Mission is not joinable (current: ");
                let label = current.to_string();
                text.append(label.as_str());
                text.append(")");
                text
            },
            MissionError::NotLeavable { current } => {
                let mut text = String::from_str("Mission is not leavable (current: ");
                let label = current.to_string();
                text.append(label.as_str());
                text.append(")");
                text
            },
            MissionError::DuplicateMembership => String::from_str(
                "Brawler has already joined this mission",
            ),
            MissionError::NotAMember => String::from_str("Brawler is not a member of this mission"),
            MissionError::PersistenceFailure => String::from_str("The mission store failed"),
        }
    }
}

} // verus!
