use vstd::prelude::*;

use crate::outside::random_u64;

verus! {

/// The ID of a message type.
#[derive(Clone, Copy, Debug, PartialEq, Eq, Structural, Hash, PartialOrd, Ord)]
pub struct MessageTypeID(pub u64);

/// The ID of a task.
#[derive(Clone, Copy, Debug, PartialEq, Eq, Structural, Hash, PartialOrd, Ord)]
pub struct TaskID(pub u64);

impl TaskID {
    /// Generates a random TaskID.
    ///
    /// Any of the 2^64 IDs may come back, so nothing is promised of the result.
    pub fn rand() -> TaskID {
        TaskID(random_u64())
    }
}

impl From<u64> for TaskID {
    fn from(n: u64) -> (r: TaskID) {
        TaskID(n)
    }
}

impl vstd::std_specs::convert::FromSpecImpl<u64> for TaskID {
    open spec fn obeys_from_spec() -> bool {
        true
    }

    open spec fn from_spec(n: u64) -> TaskID {
        TaskID(n)
    }
}

impl From<TaskID> for u64 {
    fn from(id: TaskID) -> (r: u64) {
        id.0
    }
}

impl vstd::std_specs::convert::FromSpecImpl<TaskID> for u64 {
    open spec fn obeys_from_spec() -> bool {
        true
    }

    open spec fn from_spec(id: TaskID) -> u64 {
        id.0
    }
}

impl From<u64> for MessageTypeID {
    fn from(n: u64) -> (r: MessageTypeID) {
        MessageTypeID(n)
    }
}

impl vstd::std_specs::convert::FromSpecImpl<u64> for MessageTypeID {
    open spec fn obeys_from_spec() -> bool {
        true
    }

    open spec fn from_spec(n: u64) -> MessageTypeID {
        MessageTypeID(n)
    }
}

impl From<MessageTypeID> for u64 {
    fn from(id: MessageTypeID) -> (r: u64) {
        id.0
    }
}

impl vstd::std_specs::convert::FromSpecImpl<MessageTypeID> for u64 {
    open spec fn obeys_from_spec() -> bool {
        true
    }

    open spec fn from_spec(id: MessageTypeID) -> u64 {
        id.0
    }
}

/// Converting an ID to its number and back gives the same ID, and the other
/// way round.
pub proof fn lemma_id_conversions_roundtrip(n: u64, t: TaskID, m: MessageTypeID)
    ensures
        <u64 as vstd::std_specs::convert::FromSpec<TaskID>>::from_spec(
            <TaskID as vstd::std_specs::convert::FromSpec<u64>>::from_spec(n),
        ) == n,
        <TaskID as vstd::std_specs::convert::FromSpec<u64>>::from_spec(
            <u64 as vstd::std_specs::convert::FromSpec<TaskID>>::from_spec(t),
        ) == t,
        <u64 as vstd::std_specs::convert::FromSpec<MessageTypeID>>::from_spec(
            <MessageTypeID as vstd::std_specs::convert::FromSpec<u64>>::from_spec(n),
        ) == n,
        <MessageTypeID as vstd::std_specs::convert::FromSpec<u64>>::from_spec(
            <u64 as vstd::std_specs::convert::FromSpec<MessageTypeID>>::from_spec(m),
        ) == m,
{
}

} // verus!
