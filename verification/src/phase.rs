//! The life of one call as the host leads it through the phases.
//!
//! A call waits for its metadata, then for its instruction to be processed,
//! then for its state update to be applied. Whatever fails on the way ends
//! the call for good: nothing is tried again and nothing is taken back.
//! The order of the invocations is the host's to keep; this module says
//! what the order is.

use crate::entrypoint::Entrypoint;
use vstd::prelude::*;

verus! {

/// Where a call stands.
#[derive(Debug, Clone, Copy, PartialEq, Eq, Structural)]
pub enum CallPhase {
    /// Decoded from the transaction; the metadata phase comes next.
    Decoded,
    /// The metadata are with the host; the instruction phase comes next.
    MetadataComputed,
    /// The state update is with the host; the apply phase comes next.
    InstructionProcessed,
    /// The state update has been applied. The call is over.
    Applied,
    /// A phase failed. The call is over.
    Rejected,
}

impl CallPhase {
    /// The call is over: no phase comes next.
    pub open spec fn spec_is_over(self) -> bool {
        self == CallPhase::Applied || self == CallPhase::Rejected
    }

    /// The phase that the host invokes next, if any.
    pub open spec fn spec_next_entry(self) -> Option<Entrypoint> {
        match self {
            CallPhase::Decoded => Some(Entrypoint::Metadata),
            CallPhase::MetadataComputed => Some(Entrypoint::Exec),
            CallPhase::InstructionProcessed => Some(Entrypoint::Apply),
            CallPhase::Applied => None,
            CallPhase::Rejected => None,
        }
    }

    /// Where the call stands once the phase it waited for has ended. A call
    /// that is over stays where it is.
    pub open spec fn spec_after(self, succeeded: bool) -> CallPhase {
        match self {
            CallPhase::Applied => CallPhase::Applied,
            CallPhase::Rejected => CallPhase::Rejected,
            CallPhase::Decoded => if succeeded {
                CallPhase::MetadataComputed
            } else {
                CallPhase::Rejected
            },
            CallPhase::MetadataComputed => if succeeded {
                CallPhase::InstructionProcessed
            } else {
                CallPhase::Rejected
            },
            CallPhase::InstructionProcessed => if succeeded {
                CallPhase::Applied
            } else {
                CallPhase::Rejected
            },
        }
    }

    /// The call is over: no phase comes next.
    pub fn is_over(self) -> (over: bool)
        ensures
            over == self.spec_is_over(),
            over == (self.spec_next_entry() is None),
    {
        match self {
            CallPhase::Applied => true,
            CallPhase::Rejected => true,
            _ => false,
        }
    }

    /// The phase that the host invokes next, if any.
    pub fn next_entry(self) -> (entry: Option<Entrypoint>)
        ensures
            entry == self.spec_next_entry(),
    {
        match self {
            CallPhase::Decoded => Some(Entrypoint::Metadata),
            CallPhase::MetadataComputed => Some(Entrypoint::Exec),
            CallPhase::InstructionProcessed => Some(Entrypoint::Apply),
            CallPhase::Applied => None,
            CallPhase::Rejected => None,
        }
    }

    /// Where the call stands once the phase it waited for has ended.
    pub fn after(self, succeeded: bool) -> (next: CallPhase)
        ensures
            next == self.spec_after(succeeded),
    {
        match self {
            CallPhase::Applied => CallPhase::Applied,
            CallPhase::Rejected => CallPhase::Rejected,
            CallPhase::Decoded => if succeeded {
                CallPhase::MetadataComputed
            } else {
                CallPhase::Rejected
            },
            CallPhase::MetadataComputed => if succeeded {
                CallPhase::InstructionProcessed
            } else {
                CallPhase::Rejected
            },
            CallPhase::InstructionProcessed => if succeeded {
                CallPhase::Applied
            } else {
                CallPhase::Rejected
            },
        }
    }
}

/// A failure ends the call wherever it stands, and a call that is over
/// never leaves where it is: there is no way back and no second try.
pub proof fn failure_is_final(phase: CallPhase, succeeded: bool)
    ensures
        !phase.spec_is_over() ==> phase.spec_after(false) == CallPhase::Rejected,
        phase.spec_is_over() ==> phase.spec_after(succeeded) == phase,
        phase.spec_after(succeeded).spec_is_over() || succeeded,
{
}

/// A call is applied exactly when its three phases succeed one after
/// another, metadata first, then instruction, then apply.
pub proof fn applied_after_three_successes(first: bool, second: bool, third: bool)
    ensures
        CallPhase::Decoded.spec_after(first).spec_after(second).spec_after(third)
            == CallPhase::Applied <==> first && second && third,
        CallPhase::Decoded.spec_next_entry() == Some(Entrypoint::Metadata),
        CallPhase::Decoded.spec_after(true).spec_next_entry() == Some(Entrypoint::Exec),
        CallPhase::Decoded.spec_after(true).spec_after(true).spec_next_entry() == Some(
            Entrypoint::Apply,
        ),
{
}

} // verus!
