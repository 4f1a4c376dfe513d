//! Failures a phase can end in.

use vstd::prelude::*;

verus! {

/// Why a phase rejected its input.
#[derive(Debug, Clone, Copy, PartialEq, Eq, Structural)]
pub enum ContractError {
    /// The payload is not an exact encoding of the expected shape.
    Malformed,
    /// The call index does not select an entry of the call list.
    IndexOutOfRange,
    /// The selector or tag byte names no function of the contract.
    UnknownFunction,
    /// The host environment broke its side of the interface.
    Internal,
}

impl ContractError {
    /// The diagnostic line for the host's log.
    pub fn message(&self) -> (text: &'static str)
        ensures
            text@ == Self::spec_message(*self),
    {
        match self {
            ContractError::Malformed => "Error: payload does not decode",
            ContractError::IndexOutOfRange => "Error: call_idx >= calls.len()",
            ContractError::UnknownFunction => "Error: unknown function selector",
            ContractError::Internal => "Error: host interface failure",
        }
    }

    /// The text of [`ContractError::message`].
    pub open spec fn spec_message(e: ContractError) -> Seq<char> {
        match e {
            ContractError::Malformed => "Error: payload does not decode"@,
            ContractError::IndexOutOfRange => "Error: call_idx >= calls.len()"@,
            ContractError::UnknownFunction => "Error: unknown function selector"@,
            ContractError::Internal => "Error: host interface failure"@,
        }
    }
}

} // verus!
