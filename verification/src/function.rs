//! The closed set of functions the contract exposes.

use crate::error::ContractError;
use vstd::prelude::*;
use vstd::std_specs::convert::TryFromSpecImpl;

verus! {

/// A function of the contract. The selector byte of a call and the tag byte
/// of a state update both name one of these.
#[derive(Debug, Clone, Copy, PartialEq, Eq, Structural)]
pub enum ContractFunction {
    /// The example function: verifies nothing and changes nothing.
    Hello,
}

impl ContractFunction {
    /// The byte that names this function on the wire.
    pub open spec fn spec_selector(self) -> u8 {
        match self {
            ContractFunction::Hello => 0x00,
        }
    }

    /// The function a byte names, if any.
    pub open spec fn spec_from_selector(byte: u8) -> Option<ContractFunction> {
        if byte == 0x00 {
            Some(ContractFunction::Hello)
        } else {
            None
        }
    }

    /// The byte that names this function on the wire.
    pub fn selector(self) -> (byte: u8)
        ensures
            byte == self.spec_selector(),
            Self::spec_from_selector(byte) == Some(self),
    {
        match self {
            ContractFunction::Hello => 0x00,
        }
    }
}

impl TryFrom<u8> for ContractFunction {
    type Error = ContractError;

    /// Maps a selector or tag byte to the function it names; a byte that
    /// names none is `UnknownFunction`.
    fn try_from(byte: u8) -> (r: Result<ContractFunction, ContractError>) {
        if byte == 0x00 {
            Ok(ContractFunction::Hello)
        } else {
            Err(ContractError::UnknownFunction)
        }
    }
}

impl TryFromSpecImpl<u8> for ContractFunction {
    open spec fn obeys_try_from_spec() -> bool {
        true
    }

    open spec fn try_from_spec(byte: u8) -> Result<ContractFunction, ContractError> {
        match ContractFunction::spec_from_selector(byte) {
            Some(f) => Ok(f),
            None => Err(ContractError::UnknownFunction),
        }
    }
}

/// Every function is named by exactly the byte that maps back to it.
pub proof fn selector_names_one_function(f: ContractFunction, byte: u8)
    ensures
        ContractFunction::spec_from_selector(byte) == Some(f) <==> byte == f.spec_selector(),
{
}

} // verus!
