//! The state update a processed call hands to the host, and takes back for
//! application once the host has verified the call.
//!
//! On the wire a state update is the tag byte of the function that produced
//! it, followed by whatever that function recorded.

use crate::error::ContractError;
use crate::wire::write_bytes;
use vstd::prelude::*;
use vstd::slice::{slice_subrange, slice_to_vec};

verus! {

/// A state update: which function produced it, and its record of the change.
#[derive(Debug, Clone, PartialEq, Eq)]
pub struct StateUpdate {
    /// Names the function that produced the update.
    pub function_tag: u8,
    /// The function's own record of what is to change.
    pub tag_payload: Vec<u8>,
}

/// A state update as a mathematical value.
pub ghost struct StateUpdateView {
    pub function_tag: u8,
    pub tag_payload: Seq<u8>,
}

impl View for StateUpdate {
    type V = StateUpdateView;

    open spec fn view(&self) -> StateUpdateView {
        StateUpdateView { function_tag: self.function_tag, tag_payload: self.tag_payload@ }
    }
}

/// The bytes of a state update: the tag, then the payload.
pub open spec fn state_update_bytes(update: StateUpdateView) -> Seq<u8> {
    seq![update.function_tag] + update.tag_payload
}

/// Reads a state update that takes up all of `bytes`; `None` where there is
/// not even a tag.
pub open spec fn parse_state_update(bytes: Seq<u8>) -> Option<StateUpdateView> {
    if bytes.len() == 0 {
        None
    } else {
        Some(StateUpdateView { function_tag: bytes[0], tag_payload: bytes.skip(1) })
    }
}

impl StateUpdate {
    /// The bytes of this state update.
    pub fn encode(&self) -> (out: Vec<u8>)
        ensures
            out@ == state_update_bytes(self@),
    {
        let mut out: Vec<u8> = Vec::new();
        out.push(self.function_tag);
        write_bytes(&mut out, self.tag_payload.as_slice());
        assert(out@ =~= state_update_bytes(self@));
        out
    }

    /// Decodes a state update; `Malformed` where the bytes hold no tag.
    pub fn decode(bytes: &[u8]) -> (r: Result<StateUpdate, ContractError>)
        ensures
            match parse_state_update(bytes@) {
                Some(update) => r matches Ok(got) && got@ == update,
                None => r == Err::<StateUpdate, ContractError>(ContractError::Malformed),
            },
    {
        if bytes.len() == 0 {
            Err(ContractError::Malformed)
        } else {
            let function_tag = bytes[0];
            let tag_payload = slice_to_vec(slice_subrange(bytes, 1, bytes.len()));
            assert(tag_payload@ =~= bytes@.skip(1));
            Ok(StateUpdate { function_tag, tag_payload })
        }
    }
}

/// Decoding undoes encoding: the bytes of a state update parse as that
/// state update.
pub proof fn state_update_round_trip(update: StateUpdateView)
    ensures
        parse_state_update(state_update_bytes(update)) == Some(update),
{
    assert(state_update_bytes(update).skip(1) =~= update.tag_payload);
}

/// Encoding undoes decoding: bytes that parse as a state update are the
/// bytes of that state update, so no two byte strings stand for the same one.
pub proof fn state_update_bytes_unique(bytes: Seq<u8>)
    requires
        parse_state_update(bytes) is Some,
    ensures
        state_update_bytes(parse_state_update(bytes)->0) == bytes,
{
    assert(state_update_bytes(parse_state_update(bytes)->0) =~= bytes);
}

} // verus!
