//! The four operations the host invokes, one per phase of a call, and the
//! dispatcher that routes an invocation to its operation.
//!
//! Every operation takes the identity of the deployed contract and the
//! host's payload. None of them touches the host: what is to be written to
//! the return-data buffer or committed to the persistent state is part of
//! the result, and the caller carries it out.

use crate::call::{
    call_list_bytes, call_list_round_trip, calls_fit, decode_call_list, decoded_call_list,
    CallList, CallListView, CallRecord, ContractCall,
};
use crate::error::ContractError;
use crate::function::ContractFunction;
use crate::metadata::{metadata_bytes, Metadata, MetadataView};
use crate::update::{
    parse_state_update, state_update_bytes, state_update_round_trip, StateUpdate, StateUpdateView,
};
use vstd::prelude::*;

verus! {

/// Identifies a deployed contract. The operations carry it through and read
/// nothing from it.
#[derive(Debug, Clone, Copy, PartialEq, Eq)]
pub struct ContractId {
    bytes: [u8; 32],
}

impl View for ContractId {
    type V = Seq<u8>;

    closed spec fn view(&self) -> Seq<u8> {
        self.bytes@
    }
}

impl ContractId {
    /// The identity that `bytes` stand for.
    pub fn new(bytes: [u8; 32]) -> (id: ContractId)
        ensures
            id@ == bytes@,
    {
        ContractId { bytes }
    }

    /// The bytes that stand for this identity.
    pub fn to_bytes(&self) -> (bytes: [u8; 32])
        ensures
            bytes@ == self@,
    {
        self.bytes
    }
}

/// What applying a state update commits to the persistent state.
#[derive(Debug, Clone, Copy, PartialEq, Eq, Structural)]
pub enum Commit {
    /// The state stays exactly as it was.
    Unchanged,
}

/// The metadata the host verifies for a call of `function`.
pub open spec fn metadata_recipe(function: ContractFunction, call: CallRecord) -> MetadataView {
    match function {
        ContractFunction::Hello => MetadataView {
            zk_public_inputs: Seq::empty(),
            signature_pubkeys: Seq::empty(),
        },
    }
}

/// The state update that a call of `function` produces.
pub open spec fn update_recipe(function: ContractFunction, call: CallRecord) -> StateUpdateView {
    match function {
        ContractFunction::Hello => StateUpdateView {
            function_tag: ContractFunction::Hello.spec_selector(),
            tag_payload: Seq::empty(),
        },
    }
}

/// What applying an update of `function` commits.
pub open spec fn commit_recipe(function: ContractFunction, update: StateUpdateView) -> Commit {
    match function {
        ContractFunction::Hello => Commit::Unchanged,
    }
}

/// The function that the call in hand invokes; `UnknownFunction` where its
/// selector names none.
pub open spec fn invoked_function(list: CallListView) -> Result<ContractFunction, ContractError> {
    match ContractFunction::spec_from_selector(list.calls[list.call_idx as int].selector) {
        None => Err(ContractError::UnknownFunction),
        Some(function) => Ok(function),
    }
}

/// The metadata of the call in hand, or the failure of looking up its
/// function.
pub open spec fn extracted_metadata(list: CallListView) -> Result<MetadataView, ContractError> {
    match invoked_function(list) {
        Err(e) => Err(e),
        Ok(function) => Ok(metadata_recipe(function, list.calls[list.call_idx as int])),
    }
}

/// The state update of the call in hand, or the failure of looking up its
/// function.
pub open spec fn processed_update(list: CallListView) -> Result<StateUpdateView, ContractError> {
    match invoked_function(list) {
        Err(e) => Err(e),
        Ok(function) => Ok(update_recipe(function, list.calls[list.call_idx as int])),
    }
}

/// What applying a state update commits; `UnknownFunction` where its tag
/// names no function.
pub open spec fn applied_commit(update: StateUpdateView) -> Result<Commit, ContractError> {
    match ContractFunction::spec_from_selector(update.function_tag) {
        None => Err(ContractError::UnknownFunction),
        Some(function) => Ok(commit_recipe(function, update)),
    }
}

/// What the metadata phase returns for a payload: the failure of decoding
/// it as a call list, else the failure of extracting the metadata, else the
/// bytes of the metadata.
pub open spec fn metadata_output(ix: Seq<u8>) -> Result<Seq<u8>, ContractError> {
    match decoded_call_list(ix) {
        Err(e) => Err(e),
        Ok(list) => match extracted_metadata(list) {
            Err(e) => Err(e),
            Ok(metadata) => Ok(metadata_bytes(metadata)),
        },
    }
}

/// What the instruction phase returns for a payload: the failure of
/// decoding it as a call list, else the failure of processing the call,
/// else the bytes of the state update.
pub open spec fn instruction_output(ix: Seq<u8>) -> Result<Seq<u8>, ContractError> {
    match decoded_call_list(ix) {
        Err(e) => Err(e),
        Ok(list) => match processed_update(list) {
            Err(e) => Err(e),
            Ok(update) => Ok(state_update_bytes(update)),
        },
    }
}

/// What the apply phase does with a payload: `Malformed` where it holds no
/// tag, else the failure of applying the update, else its commit.
pub open spec fn update_outcome(update_data: Seq<u8>) -> Result<Commit, ContractError> {
    match parse_state_update(update_data) {
        None => Err(ContractError::Malformed),
        Some(update) => applied_commit(update),
    }
}

/// Looks up the function that the call in hand invokes.
fn invoked(list: &CallList) -> (r: Result<ContractFunction, ContractError>)
    ensures
        r == invoked_function(list@),
{
    ContractFunction::try_from(list.selected().selector)
}

/// The metadata of a call of `function`.
fn metadata_for(function: ContractFunction, call: &ContractCall) -> (metadata: Metadata)
    ensures
        metadata@ == metadata_recipe(function, call@),
{
    match function {
        ContractFunction::Hello => {
            let metadata = Metadata::empty();
            assert(metadata@.zk_public_inputs =~= Seq::empty());
            assert(metadata@.signature_pubkeys =~= Seq::empty());
            metadata
        },
    }
}

/// The state update of a call of `function`.
fn update_for(function: ContractFunction, call: &ContractCall) -> (update: StateUpdate)
    ensures
        update@ == update_recipe(function, call@),
{
    match function {
        ContractFunction::Hello => StateUpdate {
            function_tag: ContractFunction::Hello.selector(),
            tag_payload: Vec::new(),
        },
    }
}

/// The metadata extractor: what the host must verify before it trusts the
/// call in hand.
pub fn extract_metadata(list: &CallList) -> (r: Result<Metadata, ContractError>)
    ensures
        match extracted_metadata(list@) {
            Ok(metadata) => r matches Ok(got) && got@ == metadata,
            Err(e) => r == Err::<Metadata, ContractError>(e),
        },
{
    match invoked(list) {
        Err(e) => Err(e),
        Ok(function) => Ok(metadata_for(function, list.selected())),
    }
}

/// The instruction processor: the state update that the call in hand
/// produces. Nothing is changed; the update says what is to change.
pub fn process_call(list: &CallList) -> (r: Result<StateUpdate, ContractError>)
    ensures
        match processed_update(list@) {
            Ok(update) => r matches Ok(got) && got@ == update,
            Err(e) => r == Err::<StateUpdate, ContractError>(e),
        },
{
    match invoked(list) {
        Err(e) => Err(e),
        Ok(function) => Ok(update_for(function, list.selected())),
    }
}

/// The state applier: what a state update commits to the persistent state.
pub fn apply_update(update: &StateUpdate) -> (r: Result<Commit, ContractError>)
    ensures
        r == applied_commit(update@),
{
    match ContractFunction::try_from(update.function_tag) {
        Err(e) => Err(e),
        Ok(function) => match function {
            ContractFunction::Hello => Ok(Commit::Unchanged),
        },
    }
}

/// Runs when the contract is deployed. This contract keeps no state, so
/// there is nothing to prepare and every payload is accepted.
pub fn init_contract(cid: &ContractId, ix: &[u8]) -> (r: Result<(), ContractError>)
    ensures
        r == Ok::<(), ContractError>(()),
{
    Ok(())
}

/// The metadata phase on the host's payload, a call list. `Ok` holds the
/// bytes of the metadata, for the return-data buffer.
pub fn get_metadata(cid: &ContractId, ix: &[u8]) -> (r: Result<Vec<u8>, ContractError>)
    ensures
        match metadata_output(ix@) {
            Ok(bytes) => r matches Ok(out) && out@ == bytes,
            Err(e) => r == Err::<Vec<u8>, ContractError>(e),
        },
{
    let list = match decode_call_list(ix) {
        Err(e) => {
            return Err(e);
        },
        Ok(list) => list,
    };
    match extract_metadata(&list) {
        Err(e) => Err(e),
        Ok(metadata) => Ok(metadata.encode()),
    }
}

/// The instruction phase on the host's payload, a call list. `Ok` holds the
/// bytes of the state update, for the return-data buffer.
pub fn process_instruction(cid: &ContractId, ix: &[u8]) -> (r: Result<Vec<u8>, ContractError>)
    ensures
        match instruction_output(ix@) {
            Ok(bytes) => r matches Ok(out) && out@ == bytes,
            Err(e) => r == Err::<Vec<u8>, ContractError>(e),
        },
{
    let list = match decode_call_list(ix) {
        Err(e) => {
            return Err(e);
        },
        Ok(list) => list,
    };
    match process_call(&list) {
        Err(e) => Err(e),
        Ok(update) => Ok(update.encode()),
    }
}

/// The apply phase on the host's payload, the bytes of a state update that
/// the instruction phase produced. `Ok` holds what is to be committed.
pub fn process_update(cid: &ContractId, update_data: &[u8]) -> (r: Result<Commit, ContractError>)
    ensures
        r == update_outcome(update_data@),
{
    match StateUpdate::decode(update_data) {
        Err(e) => Err(e),
        Ok(update) => apply_update(&update),
    }
}

/// The phase that the host invokes.
#[derive(Debug, Clone, Copy, PartialEq, Eq, Structural)]
pub enum Entrypoint {
    /// Deployment of the contract.
    Init,
    /// Metadata extraction, before the host verifies.
    Metadata,
    /// Instruction processing.
    Exec,
    /// Application of the state update, after the host has verified.
    Apply,
}

/// What the host is to do after a phase that succeeded. A phase asks for at
/// most one thing, and only when it has succeeded.
#[derive(Debug, Clone, PartialEq, Eq)]
pub enum HostAction {
    /// Nothing: the phase has no output.
    Nothing,
    /// Put these bytes into the return-data buffer.
    SetReturnData(Vec<u8>),
    /// Carry out this commit on the persistent state.
    Commit(Commit),
}

/// A host action as a mathematical value.
pub ghost enum HostActionView {
    Nothing,
    SetReturnData(Seq<u8>),
    Commit(Commit),
}

impl View for HostAction {
    type V = HostActionView;

    open spec fn view(&self) -> HostActionView {
        match self {
            HostAction::Nothing => HostActionView::Nothing,
            HostAction::SetReturnData(bytes) => HostActionView::SetReturnData(bytes@),
            HostAction::Commit(commit) => HostActionView::Commit(*commit),
        }
    }
}

/// What invoking a phase with a payload ends in: the phase's own result,
/// with its output as the one thing the host is to do.
pub open spec fn dispatched(entry: Entrypoint, payload: Seq<u8>) -> Result<
    HostActionView,
    ContractError,
> {
    match entry {
        Entrypoint::Init => Ok(HostActionView::Nothing),
        Entrypoint::Metadata => match metadata_output(payload) {
            Err(e) => Err(e),
            Ok(bytes) => Ok(HostActionView::SetReturnData(bytes)),
        },
        Entrypoint::Exec => match instruction_output(payload) {
            Err(e) => Err(e),
            Ok(bytes) => Ok(HostActionView::SetReturnData(bytes)),
        },
        Entrypoint::Apply => match update_outcome(payload) {
            Err(e) => Err(e),
            Ok(commit) => Ok(HostActionView::Commit(commit)),
        },
    }
}

/// Routes an invocation to the operation of its phase and hands back what
/// that operation ends in, unchanged.
pub fn dispatch(entry: Entrypoint, cid: &ContractId, payload: &[u8]) -> (r: Result<
    HostAction,
    ContractError,
>)
    ensures
        match dispatched(entry, payload@) {
            Ok(action) => r matches Ok(got) && got@ == action,
            Err(e) => r == Err::<HostAction, ContractError>(e),
        },
{
    match entry {
        Entrypoint::Init => match init_contract(cid, payload) {
            Err(e) => Err(e),
            Ok(()) => Ok(HostAction::Nothing),
        },
        Entrypoint::Metadata => match get_metadata(cid, payload) {
            Err(e) => Err(e),
            Ok(bytes) => Ok(HostAction::SetReturnData(bytes)),
        },
        Entrypoint::Exec => match process_instruction(cid, payload) {
            Err(e) => Err(e),
            Ok(bytes) => Ok(HostAction::SetReturnData(bytes)),
        },
        Entrypoint::Apply => match process_update(cid, payload) {
            Err(e) => Err(e),
            Ok(commit) => Ok(HostAction::Commit(commit)),
        },
    }
}

/// What an invocation reports to the host in the end: the failure of the
/// phase where it failed, `Internal` where the phase succeeded and the host
/// could not carry out what it asked for, else success.
pub open spec fn concluded(outcome: Result<HostActionView, ContractError>, carried_out: bool) -> Result<
    (),
    ContractError,
> {
    match outcome {
        Err(e) => Err(e),
        Ok(_) => if carried_out {
            Ok(())
        } else {
            Err(ContractError::Internal)
        },
    }
}

/// Closes an invocation once the host has been asked to carry out the
/// action of a phase that succeeded. `carried_out` says whether it did; it
/// is not looked at where the phase failed.
pub fn conclude(outcome: &Result<HostAction, ContractError>, carried_out: bool) -> (r: Result<
    (),
    ContractError,
>)
    ensures
        r == concluded(
            match outcome {
                Ok(action) => Ok(action@),
                Err(e) => Err(*e),
            },
            carried_out,
        ),
{
    match outcome {
        Err(e) => Err(*e),
        Ok(_) => if carried_out {
            Ok(())
        } else {
            Err(ContractError::Internal)
        },
    }
}

/// A call list whose index selects none of its calls yields no output:
/// on its bytes the metadata phase and the instruction phase both end in
/// `IndexOutOfRange`.
pub proof fn index_out_of_range_yields_no_output(call_idx: u32, calls: Seq<CallRecord>)
    requires
        calls_fit(calls),
        call_idx >= calls.len(),
    ensures
        metadata_output(call_list_bytes(call_idx, calls)) == Err::<Seq<u8>, ContractError>(
            ContractError::IndexOutOfRange,
        ),
        instruction_output(call_list_bytes(call_idx, calls)) == Err::<Seq<u8>, ContractError>(
            ContractError::IndexOutOfRange,
        ),
{
    call_list_round_trip(call_idx, calls);
}

/// A byte that names no function is refused in every phase alike: as the
/// selector of the call in hand by the metadata phase and the instruction
/// phase, as the tag of a state update by the apply phase, each time with
/// `UnknownFunction`.
pub proof fn unknown_function_is_refused(
    call_idx: u32,
    calls: Seq<CallRecord>,
    tag_payload: Seq<u8>,
)
    requires
        calls_fit(calls),
        call_idx < calls.len(),
        ContractFunction::spec_from_selector(calls[call_idx as int].selector) is None,
    ensures
        metadata_output(call_list_bytes(call_idx, calls)) == Err::<Seq<u8>, ContractError>(
            ContractError::UnknownFunction,
        ),
        instruction_output(call_list_bytes(call_idx, calls)) == Err::<Seq<u8>, ContractError>(
            ContractError::UnknownFunction,
        ),
        update_outcome(
            state_update_bytes(
                StateUpdateView { function_tag: calls[call_idx as int].selector, tag_payload },
            ),
        ) == Err::<Commit, ContractError>(ContractError::UnknownFunction),
{
    call_list_round_trip(call_idx, calls);
    state_update_round_trip(
        StateUpdateView { function_tag: calls[call_idx as int].selector, tag_payload },
    );
}

/// The instruction phase is a function of its payload: the same bytes give
/// the same state update, byte for byte, or the same failure.
pub proof fn process_instruction_is_deterministic(first: Seq<u8>, second: Seq<u8>)
    requires
        first == second,
    ensures
        instruction_output(first) == instruction_output(second),
{
}

/// The phases fit together: whenever the instruction phase produces a state
/// update, its tag is the selector of the function that the call invoked,
/// and the apply phase accepts exactly those bytes and commits what that
/// function commits. For `Hello` the tag is `Hello`'s selector and the
/// persistent state stays unchanged.
pub proof fn produced_update_applies(ix: Seq<u8>)
    requires
        instruction_output(ix) is Ok,
    ensures
        decoded_call_list(ix) matches Ok(list) && invoked_function(list) matches Ok(function)
            && parse_state_update(instruction_output(ix)->Ok_0) matches Some(update)
            && update.function_tag == function.spec_selector() && update_outcome(
            instruction_output(ix)->Ok_0,
        ) == Ok::<Commit, ContractError>(commit_recipe(function, update)),
        update_outcome(instruction_output(ix)->Ok_0) == Ok::<Commit, ContractError>(
            Commit::Unchanged,
        ),
{
    let list = decoded_call_list(ix)->Ok_0;
    let function = invoked_function(list)->Ok_0;
    state_update_round_trip(update_recipe(function, list.calls[list.call_idx as int]));
}

/// The same for a call list given by its parts: where the call in hand has
/// `Hello`'s selector, the instruction phase produces a state update whose
/// tag is `Hello`'s selector, and the apply phase accepts it and leaves the
/// persistent state unchanged.
pub proof fn hello_update_applies(call_idx: u32, calls: Seq<CallRecord>)
    requires
        calls_fit(calls),
        call_idx < calls.len(),
        calls[call_idx as int].selector == ContractFunction::Hello.spec_selector(),
    ensures
        instruction_output(call_list_bytes(call_idx, calls)) matches Ok(out)
            && parse_state_update(out) matches Some(update) && update.function_tag
            == ContractFunction::Hello.spec_selector() && update_outcome(out) == Ok::<
            Commit,
            ContractError,
        >(Commit::Unchanged),
{
    call_list_round_trip(call_idx, calls);
    produced_update_applies(call_list_bytes(call_idx, calls));
}

} // verus!
