//! Execution core of a contract module driven by a host virtual machine.
//!
//! The host invokes the module once per phase of a call: initialisation,
//! metadata extraction, instruction processing and update application. Every
//! phase is a pure function from the host's byte payload to either what the
//! host is to do next or a typed failure.
//!
//! - [`wire`]: the primitive encodings all payloads are built from.
//! - [`call`]: the call list, the payload of the metadata and instruction
//!   phases.
//! - [`metadata`]: what the metadata phase hands back.
//! - [`update`]: the state update, which the instruction phase hands back
//!   and the apply phase takes.
//! - [`function`]: the functions of the contract and their selectors.
//! - [`entrypoint`]: the phases themselves and their dispatcher.
//! - [`phase`]: the order in which the host leads a call through them.
//! - [`error`]: the failures.

pub mod call;
pub mod entrypoint;
pub mod error;
pub mod function;
pub mod metadata;
pub mod phase;
pub mod update;
pub mod wire;

pub use call::{decode_call_list, encode_call_list, CallList, ContractCall};
pub use entrypoint::{
    apply_update, conclude, dispatch, extract_metadata, get_metadata, init_contract, process_call,
    process_instruction, process_update, Commit, ContractId, Entrypoint, HostAction,
};
pub use error::ContractError;
pub use function::ContractFunction;
pub use metadata::{FieldElement, Metadata, PublicKey, ZkPublicInputs};
pub use phase::CallPhase;
pub use update::StateUpdate;
