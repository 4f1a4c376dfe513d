use hello_contract::{
    conclude, dispatch, encode_call_list, CallPhase, ContractCall, ContractId, Entrypoint,
    HostAction,
};

#[test]
fn a_call_walks_through_its_phases_in_order() {
    let mut phase = CallPhase::Decoded;
    let mut seen = vec![];
    while let Some(entry) = phase.next_entry() {
        assert!(!phase.is_over());
        seen.push(entry);
        phase = phase.after(true);
    }
    assert_eq!(seen, vec![Entrypoint::Metadata, Entrypoint::Exec, Entrypoint::Apply]);
    assert_eq!(phase, CallPhase::Applied);
    assert!(phase.is_over());
}

#[test]
fn a_failure_rejects_from_every_phase() {
    for phase in [CallPhase::Decoded, CallPhase::MetadataComputed, CallPhase::InstructionProcessed]
    {
        assert_eq!(phase.after(false), CallPhase::Rejected);
    }
}

#[test]
fn a_call_that_is_over_stays_over() {
    for phase in [CallPhase::Applied, CallPhase::Rejected] {
        assert!(phase.is_over());
        assert_eq!(phase.next_entry(), None);
        assert_eq!(phase.after(true), phase);
        assert_eq!(phase.after(false), phase);
    }
}

fn drive(ix: &[u8], host_writes: bool) -> CallPhase {
    let cid = ContractId::new([0u8; 32]);
    let mut phase = CallPhase::Decoded;
    let mut update = vec![];
    while let Some(entry) = phase.next_entry() {
        let payload: &[u8] = if entry == Entrypoint::Apply { &update } else { ix };
        let outcome = dispatch(entry, &cid, payload);
        let carried_out = match &outcome {
            Ok(HostAction::SetReturnData(_)) => host_writes,
            _ => true,
        };
        let succeeded = conclude(&outcome, carried_out).is_ok();
        if let (Entrypoint::Exec, Ok(HostAction::SetReturnData(bytes))) = (entry, outcome) {
            update = bytes;
        }
        phase = phase.after(succeeded);
    }
    phase
}

#[test]
fn hello_call_ends_applied() {
    let ix = encode_call_list(0, &vec![ContractCall { selector: 0, payload: vec![] }]);
    assert_eq!(drive(&ix, true), CallPhase::Applied);
}

#[test]
fn a_call_that_fails_anywhere_ends_rejected() {
    let unknown = encode_call_list(0, &vec![ContractCall { selector: 9, payload: vec![] }]);
    assert_eq!(drive(&unknown, true), CallPhase::Rejected);
    assert_eq!(drive(&encode_call_list(0, &vec![]), true), CallPhase::Rejected);
    assert_eq!(drive(&[1, 2, 3], true), CallPhase::Rejected);
    let hello = encode_call_list(0, &vec![ContractCall { selector: 0, payload: vec![] }]);
    assert_eq!(drive(&hello, false), CallPhase::Rejected);
}
