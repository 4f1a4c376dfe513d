use hello_contract::{
    apply_update, conclude, dispatch, encode_call_list, extract_metadata, init_contract,
    process_call, CallList, Commit, ContractCall, ContractError, ContractFunction, ContractId,
    Entrypoint, HostAction, Metadata, StateUpdate,
};

fn cid() -> ContractId {
    ContractId::new([1u8; 32])
}

#[test]
fn init_accepts_every_payload() {
    assert_eq!(init_contract(&cid(), &[]), Ok(()));
    assert_eq!(init_contract(&cid(), &[1, 2, 3]), Ok(()));
    assert_eq!(dispatch(Entrypoint::Init, &cid(), &[0xFF; 40]), Ok(HostAction::Nothing));
}

#[test]
fn dispatch_routes_to_the_phase() {
    let ix = encode_call_list(0, &vec![ContractCall { selector: 0, payload: vec![] }]);
    assert_eq!(
        dispatch(Entrypoint::Metadata, &cid(), &ix),
        Ok(HostAction::SetReturnData(vec![0, 0]))
    );
    assert_eq!(dispatch(Entrypoint::Exec, &cid(), &ix), Ok(HostAction::SetReturnData(vec![0])));
    assert_eq!(
        dispatch(Entrypoint::Apply, &cid(), &[0]),
        Ok(HostAction::Commit(Commit::Unchanged))
    );
}

#[test]
fn dispatch_hands_failures_on_unchanged() {
    let unknown = encode_call_list(0, &vec![ContractCall { selector: 1, payload: vec![] }]);
    let empty = encode_call_list(0, &vec![]);
    for entry in [Entrypoint::Metadata, Entrypoint::Exec] {
        assert_eq!(dispatch(entry, &cid(), &unknown), Err(ContractError::UnknownFunction));
        assert_eq!(dispatch(entry, &cid(), &empty), Err(ContractError::IndexOutOfRange));
        assert_eq!(dispatch(entry, &cid(), &[1, 2]), Err(ContractError::Malformed));
    }
    assert_eq!(dispatch(Entrypoint::Apply, &cid(), &[]), Err(ContractError::Malformed));
    assert_eq!(dispatch(Entrypoint::Apply, &cid(), &[1]), Err(ContractError::UnknownFunction));
}

#[test]
fn conclude_reports_the_first_failure() {
    let done = Ok(HostAction::SetReturnData(vec![0]));
    assert_eq!(conclude(&done, true), Ok(()));
    assert_eq!(conclude(&done, false), Err(ContractError::Internal));
    assert_eq!(conclude(&Ok(HostAction::Nothing), true), Ok(()));
    for e in [
        ContractError::Malformed,
        ContractError::IndexOutOfRange,
        ContractError::UnknownFunction,
        ContractError::Internal,
    ] {
        assert_eq!(conclude(&Err(e), true), Err(e));
        assert_eq!(conclude(&Err(e), false), Err(e));
    }
}

#[test]
fn components_work_on_decoded_values() {
    let calls = vec![
        ContractCall { selector: 0, payload: vec![1, 2] },
        ContractCall { selector: 66, payload: vec![] },
    ];
    let hello = CallList::new(0, calls.clone()).unwrap();
    assert_eq!(extract_metadata(&hello), Ok(Metadata::empty()));
    assert_eq!(process_call(&hello), Ok(StateUpdate { function_tag: 0, tag_payload: vec![] }));
    let other = CallList::new(1, calls).unwrap();
    assert_eq!(extract_metadata(&other), Err(ContractError::UnknownFunction));
    assert_eq!(process_call(&other), Err(ContractError::UnknownFunction));

    assert_eq!(
        apply_update(&StateUpdate { function_tag: 0, tag_payload: vec![] }),
        Ok(Commit::Unchanged)
    );
    assert_eq!(
        apply_update(&StateUpdate { function_tag: 0, tag_payload: vec![1] }),
        Ok(Commit::Unchanged)
    );
    assert_eq!(
        apply_update(&StateUpdate { function_tag: 2, tag_payload: vec![] }),
        Err(ContractError::UnknownFunction)
    );
}

#[test]
fn selectors_and_functions_correspond() {
    assert_eq!(ContractFunction::Hello.selector(), 0);
    assert_eq!(ContractFunction::try_from(0u8), Ok(ContractFunction::Hello));
    assert_eq!(ContractFunction::try_from(1u8), Err(ContractError::UnknownFunction));
}

#[test]
fn contract_id_keeps_its_bytes() {
    let mut bytes = [0u8; 32];
    for (i, b) in bytes.iter_mut().enumerate() {
        *b = i as u8;
    }
    assert_eq!(ContractId::new(bytes).to_bytes(), bytes);
}

#[test]
fn every_failure_has_its_diagnostic() {
    assert_eq!(ContractError::IndexOutOfRange.message(), "Error: call_idx >= calls.len()");
    let all = [
        ContractError::Malformed,
        ContractError::IndexOutOfRange,
        ContractError::UnknownFunction,
        ContractError::Internal,
    ];
    for (i, a) in all.iter().enumerate() {
        assert!(a.message().starts_with("Error: "));
        for b in &all[i + 1..] {
            assert_ne!(a.message(), b.message());
        }
    }
}
