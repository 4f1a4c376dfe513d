use hello_contract::{
    decode_call_list, encode_call_list, get_metadata, process_instruction, process_update, Commit,
    ContractCall, ContractError, ContractFunction, ContractId, Metadata, StateUpdate,
};

fn cid() -> ContractId {
    ContractId::new([7u8; 32])
}

fn hello_call() -> ContractCall {
    ContractCall { selector: ContractFunction::Hello.selector(), payload: vec![] }
}

#[test]
fn hello_call_list_goes_through_all_phases() {
    let ix = encode_call_list(0, &vec![hello_call()]);

    let metadata = get_metadata(&cid(), &ix).unwrap();
    assert_eq!(metadata, vec![0u8, 0]);
    let decoded = Metadata::decode(&metadata).unwrap();
    assert!(decoded.zk_public_inputs.is_empty());
    assert!(decoded.signature_pubkeys.is_empty());

    let update = process_instruction(&cid(), &ix).unwrap();
    assert_eq!(update, vec![0u8]);
    let decoded = StateUpdate::decode(&update).unwrap();
    assert_eq!(decoded.function_tag, ContractFunction::Hello.selector());
    assert!(decoded.tag_payload.is_empty());

    assert_eq!(process_update(&cid(), &update), Ok(Commit::Unchanged));
}

#[test]
fn hello_call_list_bytes_are_exact() {
    let ix = encode_call_list(0, &vec![hello_call()]);
    // index 0 in four bytes, one call, one byte of data: the selector.
    assert_eq!(ix, vec![0u8, 0, 0, 0, 1, 1, 0]);
}

#[test]
fn empty_call_list_is_index_out_of_range() {
    let ix = encode_call_list(0, &vec![]);
    assert_eq!(ix, vec![0u8, 0, 0, 0, 0]);
    assert_eq!(get_metadata(&cid(), &ix), Err(ContractError::IndexOutOfRange));
    assert_eq!(process_instruction(&cid(), &ix), Err(ContractError::IndexOutOfRange));
    assert_eq!(decode_call_list(&ix), Err(ContractError::IndexOutOfRange));
}

#[test]
fn selector_255_is_unknown_function() {
    let ix = encode_call_list(0, &vec![ContractCall { selector: 255, payload: vec![] }]);
    assert_eq!(get_metadata(&cid(), &ix), Err(ContractError::UnknownFunction));
    assert_eq!(process_instruction(&cid(), &ix), Err(ContractError::UnknownFunction));
    let update = StateUpdate { function_tag: 255, tag_payload: vec![] }.encode();
    assert_eq!(process_update(&cid(), &update), Err(ContractError::UnknownFunction));
}

#[test]
fn every_unknown_byte_is_refused_in_every_phase() {
    for byte in 1u8..=255 {
        assert_eq!(ContractFunction::try_from(byte), Err(ContractError::UnknownFunction));
        let ix = encode_call_list(0, &vec![ContractCall { selector: byte, payload: vec![9, 9] }]);
        assert_eq!(get_metadata(&cid(), &ix), Err(ContractError::UnknownFunction));
        assert_eq!(process_instruction(&cid(), &ix), Err(ContractError::UnknownFunction));
        assert_eq!(process_update(&cid(), &[byte, 1, 2]), Err(ContractError::UnknownFunction));
    }
}

#[test]
fn index_at_or_past_the_end_is_refused() {
    let calls = vec![hello_call(), hello_call(), hello_call()];
    for call_idx in [3u32, 4, 100, u32::MAX] {
        let ix = encode_call_list(call_idx, &calls);
        assert_eq!(decode_call_list(&ix), Err(ContractError::IndexOutOfRange));
        assert_eq!(get_metadata(&cid(), &ix), Err(ContractError::IndexOutOfRange));
        assert_eq!(process_instruction(&cid(), &ix), Err(ContractError::IndexOutOfRange));
    }
    for call_idx in [0u32, 1, 2] {
        let ix = encode_call_list(call_idx, &calls);
        assert!(get_metadata(&cid(), &ix).is_ok());
    }
}

#[test]
fn the_selected_call_decides_not_its_neighbours() {
    let calls = vec![
        ContractCall { selector: 200, payload: vec![1] },
        hello_call(),
        ContractCall { selector: 201, payload: vec![] },
    ];
    assert_eq!(
        process_instruction(&cid(), &encode_call_list(0, &calls)),
        Err(ContractError::UnknownFunction)
    );
    assert_eq!(process_instruction(&cid(), &encode_call_list(1, &calls)), Ok(vec![0u8]));
    assert_eq!(
        get_metadata(&cid(), &encode_call_list(2, &calls)),
        Err(ContractError::UnknownFunction)
    );
}

#[test]
fn instruction_phase_is_deterministic() {
    let ix = encode_call_list(1, &vec![ContractCall { selector: 3, payload: vec![] }, hello_call()]);
    let again = ix.clone();
    assert_eq!(process_instruction(&cid(), &ix), process_instruction(&cid(), &again));
    assert_eq!(process_instruction(&cid(), &ix), Ok(vec![0u8]));
    // The contract identity plays no part.
    assert_eq!(
        process_instruction(&ContractId::new([0u8; 32]), &ix),
        process_instruction(&ContractId::new([255u8; 32]), &ix)
    );
}

#[test]
fn hello_update_carries_hello_tag_and_applies() {
    for payload in [vec![], vec![1u8], vec![0u8; 300]] {
        let ix = encode_call_list(0, &vec![ContractCall { selector: 0, payload }]);
        let update = process_instruction(&cid(), &ix).unwrap();
        let decoded = StateUpdate::decode(&update).unwrap();
        assert_eq!(decoded.function_tag, ContractFunction::Hello.selector());
        assert_eq!(process_update(&cid(), &update), Ok(Commit::Unchanged));
    }
}
