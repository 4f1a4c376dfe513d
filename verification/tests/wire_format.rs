use hello_contract::{
    decode_call_list, encode_call_list, CallList, ContractCall, ContractError, Metadata,
    StateUpdate, ZkPublicInputs,
};

fn call(selector: u8, payload: Vec<u8>) -> ContractCall {
    ContractCall { selector, payload }
}

#[test]
fn call_list_round_trip() {
    let calls = vec![call(0, vec![]), call(9, vec![1, 2, 3]), call(255, vec![0; 1000])];
    for call_idx in 0u32..3 {
        let bytes = encode_call_list(call_idx, &calls);
        let list = decode_call_list(&bytes).unwrap();
        assert_eq!(list.call_idx(), call_idx);
        assert_eq!(list.calls(), &calls);
        assert_eq!(list.selected(), &calls[call_idx as usize]);
        assert_eq!(list.encode(), bytes);
        assert_eq!(list, CallList::new(call_idx, calls.clone()).unwrap());
    }
}

#[test]
fn call_list_new_checks_the_index() {
    assert_eq!(CallList::new(0, vec![]), Err(ContractError::IndexOutOfRange));
    assert_eq!(CallList::new(1, vec![call(0, vec![])]), Err(ContractError::IndexOutOfRange));
    assert!(CallList::new(0, vec![call(0, vec![])]).is_ok());
}

#[test]
fn call_index_is_four_bytes_least_significant_first() {
    let calls: Vec<ContractCall> = vec![];
    assert_eq!(encode_call_list(0x0102_0304, &calls), vec![4u8, 3, 2, 1, 0]);
    assert_eq!(encode_call_list(u32::MAX, &calls), vec![255u8, 255, 255, 255, 0]);
    assert_eq!(encode_call_list(256, &calls), vec![0u8, 1, 0, 0, 0]);
}

#[test]
fn call_index_is_read_least_significant_first() {
    let mut calls = vec![];
    for _ in 0..0x0201 {
        calls.push(call(0, vec![]));
    }
    let mut bytes = encode_call_list(0, &calls);
    bytes[0] = 0x00;
    bytes[1] = 0x02;
    let list = decode_call_list(&bytes).unwrap();
    assert_eq!(list.call_idx(), 0x0200);
    bytes[0] = 0x01;
    assert_eq!(decode_call_list(&bytes), Err(ContractError::IndexOutOfRange));
}

#[test]
fn lengths_take_the_shortest_form() {
    // 0xFC bytes of data: one length byte.
    let bytes = encode_call_list(0, &vec![call(0, vec![5; 0xFB])]);
    assert_eq!(&bytes[..7], &[0u8, 0, 0, 0, 1, 0xFC, 0]);
    assert_eq!(bytes.len(), 4 + 1 + 1 + 0xFC);
    // 0xFD bytes of data: marker and two bytes.
    let bytes = encode_call_list(0, &vec![call(0, vec![5; 0xFC])]);
    assert_eq!(&bytes[..9], &[0u8, 0, 0, 0, 1, 0xFD, 0xFD, 0x00, 0]);
    assert_eq!(bytes.len(), 4 + 1 + 3 + 0xFD);
    // 0x1_0000 bytes of data: marker and four bytes.
    let bytes = encode_call_list(0, &vec![call(0, vec![5; 0xFFFF])]);
    assert_eq!(&bytes[..11], &[0u8, 0, 0, 0, 1, 0xFE, 0x00, 0x00, 0x01, 0x00, 0]);
    assert_eq!(bytes.len(), 4 + 1 + 5 + 0x1_0000);
    let list = decode_call_list(&bytes).unwrap();
    assert_eq!(list.selected().payload.len(), 0xFFFF);
    // 253 calls: the count itself takes the marker and two bytes.
    let mut calls = vec![];
    for _ in 0..253 {
        calls.push(call(1, vec![]));
    }
    let bytes = encode_call_list(252, &calls);
    assert_eq!(&bytes[..9], &[252u8, 0, 0, 0, 0xFD, 0xFD, 0x00, 1, 1]);
    assert_eq!(decode_call_list(&bytes).unwrap().calls().len(), 253);
}

#[test]
fn longer_forms_of_a_length_are_malformed() {
    // One call, data length 1 written with the two-byte form.
    let bytes = vec![0u8, 0, 0, 0, 1, 0xFD, 0x01, 0x00, 0];
    assert_eq!(decode_call_list(&bytes), Err(ContractError::Malformed));
    // Count 1 written with the four-byte form.
    let bytes = vec![0u8, 0, 0, 0, 0xFE, 1, 0, 0, 0, 1, 0];
    assert_eq!(decode_call_list(&bytes), Err(ContractError::Malformed));
    // Count 1 written with the eight-byte form.
    let bytes = vec![0u8, 0, 0, 0, 0xFF, 1, 0, 0, 0, 0, 0, 0, 0, 1, 0];
    assert_eq!(decode_call_list(&bytes), Err(ContractError::Malformed));
    // The shortest form of the same list decodes.
    let bytes = vec![0u8, 0, 0, 0, 1, 1, 0];
    assert!(decode_call_list(&bytes).is_ok());
}

#[test]
fn truncated_and_overlong_payloads_are_malformed() {
    let good = encode_call_list(0, &vec![call(0, vec![1, 2, 3]), call(4, vec![])]);
    assert!(decode_call_list(&good).is_ok());
    for cut in 0..good.len() {
        assert_eq!(decode_call_list(&good[..cut]), Err(ContractError::Malformed), "cut at {}", cut);
    }
    let mut long = good.clone();
    long.push(0);
    assert_eq!(decode_call_list(&long), Err(ContractError::Malformed));
}

#[test]
fn a_count_that_promises_more_than_is_there_is_malformed() {
    // Eight-byte count of 2^32 calls, none present.
    let bytes = vec![0u8, 0, 0, 0, 0xFF, 0, 0, 0, 0, 1, 0, 0, 0];
    assert_eq!(decode_call_list(&bytes), Err(ContractError::Malformed));
    // Data length of 2^64 - 1 with three bytes behind it.
    let bytes = vec![0u8, 0, 0, 0, 1, 0xFF, 255, 255, 255, 255, 255, 255, 255, 255, 0, 0, 0];
    assert_eq!(decode_call_list(&bytes), Err(ContractError::Malformed));
}

#[test]
fn a_call_without_selector_is_malformed() {
    // One call whose data is empty.
    let bytes = vec![0u8, 0, 0, 0, 1, 0];
    assert_eq!(decode_call_list(&bytes), Err(ContractError::Malformed));
    // Malformed comes before the index is looked at.
    let bytes = vec![9u8, 0, 0, 0, 1, 0];
    assert_eq!(decode_call_list(&bytes), Err(ContractError::Malformed));
}

#[test]
fn state_update_round_trip() {
    for update in [
        StateUpdate { function_tag: 0, tag_payload: vec![] },
        StateUpdate { function_tag: 7, tag_payload: vec![1, 2, 3] },
        StateUpdate { function_tag: 255, tag_payload: vec![0; 500] },
    ] {
        let bytes = update.encode();
        assert_eq!(bytes[0], update.function_tag);
        assert_eq!(&bytes[1..], &update.tag_payload[..]);
        assert_eq!(StateUpdate::decode(&bytes), Ok(update));
    }
}

#[test]
fn state_update_without_tag_is_malformed() {
    assert_eq!(StateUpdate::decode(&[]), Err(ContractError::Malformed));
    assert_eq!(hello_contract::process_update(
        &hello_contract::ContractId::new([0u8; 32]),
        &[],
    ), Err(ContractError::Malformed));
}

fn sample_metadata() -> Metadata {
    Metadata {
        zk_public_inputs: vec![
            ZkPublicInputs { circuit_name: "Mint".to_string(), field_elements: vec![[1u8; 32], [2u8; 32]] },
            ZkPublicInputs { circuit_name: "Bürn ✓".to_string(), field_elements: vec![] },
        ],
        signature_pubkeys: vec![[9u8; 32]],
    }
}

#[test]
fn metadata_round_trip() {
    for metadata in [Metadata::empty(), sample_metadata()] {
        let bytes = metadata.encode();
        assert_eq!(Metadata::decode(&bytes), Ok(metadata));
    }
}

#[test]
fn metadata_bytes_are_exact() {
    assert_eq!(Metadata::empty().encode(), vec![0u8, 0]);
    let metadata = Metadata {
        zk_public_inputs: vec![ZkPublicInputs {
            circuit_name: "ab".to_string(),
            field_elements: vec![[3u8; 32]],
        }],
        signature_pubkeys: vec![[4u8; 32], [5u8; 32]],
    };
    let mut expected = vec![1u8, 2, b'a', b'b', 1];
    expected.extend_from_slice(&[3u8; 32]);
    expected.push(2);
    expected.extend_from_slice(&[4u8; 32]);
    expected.extend_from_slice(&[5u8; 32]);
    assert_eq!(metadata.encode(), expected);
}

#[test]
fn metadata_with_a_broken_part_is_malformed() {
    let good = sample_metadata().encode();
    for cut in 0..good.len() {
        assert_eq!(Metadata::decode(&good[..cut]), Err(ContractError::Malformed), "cut at {}", cut);
    }
    let mut long = good.clone();
    long.push(0);
    assert_eq!(Metadata::decode(&long), Err(ContractError::Malformed));
    // A circuit name that is not UTF-8.
    let bytes = vec![1u8, 2, 0xC3, 0x28, 0, 0];
    assert_eq!(Metadata::decode(&bytes), Err(ContractError::Malformed));
    // The same with a name that is.
    let bytes = vec![1u8, 2, 0xC3, 0xBC, 0, 0];
    let metadata = Metadata::decode(&bytes).unwrap();
    assert_eq!(metadata.zk_public_inputs[0].circuit_name, "ü");
}
