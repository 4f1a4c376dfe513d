use darkfi_serial::{deserialize, serialize};
use hello_contract::{
    decode_call_list, encode_call_list, ContractCall, Metadata, StateUpdate, ZkPublicInputs,
};

fn data_of(call: &ContractCall) -> Vec<u8> {
    let mut data = vec![call.selector];
    data.extend_from_slice(&call.payload);
    data
}

#[test]
fn call_list_bytes_are_what_darkfi_serial_writes() {
    let calls = vec![
        ContractCall { selector: 0, payload: vec![] },
        ContractCall { selector: 17, payload: vec![1, 2, 3] },
        ContractCall { selector: 255, payload: vec![8; 70000] },
    ];
    let as_data: Vec<Vec<u8>> = calls.iter().map(data_of).collect();
    for call_idx in [0u32, 1, 2, 3, 0xDEAD_BEEF] {
        assert_eq!(encode_call_list(call_idx, &calls), serialize(&(call_idx, as_data.clone())));
    }
}

#[test]
fn call_list_reads_what_darkfi_serial_reads() {
    let bytes = serialize(&(1u32, vec![vec![0u8], vec![5u8, 6, 7]]));
    let (call_idx, data): (u32, Vec<Vec<u8>>) = deserialize(&bytes).unwrap();
    let list = decode_call_list(&bytes).unwrap();
    assert_eq!(list.call_idx(), call_idx);
    let read: Vec<Vec<u8>> = list.calls().iter().map(data_of).collect();
    assert_eq!(read, data);
}

#[test]
fn metadata_bytes_are_what_darkfi_serial_writes() {
    let groups: Vec<(String, Vec<[u8; 32]>)> =
        vec![("Mint_V1".to_string(), vec![[1u8; 32], [2u8; 32]]), ("Burn_V1".to_string(), vec![])];
    let keys: Vec<[u8; 32]> = vec![[3u8; 32]];
    let mut expected = serialize(&groups);
    expected.extend_from_slice(&serialize(&keys));

    let metadata = Metadata {
        zk_public_inputs: groups
            .iter()
            .map(|(name, elements)| ZkPublicInputs {
                circuit_name: name.clone(),
                field_elements: elements.clone(),
            })
            .collect(),
        signature_pubkeys: keys,
    };
    assert_eq!(metadata.encode(), expected);
    assert_eq!(Metadata::decode(&expected), Ok(metadata));
}

#[test]
fn state_update_of_hello_is_one_written_byte() {
    let update = StateUpdate { function_tag: 0, tag_payload: vec![] };
    assert_eq!(update.encode(), serialize(&0u8));
}
