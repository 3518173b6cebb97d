use staging_tx::codec;
use staging_tx::operation::{Operation, ParsingOperationError};
use staging_tx::types::{Change, Input, Output, StagingId, TxInWitness, TxoPointer};

fn round_trip(op: Operation) -> Operation {
    let bytes = op.serialize();
    Operation::deserialize(&bytes).unwrap()
}

#[test]
fn add_input_round_trips() {
    let op = Operation::AddInput(Input {
        ptr: TxoPointer { txid: vec![0xab; 32], index: 4 },
        value: 123456789,
    });
    assert_eq!(round_trip(op.clone()), op);
}

#[test]
fn remove_input_round_trips() {
    let op = Operation::RemoveInput(TxoPointer { txid: vec![1, 2, 3], index: 0 });
    assert_eq!(round_trip(op.clone()), op);
}

#[test]
fn add_output_round_trips() {
    let op = Operation::AddOutput(Output { address: b"somewhere".to_vec(), value: 7 });
    assert_eq!(round_trip(op.clone()), op);
}

#[test]
fn remove_output_round_trips() {
    let op = Operation::RemoveOutput(11);
    assert_eq!(round_trip(op.clone()), op);
}

#[test]
fn add_change_round_trips() {
    let op = Operation::AddChange(Change { address: b"back".to_vec(), value: 55 });
    assert_eq!(round_trip(op.clone()), op);
}

#[test]
fn remove_change_round_trips() {
    let op = Operation::RemoveChange(b"back".to_vec());
    assert_eq!(round_trip(op.clone()), op);
}

#[test]
fn finalize_round_trips() {
    let op = Operation::Finalize;
    assert_eq!(round_trip(op.clone()), op);
}

#[test]
fn signature_round_trips() {
    let op = Operation::Signature(TxInWitness { bytes: vec![0, 255, 0, 255] });
    assert_eq!(round_trip(op.clone()), op);
}

#[test]
fn empty_record_is_rejected() {
    assert_eq!(
        Operation::deserialize(&vec![]),
        Err(ParsingOperationError::EmptyRecord)
    );
}

#[test]
fn unknown_tag_is_rejected() {
    assert_eq!(
        Operation::deserialize(&vec![200, 1, 2]),
        Err(ParsingOperationError::UnknownTag(200))
    );
}

#[test]
fn truncated_record_is_rejected() {
    let mut bytes = Operation::AddOutput(Output { address: b"x".to_vec(), value: 1 }).serialize();
    bytes.pop();
    assert_eq!(
        Operation::deserialize(&bytes),
        Err(ParsingOperationError::MalformedPayload)
    );
}

#[test]
fn trailing_garbage_is_rejected() {
    let mut bytes = Operation::Finalize.serialize();
    bytes.push(0);
    assert_eq!(
        Operation::deserialize(&bytes),
        Err(ParsingOperationError::MalformedPayload)
    );
}

#[test]
fn overrunning_length_prefix_is_rejected() {
    // a signature record whose length prefix claims more bytes than follow
    let mut bytes = vec![8u8];
    bytes.extend_from_slice(&[0, 0, 0, 0, 0, 0, 0, 9]);
    bytes.extend_from_slice(&[1, 2, 3]);
    assert_eq!(
        Operation::deserialize(&bytes),
        Err(ParsingOperationError::MalformedPayload)
    );
}

#[test]
fn finalize_encodes_to_its_bare_tag() {
    assert_eq!(Operation::Finalize.serialize(), vec![7]);
}

#[test]
fn signature_record_layout() {
    let bytes = Operation::Signature(TxInWitness { bytes: vec![0xaa, 0xbb] }).serialize();
    assert_eq!(bytes, vec![8, 0, 0, 0, 0, 0, 0, 0, 2, 0xaa, 0xbb]);
}

#[test]
fn big_endian_helpers() {
    let mut out = Vec::new();
    codec::push_u32_be(&mut out, 0x01020304);
    assert_eq!(out, vec![1, 2, 3, 4]);
    assert_eq!(codec::read_u32_be(&out, 0), 0x01020304);

    let mut out = Vec::new();
    codec::push_u64_be(&mut out, 0x0102030405060708);
    assert_eq!(out, vec![1, 2, 3, 4, 5, 6, 7, 8]);
    assert_eq!(codec::read_u64_be(&out, 0), 0x0102030405060708);
}

#[test]
fn hex_rendering() {
    assert_eq!(codec::hex_encode(&vec![0xde, 0xad, 0xbe, 0xef]), "deadbeef");
    assert_eq!(codec::hex_encode(&vec![]), "");
    assert_eq!(StagingId { bytes: vec![0x00, 0x0f] }.hex(), "000f");
}

#[test]
fn bytes_eq_compares_contents() {
    assert!(codec::bytes_eq(&vec![1, 2], &vec![1, 2]));
    assert!(!codec::bytes_eq(&vec![1, 2], &vec![1, 3]));
    assert!(!codec::bytes_eq(&vec![1, 2], &vec![1, 2, 3]));
}
