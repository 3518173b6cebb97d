use staging_tx::operation::{Operation, ParsingOperationError};
use staging_tx::staging::{Export, StagingTransaction, StagingTransactionParseError,
    StagingUpdateError};
use staging_tx::transaction::Error;
use staging_tx::types::{Change, Input, Output, StagingId, TxInWitness, TxoPointer};

fn input(tx_byte: u8, index: u32, value: u64) -> Input {
    Input { ptr: TxoPointer { txid: vec![tx_byte; 32], index }, value }
}

fn output(addr: &[u8], value: u64) -> Output {
    Output { address: addr.to_vec(), value }
}

#[test]
fn create_edit_finalize_reopen() {
    let mut st = StagingTransaction::new(764824073);
    st.add_input(input(1, 0, 1000)).unwrap();
    st.add_output(output(b"addr-a", 900)).unwrap();
    st.finalize().unwrap();

    let records = st.records().clone();
    let id = StagingId { bytes: st.id().bytes.clone() };
    let reopened = StagingTransaction::read_from_file(id, records).unwrap();

    assert_eq!(reopened.protocol_magic, 764824073);
    assert_eq!(reopened.operations().len(), 3);
    assert_eq!(reopened.transaction().inputs, vec![input(1, 0, 1000)]);
    assert_eq!(reopened.transaction().outputs, vec![output(b"addr-a", 900)]);
    assert!(reopened.is_finalized());
    assert!(reopened.transaction().signatures.is_empty());
    assert_eq!(reopened.transaction(), st.transaction());
    assert_eq!(reopened.operations(), st.operations());
}

#[test]
fn double_spend_rejected() {
    let mut st = StagingTransaction::new(1);
    st.add_input(input(7, 3, 500)).unwrap();
    let records_before = st.records().clone();

    let r = st.add_input(input(7, 3, 999));
    assert_eq!(
        r,
        Err(StagingUpdateError::TransactionIsInvalidState(Error::DoubleSpend))
    );
    assert_eq!(st.operations().len(), 1);
    assert_eq!(st.transaction().inputs, vec![input(7, 3, 500)]);
    assert_eq!(st.records(), &records_before);
}

#[test]
fn same_txid_different_index_is_no_double_spend() {
    let mut st = StagingTransaction::new(1);
    st.add_input(input(7, 0, 500)).unwrap();
    st.add_input(input(7, 1, 600)).unwrap();
    assert_eq!(st.transaction().inputs.len(), 2);
}

#[test]
fn remove_outputs_for_address() {
    let mut st = StagingTransaction::new(1);
    st.add_output(output(b"A", 1)).unwrap();
    st.add_output(output(b"A", 2)).unwrap();
    st.add_output(output(b"A", 3)).unwrap();
    st.add_output(output(b"B", 4)).unwrap();
    st.remove_outputs_for(&b"A".to_vec()).unwrap();
    assert_eq!(st.transaction().outputs, vec![output(b"B", 4)]);
    // one AddOutput record per add, one RemoveOutput record per removal
    assert_eq!(st.operations().len(), 7);
}

#[test]
fn export_then_import_rebuilds_state() {
    let mut st = StagingTransaction::new(42);
    st.add_input(input(1, 0, 10)).unwrap();
    st.add_input(input(2, 1, 20)).unwrap();
    st.add_output(output(b"dest", 25)).unwrap();
    st.finalize().unwrap();
    st.add_signature(TxInWitness { bytes: vec![9, 9, 9] }).unwrap();
    assert_eq!(st.operations().len(), 5);

    let snapshot = st.export();
    assert_eq!(snapshot.magic, "5452414e53414354494f4e5f5631");
    let imported = StagingTransaction::import(snapshot).unwrap();

    assert_eq!(imported.protocol_magic, 42);
    assert_eq!(imported.transaction().inputs, st.transaction().inputs);
    assert_eq!(imported.transaction().outputs, st.transaction().outputs);
    assert!(imported.is_finalized());
    // change and witnesses are deliberately not re-established
    assert!(imported.transaction().signatures.is_empty());
    // the rebuilt history holds exactly the re-issued operations:
    // two input adds, one output add, one finalize
    assert_eq!(imported.operations().len(), 4);
    assert_eq!(imported.id(), st.id());
}

#[test]
fn import_refuses_duplicated_outpoint() {
    let mut tx = staging_tx::transaction::Transaction::new();
    tx.update_with(&staging_tx::operation::Operation::AddInput(input(5, 0, 1))).unwrap();
    let mut snapshot = Export {
        staging_id: StagingId { bytes: vec![0; 16] },
        magic: String::new(),
        protocol_magic: 1,
        transaction: tx,
    };
    // smuggle a duplicate outpoint into the snapshot behind the validated path
    snapshot.transaction.inputs.push(input(5, 0, 2));
    let r = StagingTransaction::import(snapshot);
    assert_eq!(
        r.err(),
        Some(StagingUpdateError::TransactionIsInvalidState(Error::DoubleSpend))
    );
}

#[test]
fn finalize_locks_structure() {
    let mut st = StagingTransaction::new(1);
    st.add_input(input(1, 0, 10)).unwrap();
    st.add_output(output(b"A", 5)).unwrap();
    st.add_change(Change { address: b"C".to_vec(), value: 1 }).unwrap();
    st.finalize().unwrap();

    let err = Err(StagingUpdateError::TransactionIsInvalidState(Error::FinalizedImmutable));
    assert_eq!(st.add_input(input(2, 0, 10)), err);
    assert_eq!(st.add_output(output(b"B", 5)), err);
    assert_eq!(st.remove_input(TxoPointer { txid: vec![1; 32], index: 0 }), err);
    assert_eq!(st.remove_output(0), err);
    assert_eq!(st.add_change(Change { address: b"D".to_vec(), value: 1 }), err);
    assert_eq!(st.remove_change(b"C".to_vec()), err);
    assert_eq!(
        st.finalize(),
        Err(StagingUpdateError::TransactionIsInvalidState(Error::AlreadyFinalized))
    );
    assert_eq!(st.operations().len(), 4);

    assert!(st.add_signature(TxInWitness { bytes: vec![1, 2] }).unwrap() == ());
    assert_eq!(st.transaction().signatures, vec![TxInWitness { bytes: vec![1, 2] }]);
}

#[test]
fn remove_output_index_bounds() {
    let mut st = StagingTransaction::new(1);
    st.add_output(output(b"A", 5)).unwrap();
    let r = st.remove_output(1);
    assert_eq!(
        r,
        Err(StagingUpdateError::TransactionIsInvalidState(Error::IndexOutOfRange))
    );
    assert_eq!(st.transaction().outputs, vec![output(b"A", 5)]);
    assert_eq!(st.operations().len(), 1);

    st.remove_output(0).unwrap();
    assert!(st.transaction().outputs.is_empty());
}

#[test]
fn remove_input_and_change_targets_must_exist() {
    let mut st = StagingTransaction::new(1);
    let not_found = Err(StagingUpdateError::TransactionIsInvalidState(Error::NotFound));
    assert_eq!(st.remove_input(TxoPointer { txid: vec![3; 32], index: 0 }), not_found);
    assert_eq!(st.remove_change(b"C".to_vec()), not_found);

    st.add_input(input(3, 0, 10)).unwrap();
    st.add_change(Change { address: b"C".to_vec(), value: 7 }).unwrap();
    st.remove_input(TxoPointer { txid: vec![3; 32], index: 0 }).unwrap();
    st.remove_change(b"C".to_vec()).unwrap();
    assert!(st.transaction().inputs.is_empty());
    assert!(st.transaction().change.is_empty());
}

#[test]
fn add_change_replaces_by_address() {
    let mut st = StagingTransaction::new(1);
    st.add_change(Change { address: b"C".to_vec(), value: 7 }).unwrap();
    st.add_change(Change { address: b"C".to_vec(), value: 9 }).unwrap();
    st.add_change(Change { address: b"D".to_vec(), value: 1 }).unwrap();
    assert_eq!(
        st.transaction().change,
        vec![
            Change { address: b"C".to_vec(), value: 9 },
            Change { address: b"D".to_vec(), value: 1 }
        ]
    );
}

#[test]
fn empty_journal_has_no_magic() {
    let r = StagingTransaction::read_from_file(StagingId { bytes: vec![0; 16] }, vec![]);
    assert_eq!(r.err(), Some(StagingTransactionParseError::NoMagic));
}

#[test]
fn wrong_magic_is_echoed_back() {
    let r = StagingTransaction::read_from_file(
        StagingId { bytes: vec![0; 16] },
        vec![vec![1, 2, 3]],
    );
    assert_eq!(r.err(), Some(StagingTransactionParseError::InvalidMagic(vec![1, 2, 3])));
}

#[test]
fn missing_protocol_magic_is_reported() {
    let magic = b"TRANSACTION_V1".to_vec();
    let r = StagingTransaction::read_from_file(StagingId { bytes: vec![0; 16] }, vec![magic]);
    assert_eq!(r.err(), Some(StagingTransactionParseError::MissingProtocolMagic));

    let magic = b"TRANSACTION_V1".to_vec();
    let r = StagingTransaction::read_from_file(
        StagingId { bytes: vec![0; 16] },
        vec![magic, vec![0, 1]],
    );
    assert_eq!(r.err(), Some(StagingTransactionParseError::MissingProtocolMagic));
}

#[test]
fn journal_header_layout() {
    let st = StagingTransaction::new(764824073);
    let records = st.records();
    assert_eq!(records.len(), 2);
    assert_eq!(records[0], b"TRANSACTION_V1".to_vec());
    assert_eq!(records[1], vec![0x2d, 0x96, 0x4a, 0x09]);
}

#[test]
fn replay_rejects_invalid_operation_sequence() {
    let magic = b"TRANSACTION_V1".to_vec();
    let header = vec![0, 0, 0, 1];
    let add = Operation::AddInput(input(1, 0, 5)).serialize();
    let again = Operation::AddInput(input(1, 0, 5)).serialize();
    let r = StagingTransaction::read_from_file(
        StagingId { bytes: vec![0; 16] },
        vec![magic, header, add, again],
    );
    assert_eq!(
        r.err(),
        Some(StagingTransactionParseError::TransactionIsInvalidState(Error::DoubleSpend))
    );
}

#[test]
fn replay_rejects_undecodable_record() {
    let magic = b"TRANSACTION_V1".to_vec();
    let header = vec![0, 0, 0, 1];
    let r = StagingTransaction::read_from_file(
        StagingId { bytes: vec![0; 16] },
        vec![magic, header, vec![99]],
    );
    assert_eq!(
        r.err(),
        Some(StagingTransactionParseError::Operation(ParsingOperationError::UnknownTag(99)))
    );
}

#[test]
fn generated_identities_are_sixteen_bytes() {
    let id = StagingId::generate();
    assert_eq!(id.bytes.len(), 16);
    assert_eq!(id.hex().len(), 32);
}

#[test]
fn destroy_hands_back_the_identity() {
    let st = StagingTransaction::new(1);
    let expected = st.id().bytes.clone();
    let id = st.destroy();
    assert_eq!(id.bytes, expected);
}

#[test]
fn error_messages() {
    let e = StagingUpdateError::TransactionIsInvalidState(Error::DoubleSpend);
    assert_eq!(e.message(), "Invalid operation on transaction");
    assert_eq!(
        StagingTransactionParseError::NoMagic.message(),
        "Staging file is missing its MagicNumber"
    );
    assert_eq!(
        StagingTransactionParseError::InvalidMagic(vec![1]).message(),
        "Invalid magic"
    );
    assert_eq!(
        StagingTransactionParseError::MissingProtocolMagic.message(),
        "Staging file is missing the protocol magic"
    );
}
