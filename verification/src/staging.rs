//! The staging transaction orchestrator: an identity, a protocol magic, an
//! append-ordered operation history, the derived transaction state, and the
//! journal's record sequence. Every accepted edit appends exactly one record
//! to the journal; a refused edit changes nothing. Replaying the journal's
//! records reproduces the in-memory state, which the replay-determinism law
//! at the bottom of this module proves once and for all.
//!
//! The durable side of the journal (the append-only file and its advisory
//! lock) is the storage layer's business; this module works on the record
//! sequence itself and hands it out for the storage layer to persist.

use vstd::prelude::*;

use crate::codec::{
    bytes_eq, hex_encode, hex_str, lemma_u32_be_round_trip, push_u32_be, read_u32_be, u32_be_bytes,
    u32_from_be_bytes,
};
use crate::operation::{
    spec_decode, spec_encode, Operation, OperationV, ParsingOperationError, lemma_codec_round_trip,
};
use crate::transaction::{
    empty_tx, has_input, inputs_distinct, spec_apply, Error, Transaction, TransactionV,
};
use crate::types::{clone_bytes, clone_input, clone_output, Change, Input, Output, OutputV,
    StagingId, TxInWitness, TxoPointer, STAGING_ID_LEN};

verus! {

/// The fixed byte token that opens every journal: the ASCII characters of
/// `TRANSACTION_V1`, identifying the format and its version.
pub open spec fn magic_seq() -> Seq<u8> {
    seq![84u8, 82u8, 65u8, 78u8, 83u8, 65u8, 67u8, 84u8, 73u8, 79u8, 78u8, 95u8, 86u8, 49u8]
}

/// The magic token as a fresh record.
pub fn magic_record() -> (r: Vec<u8>)
    ensures
        r@ == magic_seq(),
{
    let r = vec![84u8, 82u8, 65u8, 78u8, 83u8, 65u8, 67u8, 84u8, 73u8, 79u8, 78u8, 95u8, 86u8, 49u8];
    proof {
        assert(r@ =~= magic_seq());
    }
    r
}

/// Why an edit was refused. A refused edit appends nothing and changes
/// nothing; the staging transaction stays usable.
#[derive(Clone, Copy, Debug, PartialEq, Eq, Structural)]
pub enum StagingUpdateError {
    /// The transaction state machine refused the operation.
    TransactionIsInvalidState(Error),
}

impl StagingUpdateError {
    /// The message shown for this refusal.
    pub open spec fn spec_message(self) -> Seq<char> {
        "Invalid operation on transaction"@
    }

    /// Renders the refusal for display.
    pub fn message(&self) -> (r: String)
        ensures
            r@ == self.spec_message(),
    {
        "Invalid operation on transaction".to_owned()
    }
}

/// Why a journal could not be replayed into a staging transaction. Any of
/// these aborts the open: a journal that fails to replay is unusable as a
/// whole, there is no partial recovery.
#[derive(Clone, Debug, PartialEq, Eq)]
pub enum StagingTransactionParseError {
    /// The journal holds no record at all, not even the magic token.
    NoMagic,
    /// The journal's first record is not the expected magic token; the
    /// offending bytes are carried for diagnostics.
    InvalidMagic(Vec<u8>),
    /// The protocol-magic header record is absent, or too short to hold the
    /// four-byte network identifier.
    MissingProtocolMagic,
    /// A record failed to decode into an operation.
    Operation(ParsingOperationError),
    /// A decoded operation was refused by the state machine during replay.
    TransactionIsInvalidState(Error),
}

impl StagingTransactionParseError {
    /// The message shown for this replay failure.
    pub open spec fn spec_message(self) -> Seq<char> {
        match self {
            StagingTransactionParseError::NoMagic => "Staging file is missing its MagicNumber"@,
            StagingTransactionParseError::InvalidMagic(_) => "Invalid magic"@,
            StagingTransactionParseError::MissingProtocolMagic => (
            "Staging file is missing the protocol magic"@),
            StagingTransactionParseError::Operation(_) => (
            "Error in the sequence of operation in the staging transaction file"@),
            StagingTransactionParseError::TransactionIsInvalidState(_) => (
            "The staging transaction is in an invalid state"@),
        }
    }

    /// Renders the replay failure for display.
    pub fn message(&self) -> (r: String)
        ensures
            r@ == self.spec_message(),
    {
        match self {
            StagingTransactionParseError::NoMagic => "Staging file is missing its MagicNumber".to_owned(),
            StagingTransactionParseError::InvalidMagic(_) => "Invalid magic".to_owned(),
            StagingTransactionParseError::MissingProtocolMagic => (
            "Staging file is missing the protocol magic".to_owned()),
            StagingTransactionParseError::Operation(_) => (
            "Error in the sequence of operation in the staging transaction file".to_owned()),
            StagingTransactionParseError::TransactionIsInvalidState(_) => (
            "The staging transaction is in an invalid state".to_owned()),
        }
    }
}

/// Mathematical value of a [`StagingTransactionParseError`].
#[verifier::ext_equal]
pub enum ParseErrorV {
    NoMagic,
    InvalidMagic(Seq<u8>),
    MissingProtocolMagic,
    Operation(ParsingOperationError),
    TransactionIsInvalidState(Error),
}

impl View for StagingTransactionParseError {
    type V = ParseErrorV;

    open spec fn view(&self) -> ParseErrorV {
        match self {
            StagingTransactionParseError::NoMagic => ParseErrorV::NoMagic,
            StagingTransactionParseError::InvalidMagic(b) => ParseErrorV::InvalidMagic(b@),
            StagingTransactionParseError::MissingProtocolMagic => ParseErrorV::MissingProtocolMagic,
            StagingTransactionParseError::Operation(e) => ParseErrorV::Operation(*e),
            StagingTransactionParseError::TransactionIsInvalidState(e) => (
            ParseErrorV::TransactionIsInvalidState(*e)),
        }
    }
}

/// What a successful replay of a journal yields.
#[verifier::ext_equal]
pub struct ReplayV {
    pub protocol_magic: u32,
    pub operations: Seq<OperationV>,
    pub transaction: TransactionV,
}

/// The state reached by applying `ops` in order from `t`, or the first
/// error.
pub open spec fn spec_apply_all(t: TransactionV, ops: Seq<OperationV>) -> Result<
    TransactionV,
    Error,
>
    decreases ops.len(),
{
    if ops.len() == 0 {
        Ok(t)
    } else {
        match spec_apply(t, ops[0]) {
            Ok(t2) => spec_apply_all(t2, ops.skip(1)),
            Err(e) => Err(e),
        }
    }
}

/// Replays the records from position `i` onward, from state `t`, with `ops`
/// already accumulated.
pub open spec fn spec_replay_ops(
    records: Seq<Vec<u8>>,
    i: int,
    pm: u32,
    ops: Seq<OperationV>,
    t: TransactionV,
) -> Result<ReplayV, ParseErrorV>
    decreases records.len() - i,
{
    if i < 0 || i >= records.len() {
        Ok(ReplayV { protocol_magic: pm, operations: ops, transaction: t })
    } else {
        match spec_decode(records[i]@) {
            Err(e) => Err(ParseErrorV::Operation(e)),
            Ok(op) => match spec_apply(t, op) {
                Err(e) => Err(ParseErrorV::TransactionIsInvalidState(e)),
                Ok(t2) => spec_replay_ops(records, i + 1, pm, ops.push(op), t2),
            },
        }
    }
}

/// What a journal's record sequence replays to: the magic token, the
/// protocol-magic header, then every operation record decoded and applied in
/// order; or the first reason the journal is unusable.
pub open spec fn spec_replay(records: Seq<Vec<u8>>) -> Result<ReplayV, ParseErrorV> {
    if records.len() == 0 {
        Err(ParseErrorV::NoMagic)
    } else if records[0]@ != magic_seq() {
        Err(ParseErrorV::InvalidMagic(records[0]@))
    } else if records.len() == 1 || records[1]@.len() < 4 {
        Err(ParseErrorV::MissingProtocolMagic)
    } else {
        spec_replay_ops(
            records,
            2,
            u32_from_be_bytes(records[1]@.subrange(0, 4)),
            Seq::empty(),
            empty_tx(),
        )
    }
}

/// A staging transaction: the aggregate binding an identity, the protocol
/// magic it was created against, the operation history, the derived
/// transaction state, and the journal's record sequence.
pub struct StagingTransaction {
    /// The unique identity addressing this staging transaction's journal.
    pub id: StagingId,
    /// The network identifier the staging transaction was created against.
    pub protocol_magic: u32,
    /// The append-ordered history of accepted operations.
    pub operations: Vec<Operation>,
    /// The transaction under construction, derived from the history.
    pub transaction: Transaction,
    /// The journal's records: the magic token, the protocol-magic header,
    /// then one record per accepted operation, in order.
    pub journal: Vec<Vec<u8>>,
}

/// What holds of an edit once it returns: on success the state steps by the
/// transition table and exactly one record, the operation's own encoding, is
/// appended to journal and history; on an error everything is exactly as
/// before.
pub open spec fn edit_post(
    pre: StagingTransaction,
    post: StagingTransaction,
    op: Operation,
    r: Result<(), StagingUpdateError>,
) -> bool {
    match spec_apply(pre.transaction@, op@) {
        Ok(t) => {
            &&& r == Ok::<(), StagingUpdateError>(())
            &&& post.transaction@ == t
            &&& post.operations@ == pre.operations@.push(op)
            &&& post.journal@.len() == pre.journal@.len() + 1
            &&& post.journal@.take(pre.journal@.len() as int) == pre.journal@
            &&& post.journal@.last()@ == spec_encode(op@)
        },
        Err(e) => {
            &&& r == Err::<(), StagingUpdateError>(StagingUpdateError::TransactionIsInvalidState(e))
            &&& post == pre
        },
    }
}

impl StagingTransaction {
    /// The operation history as mathematical values.
    pub open spec fn ops_v(self) -> Seq<OperationV> {
        self.operations.deep_view()
    }

    /// The aggregate's invariant: the journal opens with the magic token and
    /// the protocol-magic header, every further record decodes to the
    /// operation at the same history position, and the transaction state is
    /// exactly the history applied in order to the empty state.
    pub open spec fn wf(self) -> bool {
        &&& self.journal@.len() == 2 + self.operations@.len()
        &&& self.journal@[0]@ == magic_seq()
        &&& self.journal@[1]@.len() >= 4
        &&& u32_from_be_bytes(self.journal@[1]@.subrange(0, 4)) == self.protocol_magic
        &&& forall|i: int|
            0 <= i < self.operations@.len() ==> spec_decode(self.journal@[i + 2]@) == Ok::<
                OperationV,
                ParsingOperationError,
            >(self.ops_v()[i])
        &&& spec_apply_all(empty_tx(), self.ops_v()) == Ok::<TransactionV, Error>(
            self.transaction@,
        )
        &&& self.transaction@.wf()
    }

    /// Builds a fresh staging transaction under the given identity: empty
    /// history, empty transaction, and a journal holding the magic token and
    /// the protocol-magic header.
    pub fn new_with(protocol_magic: u32, id: StagingId) -> (r: StagingTransaction)
        ensures
            r.wf(),
            r.id == id,
            r.protocol_magic == protocol_magic,
            r.operations@.len() == 0,
            r.transaction@ == empty_tx(),
            r.journal@.len() == 2,
            r.journal@[0]@ == magic_seq(),
            r.journal@[1]@ == u32_be_bytes(protocol_magic),
    {
        let mut journal: Vec<Vec<u8>> = Vec::new();
        journal.push(magic_record());
        let mut header: Vec<u8> = Vec::new();
        push_u32_be(&mut header, protocol_magic);
        journal.push(header);
        let r = StagingTransaction {
            id,
            protocol_magic,
            operations: Vec::new(),
            transaction: Transaction::new(),
            journal,
        };
        proof {
            lemma_u32_be_round_trip(protocol_magic);
            assert(r.journal@[1]@.subrange(0, 4) =~= u32_be_bytes(protocol_magic));
            assert(r.ops_v() =~= Seq::<OperationV>::empty());
        }
        r
    }

    /// Creates a staging transaction under a freshly generated identity.
    pub fn new(protocol_magic: u32) -> (r: StagingTransaction)
        ensures
            r.wf(),
            r.id.bytes@.len() == STAGING_ID_LEN,
            r.protocol_magic == protocol_magic,
            r.operations@.len() == 0,
            r.transaction@ == empty_tx(),
            r.journal@.len() == 2,
    {
        let id = StagingId::generate();
        Self::new_with(protocol_magic, id)
    }

    /// The identity of this staging transaction.
    pub fn id(&self) -> (r: &StagingId)
        ensures
            r == &self.id,
    {
        &self.id
    }

    /// The accepted operations, in append order. Mutation goes only through
    /// the validated edit path, which keeps the journal in step.
    pub fn operations(&self) -> (r: &Vec<Operation>)
        ensures
            r == &self.operations,
    {
        &self.operations
    }

    /// The transaction under construction.
    pub fn transaction(&self) -> (r: &Transaction)
        ensures
            r == &self.transaction,
    {
        &self.transaction
    }

    /// Whether the transaction is finalized and waits only for signatures.
    pub fn is_finalized(&self) -> (r: bool)
        ensures
            r == self.transaction@.finalized,
    {
        self.transaction.is_finalized()
    }

    /// The journal's records, for the storage layer to persist; the magic
    /// token and the protocol-magic header first, then one record per
    /// accepted operation.
    pub fn records(&self) -> (r: &Vec<Vec<u8>>)
        ensures
            r == &self.journal,
    {
        &self.journal
    }

    /// Consumes the handle so the storage layer may delete the backing file;
    /// hands back the identity that addressed it. Irreversible.
    pub fn destroy(self) -> (r: StagingId)
        ensures
            r == self.id,
    {
        self.id
    }

    /// The single edit primitive under every public mutator: validate the
    /// operation against the current state; on success append its record to
    /// the journal and the operation to the history. On a refusal nothing is
    /// appended and nothing changes.
    fn append(&mut self, op: Operation) -> (r: Result<(), StagingUpdateError>)
        requires
            old(self).wf(),
        ensures
            final(self).wf(),
            final(self).id == old(self).id,
            final(self).protocol_magic == old(self).protocol_magic,
            edit_post(*old(self), *final(self), op, r),
    {
        let record = op.serialize();
        match self.transaction.update_with(&op) {
            Err(e) => Err(StagingUpdateError::TransactionIsInvalidState(e)),
            Ok(()) => {
                self.journal.push(record);
                self.operations.push(op);
                proof {
                    lemma_codec_round_trip(op@);
                    let prev = old(self).operations.deep_view();
                    let cur = self.operations.deep_view();
                    assert forall|n: int| 0 <= n < cur.len() implies cur[n] == prev.push(op@)[n] by {
                        assert(cur[n] == self.operations@[n].deep_view());
                        if n < prev.len() {
                            assert(prev[n] == old(self).operations@[n].deep_view());
                        }
                    }
                    assert(cur =~= prev.push(op@));
                    lemma_apply_all_snoc(empty_tx(), prev, op@);
                    assert(self.journal@.take(old(self).journal@.len() as int) =~= old(self).journal@);
                }
                Ok(())
            },
        }
    }

    /// Marks the transaction finalized: a one-way transition, refused with
    /// `AlreadyFinalized` the second time.
    pub fn finalize(&mut self) -> (r: Result<(), StagingUpdateError>)
        requires
            old(self).wf(),
        ensures
            final(self).wf(),
            final(self).id == old(self).id,
            final(self).protocol_magic == old(self).protocol_magic,
            edit_post(*old(self), *final(self), Operation::Finalize, r),
    {
        self.append(Operation::Finalize)
    }

    /// Appends a witness; accepted in every state, finalized or not.
    pub fn add_signature(&mut self, signature: TxInWitness) -> (r: Result<(), StagingUpdateError>)
        requires
            old(self).wf(),
        ensures
            final(self).wf(),
            final(self).id == old(self).id,
            final(self).protocol_magic == old(self).protocol_magic,
            edit_post(*old(self), *final(self), Operation::Signature(signature), r),
            r == Ok::<(), StagingUpdateError>(()),
    {
        self.append(Operation::Signature(signature))
    }

    /// Adds an input. Refused with `DoubleSpend` when an input with the same
    /// outpoint is already present, and with `FinalizedImmutable` after
    /// finalization; either refusal changes nothing.
    pub fn add_input(&mut self, input: Input) -> (r: Result<(), StagingUpdateError>)
        requires
            old(self).wf(),
        ensures
            final(self).wf(),
            final(self).id == old(self).id,
            final(self).protocol_magic == old(self).protocol_magic,
            edit_post(*old(self), *final(self), Operation::AddInput(input), r),
            !old(self).transaction@.finalized && has_input(
                old(self).transaction@.inputs,
                input@.ptr,
            ) ==> r == Err::<(), StagingUpdateError>(
                StagingUpdateError::TransactionIsInvalidState(Error::DoubleSpend),
            ) && *final(self) == *old(self),
    {
        self.append(Operation::AddInput(input))
    }

    /// Adds or replaces the change entry keyed by the given address; refused
    /// after finalization.
    pub fn add_change(&mut self, change: Change) -> (r: Result<(), StagingUpdateError>)
        requires
            old(self).wf(),
        ensures
            final(self).wf(),
            final(self).id == old(self).id,
            final(self).protocol_magic == old(self).protocol_magic,
            edit_post(*old(self), *final(self), Operation::AddChange(change), r),
    {
        self.append(Operation::AddChange(change))
    }

    /// Appends an output; duplicate addresses and values are permitted.
    /// Refused after finalization.
    pub fn add_output(&mut self, output: Output) -> (r: Result<(), StagingUpdateError>)
        requires
            old(self).wf(),
        ensures
            final(self).wf(),
            final(self).id == old(self).id,
            final(self).protocol_magic == old(self).protocol_magic,
            edit_post(*old(self), *final(self), Operation::AddOutput(output), r),
    {
        self.append(Operation::AddOutput(output))
    }

    /// Removes the input spending the given outpoint; refused with
    /// `NotFound` when no input spends it, and after finalization.
    pub fn remove_input(&mut self, txin: TxoPointer) -> (r: Result<(), StagingUpdateError>)
        requires
            old(self).wf(),
        ensures
            final(self).wf(),
            final(self).id == old(self).id,
            final(self).protocol_magic == old(self).protocol_magic,
            edit_post(*old(self), *final(self), Operation::RemoveInput(txin), r),
    {
        self.append(Operation::RemoveInput(txin))
    }

    /// Removes the change entry keyed by the given address; refused with
    /// `NotFound` when there is none, and after finalization.
    pub fn remove_change(&mut self, address: Vec<u8>) -> (r: Result<(), StagingUpdateError>)
        requires
            old(self).wf(),
        ensures
            final(self).wf(),
            final(self).id == old(self).id,
            final(self).protocol_magic == old(self).protocol_magic,
            edit_post(*old(self), *final(self), Operation::RemoveChange(address), r),
    {
        self.append(Operation::RemoveChange(address))
    }

    /// Removes the output at the given index, shifting the tail down.
    /// Refused with `IndexOutOfRange` at or past the end — outputs are then
    /// untouched — and refused after finalization.
    pub fn remove_output(&mut self, index: u32) -> (r: Result<(), StagingUpdateError>)
        requires
            old(self).wf(),
        ensures
            final(self).wf(),
            final(self).id == old(self).id,
            final(self).protocol_magic == old(self).protocol_magic,
            edit_post(*old(self), *final(self), Operation::RemoveOutput(index), r),
            index as int >= old(self).transaction@.outputs.len() ==> r is Err && *final(self)
                == *old(self),
    {
        self.append(Operation::RemoveOutput(index))
    }

    /// Removes every output paying the given address, re-scanning after each
    /// removal since indices shift; entries are neither skipped nor handled
    /// twice. Each removal is a journaled `RemoveOutput` edit of its own.
    pub fn remove_outputs_for(&mut self, address: &Vec<u8>) -> (r: Result<(), StagingUpdateError>)
        requires
            old(self).wf(),
            old(self).transaction@.outputs.len() <= u32::MAX,
        ensures
            final(self).wf(),
            final(self).id == old(self).id,
            final(self).protocol_magic == old(self).protocol_magic,
            !old(self).transaction@.finalized ==> {
                &&& r == Ok::<(), StagingUpdateError>(())
                &&& final(self).transaction@.outputs == seq_without(
                    old(self).transaction@.outputs,
                    address@,
                )
                &&& final(self).transaction@.inputs == old(self).transaction@.inputs
                &&& final(self).transaction@.change == old(self).transaction@.change
                &&& final(self).transaction@.signatures == old(self).transaction@.signatures
                &&& final(self).transaction@.finalized == old(self).transaction@.finalized
                &&& final(self).operations@.len() == old(self).operations@.len() + old(self).transaction@.outputs.len() - final(self).transaction@.outputs.len()
                &&& final(self).operations@.take(old(self).operations@.len() as int) == old(self).operations@
                &&& forall|k: int|
                    old(self).operations@.len() <= k < final(self).operations@.len() ==> final(self).operations@[k] is RemoveOutput
            },
            old(self).transaction@.finalized ==> (r is Err <==> exists|j: int|
                0 <= j < old(self).transaction@.outputs.len() && old(self).transaction@.outputs[j].address == address@),
            old(self).transaction@.finalized && r is Ok ==> *final(self) == *old(self),
            r is Err ==> r == Err::<(), StagingUpdateError>(
                StagingUpdateError::TransactionIsInvalidState(Error::FinalizedImmutable),
            ) && *final(self) == *old(self),
    {
        proof {
            let outs = self.transaction@.outputs;
            assert(outs.skip(0) =~= outs);
            assert(outs.take(0) + seq_without(outs, address@) =~= seq_without(outs, address@));
        }
        let mut index: usize = 0;
        while index != self.transaction.outputs.len()
            invariant
                old(self).wf(),
                self.wf(),
                self.id == old(self).id,
                self.protocol_magic == old(self).protocol_magic,
                index <= self.transaction@.outputs.len(),
                self.transaction@.outputs.len() <= old(self).transaction@.outputs.len(),
                old(self).transaction@.outputs.len() <= u32::MAX,
                forall|j: int| 0 <= j < index ==> self.transaction@.outputs[j].address != address@,
                self.transaction@.finalized == old(self).transaction@.finalized,
                self.transaction@.inputs == old(self).transaction@.inputs,
                self.transaction@.change == old(self).transaction@.change,
                self.transaction@.signatures == old(self).transaction@.signatures,
                seq_without(old(self).transaction@.outputs, address@) == self.transaction@
                    .outputs.take(index as int) + seq_without(
                    self.transaction@.outputs.skip(index as int),
                    address@,
                ),
                old(self).transaction@.finalized ==> *self == *old(self),
                self.operations@.len() == old(self).operations@.len() + old(self).transaction@.outputs.len() - self.transaction@.outputs.len(),
                self.operations@.take(old(self).operations@.len() as int) == old(self).operations@,
                forall|k: int|
                    old(self).operations@.len() <= k < self.operations@.len()
                        ==> self.operations@[k] is RemoveOutput,
            decreases self.transaction@.outputs.len() - index,
        {
            let ghost pre = *self;
            let matches_addr = bytes_eq(&self.transaction.outputs[index].address, address);
            if matches_addr {
                match self.remove_output(index as u32) {
                    Ok(()) => {
                        proof {
                            let outs = pre.transaction@.outputs;
                            let tail = outs.skip(index as int);
                            assert(tail[0] == outs[index as int]);
                            assert(tail.skip(1) =~= outs.skip(index as int + 1));
                            assert(seq_without(tail, address@) == seq_without(
                                tail.skip(1),
                                address@,
                            ));
                            assert(self.transaction@.outputs =~= outs.remove(index as int));
                            assert(self.transaction@.outputs.take(index as int) =~= outs.take(
                                index as int,
                            ));
                            assert(self.transaction@.outputs.skip(index as int) =~= outs.skip(
                                index as int + 1,
                            ));
                            assert(self.operations@.take(old(self).operations@.len() as int)
                                =~= old(self).operations@);
                        }
                    },
                    Err(e) => {
                        proof {
                            assert(pre.transaction@.finalized);
                            assert(pre.transaction@.outputs[index as int].address == address@);
                        }
                        return Err(e);
                    },
                }
            } else {
                index = index + 1;
                proof {
                    let outs = self.transaction@.outputs;
                    let tail = outs.skip(index - 1);
                    assert(tail[0] == outs[index - 1]);
                    assert(tail.skip(1) =~= outs.skip(index as int));
                    assert(seq_without(tail, address@) == seq![tail[0]] + seq_without(
                        tail.skip(1),
                        address@,
                    ));
                    assert(outs.take(index as int) =~= outs.take(index - 1) + seq![outs[index
                        - 1]]);
                    assert(outs.take(index as int) + seq_without(outs.skip(index as int), address@)
                        =~= outs.take(index - 1) + (seq![tail[0]] + seq_without(
                        tail.skip(1),
                        address@,
                    )));
                }
            }
        }
        proof {
            let outs = self.transaction@.outputs;
            assert(outs.skip(outs.len() as int) =~= Seq::<OutputV>::empty());
            assert(outs.take(outs.len() as int) + seq_without(
                outs.skip(outs.len() as int),
                address@,
            ) =~= outs);
            if old(self).transaction@.finalized {
                assert(forall|j: int|
                    0 <= j < old(self).transaction@.outputs.len() ==> old(self).transaction@.outputs[j].address != address@);
            }
        }
        Ok(())
    }

    /// Copies the staging transaction into a transferable snapshot: identity,
    /// hexadecimal rendering of the magic token, protocol magic, and the
    /// materialized transaction state. The operation history is deliberately
    /// not part of it.
    pub fn export(&self) -> (e: Export)
        ensures
            e.staging_id.bytes@ == self.id.bytes@,
            e.magic@ == hex_str(magic_seq()),
            e.protocol_magic == self.protocol_magic,
            e.transaction@ == self.transaction@,
    {
        let token = magic_record();
        Export {
            staging_id: self.id.duplicate(),
            magic: hex_encode(&token),
            protocol_magic: self.protocol_magic,
            transaction: self.transaction.duplicate(),
        }
    }

    /// Rebuilds a staging transaction from a snapshot under the snapshot's
    /// identity, re-issuing `AddInput` for each input, `AddOutput` for each
    /// output, and `Finalize` when the snapshot was finalized, all through
    /// the validated edit path: a snapshot carrying a duplicated outpoint is
    /// refused, not silently accepted. Change entries and witnesses of the
    /// snapshot are deliberately not re-established; the rebuilt journal
    /// holds exactly the re-issued operations.
    pub fn import(export: Export) -> (r: Result<StagingTransaction, StagingUpdateError>)
        ensures
            inputs_distinct(export.transaction@.inputs) <==> r is Ok,
            r matches Ok(st) ==> {
                &&& st.wf()
                &&& st.id == export.staging_id
                &&& st.protocol_magic == export.protocol_magic
                &&& st.transaction@.inputs == export.transaction@.inputs
                &&& st.transaction@.outputs == export.transaction@.outputs
                &&& st.transaction@.finalized == export.transaction@.finalized
                &&& st.transaction@.change.len() == 0
                &&& st.transaction@.signatures.len() == 0
                &&& st.operations@.len() == export.transaction@.inputs.len()
                    + export.transaction@.outputs.len() + (if export.transaction@.finalized {
                    1int
                } else {
                    0int
                })
            },
            r matches Err(e) ==> e == StagingUpdateError::TransactionIsInvalidState(
                Error::DoubleSpend,
            ),
    {
        let Export { staging_id, magic: _magic, protocol_magic, transaction } = export;
        let mut st = StagingTransaction::new_with(protocol_magic, staging_id);
        let mut i: usize = 0;
        while i < transaction.inputs.len()
            invariant
                st.wf(),
                st.id == export.staging_id,
                st.protocol_magic == export.protocol_magic,
                transaction == export.transaction,
                i <= transaction.inputs@.len(),
                st.transaction@.inputs.len() == i,
                forall|n: int| 0 <= n < i ==> st.transaction@.inputs[n] == transaction@.inputs[n],
                st.transaction@.outputs.len() == 0,
                st.transaction@.change.len() == 0,
                st.transaction@.signatures.len() == 0,
                !st.transaction@.finalized,
                st.operations@.len() == i,
            decreases transaction.inputs@.len() - i,
        {
            let inp = clone_input(&transaction.inputs[i]);
            match st.add_input(inp) {
                Ok(()) => {
                    i = i + 1;
                },
                Err(e) => {
                    proof {
                        let p = transaction@.inputs[i as int].ptr;
                        let k = choose|k: int|
                            0 <= k < st.transaction@.inputs.len() && st.transaction@.inputs[k].ptr
                                == p;
                        assert(transaction@.inputs[k].ptr == transaction@.inputs[i as int].ptr);
                        assert(!inputs_distinct(export.transaction@.inputs));
                    }
                    return Err(e);
                },
            }
        }
        proof {
            assert(st.transaction@.inputs =~= export.transaction@.inputs);
            assert forall|a: int, b: int|
                0 <= a < b < export.transaction@.inputs.len() implies export.transaction@
                .inputs[a].ptr != export.transaction@.inputs[b].ptr by {
                assert(st.transaction@.wf());
            }
        }
        let mut j: usize = 0;
        while j < transaction.outputs.len()
            invariant
                st.wf(),
                st.id == export.staging_id,
                st.protocol_magic == export.protocol_magic,
                transaction == export.transaction,
                j <= transaction.outputs@.len(),
                st.transaction@.inputs == export.transaction@.inputs,
                st.transaction@.outputs.len() == j,
                forall|n: int| 0 <= n < j ==> st.transaction@.outputs[n] == transaction@.outputs[n],
                st.transaction@.change.len() == 0,
                st.transaction@.signatures.len() == 0,
                !st.transaction@.finalized,
                st.operations@.len() == transaction.inputs@.len() + j,
            decreases transaction.outputs@.len() - j,
        {
            let out = clone_output(&transaction.outputs[j]);
            let res = st.add_output(out);
            proof {
                assert(res is Ok);
            }
            j = j + 1;
        }
        proof {
            assert(st.transaction@.outputs =~= export.transaction@.outputs);
        }
        if transaction.finalized {
            let res = st.finalize();
            proof {
                assert(res is Ok);
            }
        }
        Ok(st)
    }

    /// Replays a journal's records into a staging transaction under the given
    /// identity: the magic token is checked byte for byte, the protocol-magic
    /// header is read, then every record is decoded and applied in order. Any
    /// failure aborts the open; the journal is then unusable as a whole.
    pub fn read_from_file(id: StagingId, records: Vec<Vec<u8>>) -> (r: Result<
        StagingTransaction,
        StagingTransactionParseError,
    >)
        ensures
            spec_replay(records@) matches Ok(rv) ==> r matches Ok(st) && st.wf() && st.id == id
                && st.protocol_magic == rv.protocol_magic && st.ops_v() == rv.operations
                && st.transaction@ == rv.transaction && st.journal@ == records@,
            spec_replay(records@) matches Err(e) ==> r matches Err(pe) && pe@ == e,
            records@.len() == 0 ==> r == Err::<StagingTransaction, StagingTransactionParseError>(
                StagingTransactionParseError::NoMagic,
            ),
            records@.len() > 0 && records@[0]@ != magic_seq() ==> (r matches Err(pe) && pe@
                == ParseErrorV::InvalidMagic(records@[0]@)),
    {
        if records.len() == 0 {
            return Err(StagingTransactionParseError::NoMagic);
        }
        let token = magic_record();
        if !bytes_eq(&records[0], &token) {
            let bad = clone_bytes(&records[0]);
            return Err(StagingTransactionParseError::InvalidMagic(bad));
        }
        if records.len() == 1 {
            return Err(StagingTransactionParseError::MissingProtocolMagic);
        }
        if records[1].len() < 4 {
            return Err(StagingTransactionParseError::MissingProtocolMagic);
        }
        let protocol_magic = read_u32_be(&records[1], 0);
        let mut operations: Vec<Operation> = Vec::new();
        let mut transaction = Transaction::new();
        let mut i: usize = 2;
        proof {
            assert(operations.deep_view() =~= Seq::<OperationV>::empty());
        }
        while i < records.len()
            invariant
                2 <= i <= records@.len(),
                records@.len() >= 2,
                records@[0]@ == magic_seq(),
                records@[1]@.len() >= 4,
                protocol_magic == u32_from_be_bytes(records@[1]@.subrange(0, 4)),
                operations@.len() == i - 2,
                forall|k: int|
                    0 <= k < i - 2 ==> spec_decode(records@[k + 2]@) == Ok::<
                        OperationV,
                        ParsingOperationError,
                    >(operations.deep_view()[k]),
                spec_apply_all(empty_tx(), operations.deep_view()) == Ok::<TransactionV, Error>(
                    transaction@,
                ),
                transaction@.wf(),
                spec_replay(records@) == spec_replay_ops(
                    records@,
                    i as int,
                    protocol_magic,
                    operations.deep_view(),
                    transaction@,
                ),
            decreases records@.len() - i,
        {
            let op = match Operation::deserialize(&records[i]) {
                Ok(op) => op,
                Err(e) => {
                    return Err(StagingTransactionParseError::Operation(e));
                },
            };
            let ghost prev = operations.deep_view();
            let ghost prev_vec = operations@;
            match transaction.update_with(&op) {
                Ok(()) => {},
                Err(e) => {
                    return Err(StagingTransactionParseError::TransactionIsInvalidState(e));
                },
            }
            operations.push(op);
            i = i + 1;
            proof {
                let cur = operations.deep_view();
                assert forall|n: int| 0 <= n < cur.len() implies cur[n] == prev.push(op@)[n] by {
                    assert(cur[n] == operations@[n].deep_view());
                    if n < prev.len() {
                        assert(prev[n] == prev_vec[n].deep_view());
                    }
                }
                assert(cur =~= prev.push(op@));
                lemma_apply_all_snoc(empty_tx(), prev, op@);
            }
        }
        let st = StagingTransaction { id, protocol_magic, operations, transaction, journal: records };
        Ok(st)
    }
}

/// Every output of `s` whose address is not `a`, in order.
pub open spec fn seq_without(s: Seq<OutputV>, a: Seq<u8>) -> Seq<OutputV>
    decreases s.len(),
{
    if s.len() == 0 {
        Seq::empty()
    } else if s[0].address == a {
        seq_without(s.skip(1), a)
    } else {
        seq![s[0]] + seq_without(s.skip(1), a)
    }
}

/// Appending one more operation to a successfully applied history applies
/// that operation to the history's result.
pub proof fn lemma_apply_all_snoc(t: TransactionV, ops: Seq<OperationV>, op: OperationV)
    ensures
        spec_apply_all(t, ops) matches Ok(tm) ==> spec_apply_all(t, ops.push(op)) == spec_apply(
            tm,
            op,
        ),
    decreases ops.len(),
{
    if spec_apply_all(t, ops) is Ok {
        if ops.len() == 0 {
            let single = ops.push(op);
            assert(single.len() == 1 && single[0] == op);
            assert(single.skip(1) =~= Seq::<OperationV>::empty());
            match spec_apply(t, op) {
                Ok(t2) => {
                    assert(spec_apply_all(t2, single.skip(1)) == Ok::<TransactionV, Error>(t2));
                    assert(spec_apply_all(t, single) == Ok::<TransactionV, Error>(t2));
                },
                Err(e) => {
                    assert(spec_apply_all(t, single) == Err::<TransactionV, Error>(e));
                },
            }
        } else {
            match spec_apply(t, ops[0]) {
                Ok(t2) => {
                    lemma_apply_all_snoc(t2, ops.skip(1), op);
                    assert(ops.push(op)[0] == ops[0]);
                    assert(ops.push(op).skip(1) =~= ops.skip(1).push(op));
                    assert(spec_apply_all(t, ops.push(op)) == spec_apply_all(
                        t2,
                        ops.skip(1).push(op),
                    ));
                },
                Err(_) => {},
            }
        }
    }
}

/// Replaying records whose operation part decodes to `rest` and applies
/// cleanly reaches exactly the accumulated history and final state.
proof fn lemma_replay_ops_complete(
    records: Seq<Vec<u8>>,
    i: int,
    pm: u32,
    acc: Seq<OperationV>,
    t: TransactionV,
    rest: Seq<OperationV>,
    t_final: TransactionV,
)
    requires
        2 <= i <= records.len(),
        rest.len() == records.len() - i,
        forall|k: int|
            0 <= k < rest.len() ==> spec_decode(records[i + k]@) == Ok::<
                OperationV,
                ParsingOperationError,
            >(#[trigger] rest[k]),
        spec_apply_all(t, rest) == Ok::<TransactionV, Error>(t_final),
    ensures
        spec_replay_ops(records, i, pm, acc, t) matches Ok(rv) && rv.protocol_magic == pm
            && rv.operations == acc + rest && rv.transaction == t_final,
    decreases rest.len(),
{
    if rest.len() == 0 {
        assert(acc + rest =~= acc);
    } else {
        let op = rest[0];
        assert(spec_decode(records[i]@) == Ok::<OperationV, ParsingOperationError>(op));
        match spec_apply(t, op) {
            Ok(t2) => {
                assert(spec_apply_all(t2, rest.skip(1)) == Ok::<TransactionV, Error>(t_final));
                assert forall|k: int| 0 <= k < rest.skip(1).len() implies spec_decode(
                    records[i + 1 + k]@,
                ) == Ok::<OperationV, ParsingOperationError>(#[trigger] rest.skip(1)[k]) by {
                    assert(rest.skip(1)[k] == rest[k + 1]);
                }
                lemma_replay_ops_complete(
                    records,
                    i + 1,
                    pm,
                    acc.push(op),
                    t2,
                    rest.skip(1),
                    t_final,
                );
                assert(acc.push(op) + rest.skip(1) =~= acc + rest);
            },
            Err(_) => {
                assert(false);
            },
        }
    }
}

/// Replay determinism: replaying the journal of any well-formed staging
/// transaction succeeds and reproduces its protocol magic, its operation
/// history, and its transaction state exactly — the state is the same
/// whether built incrementally or reconstructed from the records.
pub proof fn lemma_replay_determinism(st: StagingTransaction)
    requires
        st.wf(),
    ensures
        spec_replay(st.journal@) matches Ok(rv) && rv.protocol_magic == st.protocol_magic
            && rv.operations == st.ops_v() && rv.transaction == st.transaction@,
{
    let records = st.journal@;
    assert(records[0]@ == magic_seq());
    lemma_replay_ops_complete(
        records,
        2,
        st.protocol_magic,
        Seq::empty(),
        empty_tx(),
        st.ops_v(),
        st.transaction@,
    );
    assert(Seq::<OperationV>::empty() + st.ops_v() =~= st.ops_v());
}

/// After finalization exactly the signature operations are accepted: every
/// structural edit is refused, a witness is always taken.
pub proof fn lemma_finalize_immutability(t: TransactionV, op: OperationV)
    requires
        t.finalized,
    ensures
        spec_apply(t, op) is Ok <==> op is Signature,
{
}

/// No partial mutation on failure: an edit the state machine refuses leaves
/// the whole aggregate — transaction, history and journal records alike —
/// exactly as it was.
pub proof fn lemma_no_partial_mutation(
    pre: StagingTransaction,
    post: StagingTransaction,
    op: Operation,
    r: Result<(), StagingUpdateError>,
)
    requires
        edit_post(pre, post, op, r),
        r is Err,
    ensures
        post == pre,
{
}

/// A transferable snapshot of a staging transaction: the identity, a
/// hexadecimal rendering of the magic token, the protocol magic, and the
/// materialized transaction state — no operation history.
#[derive(Clone, Debug, PartialEq, Eq)]
pub struct Export {
    /// The identity the snapshot was taken from.
    pub staging_id: StagingId,
    /// Hexadecimal rendering of the journal's magic token.
    pub magic: String,
    /// The network identifier the snapshot's staging transaction was
    /// created against.
    pub protocol_magic: u32,
    /// The materialized transaction state at export time.
    pub transaction: Transaction,
}

} // verus!
