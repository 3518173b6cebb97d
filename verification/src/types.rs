//! The plain values the staging transaction is built from: outpoints, inputs,
//! outputs, change entries, witnesses and the staging identity. Addresses,
//! transaction identifiers and witnesses are opaque byte strings to this
//! crate; coin values are 64-bit integers and the protocol magic is a 32-bit
//! network identifier.

use vstd::prelude::*;

use crate::codec::{bytes_eq, hex_encode, hex_str};

verus! {

/// Reference to a spendable output of a prior transaction: the unique key of
/// an input.
#[derive(Clone, Debug, PartialEq, Eq)]
pub struct TxoPointer {
    pub txid: Vec<u8>,
    pub index: u32,
}

/// Mathematical value of a [`TxoPointer`].
#[verifier::ext_equal]
pub struct TxoPointerV {
    pub txid: Seq<u8>,
    pub index: u32,
}

impl View for TxoPointer {
    type V = TxoPointerV;

    open spec fn view(&self) -> TxoPointerV {
        TxoPointerV { txid: self.txid@, index: self.index }
    }
}

impl DeepView for TxoPointer {
    type V = TxoPointerV;

    open spec fn deep_view(&self) -> TxoPointerV {
        self.view()
    }
}

/// An input of the transaction under construction: the outpoint it spends and
/// the coin value it is expected to carry.
#[derive(Clone, Debug, PartialEq, Eq)]
pub struct Input {
    pub ptr: TxoPointer,
    pub value: u64,
}

/// Mathematical value of an [`Input`].
#[verifier::ext_equal]
pub struct InputV {
    pub ptr: TxoPointerV,
    pub value: u64,
}

impl View for Input {
    type V = InputV;

    open spec fn view(&self) -> InputV {
        InputV { ptr: self.ptr@, value: self.value }
    }
}

impl DeepView for Input {
    type V = InputV;

    open spec fn deep_view(&self) -> InputV {
        self.view()
    }
}

/// An output of the transaction under construction: a destination address and
/// a coin value.
#[derive(Clone, Debug, PartialEq, Eq)]
pub struct Output {
    pub address: Vec<u8>,
    pub value: u64,
}

/// Mathematical value of an [`Output`].
#[verifier::ext_equal]
pub struct OutputV {
    pub address: Seq<u8>,
    pub value: u64,
}

impl View for Output {
    type V = OutputV;

    open spec fn view(&self) -> OutputV {
        OutputV { address: self.address@, value: self.value }
    }
}

impl DeepView for Output {
    type V = OutputV;

    open spec fn deep_view(&self) -> OutputV {
        self.view()
    }
}

/// A change entry: value returned to the spender, keyed by its address.
#[derive(Clone, Debug, PartialEq, Eq)]
pub struct Change {
    pub address: Vec<u8>,
    pub value: u64,
}

/// Mathematical value of a [`Change`] entry.
#[verifier::ext_equal]
pub struct ChangeV {
    pub address: Seq<u8>,
    pub value: u64,
}

impl View for Change {
    type V = ChangeV;

    open spec fn view(&self) -> ChangeV {
        ChangeV { address: self.address@, value: self.value }
    }
}

impl DeepView for Change {
    type V = ChangeV;

    open spec fn deep_view(&self) -> ChangeV {
        self.view()
    }
}

/// An opaque witness blob authorizing the spend of an input; structurally
/// inert to this crate's validation rules.
#[derive(Clone, Debug, PartialEq, Eq)]
pub struct TxInWitness {
    pub bytes: Vec<u8>,
}

impl View for TxInWitness {
    type V = Seq<u8>;

    open spec fn view(&self) -> Seq<u8> {
        self.bytes@
    }
}

impl DeepView for TxInWitness {
    type V = Seq<u8>;

    open spec fn deep_view(&self) -> Seq<u8> {
        self.bytes@
    }
}

/// Whether two outpoints refer to the same prior output.
pub fn ptr_eq(a: &TxoPointer, b: &TxoPointer) -> (r: bool)
    ensures
        r == (a@ == b@),
{
    let r = a.index == b.index && bytes_eq(&a.txid, &b.txid);
    proof {
        if a.index == b.index && a.txid@ == b.txid@ {
            assert(a@ =~= b@);
        }
    }
    r
}

/// Copies a byte vector.
pub fn clone_bytes(v: &Vec<u8>) -> (r: Vec<u8>)
    ensures
        r@ == v@,
{
    let mut r: Vec<u8> = Vec::new();
    let mut i: usize = 0;
    while i < v.len()
        invariant
            i <= v@.len(),
            r@ == v@.take(i as int),
        decreases v@.len() - i,
    {
        r.push(v[i]);
        i = i + 1;
        assert(r@ =~= v@.take(i as int));
    }
    assert(r@ =~= v@);
    r
}

/// Copies an input.
pub fn clone_input(i: &Input) -> (r: Input)
    ensures
        r@ == i@,
{
    Input { ptr: TxoPointer { txid: clone_bytes(&i.ptr.txid), index: i.ptr.index }, value: i.value }
}

/// Copies an output.
pub fn clone_output(o: &Output) -> (r: Output)
    ensures
        r@ == o@,
{
    Output { address: clone_bytes(&o.address), value: o.value }
}

/// Copies a change entry.
pub fn clone_change(c: &Change) -> (r: Change)
    ensures
        r@ == c@,
{
    Change { address: clone_bytes(&c.address), value: c.value }
}

/// Copies a witness.
pub fn clone_witness(w: &TxInWitness) -> (r: TxInWitness)
    ensures
        r@ == w@,
{
    TxInWitness { bytes: clone_bytes(&w.bytes) }
}

/// Number of bytes in a freshly generated staging identity.
pub const STAGING_ID_LEN: usize = 16;

/// The opaque identity of a staging transaction, addressing its journal file.
/// It is rendered in hexadecimal wherever a path component or a label is
/// needed.
#[derive(Clone, Debug, PartialEq, Eq)]
pub struct StagingId {
    pub bytes: Vec<u8>,
}

/// Relies on `rand::random`: fills a 16-byte array from the thread-local
/// generator. Nothing is assumed of the drawn values.
#[verifier::external_body]
fn random_id_bytes() -> (r: Vec<u8>)
    ensures
        r@.len() == STAGING_ID_LEN,
{
    rand::random::<[u8; 16]>().to_vec()
}

impl StagingId {
    /// Draws a fresh random identity of [`STAGING_ID_LEN`] bytes.
    pub fn generate() -> (r: StagingId)
        ensures
            r.bytes@.len() == STAGING_ID_LEN,
    {
        StagingId { bytes: random_id_bytes() }
    }

    /// The hexadecimal rendering of the identity, two digits per byte.
    pub fn hex(&self) -> (r: String)
        ensures
            r@ == hex_str(self.bytes@),
    {
        hex_encode(&self.bytes)
    }

    /// Copies the identity.
    pub fn duplicate(&self) -> (r: StagingId)
        ensures
            r.bytes@ == self.bytes@,
    {
        StagingId { bytes: clone_bytes(&self.bytes) }
    }
}

} // verus!
