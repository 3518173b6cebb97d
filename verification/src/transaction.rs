//! The validated transaction state machine. A transaction is the derived
//! aggregate the journal replays into: ordered inputs unique by outpoint,
//! ordered outputs, change entries unique by address, a one-way finalization
//! flag, and ordered witnesses. `spec_apply` is the transition table; the
//! executable `update_with` follows it exactly and leaves the state untouched
//! whenever it reports an error.

use vstd::prelude::*;
use vstd::pervasive::VecAdditionalExecFns;

use crate::operation::{Operation, OperationV};
use crate::codec::bytes_eq;
use crate::types::{
    clone_change, clone_input, clone_output, clone_witness, ptr_eq, Change, ChangeV,
    Input, InputV, Output, OutputV, TxInWitness, TxoPointer, TxoPointerV,
};

verus! {

/// Why an operation was refused by the state machine.
#[derive(Clone, Copy, Debug, PartialEq, Eq, Structural)]
pub enum Error {
    /// `AddInput` named an outpoint that an existing input already spends.
    DoubleSpend,
    /// `RemoveInput` or `RemoveChange` named a target that does not exist.
    NotFound,
    /// A structural edit was attempted after finalization.
    FinalizedImmutable,
    /// `RemoveOutput` named an index at or past the end of the outputs.
    IndexOutOfRange,
    /// `Finalize` was applied to an already finalized transaction.
    AlreadyFinalized,
}

/// Mathematical value of a [`Transaction`].
#[verifier::ext_equal]
pub struct TransactionV {
    pub inputs: Seq<InputV>,
    pub outputs: Seq<OutputV>,
    pub change: Seq<ChangeV>,
    pub finalized: bool,
    pub signatures: Seq<Seq<u8>>,
}

/// The state a fresh staging transaction starts from: everything empty, not
/// finalized.
pub open spec fn empty_tx() -> TransactionV {
    TransactionV {
        inputs: Seq::empty(),
        outputs: Seq::empty(),
        change: Seq::empty(),
        finalized: false,
        signatures: Seq::empty(),
    }
}

/// Whether some input already spends the outpoint `p`.
pub open spec fn has_input(inputs: Seq<InputV>, p: TxoPointerV) -> bool {
    exists|i: int| 0 <= i < inputs.len() && inputs[i].ptr == p
}

/// The index of the input spending `p`; meaningful when [`has_input`] holds
/// and the outpoints are distinct.
pub open spec fn input_index(inputs: Seq<InputV>, p: TxoPointerV) -> int {
    choose|i: int| 0 <= i < inputs.len() && inputs[i].ptr == p
}

/// Whether some change entry is keyed by the address `a`.
pub open spec fn has_change(change: Seq<ChangeV>, a: Seq<u8>) -> bool {
    exists|i: int| 0 <= i < change.len() && change[i].address == a
}

/// The index of the change entry keyed by `a`; meaningful when
/// [`has_change`] holds and the addresses are distinct.
pub open spec fn change_index(change: Seq<ChangeV>, a: Seq<u8>) -> int {
    choose|i: int| 0 <= i < change.len() && change[i].address == a
}

/// Whether no two inputs spend the same outpoint.
pub open spec fn inputs_distinct(inputs: Seq<InputV>) -> bool {
    forall|i: int, j: int| 0 <= i < j < inputs.len() ==> inputs[i].ptr != inputs[j].ptr
}

impl TransactionV {
    /// The structural invariants: no two inputs spend the same outpoint, no
    /// two change entries share an address.
    pub open spec fn wf(self) -> bool {
        &&& inputs_distinct(self.inputs)
        &&& forall|i: int, j: int|
            0 <= i < j < self.change.len() ==> self.change[i].address != self.change[j].address
    }
}

/// The transition table: the state `op` leads to from `t`, or the error that
/// leaves `t` untouched. Once `t` is finalized only `Signature` is accepted;
/// `Finalize` is not idempotent.
pub open spec fn spec_apply(t: TransactionV, op: OperationV) -> Result<TransactionV, Error> {
    match op {
        OperationV::AddInput(i) => if t.finalized {
            Err(Error::FinalizedImmutable)
        } else if has_input(t.inputs, i.ptr) {
            Err(Error::DoubleSpend)
        } else {
            Ok(TransactionV { inputs: t.inputs.push(i), ..t })
        },
        OperationV::RemoveInput(p) => if t.finalized {
            Err(Error::FinalizedImmutable)
        } else if !has_input(t.inputs, p) {
            Err(Error::NotFound)
        } else {
            Ok(TransactionV { inputs: t.inputs.remove(input_index(t.inputs, p)), ..t })
        },
        OperationV::AddOutput(o) => if t.finalized {
            Err(Error::FinalizedImmutable)
        } else {
            Ok(TransactionV { outputs: t.outputs.push(o), ..t })
        },
        OperationV::RemoveOutput(ix) => if t.finalized {
            Err(Error::FinalizedImmutable)
        } else if ix >= t.outputs.len() {
            Err(Error::IndexOutOfRange)
        } else {
            Ok(TransactionV { outputs: t.outputs.remove(ix as int), ..t })
        },
        OperationV::AddChange(c) => if t.finalized {
            Err(Error::FinalizedImmutable)
        } else if has_change(t.change, c.address) {
            Ok(TransactionV { change: t.change.update(change_index(t.change, c.address), c), ..t })
        } else {
            Ok(TransactionV { change: t.change.push(c), ..t })
        },
        OperationV::RemoveChange(a) => if t.finalized {
            Err(Error::FinalizedImmutable)
        } else if !has_change(t.change, a) {
            Err(Error::NotFound)
        } else {
            Ok(TransactionV { change: t.change.remove(change_index(t.change, a)), ..t })
        },
        OperationV::Finalize => if t.finalized {
            Err(Error::AlreadyFinalized)
        } else {
            Ok(TransactionV { finalized: true, ..t })
        },
        OperationV::Signature(w) => Ok(TransactionV { signatures: t.signatures.push(w), ..t }),
    }
}

/// Applying an accepted operation to a well-formed state yields a well-formed
/// state.
pub proof fn lemma_apply_preserves_wf(t: TransactionV, op: OperationV)
    requires
        t.wf(),
    ensures
        spec_apply(t, op) matches Ok(t2) ==> t2.wf(),
{
    match op {
        OperationV::AddInput(i) => {
            if !t.finalized && !has_input(t.inputs, i.ptr) {
                let s = t.inputs.push(i);
                assert forall|a: int, b: int| 0 <= a < b < s.len() implies s[a].ptr != s[b].ptr by {
                    if b == s.len() - 1 {
                        assert(!(0 <= a < t.inputs.len() && t.inputs[a].ptr == i.ptr));
                    }
                }
            }
        },
        OperationV::RemoveInput(p) => {
            if !t.finalized && has_input(t.inputs, p) {
                let k = input_index(t.inputs, p);
                let s = t.inputs.remove(k);
                assert forall|a: int, b: int| 0 <= a < b < s.len() implies s[a].ptr != s[b].ptr by {
                    let a0 = if a < k { a } else { a + 1 };
                    let b0 = if b < k { b } else { b + 1 };
                    assert(s[a] == t.inputs[a0] && s[b] == t.inputs[b0]);
                }
            }
        },
        OperationV::AddChange(c) => {
            if !t.finalized {
                if has_change(t.change, c.address) {
                    let k = change_index(t.change, c.address);
                    assert(0 <= k < t.change.len() && t.change[k].address == c.address);
                    let s = t.change.update(k, c);
                    assert forall|a: int, b: int|
                        0 <= a < b < s.len() implies s[a].address != s[b].address by {
                        assert(t.change[a].address != t.change[b].address);
                    }
                } else {
                    let s = t.change.push(c);
                    assert forall|a: int, b: int|
                        0 <= a < b < s.len() implies s[a].address != s[b].address by {
                        if b == s.len() - 1 {
                            assert(!(0 <= a < t.change.len() && t.change[a].address == c.address));
                        }
                    }
                }
            }
        },
        OperationV::RemoveChange(a) => {
            if !t.finalized && has_change(t.change, a) {
                let k = change_index(t.change, a);
                let s = t.change.remove(k);
                assert forall|x: int, y: int|
                    0 <= x < y < s.len() implies s[x].address != s[y].address by {
                    let x0 = if x < k { x } else { x + 1 };
                    let y0 = if y < k { y } else { y + 1 };
                    assert(s[x] == t.change[x0] && s[y] == t.change[y0]);
                }
            }
        },
        _ => {},
    }
}

/// The transaction under construction.
#[derive(Clone, Debug, PartialEq, Eq)]
pub struct Transaction {
    pub inputs: Vec<Input>,
    pub outputs: Vec<Output>,
    pub change: Vec<Change>,
    pub finalized: bool,
    pub signatures: Vec<TxInWitness>,
}

impl View for Transaction {
    type V = TransactionV;

    open spec fn view(&self) -> TransactionV {
        TransactionV {
            inputs: self.inputs.deep_view(),
            outputs: self.outputs.deep_view(),
            change: self.change.deep_view(),
            finalized: self.finalized,
            signatures: self.signatures.deep_view(),
        }
    }
}

impl Transaction {
    /// A fresh, empty, unfinalized transaction.
    pub fn new() -> (r: Transaction)
        ensures
            r@ == empty_tx(),
    {
        let r = Transaction {
            inputs: Vec::new(),
            outputs: Vec::new(),
            change: Vec::new(),
            finalized: false,
            signatures: Vec::new(),
        };
        proof {
            assert(r@ =~= empty_tx());
        }
        r
    }

    /// The ordered inputs.
    pub fn inputs(&self) -> (r: &Vec<Input>)
        ensures
            r == &self.inputs,
    {
        &self.inputs
    }

    /// The ordered outputs.
    pub fn outputs(&self) -> (r: &Vec<Output>)
        ensures
            r == &self.outputs,
    {
        &self.outputs
    }

    /// The change entries, unique by address.
    pub fn change(&self) -> (r: &Vec<Change>)
        ensures
            r == &self.change,
    {
        &self.change
    }

    /// The ordered witnesses.
    pub fn signatures(&self) -> (r: &Vec<TxInWitness>)
        ensures
            r == &self.signatures,
    {
        &self.signatures
    }

    /// Whether the structure is locked and only witnesses are accepted.
    pub fn is_finalized(&self) -> (r: bool)
        ensures
            r == self@.finalized,
    {
        self.finalized
    }

    /// The index of the input spending `p`, scanning in order.
    fn find_input(&self, p: &TxoPointer) -> (r: Option<usize>)
        ensures
            match r {
                Some(i) => 0 <= i < self@.inputs.len() && self@.inputs[i as int].ptr == p@,
                None => !has_input(self@.inputs, p@),
            },
    {
        let mut i: usize = 0;
        while i < self.inputs.len()
            invariant
                i <= self@.inputs.len(),
                forall|j: int| 0 <= j < i ==> self@.inputs[j].ptr != p@,
            decreases self@.inputs.len() - i,
        {
            if ptr_eq(&self.inputs[i].ptr, p) {
                return Some(i);
            }
            i = i + 1;
        }
        None
    }

    /// The index of the change entry keyed by `a`, scanning in order.
    fn find_change(&self, a: &Vec<u8>) -> (r: Option<usize>)
        ensures
            match r {
                Some(i) => 0 <= i < self@.change.len() && self@.change[i as int].address == a@,
                None => !has_change(self@.change, a@),
            },
    {
        let mut i: usize = 0;
        while i < self.change.len()
            invariant
                i <= self@.change.len(),
                forall|j: int| 0 <= j < i ==> self@.change[j].address != a@,
            decreases self@.change.len() - i,
        {
            if bytes_eq(&self.change[i].address, a) {
                return Some(i);
            }
            i = i + 1;
        }
        None
    }

    /// Applies one operation, following [`spec_apply`] exactly: on success
    /// the state steps to the table's result, on an error nothing changes.
    pub fn update_with(&mut self, op: &Operation) -> (r: Result<(), Error>)
        requires
            old(self)@.wf(),
        ensures
            final(self)@.wf(),
            spec_apply(old(self)@, op@) matches Ok(t) ==> r == Ok::<(), Error>(()) && final(self)@ == t,
            spec_apply(old(self)@, op@) matches Err(e) ==> r == Err::<(), Error>(e) && *final(self)
                == *old(self),
    {
        proof {
            lemma_apply_preserves_wf(old(self)@, op@);
        }
        match op {
            Operation::AddInput(i) => {
                if self.finalized {
                    Err(Error::FinalizedImmutable)
                } else if self.find_input(&i.ptr).is_some() {
                    Err(Error::DoubleSpend)
                } else {
                    self.inputs.push(clone_input(i));
                    proof {
                        assert(self@ =~= TransactionV {
                            inputs: old(self)@.inputs.push(i@),
                            ..old(self)@
                        });
                    }
                    Ok(())
                }
            },
            Operation::RemoveInput(p) => {
                if self.finalized {
                    Err(Error::FinalizedImmutable)
                } else {
                    match self.find_input(p) {
                        None => Err(Error::NotFound),
                        Some(i) => {
                            proof {
                                let k = input_index(old(self)@.inputs, p@);
                                assert(0 <= k < old(self)@.inputs.len() && old(self)@.inputs[k].ptr == p@);
                                assert(k == i as int);
                            }
                            self.inputs.remove(i);
                            proof {
                                assert(self@ =~= TransactionV {
                                    inputs: old(self)@.inputs.remove(i as int),
                                    ..old(self)@
                                });
                            }
                            Ok(())
                        },
                    }
                }
            },
            Operation::AddOutput(o) => {
                if self.finalized {
                    Err(Error::FinalizedImmutable)
                } else {
                    self.outputs.push(clone_output(o));
                    proof {
                        assert(self@ =~= TransactionV {
                            outputs: old(self)@.outputs.push(o@),
                            ..old(self)@
                        });
                    }
                    Ok(())
                }
            },
            Operation::RemoveOutput(ix) => {
                if self.finalized {
                    Err(Error::FinalizedImmutable)
                } else if (*ix as usize) >= self.outputs.len() {
                    Err(Error::IndexOutOfRange)
                } else {
                    self.outputs.remove(*ix as usize);
                    proof {
                        assert(self@ =~= TransactionV {
                            outputs: old(self)@.outputs.remove(*ix as int),
                            ..old(self)@
                        });
                    }
                    Ok(())
                }
            },
            Operation::AddChange(c) => {
                if self.finalized {
                    Err(Error::FinalizedImmutable)
                } else {
                    match self.find_change(&c.address) {
                        Some(i) => {
                            proof {
                                let k = change_index(old(self)@.change, c@.address);
                                assert(0 <= k < old(self)@.change.len() && old(self)@.change[k].address == c@.address);
                                assert(k == i as int);
                            }
                            self.change.set(i, clone_change(c));
                            proof {
                                assert(self@ =~= TransactionV {
                                    change: old(self)@.change.update(i as int, c@),
                                    ..old(self)@
                                });
                            }
                            Ok(())
                        },
                        None => {
                            self.change.push(clone_change(c));
                            proof {
                                assert(self@ =~= TransactionV {
                                    change: old(self)@.change.push(c@),
                                    ..old(self)@
                                });
                            }
                            Ok(())
                        },
                    }
                }
            },
            Operation::RemoveChange(a) => {
                if self.finalized {
                    Err(Error::FinalizedImmutable)
                } else {
                    match self.find_change(a) {
                        None => Err(Error::NotFound),
                        Some(i) => {
                            proof {
                                let k = change_index(old(self)@.change, a@);
                                assert(0 <= k < old(self)@.change.len() && old(self)@.change[k].address == a@);
                                assert(k == i as int);
                            }
                            self.change.remove(i);
                            proof {
                                assert(self@ =~= TransactionV {
                                    change: old(self)@.change.remove(i as int),
                                    ..old(self)@
                                });
                            }
                            Ok(())
                        },
                    }
                }
            },
            Operation::Finalize => {
                if self.finalized {
                    Err(Error::AlreadyFinalized)
                } else {
                    self.finalized = true;
                    proof {
                        assert(self@ =~= TransactionV { finalized: true, ..old(self)@ });
                    }
                    Ok(())
                }
            },
            Operation::Signature(w) => {
                self.signatures.push(clone_witness(w));
                proof {
                    assert(self@ =~= TransactionV {
                        signatures: old(self)@.signatures.push(w@),
                        ..old(self)@
                    });
                }
                Ok(())
            },
        }
    }

    /// Copies the whole transaction state.
    pub fn duplicate(&self) -> (r: Transaction)
        ensures
            r@ == self@,
    {
        let mut inputs: Vec<Input> = Vec::new();
        let mut i: usize = 0;
        while i < self.inputs.len()
            invariant
                i <= self.inputs@.len(),
                inputs@.len() == i,
                forall|n: int| 0 <= n < i ==> inputs@[n]@ == self.inputs@[n]@,
            decreases self.inputs@.len() - i,
        {
            inputs.push(clone_input(&self.inputs[i]));
            i = i + 1;
        }
        let mut outputs: Vec<Output> = Vec::new();
        let mut j: usize = 0;
        while j < self.outputs.len()
            invariant
                j <= self.outputs@.len(),
                outputs@.len() == j,
                forall|n: int| 0 <= n < j ==> outputs@[n]@ == self.outputs@[n]@,
            decreases self.outputs@.len() - j,
        {
            outputs.push(clone_output(&self.outputs[j]));
            j = j + 1;
        }
        let mut change: Vec<Change> = Vec::new();
        let mut k: usize = 0;
        while k < self.change.len()
            invariant
                k <= self.change@.len(),
                change@.len() == k,
                forall|n: int| 0 <= n < k ==> change@[n]@ == self.change@[n]@,
            decreases self.change@.len() - k,
        {
            change.push(clone_change(&self.change[k]));
            k = k + 1;
        }
        let mut signatures: Vec<TxInWitness> = Vec::new();
        let mut m: usize = 0;
        while m < self.signatures.len()
            invariant
                m <= self.signatures@.len(),
                signatures@.len() == m,
                forall|n: int| 0 <= n < m ==> signatures@[n]@ == self.signatures@[n]@,
            decreases self.signatures@.len() - m,
        {
            signatures.push(clone_witness(&self.signatures[m]));
            m = m + 1;
        }
        let r = Transaction { inputs, outputs, change, finalized: self.finalized, signatures };
        proof {
            assert forall|n: int| 0 <= n < self.inputs@.len() implies r@.inputs[n]
                == self@.inputs[n] by {}
            assert(r@.inputs =~= self@.inputs);
            assert forall|n: int| 0 <= n < self.outputs@.len() implies r@.outputs[n]
                == self@.outputs[n] by {}
            assert(r@.outputs =~= self@.outputs);
            assert forall|n: int| 0 <= n < self.change@.len() implies r@.change[n]
                == self@.change[n] by {}
            assert(r@.change =~= self@.change);
            assert forall|n: int| 0 <= n < self.signatures@.len() implies r@.signatures[n]
                == self@.signatures[n] by {}
            assert(r@.signatures =~= self@.signatures);
            assert(r@ =~= self@);
        }
        r
    }
}

} // verus!
