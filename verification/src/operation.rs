//! The command vocabulary of the staging journal: eight editing operations,
//! each with a self-describing binary record. A record is a discriminant tag
//! followed by a variant-specific payload; byte-string payloads carry a
//! 64-bit big-endian length prefix, integer payloads are fixed-width
//! big-endian. Decoding rejects unknown tags and malformed payloads, and a
//! decoded record must account for every byte, so a truncated or padded
//! record never passes for a valid one.

use vstd::prelude::*;

use crate::codec::{
    push_bytes, push_u32_be, push_u64_be, read_u32_be, read_u64_be, copy_range, u32_be_bytes,
    u32_from_be_bytes, u64_be_bytes, u64_from_be_bytes, lemma_u32_be_round_trip,
    lemma_u64_be_round_trip,
};
use crate::types::{Change, ChangeV, Input, InputV, Output, OutputV, TxInWitness, TxoPointer,
    TxoPointerV};

verus! {

pub const TAG_ADD_INPUT: u8 = 1;

pub const TAG_REMOVE_INPUT: u8 = 2;

pub const TAG_ADD_OUTPUT: u8 = 3;

pub const TAG_REMOVE_OUTPUT: u8 = 4;

pub const TAG_ADD_CHANGE: u8 = 5;

pub const TAG_REMOVE_CHANGE: u8 = 6;

pub const TAG_FINALIZE: u8 = 7;

pub const TAG_SIGNATURE: u8 = 8;

/// An editing operation on the transaction under construction. Order among
/// operations is conferred purely by journal append position; the variants
/// carry no ordering metadata of their own.
#[derive(Clone, Debug, PartialEq, Eq)]
pub enum Operation {
    AddInput(Input),
    RemoveInput(TxoPointer),
    AddOutput(Output),
    RemoveOutput(u32),
    AddChange(Change),
    RemoveChange(Vec<u8>),
    Finalize,
    Signature(TxInWitness),
}

/// Mathematical value of an [`Operation`].
#[verifier::ext_equal]
pub enum OperationV {
    AddInput(InputV),
    RemoveInput(TxoPointerV),
    AddOutput(OutputV),
    RemoveOutput(u32),
    AddChange(ChangeV),
    RemoveChange(Seq<u8>),
    Finalize,
    Signature(Seq<u8>),
}

impl View for Operation {
    type V = OperationV;

    open spec fn view(&self) -> OperationV {
        match self {
            Operation::AddInput(i) => OperationV::AddInput(i@),
            Operation::RemoveInput(p) => OperationV::RemoveInput(p@),
            Operation::AddOutput(o) => OperationV::AddOutput(o@),
            Operation::RemoveOutput(ix) => OperationV::RemoveOutput(*ix),
            Operation::AddChange(c) => OperationV::AddChange(c@),
            Operation::RemoveChange(a) => OperationV::RemoveChange(a@),
            Operation::Finalize => OperationV::Finalize,
            Operation::Signature(w) => OperationV::Signature(w@),
        }
    }
}

impl DeepView for Operation {
    type V = OperationV;

    open spec fn deep_view(&self) -> OperationV {
        self.view()
    }
}

/// Why a journal record failed to decode into an operation.
#[derive(Clone, Copy, Debug, PartialEq, Eq, Structural)]
pub enum ParsingOperationError {
    /// The record holds no bytes at all, not even a tag.
    EmptyRecord,
    /// The record's first byte is no known discriminant; the offending tag is
    /// carried for diagnostics.
    UnknownTag(u8),
    /// The payload is shorter than its tag demands, a length prefix overruns
    /// the record, or bytes are left over after the payload.
    MalformedPayload,
}

/// A length-prefixed byte field: the 64-bit big-endian length, then the
/// bytes.
pub open spec fn field_bytes(b: Seq<u8>) -> Seq<u8> {
    u64_be_bytes(b.len() as u64) + b
}

/// Splits a length-prefixed byte field off the front of `s`, yielding the
/// field and the remainder, or nothing if the prefix is short or overruns.
pub open spec fn take_field(s: Seq<u8>) -> Option<(Seq<u8>, Seq<u8>)> {
    if s.len() < 8 {
        None
    } else {
        let n = u64_from_be_bytes(s.take(8)) as int;
        if s.len() - 8 < n {
            None
        } else {
            Some((s.subrange(8, 8 + n), s.skip(8 + n)))
        }
    }
}

/// The binary record of an operation.
pub open spec fn spec_encode(op: OperationV) -> Seq<u8> {
    match op {
        OperationV::AddInput(i) => seq![TAG_ADD_INPUT] + field_bytes(i.ptr.txid) + u32_be_bytes(
            i.ptr.index,
        ) + u64_be_bytes(i.value),
        OperationV::RemoveInput(p) => seq![TAG_REMOVE_INPUT] + field_bytes(p.txid) + u32_be_bytes(
            p.index,
        ),
        OperationV::AddOutput(o) => seq![TAG_ADD_OUTPUT] + field_bytes(o.address) + u64_be_bytes(
            o.value,
        ),
        OperationV::RemoveOutput(ix) => seq![TAG_REMOVE_OUTPUT] + u32_be_bytes(ix),
        OperationV::AddChange(c) => seq![TAG_ADD_CHANGE] + field_bytes(c.address) + u64_be_bytes(
            c.value,
        ),
        OperationV::RemoveChange(a) => seq![TAG_REMOVE_CHANGE] + field_bytes(a),
        OperationV::Finalize => seq![TAG_FINALIZE],
        OperationV::Signature(w) => seq![TAG_SIGNATURE] + field_bytes(w),
    }
}

/// Whether an operation's byte-string payloads are small enough for their
/// 64-bit length prefixes; every operation held in an executable value is.
pub open spec fn op_wf(op: OperationV) -> bool {
    match op {
        OperationV::AddInput(i) => i.ptr.txid.len() <= u64::MAX,
        OperationV::RemoveInput(p) => p.txid.len() <= u64::MAX,
        OperationV::AddOutput(o) => o.address.len() <= u64::MAX,
        OperationV::RemoveOutput(_) => true,
        OperationV::AddChange(c) => c.address.len() <= u64::MAX,
        OperationV::RemoveChange(a) => a.len() <= u64::MAX,
        OperationV::Finalize => true,
        OperationV::Signature(w) => w.len() <= u64::MAX,
    }
}

/// The operation a record decodes to, or the reason it is rejected.
pub open spec fn spec_decode(s: Seq<u8>) -> Result<OperationV, ParsingOperationError> {
    if s.len() == 0 {
        Err(ParsingOperationError::EmptyRecord)
    } else {
        let body = s.skip(1);
        if s[0] == TAG_ADD_INPUT {
            match take_field(body) {
                Some((txid, rest)) => if rest.len() == 12 {
                    Ok(
                        OperationV::AddInput(
                            InputV {
                                ptr: TxoPointerV {
                                    txid,
                                    index: u32_from_be_bytes(rest.take(4)),
                                },
                                value: u64_from_be_bytes(rest.skip(4)),
                            },
                        ),
                    )
                } else {
                    Err(ParsingOperationError::MalformedPayload)
                },
                None => Err(ParsingOperationError::MalformedPayload),
            }
        } else if s[0] == TAG_REMOVE_INPUT {
            match take_field(body) {
                Some((txid, rest)) => if rest.len() == 4 {
                    Ok(
                        OperationV::RemoveInput(
                            TxoPointerV { txid, index: u32_from_be_bytes(rest) },
                        ),
                    )
                } else {
                    Err(ParsingOperationError::MalformedPayload)
                },
                None => Err(ParsingOperationError::MalformedPayload),
            }
        } else if s[0] == TAG_ADD_OUTPUT {
            match take_field(body) {
                Some((address, rest)) => if rest.len() == 8 {
                    Ok(OperationV::AddOutput(OutputV { address, value: u64_from_be_bytes(rest) }))
                } else {
                    Err(ParsingOperationError::MalformedPayload)
                },
                None => Err(ParsingOperationError::MalformedPayload),
            }
        } else if s[0] == TAG_REMOVE_OUTPUT {
            if body.len() == 4 {
                Ok(OperationV::RemoveOutput(u32_from_be_bytes(body)))
            } else {
                Err(ParsingOperationError::MalformedPayload)
            }
        } else if s[0] == TAG_ADD_CHANGE {
            match take_field(body) {
                Some((address, rest)) => if rest.len() == 8 {
                    Ok(OperationV::AddChange(ChangeV { address, value: u64_from_be_bytes(rest) }))
                } else {
                    Err(ParsingOperationError::MalformedPayload)
                },
                None => Err(ParsingOperationError::MalformedPayload),
            }
        } else if s[0] == TAG_REMOVE_CHANGE {
            match take_field(body) {
                Some((address, rest)) => if rest.len() == 0 {
                    Ok(OperationV::RemoveChange(address))
                } else {
                    Err(ParsingOperationError::MalformedPayload)
                },
                None => Err(ParsingOperationError::MalformedPayload),
            }
        } else if s[0] == TAG_FINALIZE {
            if body.len() == 0 {
                Ok(OperationV::Finalize)
            } else {
                Err(ParsingOperationError::MalformedPayload)
            }
        } else if s[0] == TAG_SIGNATURE {
            match take_field(body) {
                Some((w, rest)) => if rest.len() == 0 {
                    Ok(OperationV::Signature(w))
                } else {
                    Err(ParsingOperationError::MalformedPayload)
                },
                None => Err(ParsingOperationError::MalformedPayload),
            }
        } else {
            Err(ParsingOperationError::UnknownTag(s[0]))
        }
    }
}

/// A length-prefixed field splits back off exactly as it went in.
proof fn lemma_field_round_trip(b: Seq<u8>, rest: Seq<u8>)
    requires
        b.len() <= u64::MAX,
    ensures
        take_field(field_bytes(b) + rest) == Some((b, rest)),
{
    let s = field_bytes(b) + rest;
    assert(s.take(8) =~= u64_be_bytes(b.len() as u64));
    lemma_u64_be_round_trip(b.len() as u64);
    let n = u64_from_be_bytes(s.take(8)) as int;
    assert(n == b.len());
    assert(s.subrange(8, 8 + n) =~= b);
    assert(s.skip(8 + n) =~= rest);
}

/// Round-trip law of the record codec: every operation decodes back from its
/// own record.
#[verifier::rlimit(60)]
#[verifier::spinoff_prover]
pub proof fn lemma_codec_round_trip(op: OperationV)
    requires
        op_wf(op),
    ensures
        spec_decode(spec_encode(op)) == Ok::<OperationV, ParsingOperationError>(op),
{
    let s = spec_encode(op);
    match op {
        OperationV::AddInput(i) => {
            let tail = u32_be_bytes(i.ptr.index) + u64_be_bytes(i.value);
            assert(s.skip(1) =~= field_bytes(i.ptr.txid) + tail);
            lemma_field_round_trip(i.ptr.txid, tail);
            assert(tail.take(4) =~= u32_be_bytes(i.ptr.index));
            assert(tail.skip(4) =~= u64_be_bytes(i.value));
            lemma_u32_be_round_trip(i.ptr.index);
            lemma_u64_be_round_trip(i.value);
            assert(spec_decode(s) =~= Ok::<OperationV, ParsingOperationError>(op));
        },
        OperationV::RemoveInput(p) => {
            let tail = u32_be_bytes(p.index);
            assert(s.skip(1) =~= field_bytes(p.txid) + tail);
            lemma_field_round_trip(p.txid, tail);
            lemma_u32_be_round_trip(p.index);
            assert(spec_decode(s) =~= Ok::<OperationV, ParsingOperationError>(op));
        },
        OperationV::AddOutput(o) => {
            let tail = u64_be_bytes(o.value);
            assert(s.skip(1) =~= field_bytes(o.address) + tail);
            lemma_field_round_trip(o.address, tail);
            lemma_u64_be_round_trip(o.value);
            assert(spec_decode(s) =~= Ok::<OperationV, ParsingOperationError>(op));
        },
        OperationV::RemoveOutput(ix) => {
            assert(s.skip(1) =~= u32_be_bytes(ix));
            lemma_u32_be_round_trip(ix);
        },
        OperationV::AddChange(c) => {
            let tail = u64_be_bytes(c.value);
            assert(s.skip(1) =~= field_bytes(c.address) + tail);
            lemma_field_round_trip(c.address, tail);
            lemma_u64_be_round_trip(c.value);
            assert(spec_decode(s) =~= Ok::<OperationV, ParsingOperationError>(op));
        },
        OperationV::RemoveChange(a) => {
            assert(s.skip(1) =~= field_bytes(a) + Seq::<u8>::empty());
            lemma_field_round_trip(a, Seq::<u8>::empty());
            assert(spec_decode(s) =~= Ok::<OperationV, ParsingOperationError>(op));
        },
        OperationV::Finalize => {
            assert(s.skip(1) =~= Seq::<u8>::empty());
        },
        OperationV::Signature(w) => {
            assert(s.skip(1) =~= field_bytes(w) + Seq::<u8>::empty());
            lemma_field_round_trip(w, Seq::<u8>::empty());
            assert(spec_decode(s) =~= Ok::<OperationV, ParsingOperationError>(op));
        },
    }
}

impl Operation {
    /// Encodes the operation into its self-describing journal record.
    pub fn serialize(&self) -> (r: Vec<u8>)
        ensures
            r@ == spec_encode(self@),
            op_wf(self@),
    {
        let mut r: Vec<u8> = Vec::new();
        match self {
            Operation::AddInput(i) => {
                r.push(TAG_ADD_INPUT);
                push_u64_be(&mut r, i.ptr.txid.len() as u64);
                push_bytes(&mut r, &i.ptr.txid);
                push_u32_be(&mut r, i.ptr.index);
                push_u64_be(&mut r, i.value);
                assert(r@ =~= spec_encode(self@));
            },
            Operation::RemoveInput(p) => {
                r.push(TAG_REMOVE_INPUT);
                push_u64_be(&mut r, p.txid.len() as u64);
                push_bytes(&mut r, &p.txid);
                push_u32_be(&mut r, p.index);
                assert(r@ =~= spec_encode(self@));
            },
            Operation::AddOutput(o) => {
                r.push(TAG_ADD_OUTPUT);
                push_u64_be(&mut r, o.address.len() as u64);
                push_bytes(&mut r, &o.address);
                push_u64_be(&mut r, o.value);
                assert(r@ =~= spec_encode(self@));
            },
            Operation::RemoveOutput(ix) => {
                r.push(TAG_REMOVE_OUTPUT);
                push_u32_be(&mut r, *ix);
                assert(r@ =~= spec_encode(self@));
            },
            Operation::AddChange(c) => {
                r.push(TAG_ADD_CHANGE);
                push_u64_be(&mut r, c.address.len() as u64);
                push_bytes(&mut r, &c.address);
                push_u64_be(&mut r, c.value);
                assert(r@ =~= spec_encode(self@));
            },
            Operation::RemoveChange(a) => {
                r.push(TAG_REMOVE_CHANGE);
                push_u64_be(&mut r, a.len() as u64);
                push_bytes(&mut r, a);
                assert(r@ =~= spec_encode(self@));
            },
            Operation::Finalize => {
                r.push(TAG_FINALIZE);
                assert(r@ =~= spec_encode(self@));
            },
            Operation::Signature(w) => {
                r.push(TAG_SIGNATURE);
                push_u64_be(&mut r, w.bytes.len() as u64);
                push_bytes(&mut r, &w.bytes);
                assert(r@ =~= spec_encode(self@));
            },
        }
        r
    }

    /// Decodes a journal record, rejecting unknown discriminants, length
    /// prefixes that overrun the record, and leftover bytes.
    pub fn deserialize(bytes: &Vec<u8>) -> (r: Result<Operation, ParsingOperationError>)
        ensures
            spec_decode(bytes@) matches Ok(opv) ==> r matches Ok(op) && op@ == opv,
            spec_decode(bytes@) matches Err(e) ==> r == Err::<Operation, ParsingOperationError>(e),
    {
        let n = bytes.len();
        if n == 0 {
            return Err(ParsingOperationError::EmptyRecord);
        }
        let tag = bytes[0];
        proof {
            assert(bytes@.skip(1).len() == n - 1);
        }
        if tag == TAG_ADD_INPUT {
            match read_field(bytes, 1) {
                Some((txid, pos)) => {
                    if n - pos == 12 {
                        let index = read_u32_be(bytes, pos);
                        let value = read_u64_be(bytes, pos + 4);
                        proof {
                            let (f, rest) = take_field(bytes@.skip(1)).unwrap();
                            assert(rest.take(4) =~= bytes@.subrange(pos as int, pos + 4));
                            assert(rest.skip(4) =~= bytes@.subrange(pos + 4, pos + 12));
                        }
                        Ok(
                            Operation::AddInput(
                                Input { ptr: TxoPointer { txid, index }, value },
                            ),
                        )
                    } else {
                        Err(ParsingOperationError::MalformedPayload)
                    }
                },
                None => Err(ParsingOperationError::MalformedPayload),
            }
        } else if tag == TAG_REMOVE_INPUT {
            match read_field(bytes, 1) {
                Some((txid, pos)) => {
                    if n - pos == 4 {
                        let index = read_u32_be(bytes, pos);
                        proof {
                            let (f, rest) = take_field(bytes@.skip(1)).unwrap();
                            assert(rest =~= bytes@.subrange(pos as int, pos + 4));
                        }
                        Ok(Operation::RemoveInput(TxoPointer { txid, index }))
                    } else {
                        Err(ParsingOperationError::MalformedPayload)
                    }
                },
                None => Err(ParsingOperationError::MalformedPayload),
            }
        } else if tag == TAG_ADD_OUTPUT {
            match read_field(bytes, 1) {
                Some((address, pos)) => {
                    if n - pos == 8 {
                        let value = read_u64_be(bytes, pos);
                        proof {
                            let (f, rest) = take_field(bytes@.skip(1)).unwrap();
                            assert(rest =~= bytes@.subrange(pos as int, pos + 8));
                        }
                        Ok(Operation::AddOutput(Output { address, value }))
                    } else {
                        Err(ParsingOperationError::MalformedPayload)
                    }
                },
                None => Err(ParsingOperationError::MalformedPayload),
            }
        } else if tag == TAG_REMOVE_OUTPUT {
            if n - 1 == 4 {
                let index = read_u32_be(bytes, 1);
                proof {
                    assert(bytes@.skip(1) =~= bytes@.subrange(1, 5));
                }
                Ok(Operation::RemoveOutput(index))
            } else {
                Err(ParsingOperationError::MalformedPayload)
            }
        } else if tag == TAG_ADD_CHANGE {
            match read_field(bytes, 1) {
                Some((address, pos)) => {
                    if n - pos == 8 {
                        let value = read_u64_be(bytes, pos);
                        proof {
                            let (f, rest) = take_field(bytes@.skip(1)).unwrap();
                            assert(rest =~= bytes@.subrange(pos as int, pos + 8));
                        }
                        Ok(Operation::AddChange(Change { address, value }))
                    } else {
                        Err(ParsingOperationError::MalformedPayload)
                    }
                },
                None => Err(ParsingOperationError::MalformedPayload),
            }
        } else if tag == TAG_REMOVE_CHANGE {
            match read_field(bytes, 1) {
                Some((address, pos)) => {
                    if n - pos == 0 {
                        Ok(Operation::RemoveChange(address))
                    } else {
                        Err(ParsingOperationError::MalformedPayload)
                    }
                },
                None => Err(ParsingOperationError::MalformedPayload),
            }
        } else if tag == TAG_FINALIZE {
            if n == 1 {
                Ok(Operation::Finalize)
            } else {
                Err(ParsingOperationError::MalformedPayload)
            }
        } else if tag == TAG_SIGNATURE {
            match read_field(bytes, 1) {
                Some((w, pos)) => {
                    if n - pos == 0 {
                        Ok(Operation::Signature(TxInWitness { bytes: w }))
                    } else {
                        Err(ParsingOperationError::MalformedPayload)
                    }
                },
                None => Err(ParsingOperationError::MalformedPayload),
            }
        } else {
            Err(ParsingOperationError::UnknownTag(tag))
        }
    }
}

/// Reads the length-prefixed byte field at `pos`, yielding the field and the
/// position just past it.
fn read_field(bytes: &Vec<u8>, pos: usize) -> (r: Option<(Vec<u8>, usize)>)
    requires
        pos <= bytes@.len(),
    ensures
        take_field(bytes@.skip(pos as int)) matches Some(fr) ==> r matches Some(vp)
            && vp.0@ == fr.0 && pos + 8 <= vp.1 <= bytes@.len() && bytes@.skip(vp.1 as int)
            == fr.1 && fr.1.len() == bytes@.len() - vp.1,
        take_field(bytes@.skip(pos as int)) is None ==> r is None,
{
    let n = bytes.len();
    let ghost s = bytes@.skip(pos as int);
    if n - pos < 8 {
        return None;
    }
    let len64 = read_u64_be(bytes, pos);
    proof {
        assert(s.take(8) =~= bytes@.subrange(pos as int, pos + 8));
    }
    let remaining = n - pos - 8;
    if len64 > remaining as u64 {
        proof {
            assert(s.len() - 8 < u64_from_be_bytes(s.take(8)) as int);
        }
        return None;
    }
    let flen = len64 as usize;
    let field = copy_range(bytes, pos + 8, pos + 8 + flen);
    let next = pos + 8 + flen;
    proof {
        let m = u64_from_be_bytes(s.take(8)) as int;
        assert(m == len64);
        assert(s.subrange(8, 8 + m) =~= bytes@.subrange(pos + 8, pos + 8 + m));
        assert(s.skip(8 + m) =~= bytes@.skip(next as int));
    }
    Some((field, next))
}

} // verus!
