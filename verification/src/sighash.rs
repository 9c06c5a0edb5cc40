//! The BIP143 segregated-witness signature hash: a deterministic function
//! of the transaction, the input being signed, its script code and the
//! value of the output it spends.

use vstd::prelude::*;
use crate::tx::{Transaction, TxInV, TxV};
use crate::crypto::{sha256d, sha256d_of};
use crate::encode::{
    compact_size, le32, le64, ser_bytes, ser_outpoint, ser_outputs, ser_txout, push_bytes,
    push_u32_le, push_u64_le, push_var_bytes, push_txout,
};
use crate::Error;

verus! {

/// The sighash-type tag committed in every signature here: SIGHASH_ALL.
pub const SIGHASH_ALL: u32 = 1;

/// Every input's outpoint, serialized in input order; its double SHA-256
/// is the preimage's `hash_prevouts` field.
pub open spec fn prevouts_bytes(inputs: Seq<TxInV>) -> Seq<u8> {
    inputs.flat_map(|i: TxInV| ser_outpoint(i.previous_output))
}

/// Every input's sequence number, serialized in input order; its double
/// SHA-256 is the preimage's `hash_sequence` field.
pub open spec fn sequences_bytes(inputs: Seq<TxInV>) -> Seq<u8> {
    inputs.flat_map(|i: TxInV| le32(i.sequence))
}

/// The BIP143 preimage for the input at `idx`: version, hash of all
/// prevouts, hash of all sequences, this input's outpoint, the
/// length-prefixed script code, the spent value, this input's sequence,
/// hash of all outputs, lock time, and the sighash type.
pub open spec fn sighash_preimage_of(t: TxV, idx: int, script_code: Seq<u8>, value: u64) -> Seq<
    u8,
> {
    le32(t.version as u32) + sha256d_of(prevouts_bytes(t.inputs)) + sha256d_of(
        sequences_bytes(t.inputs),
    ) + ser_outpoint(t.inputs[idx].previous_output) + ser_bytes(script_code) + le64(value) + le32(
        t.inputs[idx].sequence,
    ) + sha256d_of(ser_outputs(t.outputs)) + le32(t.lock_time) + le32(SIGHASH_ALL)
}

/// The signature hash: double SHA-256 of the preimage.
pub open spec fn sighash_of(t: TxV, idx: int, script_code: Seq<u8>, value: u64) -> Seq<u8> {
    sha256d_of(sighash_preimage_of(t, idx, script_code, value))
}

/// Computes the BIP143 preimage for one input, or
/// `SighashComputationError` exactly when the index is out of range.
///
/// The preimage's length is fixed except for the length-prefixed script
/// code: 156 bytes plus the prefix and the script code itself.
pub fn sighash_preimage(
    tx: &Transaction,
    input_index: usize,
    script_code: &Vec<u8>,
    value: u64,
) -> (r: Result<Vec<u8>, Error>)
    ensures
        (input_index as int) < tx@.inputs.len() ==> (r matches Ok(p) && p@
            == sighash_preimage_of(tx@, input_index as int, script_code@, value)),
        (input_index as int) < tx@.inputs.len() && tx@.wf() ==> (r matches Ok(p) && p@.len() == 156
            + compact_size(script_code@.len() as u64).len() + script_code@.len()),
        (input_index as int) >= tx@.inputs.len() ==> (r matches Err(e) && e
            == Error::SighashComputationError),
{
    if input_index >= tx.input.len() {
        return Err(Error::SighashComputationError);
    }
    let mut prevouts: Vec<u8> = Vec::new();
    let mut i: usize = 0;
    while i < tx.input.len()
        invariant
            0 <= i <= tx.input.len(),
            prevouts@ == prevouts_bytes(tx@.inputs.take(i as int)),
            tx@.inputs == tx.input@.map_values(|x: crate::tx::TxIn| x@),
            tx@.inputs.len() == tx.input@.len(),
        decreases tx.input.len() - i,
    {
        push_bytes(&mut prevouts, &tx.input[i].previous_output.txid);
        push_u32_le(&mut prevouts, tx.input[i].previous_output.vout);
        proof {
            broadcast use vstd::prelude::Seq::lemma_flat_map_take_append;
            assert(tx@.inputs[i as int] == tx.input@[i as int]@);
        }
        i = i + 1;
    }
    proof {
        assert(tx@.inputs.take(tx@.inputs.len() as int) =~= tx@.inputs);
    }
    let hash_prevouts = sha256d(&prevouts);
    let mut seqs: Vec<u8> = Vec::new();
    let mut j: usize = 0;
    while j < tx.input.len()
        invariant
            0 <= j <= tx.input.len(),
            seqs@ == sequences_bytes(tx@.inputs.take(j as int)),
            tx@.inputs == tx.input@.map_values(|x: crate::tx::TxIn| x@),
            tx@.inputs.len() == tx.input@.len(),
        decreases tx.input.len() - j,
    {
        push_u32_le(&mut seqs, tx.input[j].sequence);
        proof {
            broadcast use vstd::prelude::Seq::lemma_flat_map_take_append;
            assert(tx@.inputs[j as int] == tx.input@[j as int]@);
        }
        j = j + 1;
    }
    proof {
        assert(tx@.inputs.take(tx@.inputs.len() as int) =~= tx@.inputs);
    }
    let hash_sequence = sha256d(&seqs);
    let mut outs: Vec<u8> = Vec::new();
    let mut k: usize = 0;
    while k < tx.output.len()
        invariant
            0 <= k <= tx.output.len(),
            outs@ == ser_outputs(tx@.outputs.take(k as int)),
            tx@.outputs == tx.output@.map_values(|x: crate::tx::TxOut| x@),
            tx@.outputs.len() == tx.output@.len(),
        decreases tx.output.len() - k,
    {
        push_txout(&mut outs, &tx.output[k]);
        proof {
            broadcast use vstd::prelude::Seq::lemma_flat_map_take_append;
            assert(tx@.outputs[k as int] == tx.output@[k as int]@);
        }
        k = k + 1;
    }
    proof {
        assert(tx@.outputs.take(tx@.outputs.len() as int) =~= tx@.outputs);
    }
    let hash_outputs = sha256d(&outs);
    let mut p: Vec<u8> = Vec::new();
    push_u32_le(&mut p, tx.version as u32);
    push_bytes(&mut p, &hash_prevouts);
    push_bytes(&mut p, &hash_sequence);
    push_bytes(&mut p, &tx.input[input_index].previous_output.txid);
    push_u32_le(&mut p, tx.input[input_index].previous_output.vout);
    push_var_bytes(&mut p, script_code);
    push_u64_le(&mut p, value);
    push_u32_le(&mut p, tx.input[input_index].sequence);
    push_bytes(&mut p, &hash_outputs);
    push_u32_le(&mut p, tx.lock_time);
    push_u32_le(&mut p, SIGHASH_ALL);
    proof {
        assert(tx@.inputs[input_index as int] == tx.input@[input_index as int]@);
        assert(p@ =~= sighash_preimage_of(tx@, input_index as int, script_code@, value));
        assert(sha256d_of(prevouts_bytes(tx@.inputs)).len() == 32);
        assert(sha256d_of(sequences_bytes(tx@.inputs)).len() == 32);
        assert(sha256d_of(ser_outputs(tx@.outputs)).len() == 32);
        assert(tx@.inputs[input_index as int].previous_output.txid
            == tx.input@[input_index as int].previous_output.txid@);
        assert(ser_bytes(script_code@).len() == compact_size(script_code@.len() as u64).len()
            + script_code@.len());
        if tx@.wf() {
            assert(tx@.inputs[input_index as int].wf());
        }
    }
    Ok(p)
}

/// Computes the BIP143 signature hash (32 bytes) for one input, or
/// `SighashComputationError` exactly when the index is out of range.
pub fn segwit_sighash(
    tx: &Transaction,
    input_index: usize,
    script_code: &Vec<u8>,
    value: u64,
) -> (r: Result<Vec<u8>, Error>)
    ensures
        (input_index as int) < tx@.inputs.len() ==> (r matches Ok(h) && h@
            == sighash_of(tx@, input_index as int, script_code@, value) && h@.len() == 32),
        (input_index as int) >= tx@.inputs.len() ==> (r matches Err(e) && e
            == Error::SighashComputationError),
{
    let p = match sighash_preimage(tx, input_index, script_code, value) {
        Ok(p) => p,
        Err(e) => {
            return Err(e);
        },
    };
    Ok(sha256d(&p))
}

} // verus!
